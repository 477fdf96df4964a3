//! An asset together with the account that issues it.
//!
//! Every combining operation first insists that the two issuing contracts
//! are identical, and then delegates to the corresponding checked [`Asset`]
//! operation, which enforces the symbol and range rules.

use vstd::prelude::*;
use vstd::string::StringExecFns;

use crate::arith::trunc_div;
use crate::asset::amount_in_range;
use crate::asset::asset_amount_of_text;
use crate::asset::asset_symbol_of_text;
use crate::asset::asset_text;
use crate::asset::strip_dots;
use crate::asset::valid_asset_text;
use crate::asset::Asset;
use crate::asset::AssetError;
use crate::errors::ParseError;
use crate::extended_symbol::ExtendedSymbol;
use crate::name::name_text;
use crate::name::name_value_of_text;
use crate::name::valid_name_text;
use crate::name::Name;
use crate::symbol::symbol_code_part;
use crate::symbol::symbol_precision_part;
use crate::symbol_code::valid_code_value;
use crate::text::char_count;
use crate::text::char_pos;
use crate::text::split_two;

verus! {

/// A quantity qualified by the contract account that issues its currency.
#[derive(Debug, Copy, Clone, PartialEq, Eq, PartialOrd, Ord, Structural)]
pub struct ExtendedAsset {
    /// The quantity.
    pub quantity: Asset,
    /// The issuing contract account.
    pub contract: Name,
}

impl ExtendedAsset {
    /// The empty extended asset.
    pub fn new() -> (r: ExtendedAsset)
        ensures
            r.quantity.amount == 0,
            r.quantity.symbol.value == 0,
            r.contract.value == 0,
    {
        ExtendedAsset { quantity: Asset::new(), contract: Name::new() }
    }

    /// Pairs a quantity with its issuing contract.
    pub fn from_asset(quantity: Asset, contract: Name) -> (r: ExtendedAsset)
        ensures
            r.quantity == quantity,
            r.contract == contract,
    {
        ExtendedAsset { quantity, contract }
    }

    /// An extended asset of the given amount and extended symbol.
    pub fn from_amount(amount: i64, extended_symbol: ExtendedSymbol) -> (r: ExtendedAsset)
        ensures
            r.quantity.amount == amount,
            r.quantity.symbol == extended_symbol.sym,
            r.contract == extended_symbol.contract,
    {
        ExtendedAsset {
            quantity: Asset::from_amount(amount, extended_symbol.get_symbol()),
            contract: extended_symbol.get_contract(),
        }
    }

    /// The extended symbol of the asset.
    pub fn get_extended_symbol(&self) -> (r: ExtendedSymbol)
        ensures
            r.sym == self.quantity.symbol,
            r.contract == self.contract,
    {
        ExtendedSymbol::from_extended(self.quantity.symbol, self.contract)
    }

    /// Whether the extended asset is valid: a valid quantity and a
    /// nonempty contract.
    pub fn is_valid(&self) -> (r: bool)
        ensures
            r == (amount_in_range(self.quantity.amount as int) && valid_code_value(
                symbol_code_part(self.quantity.symbol.value),
            ) && self.contract.value != 0),
    {
        self.quantity.is_valid() && self.contract.raw() != 0
    }

    /// The extended asset with the amount negated.
    pub fn neg(self) -> (r: ExtendedAsset)
        requires
            self.quantity.amount != i64::MIN,
        ensures
            r.quantity.amount == -self.quantity.amount,
            r.quantity.symbol == self.quantity.symbol,
            r.contract == self.contract,
    {
        ExtendedAsset { quantity: self.quantity.neg(), contract: self.contract }
    }

    /// Adds two extended assets, refusing a contract mismatch before the
    /// quantity rules apply.
    pub fn checked_add(self, other: ExtendedAsset) -> (r: Result<ExtendedAsset, AssetError>)
        ensures
            match r {
                Ok(c) => {
                    &&& self.contract == other.contract
                    &&& self.quantity.symbol == other.quantity.symbol
                    &&& amount_in_range(self.quantity.amount + other.quantity.amount)
                    &&& c.quantity.amount == self.quantity.amount + other.quantity.amount
                    &&& c.quantity.symbol == self.quantity.symbol
                    &&& c.contract == self.contract
                },
                Err(AssetError::DifferentContracts) => self.contract != other.contract,
                Err(AssetError::DifferentSymbols) => self.contract == other.contract
                    && self.quantity.symbol != other.quantity.symbol,
                Err(AssetError::Underflow) => self.contract == other.contract
                    && self.quantity.symbol == other.quantity.symbol && self.quantity.amount
                    + other.quantity.amount < -0x3FFF_FFFF_FFFF_FFFF,
                Err(AssetError::Overflow) => self.contract == other.contract
                    && self.quantity.symbol == other.quantity.symbol && self.quantity.amount
                    + other.quantity.amount > 0x3FFF_FFFF_FFFF_FFFF,
                _ => false,
            },
    {
        if self.contract.raw() != other.contract.raw() {
            return Err(AssetError::DifferentContracts);
        }
        match self.quantity.checked_add(other.quantity) {
            Ok(q) => Ok(ExtendedAsset { quantity: q, contract: self.contract }),
            Err(e) => Err(e),
        }
    }

    /// Subtracts an extended asset, refusing a contract mismatch before
    /// the quantity rules apply.
    pub fn checked_sub(self, other: ExtendedAsset) -> (r: Result<ExtendedAsset, AssetError>)
        ensures
            match r {
                Ok(c) => {
                    &&& self.contract == other.contract
                    &&& self.quantity.symbol == other.quantity.symbol
                    &&& amount_in_range(self.quantity.amount - other.quantity.amount)
                    &&& c.quantity.amount == self.quantity.amount - other.quantity.amount
                    &&& c.quantity.symbol == self.quantity.symbol
                    &&& c.contract == self.contract
                },
                Err(AssetError::DifferentContracts) => self.contract != other.contract,
                Err(AssetError::DifferentSymbols) => self.contract == other.contract
                    && self.quantity.symbol != other.quantity.symbol,
                Err(AssetError::Underflow) => self.contract == other.contract
                    && self.quantity.symbol == other.quantity.symbol && self.quantity.amount
                    - other.quantity.amount < -0x3FFF_FFFF_FFFF_FFFF,
                Err(AssetError::Overflow) => self.contract == other.contract
                    && self.quantity.symbol == other.quantity.symbol && self.quantity.amount
                    - other.quantity.amount > 0x3FFF_FFFF_FFFF_FFFF,
                _ => false,
            },
    {
        if self.contract.raw() != other.contract.raw() {
            return Err(AssetError::DifferentContracts);
        }
        match self.quantity.checked_sub(other.quantity) {
            Ok(q) => Ok(ExtendedAsset { quantity: q, contract: self.contract }),
            Err(e) => Err(e),
        }
    }

    /// Multiplies the amount by a scalar, the contract untouched.
    pub fn checked_mul(self, b: i64) -> (r: Result<ExtendedAsset, AssetError>)
        ensures
            match r {
                Ok(c) => {
                    &&& amount_in_range(self.quantity.amount * b)
                    &&& c.quantity.amount == self.quantity.amount * b
                    &&& c.quantity.symbol == self.quantity.symbol
                    &&& c.contract == self.contract
                },
                Err(AssetError::Overflow) => self.quantity.amount * b > 0x3FFF_FFFF_FFFF_FFFF,
                Err(AssetError::Underflow) => self.quantity.amount * b < -0x3FFF_FFFF_FFFF_FFFF,
                _ => false,
            },
    {
        match self.quantity.checked_mul(b) {
            Ok(q) => Ok(ExtendedAsset { quantity: q, contract: self.contract }),
            Err(e) => Err(e),
        }
    }

    /// Divides the amount by a scalar, the contract untouched.
    pub fn checked_div(self, b: i64) -> (r: Result<ExtendedAsset, AssetError>)
        ensures
            match r {
                Ok(c) => {
                    &&& b != 0
                    &&& !(self.quantity.amount == i64::MIN && b == -1)
                    &&& c.quantity.amount == trunc_div(self.quantity.amount as int, b as int)
                    &&& c.quantity.symbol == self.quantity.symbol
                    &&& c.contract == self.contract
                },
                Err(AssetError::DivideByZero) => b == 0,
                Err(AssetError::SignedDivisionOverflow) => self.quantity.amount == i64::MIN && b
                    == -1,
                _ => false,
            },
    {
        match self.quantity.checked_div(b) {
            Ok(q) => Ok(ExtendedAsset { quantity: q, contract: self.contract }),
            Err(e) => Err(e),
        }
    }

    /// Divides one extended asset by another, refusing a contract mismatch
    /// before the quantity rules apply.
    pub fn checked_div_by(self, other: ExtendedAsset) -> (r: Result<i64, AssetError>)
        requires
            !(self.quantity.amount == i64::MIN && other.quantity.amount == -1),
        ensures
            match r {
                Ok(q) => {
                    &&& self.contract == other.contract
                    &&& other.quantity.amount != 0
                    &&& self.quantity.symbol == other.quantity.symbol
                    &&& q as int == trunc_div(
                        self.quantity.amount as int,
                        other.quantity.amount as int,
                    )
                },
                Err(AssetError::DifferentContracts) => self.contract != other.contract,
                Err(AssetError::DivideByZero) => self.contract == other.contract
                    && other.quantity.amount == 0,
                Err(AssetError::DifferentSymbols) => self.contract == other.contract
                    && other.quantity.amount != 0 && self.quantity.symbol != other.quantity.symbol,
                _ => false,
            },
    {
        if self.contract.raw() != other.contract.raw() {
            return Err(AssetError::DifferentContracts);
        }
        self.quantity.checked_div_by(other.quantity)
    }

    /// Compares two extended assets of the same contract and symbol by
    /// amount, refusing a contract mismatch before the symbol rule.
    pub fn checked_cmp(self, other: ExtendedAsset) -> (r: Result<
        core::cmp::Ordering,
        AssetError,
    >)
        ensures
            match r {
                Ok(o) => {
                    &&& self.contract == other.contract
                    &&& self.quantity.symbol == other.quantity.symbol
                    &&& (o is Less <==> self.quantity.amount < other.quantity.amount)
                    &&& (o is Equal <==> self.quantity.amount == other.quantity.amount)
                    &&& (o is Greater <==> self.quantity.amount > other.quantity.amount)
                },
                Err(AssetError::DifferentContracts) => self.contract != other.contract,
                Err(AssetError::DifferentSymbols) => self.contract == other.contract
                    && self.quantity.symbol != other.quantity.symbol,
                _ => false,
            },
    {
        if self.contract.raw() != other.contract.raw() {
            return Err(AssetError::DifferentContracts);
        }
        self.quantity.checked_cmp(other.quantity)
    }

    /// Parses an extended asset from the form `amount CODE@contract`.
    pub fn parse(s: &str) -> (r: Result<ExtendedAsset, ParseError>)
        ensures
            (char_count(s@, '@') == 1 && valid_asset_text(s@.take(char_pos(s@, '@')))
                && valid_name_text(s@.skip(char_pos(s@, '@') + 1))) <==> r is Ok,
            r is Ok ==> r->Ok_0.quantity.amount as int == asset_amount_of_text(
                s@.take(char_pos(s@, '@')),
            ) && r->Ok_0.quantity.symbol.value == asset_symbol_of_text(s@.take(char_pos(s@, '@')))
                && r->Ok_0.contract.value == name_value_of_text(s@.skip(char_pos(s@, '@') + 1)),
            r is Err ==> match r->Err_0 {
                ParseError::BadFormat => char_count(s@, '@') != 1,
                ParseError::BadAsset(t) => char_count(s@, '@') == 1 && t@ == s@.take(
                    char_pos(s@, '@'),
                ) && char_count(t@, ' ') != 1,
                ParseError::BadAmount(t) => char_count(s@, '@') == 1 && {
                    let a = s@.take(char_pos(s@, '@'));
                    &&& char_count(a, ' ') == 1
                    &&& t@ == a.take(char_pos(a, ' '))
                    &&& !crate::decimal::valid_signed_text(strip_dots(t@))
                },
                ParseError::BadSymbolCode(t) => char_count(s@, '@') == 1 && {
                    let a = s@.take(char_pos(s@, '@'));
                    &&& char_count(a, ' ') == 1
                    &&& t@ == a.skip(char_pos(a, ' ') + 1)
                    &&& crate::decimal::valid_signed_text(strip_dots(a.take(char_pos(a, ' '))))
                    &&& !crate::symbol_code::valid_code_text(t@)
                },
                ParseError::BadName(t) => char_count(s@, '@') == 1 && t@ == s@.skip(
                    char_pos(s@, '@') + 1,
                ) && valid_asset_text(s@.take(char_pos(s@, '@'))) && !valid_name_text(t@),
                _ => false,
            },
    {
        let parts = match split_two(s, '@') {
            Some(parts) => parts,
            None => {
                return Err(ParseError::BadFormat);
            },
        };
        let quantity = match Asset::parse(parts.0) {
            Ok(a) => a,
            Err(e) => {
                return Err(e);
            },
        };
        let contract = match Name::parse(parts.1) {
            Ok(n) => n,
            Err(e) => {
                return Err(e);
            },
        };
        Ok(ExtendedAsset::from_asset(quantity, contract))
    }

    /// The string form of the extended asset: `amount CODE@contract`.
    pub fn to_string(&self) -> (r: String)
        requires
            symbol_precision_part(self.quantity.symbol.value) <= 18,
        ensures
            r@ == asset_text(self.quantity.amount, self.quantity.symbol.value).push('@')
                + name_text(self.contract.value),
    {
        let a = self.quantity.to_string();
        let b = self.contract.to_string();
        let r = a.concat("@").concat(b.as_str());
        proof {
            reveal_strlit("@");
            assert(r@ =~= asset_text(self.quantity.amount, self.quantity.symbol.value).push('@')
                + name_text(self.contract.value));
        }
        r
    }
}

// ---------------------------------------------------------------------------
// Operators, for callers that have established the checks themselves.
// ---------------------------------------------------------------------------

impl core::ops::Neg for ExtendedAsset {
    type Output = ExtendedAsset;

    /// The extended asset with the amount negated.
    fn neg(self) -> (r: ExtendedAsset) {
        ExtendedAsset {
            quantity: Asset { amount: -self.quantity.amount, symbol: self.quantity.symbol },
            contract: self.contract,
        }
    }
}

impl vstd::std_specs::ops::NegSpecImpl for ExtendedAsset {
    open spec fn obeys_neg_spec() -> bool {
        true
    }

    open spec fn neg_req(self) -> bool {
        self.quantity.amount != i64::MIN
    }

    open spec fn neg_spec(self) -> ExtendedAsset {
        ExtendedAsset {
            quantity: Asset {
                amount: (-self.quantity.amount) as i64,
                symbol: self.quantity.symbol,
            },
            contract: self.contract,
        }
    }
}

impl core::ops::Add<ExtendedAsset> for ExtendedAsset {
    type Output = ExtendedAsset;

    /// The sum of two extended assets of one contract and symbol, which
    /// must stay in range.
    fn add(self, other: ExtendedAsset) -> (r: ExtendedAsset) {
        ExtendedAsset {
            quantity: Asset {
                amount: self.quantity.amount + other.quantity.amount,
                symbol: self.quantity.symbol,
            },
            contract: self.contract,
        }
    }
}

impl vstd::std_specs::ops::AddSpecImpl<ExtendedAsset> for ExtendedAsset {
    open spec fn obeys_add_spec() -> bool {
        true
    }

    open spec fn add_req(self, other: ExtendedAsset) -> bool {
        self.contract == other.contract && self.quantity.symbol == other.quantity.symbol
            && amount_in_range(self.quantity.amount + other.quantity.amount)
    }

    open spec fn add_spec(self, other: ExtendedAsset) -> ExtendedAsset {
        ExtendedAsset {
            quantity: Asset {
                amount: (self.quantity.amount + other.quantity.amount) as i64,
                symbol: self.quantity.symbol,
            },
            contract: self.contract,
        }
    }
}

impl core::ops::Sub<ExtendedAsset> for ExtendedAsset {
    type Output = ExtendedAsset;

    /// The difference of two extended assets of one contract and symbol,
    /// which must stay in range.
    fn sub(self, other: ExtendedAsset) -> (r: ExtendedAsset) {
        ExtendedAsset {
            quantity: Asset {
                amount: self.quantity.amount - other.quantity.amount,
                symbol: self.quantity.symbol,
            },
            contract: self.contract,
        }
    }
}

impl vstd::std_specs::ops::SubSpecImpl<ExtendedAsset> for ExtendedAsset {
    open spec fn obeys_sub_spec() -> bool {
        true
    }

    open spec fn sub_req(self, other: ExtendedAsset) -> bool {
        self.contract == other.contract && self.quantity.symbol == other.quantity.symbol
            && amount_in_range(self.quantity.amount - other.quantity.amount)
    }

    open spec fn sub_spec(self, other: ExtendedAsset) -> ExtendedAsset {
        ExtendedAsset {
            quantity: Asset {
                amount: (self.quantity.amount - other.quantity.amount) as i64,
                symbol: self.quantity.symbol,
            },
            contract: self.contract,
        }
    }
}

impl core::ops::Mul<i64> for ExtendedAsset {
    type Output = ExtendedAsset;

    /// The extended asset scaled by an integer, which must stay in range.
    fn mul(self, b: i64) -> (r: ExtendedAsset) {
        ExtendedAsset {
            quantity: Asset { amount: self.quantity.amount * b, symbol: self.quantity.symbol },
            contract: self.contract,
        }
    }
}

impl vstd::std_specs::ops::MulSpecImpl<i64> for ExtendedAsset {
    open spec fn obeys_mul_spec() -> bool {
        true
    }

    open spec fn mul_req(self, b: i64) -> bool {
        amount_in_range(self.quantity.amount * b)
    }

    open spec fn mul_spec(self, b: i64) -> ExtendedAsset {
        ExtendedAsset {
            quantity: Asset {
                amount: (self.quantity.amount * b) as i64,
                symbol: self.quantity.symbol,
            },
            contract: self.contract,
        }
    }
}

impl core::ops::Div<i64> for ExtendedAsset {
    type Output = ExtendedAsset;

    /// The extended asset divided by a nonzero integer, truncating toward
    /// zero.
    fn div(self, b: i64) -> (r: ExtendedAsset) {
        ExtendedAsset {
            quantity: Asset {
                amount: crate::arith::div_trunc_i64(self.quantity.amount, b),
                symbol: self.quantity.symbol,
            },
            contract: self.contract,
        }
    }
}

impl vstd::std_specs::ops::DivSpecImpl<i64> for ExtendedAsset {
    open spec fn obeys_div_spec() -> bool {
        true
    }

    open spec fn div_req(self, b: i64) -> bool {
        b != 0 && !(self.quantity.amount == i64::MIN && b == -1)
    }

    open spec fn div_spec(self, b: i64) -> ExtendedAsset {
        ExtendedAsset {
            quantity: Asset {
                amount: trunc_div(self.quantity.amount as int, b as int) as i64,
                symbol: self.quantity.symbol,
            },
            contract: self.contract,
        }
    }
}

impl core::ops::Div<ExtendedAsset> for ExtendedAsset {
    type Output = i64;

    /// The bare quotient of two extended assets of one contract and
    /// symbol, truncating toward zero.
    fn div(self, b: ExtendedAsset) -> (r: i64) {
        crate::arith::div_trunc_i64(self.quantity.amount, b.quantity.amount)
    }
}

impl vstd::std_specs::ops::DivSpecImpl<ExtendedAsset> for ExtendedAsset {
    open spec fn obeys_div_spec() -> bool {
        true
    }

    open spec fn div_req(self, b: ExtendedAsset) -> bool {
        b.quantity.amount != 0 && self.contract == b.contract && self.quantity.symbol
            == b.quantity.symbol && !(self.quantity.amount == i64::MIN && b.quantity.amount == -1)
    }

    open spec fn div_spec(self, b: ExtendedAsset) -> i64 {
        trunc_div(self.quantity.amount as int, b.quantity.amount as int) as i64
    }
}

impl Default for ExtendedAsset {
    /// The empty extended asset.
    fn default() -> (r: ExtendedAsset)
        ensures
            r.quantity.amount == 0,
            r.quantity.symbol.value == 0,
            r.contract.value == 0,
    {
        ExtendedAsset { quantity: Asset::new(), contract: Name::new() }
    }
}

} // verus!
