//! Signed fixed-point currency quantities bound to a [`Symbol`].
//!
//! An asset pairs a signed 64-bit `amount`, whose magnitude must stay
//! within [`Asset::MAX_AMOUNT`] (`2^62 - 1`), with the symbol naming its
//! currency and precision.  Every combining operation insists that the two
//! symbols are identical — code and precision — and every arithmetic step
//! re-checks the magnitude bound, reporting overflow and underflow
//! distinctly.

use vstd::math::abs;
use vstd::prelude::*;

use crate::arith::abs_u64;
use crate::arith::div_trunc_i64;
use crate::arith::trunc_div;

use crate::decimal::all_digits;
use crate::decimal::dec_digits;
use crate::decimal::dec_digits_padded;
use crate::decimal::dec_value;
use crate::decimal::is_digit_char;
use crate::decimal::lemma_dec_digits_len;
use crate::decimal::push_dec_digits;
use crate::errors::ParseError;
use crate::symbol::symbol_code_part;
use crate::symbol::symbol_compose;
use crate::symbol::symbol_precision_part;
use crate::symbol::Symbol;
use crate::symbol_code::code_text;
use crate::symbol_code::code_value_of_text;
use crate::symbol_code::valid_code_text;
use crate::symbol_code::valid_code_value;
use crate::symbol_code::SymbolCode;
use crate::text::char_count;
use crate::text::char_pos;
use crate::text::chars_to_string;
use crate::text::split_two;

verus! {

// ---------------------------------------------------------------------------
// The asset type.
// ---------------------------------------------------------------------------

/// Why an asset operation was refused.
#[derive(Debug, Copy, Clone, PartialEq, Eq, Structural)]
pub enum AssetError {
    /// The two operands carry different symbols (code or precision).
    DifferentSymbols,
    /// The resulting amount would exceed `Asset::MAX_AMOUNT`.
    Overflow,
    /// The resulting amount would fall below `-Asset::MAX_AMOUNT`.
    Underflow,
    /// The divisor was zero.
    DivideByZero,
    /// The one signed division whose quotient has no representation.
    SignedDivisionOverflow,
    /// The two extended operands name different issuing contracts.
    DifferentContracts,
}

/// A signed fixed-point quantity of one currency.
#[derive(Debug, Copy, Clone, PartialEq, Eq, PartialOrd, Ord, Structural)]
pub struct Asset {
    /// The amount, in units of `10^-precision` of the currency.
    pub amount: i64,
    /// The currency and precision the amount is denominated in.
    pub symbol: Symbol,
}

/// Whether `amount` stays within the magnitude bound of an asset.
pub open spec fn amount_in_range(amount: int) -> bool {
    -0x3FFF_FFFF_FFFF_FFFF <= amount <= 0x3FFF_FFFF_FFFF_FFFF
}

impl Asset {
    /// The largest magnitude an asset amount may take: `2^62 - 1`.
    pub const MAX_AMOUNT: i64 = 0x3FFF_FFFF_FFFF_FFFF;

    /// The zero asset with the empty symbol.
    pub fn new() -> (r: Asset)
        ensures
            r.amount == 0,
            r.symbol.value == 0,
    {
        Asset { amount: 0, symbol: Symbol::new() }
    }

    /// An asset of the given amount and symbol, unvalidated.
    pub fn from_amount(amount: i64, symbol: Symbol) -> (r: Asset)
        ensures
            r.amount == amount,
            r.symbol == symbol,
    {
        Asset { amount, symbol }
    }

    /// Whether the amount's magnitude stays within `MAX_AMOUNT`.
    pub fn is_amount_within_range(&self) -> (r: bool)
        ensures
            r == amount_in_range(self.amount as int),
    {
        -Asset::MAX_AMOUNT <= self.amount && self.amount <= Asset::MAX_AMOUNT
    }

    /// Whether the asset is valid: amount in range and symbol code valid.
    pub fn is_valid(&self) -> (r: bool)
        ensures
            r == (amount_in_range(self.amount as int) && valid_code_value(
                symbol_code_part(self.symbol.value),
            )),
    {
        self.is_amount_within_range() && self.symbol.is_valid()
    }

    /// Replaces the amount, which must stay within range.
    pub fn set_amount(&mut self, amount: i64)
        requires
            amount_in_range(amount as int),
        ensures
            final(self).amount == amount,
            final(self).symbol == old(self).symbol,
    {
        self.amount = amount;
    }

    /// The asset with the amount negated; the bound is symmetric, so no
    /// range check is needed for amounts in range.
    pub fn neg(self) -> (r: Asset)
        requires
            self.amount != i64::MIN,
        ensures
            r.amount == -self.amount,
            r.symbol == self.symbol,
    {
        Asset { amount: -self.amount, symbol: self.symbol }
    }

    /// Adds two assets of the same symbol, refusing a symbol mismatch and
    /// a result out of range — below the bound first, above it second.
    pub fn checked_add(self, other: Asset) -> (r: Result<Asset, AssetError>)
        ensures
            match r {
                Ok(c) => {
                    &&& self.symbol == other.symbol
                    &&& amount_in_range(self.amount + other.amount)
                    &&& c.amount == self.amount + other.amount
                    &&& c.symbol == self.symbol
                },
                Err(AssetError::DifferentSymbols) => self.symbol != other.symbol,
                Err(AssetError::Underflow) => self.symbol == other.symbol && self.amount
                    + other.amount < -0x3FFF_FFFF_FFFF_FFFF,
                Err(AssetError::Overflow) => self.symbol == other.symbol && self.amount
                    + other.amount > 0x3FFF_FFFF_FFFF_FFFF,
                _ => false,
            },
    {
        if self.symbol.raw() != other.symbol.raw() {
            return Err(AssetError::DifferentSymbols);
        }
        let sum = (self.amount as i128) + (other.amount as i128);
        if sum < -0x3FFF_FFFF_FFFF_FFFFi128 {
            Err(AssetError::Underflow)
        } else if sum > 0x3FFF_FFFF_FFFF_FFFFi128 {
            Err(AssetError::Overflow)
        } else {
            Ok(Asset { amount: sum as i64, symbol: self.symbol })
        }
    }

    /// Subtracts an asset of the same symbol, refusing a symbol mismatch
    /// and a result out of range — below the bound first, above it second.
    pub fn checked_sub(self, other: Asset) -> (r: Result<Asset, AssetError>)
        ensures
            match r {
                Ok(c) => {
                    &&& self.symbol == other.symbol
                    &&& amount_in_range(self.amount - other.amount)
                    &&& c.amount == self.amount - other.amount
                    &&& c.symbol == self.symbol
                },
                Err(AssetError::DifferentSymbols) => self.symbol != other.symbol,
                Err(AssetError::Underflow) => self.symbol == other.symbol && self.amount
                    - other.amount < -0x3FFF_FFFF_FFFF_FFFF,
                Err(AssetError::Overflow) => self.symbol == other.symbol && self.amount
                    - other.amount > 0x3FFF_FFFF_FFFF_FFFF,
                _ => false,
            },
    {
        if self.symbol.raw() != other.symbol.raw() {
            return Err(AssetError::DifferentSymbols);
        }
        let diff = (self.amount as i128) - (other.amount as i128);
        if diff < -0x3FFF_FFFF_FFFF_FFFFi128 {
            Err(AssetError::Underflow)
        } else if diff > 0x3FFF_FFFF_FFFF_FFFFi128 {
            Err(AssetError::Overflow)
        } else {
            Ok(Asset { amount: diff as i64, symbol: self.symbol })
        }
    }

    /// Multiplies the amount by a scalar, detecting overflow on the widened
    /// product before any truncation — above the bound first, below it
    /// second.
    pub fn checked_mul(self, b: i64) -> (r: Result<Asset, AssetError>)
        ensures
            match r {
                Ok(c) => {
                    &&& amount_in_range(self.amount * b)
                    &&& c.amount == self.amount * b
                    &&& c.symbol == self.symbol
                },
                Err(AssetError::Overflow) => self.amount * b > 0x3FFF_FFFF_FFFF_FFFF,
                Err(AssetError::Underflow) => self.amount * b < -0x3FFF_FFFF_FFFF_FFFF,
                _ => false,
            },
    {
        let x = self.amount as i128;
        let y = b as i128;
        proof {
            assert(-0x4000_0000_0000_0000_0000_0000_0000_0000 <= x * y
                <= 0x4000_0000_0000_0000_0000_0000_0000_0000) by (nonlinear_arith)
                requires
                    -0x8000_0000_0000_0000 <= x <= 0x7FFF_FFFF_FFFF_FFFF,
                    -0x8000_0000_0000_0000 <= y <= 0x7FFF_FFFF_FFFF_FFFF,
            ;
        }
        let tmp = x * y;
        if tmp > 0x3FFF_FFFF_FFFF_FFFFi128 {
            Err(AssetError::Overflow)
        } else if tmp < -0x3FFF_FFFF_FFFF_FFFFi128 {
            Err(AssetError::Underflow)
        } else {
            Ok(Asset { amount: tmp as i64, symbol: self.symbol })
        }
    }

    /// Divides the amount by a scalar, truncating toward zero; refuses a
    /// zero divisor and the one quotient with no representation.
    pub fn checked_div(self, b: i64) -> (r: Result<Asset, AssetError>)
        ensures
            match r {
                Ok(c) => {
                    &&& b != 0
                    &&& !(self.amount == i64::MIN && b == -1)
                    &&& c.amount == trunc_div(self.amount as int, b as int)
                    &&& c.symbol == self.symbol
                },
                Err(AssetError::DivideByZero) => b == 0,
                Err(AssetError::SignedDivisionOverflow) => self.amount == i64::MIN && b == -1,
                _ => false,
            },
    {
        if b == 0 {
            return Err(AssetError::DivideByZero);
        }
        if self.amount == i64::MIN && b == -1 {
            return Err(AssetError::SignedDivisionOverflow);
        }
        Ok(Asset { amount: div_trunc_i64(self.amount, b), symbol: self.symbol })
    }

    /// Divides one asset by another of the same symbol, yielding the bare
    /// quotient of the amounts; refuses a zero divisor first and a symbol
    /// mismatch second.
    pub fn checked_div_by(self, b: Asset) -> (r: Result<i64, AssetError>)
        requires
            !(self.amount == i64::MIN && b.amount == -1),
        ensures
            match r {
                Ok(q) => {
                    &&& b.amount != 0
                    &&& self.symbol == b.symbol
                    &&& q as int == trunc_div(self.amount as int, b.amount as int)
                },
                Err(AssetError::DivideByZero) => b.amount == 0,
                Err(AssetError::DifferentSymbols) => b.amount != 0 && self.symbol != b.symbol,
                _ => false,
            },
    {
        if b.amount == 0 {
            return Err(AssetError::DivideByZero);
        }
        if self.symbol.raw() != b.symbol.raw() {
            return Err(AssetError::DifferentSymbols);
        }
        Ok(div_trunc_i64(self.amount, b.amount))
    }

    /// Compares two assets of the same symbol by amount, refusing a symbol
    /// mismatch.
    pub fn checked_cmp(self, other: Asset) -> (r: Result<core::cmp::Ordering, AssetError>)
        ensures
            match r {
                Ok(o) => {
                    &&& self.symbol == other.symbol
                    &&& (o is Less <==> self.amount < other.amount)
                    &&& (o is Equal <==> self.amount == other.amount)
                    &&& (o is Greater <==> self.amount > other.amount)
                },
                Err(AssetError::DifferentSymbols) => self.symbol != other.symbol,
                _ => false,
            },
    {
        if self.symbol.raw() != other.symbol.raw() {
            return Err(AssetError::DifferentSymbols);
        }
        if self.amount < other.amount {
            Ok(core::cmp::Ordering::Less)
        } else if self.amount == other.amount {
            Ok(core::cmp::Ordering::Equal)
        } else {
            Ok(core::cmp::Ordering::Greater)
        }
    }
}

// ---------------------------------------------------------------------------
// Operators, for callers that have established the checks themselves.
// ---------------------------------------------------------------------------

impl core::ops::Neg for Asset {
    type Output = Asset;

    /// The asset with the amount negated.
    fn neg(self) -> (r: Asset) {
        Asset { amount: -self.amount, symbol: self.symbol }
    }
}

impl vstd::std_specs::ops::NegSpecImpl for Asset {
    open spec fn obeys_neg_spec() -> bool {
        true
    }

    open spec fn neg_req(self) -> bool {
        self.amount != i64::MIN
    }

    open spec fn neg_spec(self) -> Asset {
        Asset { amount: (-self.amount) as i64, symbol: self.symbol }
    }
}

impl core::ops::Add<Asset> for Asset {
    type Output = Asset;

    /// The sum of two assets of one symbol, which must stay in range.
    fn add(self, other: Asset) -> (r: Asset) {
        Asset { amount: self.amount + other.amount, symbol: self.symbol }
    }
}

impl vstd::std_specs::ops::AddSpecImpl<Asset> for Asset {
    open spec fn obeys_add_spec() -> bool {
        true
    }

    open spec fn add_req(self, other: Asset) -> bool {
        self.symbol == other.symbol && amount_in_range(self.amount + other.amount)
    }

    open spec fn add_spec(self, other: Asset) -> Asset {
        Asset { amount: (self.amount + other.amount) as i64, symbol: self.symbol }
    }
}

impl core::ops::Sub<Asset> for Asset {
    type Output = Asset;

    /// The difference of two assets of one symbol, which must stay in
    /// range.
    fn sub(self, other: Asset) -> (r: Asset) {
        Asset { amount: self.amount - other.amount, symbol: self.symbol }
    }
}

impl vstd::std_specs::ops::SubSpecImpl<Asset> for Asset {
    open spec fn obeys_sub_spec() -> bool {
        true
    }

    open spec fn sub_req(self, other: Asset) -> bool {
        self.symbol == other.symbol && amount_in_range(self.amount - other.amount)
    }

    open spec fn sub_spec(self, other: Asset) -> Asset {
        Asset { amount: (self.amount - other.amount) as i64, symbol: self.symbol }
    }
}

impl core::ops::Mul<i64> for Asset {
    type Output = Asset;

    /// The asset scaled by an integer, which must stay in range.
    fn mul(self, b: i64) -> (r: Asset) {
        Asset { amount: self.amount * b, symbol: self.symbol }
    }
}

impl vstd::std_specs::ops::MulSpecImpl<i64> for Asset {
    open spec fn obeys_mul_spec() -> bool {
        true
    }

    open spec fn mul_req(self, b: i64) -> bool {
        amount_in_range(self.amount * b)
    }

    open spec fn mul_spec(self, b: i64) -> Asset {
        Asset { amount: (self.amount * b) as i64, symbol: self.symbol }
    }
}

impl core::ops::Mul<Asset> for i64 {
    type Output = Asset;

    /// An asset scaled by an integer on the left, which must stay in
    /// range.
    fn mul(self, a: Asset) -> (r: Asset) {
        Asset { amount: a.amount * self, symbol: a.symbol }
    }
}

impl vstd::std_specs::ops::MulSpecImpl<Asset> for i64 {
    open spec fn obeys_mul_spec() -> bool {
        true
    }

    open spec fn mul_req(self, a: Asset) -> bool {
        amount_in_range(a.amount * self)
    }

    open spec fn mul_spec(self, a: Asset) -> Asset {
        Asset { amount: (a.amount * self) as i64, symbol: a.symbol }
    }
}

impl core::ops::Div<i64> for Asset {
    type Output = Asset;

    /// The asset divided by a nonzero integer, truncating toward zero.
    fn div(self, b: i64) -> (r: Asset) {
        Asset { amount: div_trunc_i64(self.amount, b), symbol: self.symbol }
    }
}

impl vstd::std_specs::ops::DivSpecImpl<i64> for Asset {
    open spec fn obeys_div_spec() -> bool {
        true
    }

    open spec fn div_req(self, b: i64) -> bool {
        b != 0 && !(self.amount == i64::MIN && b == -1)
    }

    open spec fn div_spec(self, b: i64) -> Asset {
        Asset { amount: trunc_div(self.amount as int, b as int) as i64, symbol: self.symbol }
    }
}

impl core::ops::Div<Asset> for Asset {
    type Output = i64;

    /// The bare quotient of two assets of one symbol, truncating toward
    /// zero.
    fn div(self, b: Asset) -> (r: i64) {
        div_trunc_i64(self.amount, b.amount)
    }
}

impl vstd::std_specs::ops::DivSpecImpl<Asset> for Asset {
    open spec fn obeys_div_spec() -> bool {
        true
    }

    open spec fn div_req(self, b: Asset) -> bool {
        b.amount != 0 && self.symbol == b.symbol && !(self.amount == i64::MIN && b.amount == -1)
    }

    open spec fn div_spec(self, b: Asset) -> i64 {
        trunc_div(self.amount as int, b.amount as int) as i64
    }
}

// ---------------------------------------------------------------------------
// The text forms.
// ---------------------------------------------------------------------------

/// `s` with every dot removed.
pub open spec fn strip_dots(s: Seq<char>) -> Seq<char>
    decreases s.len(),
{
    if s.len() == 0 {
        Seq::empty()
    } else if s.last() == '.' {
        strip_dots(s.drop_last())
    } else {
        strip_dots(s.drop_last()).push(s.last())
    }
}

/// The precision an amount token implies: the number of characters after
/// its first dot, truncated to a byte; 0 without a dot.
pub open spec fn amount_token_prec(a: Seq<char>) -> u8 {
    if char_pos(a, '.') == -1 {
        0
    } else {
        (a.len() - char_pos(a, '.') - 1) as u8
    }
}

/// Whether `s` is accepted by the asset parser: an amount token and a
/// symbol code around a single space, the amount token spelling a signed
/// 64-bit number once its dots are removed.
pub open spec fn valid_asset_text(s: Seq<char>) -> bool {
    &&& char_count(s, ' ') == 1
    &&& crate::decimal::valid_signed_text(strip_dots(s.take(char_pos(s, ' '))))
    &&& valid_code_text(s.skip(char_pos(s, ' ') + 1))
}

/// The amount encoded by the text `s`.
pub open spec fn asset_amount_of_text(s: Seq<char>) -> int {
    crate::decimal::signed_value(strip_dots(s.take(char_pos(s, ' '))))
}

/// The packed symbol encoded by the text `s`.
pub open spec fn asset_symbol_of_text(s: Seq<char>) -> u64 {
    symbol_compose(
        code_value_of_text(s.skip(char_pos(s, ' ') + 1)),
        amount_token_prec(s.take(char_pos(s, ' '))),
    )
}

/// The text of an asset: the optionally signed integer part, the
/// zero-padded fractional part after a dot when the precision is not
/// zero, a space, and the symbol code.
pub open spec fn asset_text(amount: i64, sym: u64) -> Seq<char> {
    let p = symbol_precision_part(sym) as int;
    let mag = abs(amount as int) as int;
    let ip = mag / crate::decimal::pow10(p);
    let fp = mag % crate::decimal::pow10(p);
    let sign: Seq<char> = if amount < 0 {
        seq!['-']
    } else {
        Seq::empty()
    };
    if p == 0 {
        sign + dec_digits(mag).push(' ') + code_text(symbol_code_part(sym))
    } else {
        sign + dec_digits(ip).push('.') + dec_digits_padded(fp, p).push(' ') + code_text(
            symbol_code_part(sym),
        )
    }
}

impl Asset {
    /// The string form of the asset: its amount rendered to the symbol's
    /// precision, a space, and the symbol code.
    ///
    /// The precision must not exceed 18, the largest power of ten a signed
    /// 64-bit amount can meet.
    pub fn to_string(&self) -> (r: String)
        requires
            symbol_precision_part(self.symbol.value) <= 18,
        ensures
            r@ == asset_text(self.amount, self.symbol.value),
    {
        let p = self.symbol.precision();
        let mut d: u64 = 1;
        let mut j: u8 = 0;
        while j < p
            invariant
                j <= p <= 18,
                d == crate::decimal::pow10(j as int),
                d <= 1_000_000_000_000_000_000u64,
            decreases p - j,
        {
            proof {
                crate::decimal::lemma_pow10_increases(j as int + 1, 18);
                crate::decimal::lemma_pow10_18();
            }
            d = d * 10;
            j += 1;
        }
        let mag = abs_u64(self.amount);
        proof {
            crate::decimal::lemma_pow10_pos(p as int);
        }
        let ip = mag / d;
        let fp = mag % d;
        let mut out: Vec<char> = Vec::new();
        if self.amount < 0 {
            out.push('-');
        }
        push_dec_digits(ip, &mut out);
        if p > 0 {
            out.push('.');
            let mut frac: Vec<char> = Vec::new();
            push_dec_digits(fp, &mut frac);
            proof {
                crate::decimal::lemma_pow10_pos(p as int);
                lemma_dec_digits_len(fp as int, p as int);
            }
            let pad = (p as usize) - frac.len();
            let mut z: usize = 0;
            let ghost before_pad = out@;
            while z < pad
                invariant
                    z <= pad,
                    out@ == before_pad + Seq::new(z as nat, |t: int| '0'),
                decreases pad - z,
            {
                out.push('0');
                proof {
                    assert(before_pad + Seq::new((z + 1) as nat, |t: int| '0') =~= (before_pad
                        + Seq::new(z as nat, |t: int| '0')).push('0'));
                }
                z += 1;
            }
            let mut t: usize = 0;
            let ghost before_frac = out@;
            while t < frac.len()
                invariant
                    t <= frac@.len(),
                    out@ == before_frac + frac@.take(t as int),
                decreases frac@.len() - t,
            {
                out.push(frac[t]);
                proof {
                    assert(before_frac + frac@.take(t + 1) =~= (before_frac + frac@.take(
                        t as int,
                    )).push(frac@[t as int]));
                }
                t += 1;
            }
            proof {
                assert(frac@.take(frac@.len() as int) =~= frac@);
                assert(out@ =~= before_pad + dec_digits_padded(fp as int, p as int));
            }
        }
        out.push(' ');
        let code = crate::symbol_code::code_chars(self.symbol.raw() >> 8u64);
        let mut t: usize = 0;
        let ghost before_code = out@;
        while t < code.len()
            invariant
                t <= code@.len(),
                out@ == before_code + code@.take(t as int),
            decreases code@.len() - t,
        {
            out.push(code[t]);
            proof {
                assert(before_code + code@.take(t + 1) =~= (before_code + code@.take(
                    t as int,
                )).push(code@[t as int]));
            }
            t += 1;
        }
        proof {
            assert(code@.take(code@.len() as int) =~= code@);
            if p == 0 {
                vstd::arithmetic::div_mod::lemma_fundamental_div_mod(mag as int, 1);
                assert(out@ =~= asset_text(self.amount, self.symbol.value));
            } else {
                assert(out@ =~= asset_text(self.amount, self.symbol.value));
            }
        }
        chars_to_string(out)
    }

    /// Parses an asset from the form `amount CODE`, the amount carrying an
    /// optional sign and at most one meaningful dot.
    ///
    /// The precision is the number of characters after the amount's first
    /// dot; every dot is then dropped and the remaining token must spell a
    /// signed 64-bit number.
    pub fn parse(s: &str) -> (r: Result<Asset, ParseError>)
        ensures
            valid_asset_text(s@) <==> r is Ok,
            r is Ok ==> r->Ok_0.amount as int == asset_amount_of_text(s@)
                && r->Ok_0.symbol.value == asset_symbol_of_text(s@),
            r is Err ==> match r->Err_0 {
                ParseError::BadAsset(t) => char_count(s@, ' ') != 1 && t@ == s@,
                ParseError::BadAmount(t) => char_count(s@, ' ') == 1 && t@ == s@.take(
                    char_pos(s@, ' '),
                ) && !crate::decimal::valid_signed_text(strip_dots(t@)),
                ParseError::BadSymbolCode(t) => char_count(s@, ' ') == 1 && t@ == s@.skip(
                    char_pos(s@, ' ') + 1,
                ) && crate::decimal::valid_signed_text(strip_dots(s@.take(char_pos(s@, ' '))))
                    && !valid_code_text(t@),
                _ => false,
            },
    {
        let parts = match split_two(s, ' ') {
            Some(parts) => parts,
            None => {
                return Err(ParseError::BadAsset(s.to_owned()));
            },
        };
        let a = parts.0;
        let m = a.unicode_len();
        let mut stripped: Vec<char> = Vec::new();
        let mut dot: usize = 0;
        let mut has_dot = false;
        let mut i: usize = 0;
        while i < m
            invariant
                i <= m == a@.len(),
                stripped@ == strip_dots(a@.take(i as int)),
                !has_dot ==> forall|j: int| 0 <= j < i ==> a@[j] != '.',
                has_dot ==> dot < i && a@[dot as int] == '.' && (forall|j: int|
                    0 <= j < dot ==> a@[j] != '.'),
            decreases m - i,
        {
            let c = a.get_char(i);
            proof {
                assert(a@.take(i + 1).drop_last() =~= a@.take(i as int));
                assert(a@.take(i + 1).last() == a@[i as int]);
            }
            if c == '.' {
                if !has_dot {
                    dot = i;
                    has_dot = true;
                }
            } else {
                stripped.push(c);
            }
            i += 1;
        }
        proof {
            assert(a@.take(m as int) =~= a@);
            if has_dot {
                crate::text::lemma_char_pos_is(a@, '.', 0, dot as int);
            } else {
                crate::text::lemma_char_pos_is(a@, '.', 0, m as int);
            }
        }
        let precision: u8 = if has_dot {
            (m - dot - 1) as u8
        } else {
            0
        };
        let stripped_str = chars_to_string(stripped);
        let amount = match crate::decimal::parse_i64(stripped_str.as_str()) {
            Some(v) => v,
            None => {
                return Err(ParseError::BadAmount(a.to_owned()));
            },
        };
        match SymbolCode::parse(parts.1) {
            Ok(code) => Ok(Asset { amount, symbol: Symbol::from_precision(code, precision) }),
            Err(e) => Err(e),
        }
    }
}

impl Default for Asset {
    /// The zero asset with the empty symbol.
    fn default() -> (r: Asset)
        ensures
            r.amount == 0,
            r.symbol.value == 0,
    {
        Asset { amount: 0, symbol: Symbol::new() }
    }
}

// ---------------------------------------------------------------------------
// Laws.
// ---------------------------------------------------------------------------

proof fn lemma_strip_dots_concat(a: Seq<char>, b: Seq<char>)
    ensures
        strip_dots(a + b) == strip_dots(a) + strip_dots(b),
    decreases b.len(),
{
    if b.len() == 0 {
        assert(a + b =~= a);
        assert(strip_dots(a) + strip_dots(b) =~= strip_dots(a));
    } else {
        assert((a + b).drop_last() =~= a + b.drop_last());
        assert((a + b).last() == b.last());
        lemma_strip_dots_concat(a, b.drop_last());
        if b.last() != '.' {
            assert(strip_dots(a) + strip_dots(b) =~= (strip_dots(a) + strip_dots(
                b.drop_last(),
            )).push(b.last()));
        }
    }
}

proof fn lemma_strip_dots_clean(a: Seq<char>)
    requires
        forall|i: int| 0 <= i < a.len() ==> a[i] != '.',
    ensures
        strip_dots(a) == a,
    decreases a.len(),
{
    if a.len() > 0 {
        assert(forall|i: int| 0 <= i < a.len() - 1 ==> a.drop_last()[i] == a[i]);
        lemma_strip_dots_clean(a.drop_last());
        assert(strip_dots(a) =~= a);
    }
}

/// Round trip of the asset codec: parsing a formatted asset gives the
/// amount and the symbol back, for every amount and every symbol whose
/// precision stays within the reach of a 64-bit amount and whose code is
/// valid with no eighth byte in use.
#[verifier::rlimit(80)]
pub proof fn lemma_asset_round_trip(amount: i64, sym: u64)
    requires
        symbol_precision_part(sym) <= 18,
        valid_code_value(symbol_code_part(sym)),
        crate::symbol_code::code_first_zero(symbol_code_part(sym)) <= 7,
    ensures
        valid_asset_text(asset_text(amount, sym)),
        asset_amount_of_text(asset_text(amount, sym)) == amount as int,
        asset_symbol_of_text(asset_text(amount, sym)) == sym,
{
    let p = symbol_precision_part(sym) as int;
    let cv = symbol_code_part(sym);
    let mag = abs(amount as int) as int;
    let d = crate::decimal::pow10(p);
    crate::decimal::lemma_pow10_pos(p);
    let ip = mag / d;
    let fp = mag % d;
    vstd::arithmetic::div_mod::lemma_fundamental_div_mod(mag, d);
    vstd::arithmetic::div_mod::lemma_mod_bound(mag, d);
    vstd::arithmetic::div_mod::lemma_div_pos_is_pos(mag, d);
    crate::decimal::lemma_dec_digits_value(ip);
    crate::decimal::lemma_dec_digits_value(fp);
    crate::decimal::lemma_dec_digits_value(mag);
    crate::symbol_code::lemma_code_decode_encode(cv);
    let ct = code_text(cv);
    let sign: Seq<char> = if amount < 0 {
        seq!['-']
    } else {
        Seq::empty()
    };
    let fdig = dec_digits_padded(fp, p);
    let token: Seq<char> = if p == 0 {
        sign + dec_digits(mag)
    } else {
        sign + dec_digits(ip) + seq!['.'] + fdig
    };
    let text = asset_text(amount, sym);
    assert(text =~= token + seq![' '] + ct);

    // the fraction is exactly `p` zero-padded digits worth `fp`
    if p != 0 {
        crate::decimal::lemma_dec_digits_len(fp, p);
        if dec_digits(fp).len() < p {
            let zeros = Seq::new((p - dec_digits(fp).len()) as nat, |i: int| '0');
            assert(fdig == zeros + dec_digits(fp));
            crate::decimal::lemma_dec_value_concat(zeros, dec_digits(fp));
            crate::decimal::lemma_dec_value_zeros(zeros);
            crate::decimal::lemma_pow10_pos(dec_digits(fp).len() as int);
            assert(dec_value(fdig) == fp);
            assert forall|i: int| 0 <= i < fdig.len() implies is_digit_char(#[trigger] fdig[i]) by {
                if i < zeros.len() {
                    assert(fdig[i] == '0');
                } else {
                    assert(fdig[i] == dec_digits(fp)[i - zeros.len()]);
                }
            }
        } else {
            assert(fdig == dec_digits(fp));
        }
        assert(fdig.len() == p);
        assert(dec_value(fdig) == fp);
        assert(all_digits(fdig));
    }
    // every character left of the space is a sign, a digit, or the dot
    let dig: Seq<char> = if p == 0 {
        dec_digits(mag)
    } else {
        dec_digits(ip)
    };
    assert(all_digits(dig));
    let pos = token.len() as int;
    assert forall|j: int| 0 <= j < pos implies #[trigger] token[j] != ' ' by {
        if amount < 0 && j == 0 {
            assert(token[j] == '-');
        } else if j < sign.len() + dig.len() {
            assert(token[j] == dig[j - sign.len()]);
            assert(is_digit_char(token[j]));
        } else if p != 0 && j == sign.len() + dig.len() {
            assert(token[j] == '.');
        } else {
            assert(token[j] == fdig[j - (sign.len() + dig.len() + 1)]);
            assert(is_digit_char(token[j]));
        }
    }
    assert forall|j: int| pos + 1 <= j < text.len() implies #[trigger] text[j] != ' ' by {
        assert(text[j] == ct[j - pos - 1]);
        assert(crate::symbol_code::is_upper_byte(ct[j - pos - 1] as u32 as u64));
    }
    assert(text[pos] == ' ');
    crate::text::lemma_char_count_one(text, ' ', 0, pos);
    crate::text::lemma_char_pos_is(text, ' ', 0, pos);
    assert(char_count(text, ' ') == 1);
    assert(char_pos(text, ' ') == pos);
    assert(text.take(pos) =~= token);
    assert(text.skip(pos + 1) =~= ct);

    // the implied precision is the symbol's
    if p == 0 {
        assert forall|j: int| 0 <= j < pos implies #[trigger] token[j] != '.' by {
            if amount < 0 && j == 0 {
            } else {
                assert(token[j] == dig[j - sign.len()]);
                assert(is_digit_char(token[j]));
            }
        }
        crate::text::lemma_char_pos_is(token, '.', 0, pos);
        assert(amount_token_prec(token) == 0);
    } else {
        let dotpos = sign.len() + dig.len();
        assert forall|j: int| 0 <= j < dotpos implies #[trigger] token[j] != '.' by {
            if amount < 0 && j == 0 {
            } else {
                assert(token[j] == dig[j - sign.len()]);
                assert(is_digit_char(token[j]));
            }
        }
        assert(token[dotpos as int] == '.');
        crate::text::lemma_char_pos_is(token, '.', 0, dotpos as int);
        assert(token.len() - dotpos - 1 == p);
        assert(amount_token_prec(token) == p as u8);
    }

    // once the dots go, the token spells the amount
    let stripped = strip_dots(token);
    if p == 0 {
        lemma_strip_dots_concat(sign, dec_digits(mag));
        lemma_strip_dots_clean(sign);
        lemma_strip_dots_clean(dec_digits(mag));
        assert(stripped == sign + dec_digits(mag));
    } else {
        lemma_strip_dots_concat(sign + dec_digits(ip) + seq!['.'], fdig);
        lemma_strip_dots_concat(sign + dec_digits(ip), seq!['.']);
        lemma_strip_dots_concat(sign, dec_digits(ip));
        lemma_strip_dots_clean(sign);
        lemma_strip_dots_clean(dec_digits(ip));
        lemma_strip_dots_clean(fdig);
        assert(strip_dots(seq!['.']) =~= Seq::<char>::empty()) by {
            let dot = seq!['.'];
            assert(dot.last() == '.');
            assert(dot.drop_last() =~= Seq::<char>::empty());
            assert(strip_dots(Seq::<char>::empty()) == Seq::<char>::empty());
        }
        assert(stripped =~= sign + dec_digits(ip) + fdig);
        crate::decimal::lemma_dec_value_concat(dec_digits(ip), fdig);
        assert(dec_value(dec_digits(ip) + fdig) == ip * d + fp);
    }
    let body: Seq<char> = if p == 0 {
        dec_digits(mag)
    } else {
        dec_digits(ip) + fdig
    };
    assert(stripped =~= sign + body);
    assert(dec_value(body) == mag) by {
        if p == 0 {
        } else {
            crate::decimal::lemma_dec_value_concat(dec_digits(ip), fdig);
        }
    }
    assert(all_digits(body)) by {
        if p != 0 {
            assert forall|i: int| 0 <= i < body.len() implies is_digit_char(#[trigger] body[i]) by {
                if i < dec_digits(ip).len() {
                    assert(body[i] == dec_digits(ip)[i]);
                } else {
                    assert(body[i] == fdig[i - dec_digits(ip).len()]);
                }
            }
        }
    }
    if amount < 0 {
        assert(stripped[0] == '-');
        assert(stripped.skip(1) =~= body);
        assert(mag <= 0x8000_0000_0000_0000);
        assert(crate::decimal::valid_signed_text(stripped));
        assert(crate::decimal::signed_value(stripped) == -mag);
    } else {
        assert(stripped =~= body);
        assert(stripped[0] == body[0]);
        assert(is_digit_char(stripped[0]));
        assert(stripped[0] != '-' && stripped[0] != '+');
        assert(mag <= 0x7FFF_FFFF_FFFF_FFFF);
        assert(crate::decimal::valid_signed_text(stripped));
        assert(crate::decimal::signed_value(stripped) == mag);
    }

    // the symbol reassembles from its two parts
    assert(((sym >> 8u64) << 8u64) | (sym & 0xFF) == sym) by (bit_vector);
    assert(asset_symbol_of_text(text) == symbol_compose(cv, (sym & 0xFF) as u8));
    assert((cv << 8u64) | ((sym & 0xFF) as u8) as u64 == ((sym >> 8u64) << 8u64) | (sym & 0xFF))
        by (bit_vector)
        requires
            cv == sym >> 8u64,
    ;
}

} // verus!
