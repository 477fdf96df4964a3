//! A symbol together with the account that issues it.

use vstd::prelude::*;
use vstd::string::StringExecFns;

use crate::errors::ParseError;
use crate::name::name_text;
use crate::name::name_value_of_text;
use crate::name::valid_name_text;
use crate::name::Name;
use crate::symbol::symbol_text;
use crate::symbol::symbol_value_of_text;
use crate::symbol::valid_symbol_text;
use crate::symbol::Symbol;
use crate::text::char_count;
use crate::text::char_pos;
use crate::text::split_two;

verus! {

/// A symbol qualified by the contract account that issues it.
#[derive(Debug, Copy, Clone, PartialEq, Eq, PartialOrd, Ord, Structural)]
pub struct ExtendedSymbol {
    /// The issuing contract account.
    pub contract: Name,
    /// The symbol itself.
    pub sym: Symbol,
}

impl ExtendedSymbol {
    /// The empty extended symbol.
    pub fn new() -> (r: ExtendedSymbol)
        ensures
            r.contract.value == 0,
            r.sym.value == 0,
    {
        ExtendedSymbol { contract: Name::new(), sym: Symbol::new() }
    }

    /// The issuing contract.
    pub fn get_contract(&self) -> (r: Name)
        ensures
            r == self.contract,
    {
        self.contract
    }

    /// The symbol.
    pub fn get_symbol(&self) -> (r: Symbol)
        ensures
            r == self.sym,
    {
        self.sym
    }

    /// Pairs a symbol with its issuing contract.
    pub fn from_extended(sym: Symbol, contract: Name) -> (r: ExtendedSymbol)
        ensures
            r.sym == sym,
            r.contract == contract,
    {
        ExtendedSymbol { sym, contract }
    }

    /// A symbol with no issuing contract.
    pub fn from_symbol(sym: Symbol) -> (r: ExtendedSymbol)
        ensures
            r.sym == sym,
            r.contract.value == 0,
    {
        ExtendedSymbol { sym, contract: Name::new() }
    }

    /// Parses an extended symbol from the form `precision,CODE@contract`.
    pub fn from_str(s: &str) -> (r: Result<ExtendedSymbol, ParseError>)
        ensures
            (char_count(s@, '@') == 1 && valid_symbol_text(s@.take(char_pos(s@, '@')))
                && valid_name_text(s@.skip(char_pos(s@, '@') + 1))) <==> r is Ok,
            r is Ok ==> r->Ok_0.sym.value == symbol_value_of_text(s@.take(char_pos(s@, '@')))
                && r->Ok_0.contract.value == name_value_of_text(s@.skip(char_pos(s@, '@') + 1)),
            r is Err ==> match r->Err_0 {
                ParseError::BadFormat => char_count(s@, '@') != 1,
                ParseError::BadSymbol(t) => char_count(s@, '@') == 1 && t@ == s@.take(
                    char_pos(s@, '@'),
                ) && !valid_symbol_text(t@),
                ParseError::BadName(t) => char_count(s@, '@') == 1 && t@ == s@.skip(
                    char_pos(s@, '@') + 1,
                ) && valid_symbol_text(s@.take(char_pos(s@, '@'))) && !valid_name_text(t@),
                _ => false,
            },
    {
        let parts = match split_two(s, '@') {
            Some(parts) => parts,
            None => {
                return Err(ParseError::BadFormat);
            },
        };
        let symbol = match Symbol::parse(parts.0) {
            Ok(sym) => sym,
            Err(_) => {
                return Err(ParseError::BadSymbol(parts.0.to_owned()));
            },
        };
        let contract = match Name::parse(parts.1) {
            Ok(name) => name,
            Err(e) => {
                return Err(e);
            },
        };
        Ok(ExtendedSymbol::from_extended(symbol, contract))
    }

    /// The string form of the extended symbol: `precision,CODE@contract`.
    pub fn to_string(&self) -> (r: String)
        ensures
            r@ == symbol_text(self.sym.value).push('@') + name_text(self.contract.value),
    {
        let a = self.sym.to_string();
        let b = self.contract.to_string();
        let r = a.concat("@").concat(b.as_str());
        proof {
            reveal_strlit("@");
            assert(r@ =~= symbol_text(self.sym.value).push('@') + name_text(self.contract.value));
        }
        r
    }
}

impl Default for ExtendedSymbol {
    /// The empty extended symbol.
    fn default() -> (r: ExtendedSymbol)
        ensures
            r.contract.value == 0,
            r.sym.value == 0,
    {
        ExtendedSymbol { contract: Name::new(), sym: Symbol::new() }
    }
}

impl From<ExtendedSymbol> for bool {
    /// Whether both the contract and the symbol are set.
    fn from(ext_sym: ExtendedSymbol) -> (r: bool)
        ensures
            r == (ext_sym.contract.value != 0 && ext_sym.sym.value != 0),
    {
        ext_sym.contract.raw() != 0 && ext_sym.sym.raw() != 0
    }
}

impl vstd::std_specs::convert::FromSpecImpl<ExtendedSymbol> for bool {
    open spec fn obeys_from_spec() -> bool {
        true
    }

    open spec fn from_spec(ext_sym: ExtendedSymbol) -> bool {
        ext_sym.contract.value != 0 && ext_sym.sym.value != 0
    }
}

} // verus!
