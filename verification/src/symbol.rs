//! A ticker code combined with a decimal precision, packed into a `u64`.
//!
//! A symbol stores its [`SymbolCode`] in the upper 56 bits and a one-byte
//! precision — the number of fractional decimal digits — in the low byte:
//! `value == (code << 8) | precision`.  Validity is the validity of the
//! code; the precision is never range-checked.

use vstd::prelude::*;

use crate::decimal::all_digits;
use crate::decimal::dec_digits;
use crate::decimal::dec_value;
use crate::decimal::lemma_dec_value_nonneg;
use crate::decimal::parse_dec_bounded;
use crate::decimal::push_dec_digits;
use crate::errors::ParseError;
use crate::symbol_code::code_chars;
use crate::symbol_code::code_padded_bytes;
use crate::symbol_code::code_text;
use crate::symbol_code::code_value_of_text;
use crate::symbol_code::lemma_code_round_trip;
use crate::symbol_code::valid_code_text;
use crate::symbol_code::valid_code_value;
use crate::symbol_code::SymbolCode;
use crate::text::char_count;
use crate::text::char_pos;
use crate::text::chars_to_string;
use crate::text::split_two;

verus! {

// ---------------------------------------------------------------------------
// The layout.
// ---------------------------------------------------------------------------

/// The code part of a packed symbol: its upper 56 bits.
pub open spec fn symbol_code_part(v: u64) -> u64 {
    v >> 8u64
}

/// The precision part of a packed symbol: its low byte.
pub open spec fn symbol_precision_part(v: u64) -> u64 {
    v & 0xFF
}

/// The packed symbol holding `code` and `precision`.
pub open spec fn symbol_compose(code: u64, precision: u8) -> u64 {
    (code << 8u64) | precision as u64
}

// ---------------------------------------------------------------------------
// The text forms.
// ---------------------------------------------------------------------------

/// Whether `s` is a digit string naming an 8-bit precision.
pub open spec fn valid_precision_text(s: Seq<char>) -> bool {
    &&& s.len() >= 1
    &&& all_digits(s)
    &&& dec_value(s) <= 255
}

/// Whether `s` is accepted by the symbol parser: a precision and a symbol
/// code around a single comma.  The empty code is permitted here.
pub open spec fn valid_symbol_text(s: Seq<char>) -> bool {
    &&& char_count(s, ',') == 1
    &&& valid_precision_text(s.take(char_pos(s, ',')))
    &&& valid_code_text(s.skip(char_pos(s, ',') + 1))
}

/// The packed symbol encoding the text `s`.
pub open spec fn symbol_value_of_text(s: Seq<char>) -> u64 {
    symbol_compose(
        code_value_of_text(s.skip(char_pos(s, ',') + 1)),
        dec_value(s.take(char_pos(s, ','))) as u8,
    )
}

/// The text of the packed symbol `v`: its precision in decimal, a comma,
/// and its code.
pub open spec fn symbol_text(v: u64) -> Seq<char> {
    dec_digits(symbol_precision_part(v) as int).push(',') + code_text(symbol_code_part(v))
}

// ---------------------------------------------------------------------------
// The symbol type.
// ---------------------------------------------------------------------------

/// A ticker with a decimal precision, packed into a `u64`.
#[derive(Debug, Copy, Clone, PartialEq, Eq, PartialOrd, Ord, Hash, Structural)]
pub struct Symbol {
    /// The raw packed representation of the symbol.
    pub value: u64,
}

impl Symbol {
    /// The empty symbol, of raw value 0.
    pub fn new() -> (r: Symbol)
        ensures
            r.value == 0,
    {
        Symbol { value: 0 }
    }

    /// The raw packed value of the symbol.
    pub fn raw(&self) -> (r: u64)
        ensures
            r == self.value,
    {
        self.value
    }

    /// The symbol code stored in the upper 56 bits.
    pub fn code(&self) -> (r: SymbolCode)
        ensures
            r.value == symbol_code_part(self.value),
    {
        SymbolCode::from(self.value >> 8u64)
    }

    /// The precision stored in the low byte.
    pub fn precision(&self) -> (r: u8)
        ensures
            r as u64 == symbol_precision_part(self.value),
    {
        proof {
            let v = self.value;
            assert(v as u8 as u64 == v & 0xFF) by (bit_vector);
        }
        self.value as u8
    }

    /// Whether the code part is a valid symbol code; the precision is not
    /// checked.
    pub fn is_valid(&self) -> (r: bool)
        ensures
            r == valid_code_value(symbol_code_part(self.value)),
    {
        self.code().is_valid()
    }

    /// Packs `symcode` and `precision` into a symbol.
    pub fn from_precision(symcode: SymbolCode, precision: u8) -> (r: Symbol)
        ensures
            r.value == symbol_compose(symcode.value, precision),
    {
        let value = (symcode.raw() << 8u64) | precision as u64;
        Symbol { value }
    }

    /// Parses a symbol from the form `precision,CODE`.
    ///
    /// Returns the packed symbol exactly when `s` holds a single comma
    /// with a decimal 8-bit precision before it and a valid (possibly
    /// empty) symbol code after it.
    pub fn parse(s: &str) -> (r: Result<Symbol, ParseError>)
        ensures
            valid_symbol_text(s@) <==> r is Ok,
            r is Ok ==> r->Ok_0.value == symbol_value_of_text(s@),
            r is Err ==> match r->Err_0 {
                ParseError::BadFormat => char_count(s@, ',') != 1,
                ParseError::BadPrecision(t) => char_count(s@, ',') == 1 && t@ == s@.take(
                    char_pos(s@, ','),
                ) && !valid_precision_text(t@),
                ParseError::BadSymbolCode(t) => char_count(s@, ',') == 1 && t@ == s@.skip(
                    char_pos(s@, ',') + 1,
                ) && valid_precision_text(s@.take(char_pos(s@, ','))) && !valid_code_text(t@),
                _ => false,
            },
    {
        let parts = match split_two(s, ',') {
            Some(parts) => parts,
            None => {
                return Err(ParseError::BadFormat);
            },
        };
        let precision = match parse_dec_bounded(parts.0, 255) {
            Some(p) => p as u8,
            None => {
                return Err(ParseError::BadPrecision(parts.0.to_owned()));
            },
        };
        match SymbolCode::parse(parts.1) {
            Ok(code) => Ok(Symbol::from_precision(code, precision)),
            Err(e) => Err(e),
        }
    }

    /// The string form of the symbol: `precision,CODE`.
    pub fn to_string(&self) -> (r: String)
        ensures
            r@ == symbol_text(self.value),
    {
        let mut out: Vec<char> = Vec::new();
        push_dec_digits(self.precision() as u64, &mut out);
        out.push(',');
        let code = code_chars(self.value >> 8u64);
        let mut i: usize = 0;
        let ghost head = out@;
        while i < code.len()
            invariant
                i <= code@.len(),
                out@ == head + code@.take(i as int),
            decreases code@.len() - i,
        {
            out.push(code[i]);
            proof {
                assert(head + code@.take(i + 1) =~= (head + code@.take(i as int)).push(
                    code@[i as int],
                ));
            }
            i += 1;
        }
        proof {
            assert(code@.take(code@.len() as int) =~= code@);
            assert(out@ =~= symbol_text(self.value));
        }
        chars_to_string(out)
    }
}

// ---------------------------------------------------------------------------
// Conversions.
// ---------------------------------------------------------------------------

impl From<u64> for Symbol {
    /// Wraps a raw packed value without validation.
    fn from(value: u64) -> (r: Symbol)
        ensures
            r.value == value,
    {
        Symbol { value }
    }
}

impl vstd::std_specs::convert::FromSpecImpl<u64> for Symbol {
    open spec fn obeys_from_spec() -> bool {
        true
    }

    open spec fn from_spec(value: u64) -> Symbol {
        Symbol { value }
    }
}

impl From<Symbol> for u64 {
    /// The raw packed value of the symbol.
    fn from(sym: Symbol) -> (r: u64)
        ensures
            r == sym.value,
    {
        sym.value
    }
}

impl vstd::std_specs::convert::FromSpecImpl<Symbol> for u64 {
    open spec fn obeys_from_spec() -> bool {
        true
    }

    open spec fn from_spec(sym: Symbol) -> u64 {
        sym.value
    }
}

impl From<Symbol> for bool {
    /// Whether the symbol is set: false exactly for raw value 0.
    fn from(sym: Symbol) -> (r: bool)
        ensures
            r == (sym.value != 0),
    {
        sym.value != 0
    }
}

impl vstd::std_specs::convert::FromSpecImpl<Symbol> for bool {
    open spec fn obeys_from_spec() -> bool {
        true
    }

    open spec fn from_spec(sym: Symbol) -> bool {
        sym.value != 0
    }
}

impl core::ops::Not for Symbol {
    type Output = bool;

    /// Whether the symbol is unset: true exactly for raw value 0.
    fn not(self) -> (r: bool) {
        self.value == 0
    }
}

impl vstd::std_specs::ops::NotSpecImpl for Symbol {
    open spec fn obeys_not_spec() -> bool {
        true
    }

    open spec fn not_req(self) -> bool {
        true
    }

    open spec fn not_spec(self) -> bool {
        self.value == 0
    }
}

impl Default for Symbol {
    /// The empty symbol.
    fn default() -> (r: Symbol)
        ensures
            r.value == 0,
    {
        Symbol { value: 0 }
    }
}

// ---------------------------------------------------------------------------
// Laws.
// ---------------------------------------------------------------------------

/// Packing a code and a precision and reading the parts back gives both
/// back exactly, for every code that fits its 56 bits and every precision.
pub proof fn lemma_symbol_parts(code: u64, precision: u8)
    requires
        code < (1u64 << 56u64),
    ensures
        symbol_code_part(symbol_compose(code, precision)) == code,
        symbol_precision_part(symbol_compose(code, precision)) == precision as u64,
{
    let p = precision;
    assert((((code << 8u64) | p as u64) >> 8u64) == code && (((code << 8u64) | p as u64) & 0xFF)
        == p as u64) by (bit_vector)
        requires
            code < (1u64 << 56u64),
    ;
}

/// An encoded symbol-code text occupies only the lower 56 bits.
pub proof fn lemma_code_value_small(c: Seq<char>)
    requires
        valid_code_text(c),
    ensures
        code_value_of_text(c) < (1u64 << 56u64),
{
    let b = code_padded_bytes(c);
    assert forall|i: int| 0 <= i < 8 implies b[i] < 256 by {
        if i < c.len() {
            assert(crate::symbol_code::is_upper_byte(c[i] as u32 as u64));
        }
    }
    let a0 = b[0];
    let a1 = b[1];
    let a2 = b[2];
    let a3 = b[3];
    let a4 = b[4];
    let a5 = b[5];
    let a6 = b[6];
    assert(b[7] == 0);
    let v = code_value_of_text(c);
    assert(v < (1u64 << 56u64)) by (bit_vector)
        requires
            v == a0 | (a1 << 8u64) | (a2 << 16u64) | (a3 << 24u64) | (a4 << 32u64) | (a5 << 40u64)
                | (a6 << 48u64) | (0u64 << 56u64),
            a0 < 256,
            a1 < 256,
            a2 < 256,
            a3 < 256,
            a4 < 256,
            a5 < 256,
            a6 < 256,
    ;
}

/// Round trip of the symbol codec: formatting a parsed symbol gives the
/// input back, for every text whose precision part is written canonically
/// (no leading zeros).
pub proof fn lemma_symbol_round_trip(s: Seq<char>)
    requires
        valid_symbol_text(s),
        dec_digits(dec_value(s.take(char_pos(s, ',')))) == s.take(char_pos(s, ',')),
    ensures
        symbol_text(symbol_value_of_text(s)) == s,
{
    let p = s.take(char_pos(s, ','));
    let c = s.skip(char_pos(s, ',') + 1);
    let cv = code_value_of_text(c);
    let prec = dec_value(p) as u8;
    let v = symbol_value_of_text(s);
    lemma_dec_value_nonneg(p);
    lemma_code_value_small(c);
    lemma_symbol_parts(cv, prec);
    lemma_code_round_trip(c);
    assert(dec_digits(symbol_precision_part(v) as int) == p);
    assert(symbol_text(v) =~= p.push(',') + c);
    assert(s =~= p.push(',') + c) by {
        crate::text::lemma_char_pos_count(s, ',', 0);
    }
}

} // verus!
