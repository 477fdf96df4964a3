//! Currency ticker codes packed into a `u64`, one byte per character.
//!
//! A symbol code is a string of 1 to 7 uppercase ASCII letters, stored
//! little-endian by position: the first character sits in the least
//! significant byte, and the unused high bytes are zero.  Construction
//! from a raw integer performs no validation; validity is a separately
//! queryable predicate.

use vstd::prelude::*;
use vstd::string::StrSliceExecFns;
use vstd::string::StringExecFns;
use vstd::utf8::char_u32_cast;

use crate::errors::ParseError;
use crate::text::chars_to_string;

verus! {

// ---------------------------------------------------------------------------
// The eight bytes of a packed code.
// ---------------------------------------------------------------------------

/// The byte stored at position `i` (from the least significant end) of `v`.
pub open spec fn code_byte(v: u64, i: int) -> u64
    recommends
        0 <= i < 8,
{
    (v >> ((8 * i) as u64)) & 0xFF
}

/// All eight bytes of `v`, least significant first.
pub open spec fn code_bytes(v: u64) -> Seq<u64> {
    Seq::new(8, |i: int| code_byte(v, i))
}

/// Whether `b` is a well-formed byte sequence: eight values below 256.
pub open spec fn valid_code_bytes(b: Seq<u64>) -> bool {
    &&& b.len() == 8
    &&& forall|i: int| 0 <= i < 8 ==> b[i] < 256
}

/// The packed value holding the byte sequence `b`.
pub open spec fn code_value_of_bytes(b: Seq<u64>) -> u64
    recommends
        valid_code_bytes(b),
{
    b[0] | (b[1] << 8u64) | (b[2] << 16u64) | (b[3] << 24u64) | (b[4] << 32u64) | (b[5] << 40u64)
        | (b[6] << 48u64) | (b[7] << 56u64)
}

proof fn lemma_code_bytes_bound(v: u64)
    ensures
        forall|i: int| 0 <= i < 8 ==> #[trigger] code_byte(v, i) < 256,
        valid_code_bytes(code_bytes(v)),
{
    assert forall|i: int| 0 <= i < 8 implies #[trigger] code_byte(v, i) < 256 by {
        let y = v >> ((8 * i) as u64);
        assert(y & 0xFF < 256) by (bit_vector);
    }
}

/// Composing a well-formed byte sequence and reading the bytes back gives
/// the same sequence.
proof fn lemma_code_bytes_of_value(b: Seq<u64>)
    requires
        valid_code_bytes(b),
    ensures
        code_bytes(code_value_of_bytes(b)) =~= b,
{
    let a0 = b[0];
    let a1 = b[1];
    let a2 = b[2];
    let a3 = b[3];
    let a4 = b[4];
    let a5 = b[5];
    let a6 = b[6];
    let a7 = b[7];
    let v = code_value_of_bytes(b);
    assert(v & 0xFF == a0 && (v >> 8u64) & 0xFF == a1 && (v >> 16u64) & 0xFF == a2 && (v >> 24u64)
        & 0xFF == a3 && (v >> 32u64) & 0xFF == a4 && (v >> 40u64) & 0xFF == a5 && (v >> 48u64)
        & 0xFF == a6 && (v >> 56u64) & 0xFF == a7) by (bit_vector)
        requires
            v == a0 | (a1 << 8u64) | (a2 << 16u64) | (a3 << 24u64) | (a4 << 32u64) | (a5 << 40u64)
                | (a6 << 48u64) | (a7 << 56u64),
            a0 < 256,
            a1 < 256,
            a2 < 256,
            a3 < 256,
            a4 < 256,
            a5 < 256,
            a6 < 256,
            a7 < 256,
    ;
    assert((v >> 0u64) == v) by (bit_vector);
    assert(code_byte(v, 0) == a0);
    assert(code_byte(v, 1) == a1);
    assert(code_byte(v, 2) == a2);
    assert(code_byte(v, 3) == a3);
    assert(code_byte(v, 4) == a4);
    assert(code_byte(v, 5) == a5);
    assert(code_byte(v, 6) == a6);
    assert(code_byte(v, 7) == a7);
}

/// Reading a value's bytes and composing them again gives the value back.
proof fn lemma_code_value_of_bytes_of(v: u64)
    ensures
        code_value_of_bytes(code_bytes(v)) == v,
{
    assert(((v >> 0u64) & 0xFF) | (((v >> 8u64) & 0xFF) << 8u64) | (((v >> 16u64) & 0xFF)
        << 16u64) | (((v >> 24u64) & 0xFF) << 24u64) | (((v >> 32u64) & 0xFF) << 32u64) | (((v
        >> 40u64) & 0xFF) << 40u64) | (((v >> 48u64) & 0xFF) << 48u64) | (((v >> 56u64) & 0xFF)
        << 56u64) == v) by (bit_vector);
}

/// Extracts the eight bytes of `v` into a vector.
fn bytes_of_value(v: u64) -> (b: Vec<u64>)
    ensures
        b@ == code_bytes(v),
        valid_code_bytes(b@),
{
    let mut b: Vec<u64> = Vec::new();
    let mut i: usize = 0;
    while i < 8
        invariant
            i <= 8,
            b@.len() == i,
            forall|j: int| 0 <= j < i ==> b@[j] == code_byte(v, j),
        decreases 8 - i,
    {
        let sh: u64 = 8 * (i as u64);
        b.push((v >> sh) & 0xFF);
        i += 1;
    }
    proof {
        assert(b@ =~= code_bytes(v));
        lemma_code_bytes_bound(v);
    }
    b
}

/// Packs a well-formed byte vector into a value.
fn value_of_bytes(b: &Vec<u64>) -> (v: u64)
    requires
        valid_code_bytes(b@),
    ensures
        v == code_value_of_bytes(b@),
        code_bytes(v) == b@,
{
    let v = b[0] | (b[1] << 8u64) | (b[2] << 16u64) | (b[3] << 24u64) | (b[4] << 32u64) | (b[5]
        << 40u64) | (b[6] << 48u64) | (b[7] << 56u64);
    proof {
        lemma_code_bytes_of_value(b@);
    }
    v
}

// ---------------------------------------------------------------------------
// Occupancy and validity of a packed code.
// ---------------------------------------------------------------------------

/// The position of the first zero byte of `v` at or after position `i`,
/// or 8 if every byte from `i` on is occupied.
pub open spec fn code_first_zero_from(v: u64, i: int) -> int
    decreases 8 - i,
{
    if i < 0 || i >= 8 {
        8
    } else if code_byte(v, i) == 0 {
        i
    } else {
        code_first_zero_from(v, i + 1)
    }
}

/// The position of the first zero byte of `v`, or 8 if all are occupied.
pub open spec fn code_first_zero(v: u64) -> int {
    code_first_zero_from(v, 0)
}

proof fn lemma_code_first_zero_is(v: u64, i: int, k: int)
    requires
        0 <= i <= k <= 8,
        forall|j: int| i <= j < k ==> code_byte(v, j) != 0,
        k < 8 ==> code_byte(v, k) == 0,
    ensures
        code_first_zero_from(v, i) == k,
    decreases k - i,
{
    if i < k {
        lemma_code_first_zero_is(v, i + 1, k);
    }
}

proof fn lemma_code_first_zero_facts(v: u64, i: int)
    requires
        0 <= i <= 8,
    ensures
        i <= code_first_zero_from(v, i) <= 8,
        forall|j: int| i <= j < code_first_zero_from(v, i) ==> code_byte(v, j) != 0,
        code_first_zero_from(v, i) < 8 ==> code_byte(v, code_first_zero_from(v, i)) == 0,
    decreases 8 - i,
{
    if i < 8 && code_byte(v, i) != 0 {
        lemma_code_first_zero_facts(v, i + 1);
    }
}

/// Whether `x` is the code of an uppercase ASCII letter.
pub open spec fn is_upper_byte(x: u64) -> bool {
    65 <= x <= 90
}

/// Whether the packed value `v` is a valid symbol code: at least one and at
/// most seven occupied bytes, each an uppercase letter, with nothing after
/// the first gap.  (A value whose seven low bytes are all occupied leaves
/// the eighth byte unconstrained, as the validity scan only visits seven
/// positions.)
pub open spec fn valid_code_value(v: u64) -> bool {
    let n = code_first_zero(v);
    &&& n >= 1
    &&& forall|i: int| 0 <= i < 7 && i < n ==> is_upper_byte(#[trigger] code_byte(v, i))
    &&& n <= 7 ==> (forall|i: int| n <= i < 8 ==> code_byte(v, i) == 0)
}

// ---------------------------------------------------------------------------
// The text carried by a packed code.
// ---------------------------------------------------------------------------

/// Whether `s` is accepted by the symbol-code encoder: at most 7
/// characters, all uppercase ASCII letters.
pub open spec fn valid_code_text(s: Seq<char>) -> bool {
    &&& s.len() <= 7
    &&& forall|i: int| 0 <= i < s.len() ==> is_upper_byte(#[trigger] s[i] as u32 as u64)
}

/// The byte sequence encoding `s`: its character codes padded with zeros.
pub open spec fn code_padded_bytes(s: Seq<char>) -> Seq<u64> {
    Seq::new(8, |i: int| if i < s.len() { s[i] as u32 as u64 } else { 0 })
}

/// The packed value encoding the text `s`.
pub open spec fn code_value_of_text(s: Seq<char>) -> u64 {
    code_value_of_bytes(code_padded_bytes(s))
}

/// The text read back from the packed value `v`: the characters of its
/// occupied bytes, up to the first zero byte and at most seven.
pub open spec fn code_text(v: u64) -> Seq<char> {
    let n = if code_first_zero(v) < 7 {
        code_first_zero(v)
    } else {
        7
    };
    Seq::new(n as nat, |i: int| (code_byte(v, i) as u8) as char)
}

// ---------------------------------------------------------------------------
// The symbol-code type.
// ---------------------------------------------------------------------------

/// A ticker code: a `u64` holding up to 7 uppercase letters, one byte each.
#[derive(Debug, Copy, Clone, PartialEq, Eq, PartialOrd, Ord, Hash, Structural)]
pub struct SymbolCode {
    /// The raw packed representation of the code.
    pub value: u64,
}

impl SymbolCode {
    /// The empty symbol code, of raw value 0.
    pub fn new() -> (r: SymbolCode)
        ensures
            r.value == 0,
    {
        SymbolCode { value: 0 }
    }

    /// The raw packed value of the code.
    pub fn raw(&self) -> (r: u64)
        ensures
            r == self.value,
    {
        self.value
    }

    /// The number of occupied bytes before the first zero byte, scanning
    /// from the least significant end; 8 when every byte is occupied.
    pub fn length(&self) -> (r: u32)
        ensures
            r as int == code_first_zero(self.value),
    {
        let bytes = bytes_of_value(self.value);
        let mut i: usize = 0;
        while i < 8 && bytes[i] != 0
            invariant
                i <= 8,
                bytes@ == code_bytes(self.value),
                forall|j: int| 0 <= j < i ==> code_byte(self.value, j) != 0,
            decreases 8 - i,
        {
            i += 1;
        }
        proof {
            lemma_code_first_zero_is(self.value, 0, i as int);
        }
        i as u32
    }

    /// Whether the packed value is a valid symbol code.
    pub fn is_valid(&self) -> (r: bool)
        ensures
            r == valid_code_value(self.value),
    {
        let v = self.value;
        let bytes = bytes_of_value(v);
        let mut n: usize = 0;
        while n < 8 && bytes[n] != 0
            invariant
                n <= 8,
                bytes@ == code_bytes(v),
                forall|j: int| 0 <= j < n ==> code_byte(v, j) != 0,
            decreases 8 - n,
        {
            n += 1;
        }
        proof {
            lemma_code_first_zero_is(v, 0, n as int);
        }
        if n == 0 {
            return false;
        }
        let m: usize = if n < 7 {
            n
        } else {
            7
        };
        let mut i: usize = 0;
        while i < m
            invariant
                v == self.value,
                i <= m <= 7,
                m <= n,
                n == code_first_zero(v),
                m == if n < 7 {
                    n as int
                } else {
                    7
                },
                bytes@ == code_bytes(v),
                forall|j: int| 0 <= j < i ==> is_upper_byte(#[trigger] code_byte(v, j)),
            decreases m - i,
        {
            if bytes[i] < 65 || bytes[i] > 90 {
                proof {
                    assert(code_byte(v, i as int) == bytes@[i as int]);
                    assert(!is_upper_byte(code_byte(v, i as int)));
                    assert(!valid_code_value(v));
                }
                return false;
            }
            i += 1;
        }
        if n < 8 {
            let mut j: usize = n;
            while j < 8
                invariant
                    v == self.value,
                    n <= j <= 8,
                    n == code_first_zero(v),
                    n >= 1,
                    m == if n < 7 {
                        n as int
                    } else {
                        7
                    },
                    bytes@ == code_bytes(v),
                    forall|t: int| 0 <= t < m ==> is_upper_byte(#[trigger] code_byte(v, t)),
                    forall|t: int| n <= t < j ==> code_byte(v, t) == 0,
                decreases 8 - j,
            {
                if bytes[j] != 0 {
                    proof {
                        assert(code_byte(v, j as int) == bytes@[j as int]);
                        assert(code_byte(v, j as int) != 0);
                        assert(!valid_code_value(v));
                    }
                    return false;
                }
                j += 1;
            }
        }
        true
    }

    /// Parses a symbol code from its string form.
    ///
    /// Returns the packed code exactly when `s` holds at most 7 uppercase
    /// ASCII letters; any other string is reported back inside the error.
    /// The empty string is accepted and encodes to 0.
    pub fn parse(s: &str) -> (r: Result<SymbolCode, ParseError>)
        ensures
            valid_code_text(s@) <==> r is Ok,
            r is Ok ==> r->Ok_0.value == code_value_of_text(s@),
            r is Err ==> (r->Err_0 matches ParseError::BadSymbolCode(t) && t@ == s@),
    {
        let n = s.unicode_len();
        if n > 7 {
            return Err(ParseError::BadSymbolCode(String::from_str(s)));
        }
        let mut bytes: Vec<u64> = Vec::new();
        let mut i: usize = 0;
        while i < n
            invariant
                i <= n,
                n == s@.len(),
                n <= 7,
                bytes@.len() == i,
                forall|j: int| 0 <= j < i ==> is_upper_byte(#[trigger] s@[j] as u32 as u64),
                forall|j: int| 0 <= j < i ==> bytes@[j] == s@[j] as u32 as u64,
            decreases n - i,
        {
            let c = s.get_char(i);
            let u = c as u32;
            if u < 65 || u > 90 {
                return Err(ParseError::BadSymbolCode(String::from_str(s)));
            }
            bytes.push(u as u64);
            i += 1;
        }
        while bytes.len() < 8
            invariant
                n <= bytes@.len() <= 8,
                n == s@.len(),
                forall|j: int| 0 <= j < n ==> is_upper_byte(#[trigger] s@[j] as u32 as u64),
                forall|j: int| 0 <= j < n ==> bytes@[j] == s@[j] as u32 as u64,
                forall|j: int| n <= j < bytes@.len() ==> bytes@[j] == 0,
            decreases 8 - bytes@.len(),
        {
            bytes.push(0);
        }
        proof {
            assert(bytes@ =~= code_padded_bytes(s@));
        }
        let v = value_of_bytes(&bytes);
        Ok(SymbolCode { value: v })
    }

    /// The string form of the code: the characters of its occupied bytes,
    /// up to the first zero byte and at most seven.
    pub fn to_string(&self) -> (r: String)
        ensures
            r@ == code_text(self.value),
    {
        chars_to_string(code_chars(self.value))
    }
}

/// The characters of the occupied bytes of `v`, up to the first zero byte
/// and at most seven.
pub fn code_chars(v: u64) -> (out: Vec<char>)
    ensures
        out@ == code_text(v),
{
    let bytes = bytes_of_value(v);
    let mut out: Vec<char> = Vec::new();
    let mut i: usize = 0;
    while i < 7 && bytes[i] != 0
        invariant
            i <= 7,
            bytes@ == code_bytes(v),
            valid_code_bytes(bytes@),
            out@.len() == i,
            forall|j: int| 0 <= j < i ==> code_byte(v, j) != 0,
            forall|j: int| 0 <= j < i ==> out@[j] == ((code_byte(v, j) as u8) as char),
        decreases 7 - i,
    {
        out.push((bytes[i] as u8) as char);
        i += 1;
    }
    proof {
        if i < 7 {
            lemma_code_first_zero_is(v, 0, i as int);
        } else {
            lemma_code_first_zero_facts(v, 0);
            assert(code_first_zero(v) >= 7);
        }
        assert(out@ =~= code_text(v));
    }
    out
}

// ---------------------------------------------------------------------------
// Conversions.
// ---------------------------------------------------------------------------

impl From<u64> for SymbolCode {
    /// Wraps a raw packed value without validation.
    fn from(value: u64) -> (r: SymbolCode)
        ensures
            r.value == value,
    {
        SymbolCode { value }
    }
}

impl vstd::std_specs::convert::FromSpecImpl<u64> for SymbolCode {
    open spec fn obeys_from_spec() -> bool {
        true
    }

    open spec fn from_spec(value: u64) -> SymbolCode {
        SymbolCode { value }
    }
}

impl From<SymbolCode> for u64 {
    /// The raw packed value of the code.
    fn from(symcode: SymbolCode) -> (r: u64)
        ensures
            r == symcode.value,
    {
        symcode.value
    }
}

impl vstd::std_specs::convert::FromSpecImpl<SymbolCode> for u64 {
    open spec fn obeys_from_spec() -> bool {
        true
    }

    open spec fn from_spec(symcode: SymbolCode) -> u64 {
        symcode.value
    }
}

impl From<SymbolCode> for bool {
    /// Whether the code is set: false exactly for raw value 0.
    fn from(symcode: SymbolCode) -> (r: bool)
        ensures
            r == (symcode.value != 0),
    {
        symcode.value != 0
    }
}

impl vstd::std_specs::convert::FromSpecImpl<SymbolCode> for bool {
    open spec fn obeys_from_spec() -> bool {
        true
    }

    open spec fn from_spec(symcode: SymbolCode) -> bool {
        symcode.value != 0
    }
}

impl Default for SymbolCode {
    /// The empty symbol code.
    fn default() -> (r: SymbolCode)
        ensures
            r.value == 0,
    {
        SymbolCode { value: 0 }
    }
}

// ---------------------------------------------------------------------------
// Laws.
// ---------------------------------------------------------------------------

/// Round trip of the symbol-code codec: decoding an encoded string gives
/// the string back unchanged.
pub proof fn lemma_code_round_trip(s: Seq<char>)
    requires
        valid_code_text(s),
    ensures
        code_text(code_value_of_text(s)) == s,
{
    let b = code_padded_bytes(s);
    assert forall|i: int| 0 <= i < 8 implies b[i] < 256 by {
        if i < s.len() {
            assert(is_upper_byte(s[i] as u32 as u64));
        }
    }
    lemma_code_bytes_of_value(b);
    let v = code_value_of_text(s);
    assert(code_bytes(v) =~= b);
    assert forall|j: int| 0 <= j < s.len() implies code_byte(v, j) != 0 by {
        assert(is_upper_byte(s[j] as u32 as u64));
    }
    lemma_code_first_zero_is(v, 0, s.len() as int);
    assert forall|i: int| 0 <= i < s.len() implies ((code_byte(v, i) as u8) as char) == s[i] by {
        char_u32_cast(s[i], s[i] as u32);
    }
    assert(code_text(v) =~= s);
}

/// Encoding the text read from a valid code, with no eighth byte in use,
/// gives the packed value back.
pub proof fn lemma_code_decode_encode(v: u64)
    requires
        valid_code_value(v),
        code_first_zero(v) <= 7,
    ensures
        valid_code_text(code_text(v)),
        code_text(v).len() >= 1,
        code_value_of_text(code_text(v)) == v,
{
    let n = code_first_zero(v);
    let t = code_text(v);
    lemma_code_first_zero_facts(v, 0);
    assert forall|i: int| 0 <= i < t.len() implies is_upper_byte(#[trigger] t[i] as u32 as u64)
        && t[i] as u32 as u64 == code_byte(v, i) by {
        assert(is_upper_byte(code_byte(v, i)));
        assert(code_byte(v, i) < 256);
        assert(((code_byte(v, i) as u8) as char) as u32 == code_byte(v, i));
    }
    assert(code_padded_bytes(t) =~= code_bytes(v));
    lemma_code_value_of_bytes_of(v);
}

/// An encoded nonempty symbol-code string is valid, and the empty string
/// encodes to the one raw value that is not.
pub proof fn lemma_code_encode_valid(s: Seq<char>)
    requires
        valid_code_text(s),
    ensures
        valid_code_value(code_value_of_text(s)) <==> s.len() > 0,
{
    let b = code_padded_bytes(s);
    assert forall|i: int| 0 <= i < 8 implies b[i] < 256 by {
        if i < s.len() {
            assert(is_upper_byte(s[i] as u32 as u64));
        }
    }
    lemma_code_bytes_of_value(b);
    let v = code_value_of_text(s);
    assert(code_bytes(v) =~= b);
    assert forall|j: int| 0 <= j < s.len() implies code_byte(v, j) != 0 by {
        assert(is_upper_byte(s[j] as u32 as u64));
    }
    lemma_code_first_zero_is(v, 0, s.len() as int);
}

} // verus!
