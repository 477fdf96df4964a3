//! Account names packed into a `u64`, five bits per character.
//!
//! A name is a string of at most 13 characters over the alphabet
//! `.12345a-z` (index 0 is `.`, 1–5 are the digits `1`–`5`, 6–31 are the
//! letters `a`–`z`).  The first 12 characters occupy five bits each,
//! left-justified from the most significant bit downward; the 13th
//! character occupies the four least significant bits and is therefore
//! restricted to indices 0–15 (`.`, `1`–`5`, `a`–`j`).  Unused trailing
//! slots are zero and read back as dots, which the decoder trims.

use vstd::prelude::*;
use vstd::string::StrSliceExecFns;
use vstd::string::StringExecFns;
use vstd::utf8::char_u32_cast;

use crate::errors::ParseError;
use crate::text::chars_to_string;

verus! {

/// The maximum character length of a name.
pub const NAME_MAX_LEN: usize = 13;

// ---------------------------------------------------------------------------
// The alphabet.
// ---------------------------------------------------------------------------

/// Index of `c` in the name alphabet `.12345a-z`, or 32 if `c` is outside it.
pub open spec fn name_char_index(c: char) -> u64 {
    if c == '.' {
        0
    } else if 49 <= c as u32 <= 53 {
        (c as u32 - 48) as u64
    } else if 97 <= c as u32 <= 122 {
        (c as u32 - 91) as u64
    } else {
        32
    }
}

/// Whether `c` belongs to the name alphabet.
pub open spec fn is_name_char(c: char) -> bool {
    name_char_index(c) < 32
}

/// The byte (ASCII code) of the alphabet character at index `x`.
pub open spec fn name_index_byte(x: u64) -> u8 {
    if x == 0 {
        46
    } else if x <= 5 {
        (x + 48) as u8
    } else {
        (x + 91) as u8
    }
}

/// The alphabet character at index `x` (meaningful for `x < 32`).
pub open spec fn name_index_char(x: u64) -> char {
    name_index_byte(x) as char
}

proof fn lemma_name_char_inverse(c: char)
    requires
        is_name_char(c),
    ensures
        name_index_char(name_char_index(c)) == c,
{
    char_u32_cast(c, c as u32);
}

proof fn lemma_name_index_char_dot(x: u64)
    requires
        x < 32,
    ensures
        (name_index_char(x) == '.') <==> (x == 0),
        name_index_byte(x) < 128,
{
    if x != 0 {
        let b = name_index_byte(x);
        assert((b as char) as u32 == b as u32);
        assert(('.' as u32) == 46);
    }
}

// ---------------------------------------------------------------------------
// The thirteen five-bit slots of a packed value (the last one has four bits).
// ---------------------------------------------------------------------------

/// The alphabet index stored in slot `i` of the packed value `v`.
pub open spec fn name_slot(v: u64, i: int) -> u64
    recommends
        0 <= i < 13,
{
    if i < 12 {
        (v >> ((59 - 5 * i) as u64)) & 0x1F
    } else {
        v & 0x0F
    }
}

/// All thirteen slots of `v`, most significant first.
pub open spec fn name_slots(v: u64) -> Seq<u64> {
    Seq::new(13, |i: int| name_slot(v, i))
}

/// Whether `s` is a well-formed slot sequence: thirteen indices, each below
/// 32, the last below 16.
pub open spec fn valid_name_slots(s: Seq<u64>) -> bool {
    &&& s.len() == 13
    &&& forall|i: int| 0 <= i < 12 ==> s[i] < 32
    &&& s[12] < 16
}

/// The packed value holding the slot sequence `s`.
pub open spec fn name_value_of_slots(s: Seq<u64>) -> u64
    recommends
        valid_name_slots(s),
{
    (s[0] << 59u64) | (s[1] << 54u64) | (s[2] << 49u64) | (s[3] << 44u64) | (s[4] << 39u64)
        | (s[5] << 34u64) | (s[6] << 29u64) | (s[7] << 24u64) | (s[8] << 19u64) | (s[9] << 14u64)
        | (s[10] << 9u64) | (s[11] << 4u64) | s[12]
}

proof fn lemma_name_slots_bound(v: u64)
    ensures
        forall|i: int| 0 <= i < 12 ==> #[trigger] name_slot(v, i) < 32,
        name_slot(v, 12) < 16,
        valid_name_slots(name_slots(v)),
{
    assert forall|i: int| 0 <= i < 12 implies #[trigger] name_slot(v, i) < 32 by {
        let y = v >> ((59 - 5 * i) as u64);
        assert(y & 0x1F < 32) by (bit_vector);
    }
    assert(v & 0x0F < 16) by (bit_vector);
}

/// Composing a well-formed slot sequence and taking the slots back gives
/// the same sequence.
proof fn lemma_name_slots_of_value(s: Seq<u64>)
    requires
        valid_name_slots(s),
    ensures
        name_slots(name_value_of_slots(s)) =~= s,
{
    let a0 = s[0];
    let a1 = s[1];
    let a2 = s[2];
    let a3 = s[3];
    let a4 = s[4];
    let a5 = s[5];
    let a6 = s[6];
    let a7 = s[7];
    let a8 = s[8];
    let a9 = s[9];
    let a10 = s[10];
    let a11 = s[11];
    let a12 = s[12];
    let v = name_value_of_slots(s);
    assert((v >> 59u64) & 0x1F == a0 && (v >> 54u64) & 0x1F == a1 && (v >> 49u64) & 0x1F == a2
        && (v >> 44u64) & 0x1F == a3 && (v >> 39u64) & 0x1F == a4 && (v >> 34u64) & 0x1F == a5
        && (v >> 29u64) & 0x1F == a6 && (v >> 24u64) & 0x1F == a7 && (v >> 19u64) & 0x1F == a8
        && (v >> 14u64) & 0x1F == a9 && (v >> 9u64) & 0x1F == a10 && (v >> 4u64) & 0x1F == a11
        && v & 0x0F == a12) by (bit_vector)
        requires
            v == (a0 << 59u64) | (a1 << 54u64) | (a2 << 49u64) | (a3 << 44u64) | (a4 << 39u64) | (
            a5 << 34u64) | (a6 << 29u64) | (a7 << 24u64) | (a8 << 19u64) | (a9 << 14u64) | (a10
                << 9u64) | (a11 << 4u64) | a12,
            a0 < 32,
            a1 < 32,
            a2 < 32,
            a3 < 32,
            a4 < 32,
            a5 < 32,
            a6 < 32,
            a7 < 32,
            a8 < 32,
            a9 < 32,
            a10 < 32,
            a11 < 32,
            a12 < 16,
    ;
    assert(name_slot(v, 0) == a0);
    assert(name_slot(v, 1) == a1);
    assert(name_slot(v, 2) == a2);
    assert(name_slot(v, 3) == a3);
    assert(name_slot(v, 4) == a4);
    assert(name_slot(v, 5) == a5);
    assert(name_slot(v, 6) == a6);
    assert(name_slot(v, 7) == a7);
    assert(name_slot(v, 8) == a8);
    assert(name_slot(v, 9) == a9);
    assert(name_slot(v, 10) == a10);
    assert(name_slot(v, 11) == a11);
    assert(name_slot(v, 12) == a12);
}

/// Taking a value apart into its slots and composing them again gives the
/// value back.
proof fn lemma_name_value_of_slots_of(v: u64)
    ensures
        name_value_of_slots(name_slots(v)) == v,
{
    assert((((v >> 59u64) & 0x1F) << 59u64) | (((v >> 54u64) & 0x1F) << 54u64) | (((v >> 49u64)
        & 0x1F) << 49u64) | (((v >> 44u64) & 0x1F) << 44u64) | (((v >> 39u64) & 0x1F) << 39u64) | ((
    (v >> 34u64) & 0x1F) << 34u64) | (((v >> 29u64) & 0x1F) << 29u64) | (((v >> 24u64) & 0x1F)
        << 24u64) | (((v >> 19u64) & 0x1F) << 19u64) | (((v >> 14u64) & 0x1F) << 14u64) | (((v
        >> 9u64) & 0x1F) << 9u64) | (((v >> 4u64) & 0x1F) << 4u64) | (v & 0x0F) == v)
        by (bit_vector);
}

/// Extracts the thirteen slots of `v` into a vector.
fn slots_of_value(v: u64) -> (s: Vec<u64>)
    ensures
        s@ == name_slots(v),
        valid_name_slots(s@),
{
    let mut s: Vec<u64> = Vec::new();
    let mut i: usize = 0;
    while i < 12
        invariant
            i <= 12,
            s@.len() == i,
            forall|j: int| 0 <= j < i ==> s@[j] == name_slot(v, j),
        decreases 12 - i,
    {
        let sh: u64 = 59 - 5 * (i as u64);
        s.push((v >> sh) & 0x1F);
        i += 1;
    }
    s.push(v & 0x0F);
    proof {
        assert(s@ =~= name_slots(v));
        lemma_name_slots_bound(v);
    }
    s
}

/// Packs a well-formed slot vector back into a value.
fn value_of_slots(s: &Vec<u64>) -> (v: u64)
    requires
        valid_name_slots(s@),
    ensures
        v == name_value_of_slots(s@),
        name_slots(v) == s@,
{
    let v = (s[0] << 59u64) | (s[1] << 54u64) | (s[2] << 49u64) | (s[3] << 44u64) | (s[4] << 39u64)
        | (s[5] << 34u64) | (s[6] << 29u64) | (s[7] << 24u64) | (s[8] << 19u64) | (s[9] << 14u64)
        | (s[10] << 9u64) | (s[11] << 4u64) | s[12];
    proof {
        lemma_name_slots_of_value(s@);
    }
    v
}

// ---------------------------------------------------------------------------
// The text carried by a packed value.
// ---------------------------------------------------------------------------

/// The thirteen characters of `v`, unused slots reading as dots.
pub open spec fn name_chars(v: u64) -> Seq<char> {
    Seq::new(13, |i: int| name_index_char(name_slot(v, i)))
}

/// `s` without its trailing dots.
pub open spec fn trim_trailing_dots(s: Seq<char>) -> Seq<char>
    decreases s.len(),
{
    if s.len() > 0 && s.last() == '.' {
        trim_trailing_dots(s.drop_last())
    } else {
        s
    }
}

/// The canonical text of the packed value `v`: its thirteen characters with
/// the trailing dots trimmed.
pub open spec fn name_text(v: u64) -> Seq<char> {
    trim_trailing_dots(name_chars(v))
}

/// Whether `s` is accepted by the name encoder: at most 13 characters, all
/// in the alphabet, and a 13th character of index below 16.
pub open spec fn valid_name_text(s: Seq<char>) -> bool {
    &&& s.len() <= 13
    &&& forall|i: int| 0 <= i < s.len() ==> is_name_char(#[trigger] s[i])
    &&& s.len() == 13 ==> name_char_index(s[12]) < 16
}

/// The slot sequence encoding `s`: its character indices padded with zeros.
pub open spec fn name_padded_indices(s: Seq<char>) -> Seq<u64> {
    Seq::new(13, |i: int| if i < s.len() { name_char_index(s[i]) } else { 0 })
}

/// The packed value encoding the text `s`.
pub open spec fn name_value_of_text(s: Seq<char>) -> u64 {
    name_value_of_slots(name_padded_indices(s))
}

proof fn lemma_trim_exact(s: Seq<char>, k: int)
    requires
        0 <= k <= s.len(),
        forall|j: int| k <= j < s.len() ==> s[j] == '.',
        k > 0 ==> s[k - 1] != '.',
    ensures
        trim_trailing_dots(s) == s.take(k),
    decreases s.len(),
{
    if s.len() > k {
        assert(s.last() == '.');
        lemma_trim_exact(s.drop_last(), k);
        assert(s.drop_last().take(k) =~= s.take(k));
    } else {
        assert(trim_trailing_dots(s) == s);
        assert(s.take(k) =~= s);
    }
}

// ---------------------------------------------------------------------------
// The name type.
// ---------------------------------------------------------------------------

/// An account name: a `u64` holding up to 13 packed alphabet characters.
#[derive(Debug, Copy, Clone, PartialEq, Eq, PartialOrd, Ord, Hash, Structural)]
pub struct Name {
    /// The raw packed representation of the name.
    pub value: u64,
}

impl Name {
    /// The empty name, of raw value 0.
    pub fn new() -> (n: Name)
        ensures
            n.value == 0,
    {
        Name { value: 0 }
    }

    /// The raw packed value of the name.
    pub fn raw(&self) -> (r: u64)
        ensures
            r == self.value,
    {
        self.value
    }

    /// The alphabet index of `c`.
    ///
    /// The caller must pass a character of the name alphabet; anything else
    /// is outside this function's domain.
    pub fn char_to_value(c: char) -> (r: u8)
        requires
            is_name_char(c),
        ensures
            r as u64 == name_char_index(c),
    {
        let u = c as u32;
        if u == 46 {
            0
        } else if 49 <= u && u <= 53 {
            (u - 48) as u8
        } else {
            (u - 91) as u8
        }
    }

    /// Parses a name from its string form.
    ///
    /// Returns the packed name exactly when `s` is at most 13 characters
    /// from the alphabet with an admissible 13th character; any other
    /// string is reported back inside the error.
    pub fn parse(s: &str) -> (r: Result<Name, ParseError>)
        ensures
            valid_name_text(s@) <==> r is Ok,
            r is Ok ==> r->Ok_0.value == name_value_of_text(s@),
            r is Err ==> (r->Err_0 matches ParseError::BadName(t) && t@ == s@),
    {
        let n = s.unicode_len();
        if n > 13 {
            return Err(ParseError::BadName(String::from_str(s)));
        }
        let mut idxs: Vec<u64> = Vec::new();
        let mut i: usize = 0;
        while i < n
            invariant
                i <= n,
                n == s@.len(),
                n <= 13,
                idxs@.len() == i,
                forall|j: int| 0 <= j < i ==> is_name_char(#[trigger] s@[j]),
                forall|j: int| 0 <= j < i ==> idxs@[j] == name_char_index(s@[j]),
                i > 12 ==> name_char_index(s@[12]) < 16,
            decreases n - i,
        {
            let c = s.get_char(i);
            let u = c as u32;
            let x: u64 = if u == 46 {
                0
            } else if 49 <= u && u <= 53 {
                (u - 48) as u64
            } else if 97 <= u && u <= 122 {
                (u - 91) as u64
            } else {
                return Err(ParseError::BadName(String::from_str(s)));
            };
            if i == 12 && x > 15 {
                return Err(ParseError::BadName(String::from_str(s)));
            }
            idxs.push(x);
            i += 1;
        }
        while idxs.len() < 13
            invariant
                n <= idxs@.len() <= 13,
                n == s@.len(),
                forall|j: int| 0 <= j < n ==> is_name_char(#[trigger] s@[j]),
                forall|j: int| 0 <= j < n ==> idxs@[j] == name_char_index(s@[j]),
                forall|j: int| n <= j < idxs@.len() ==> idxs@[j] == 0,
                n > 12 ==> name_char_index(s@[12]) < 16,
            decreases 13 - idxs@.len(),
        {
            idxs.push(0);
        }
        proof {
            assert(idxs@ =~= name_padded_indices(s@));
        }
        let v = value_of_slots(&idxs);
        Ok(Name { value: v })
    }

    /// The number of characters of the name: the length of its text once
    /// the trailing dots are trimmed.
    pub fn length(&self) -> (r: u8)
        ensures
            r as int == name_text(self.value).len(),
    {
        let slots = slots_of_value(self.value);
        let mut k: usize = 13;
        while k > 0 && slots[k - 1] == 0
            invariant
                k <= 13,
                slots@ == name_slots(self.value),
                valid_name_slots(slots@),
                forall|j: int| k <= j < 13 ==> name_slot(self.value, j) == 0,
            decreases k,
        {
            k -= 1;
        }
        proof {
            let v = self.value;
            assert forall|j: int| k <= j < 13 implies name_chars(v)[j] == '.' by {
                lemma_name_index_char_dot(name_slot(v, j));
            }
            if k > 0 {
                lemma_name_index_char_dot(name_slot(v, k - 1));
                assert(name_chars(v)[k - 1] != '.');
            }
            lemma_trim_exact(name_chars(v), k as int);
            assert(name_text(v).len() == k);
        }
        k as u8
    }
}

// ---------------------------------------------------------------------------
// Conversions.
// ---------------------------------------------------------------------------

impl From<u64> for Name {
    /// Wraps a raw packed value without validation.
    fn from(value: u64) -> (n: Name)
        ensures
            n.value == value,
    {
        Name { value }
    }
}

impl vstd::std_specs::convert::FromSpecImpl<u64> for Name {
    open spec fn obeys_from_spec() -> bool {
        true
    }

    open spec fn from_spec(value: u64) -> Name {
        Name { value }
    }
}

impl From<Name> for u64 {
    /// The raw packed value of the name.
    fn from(name: Name) -> (r: u64)
        ensures
            r == name.value,
    {
        name.value
    }
}

impl vstd::std_specs::convert::FromSpecImpl<Name> for u64 {
    open spec fn obeys_from_spec() -> bool {
        true
    }

    open spec fn from_spec(name: Name) -> u64 {
        name.value
    }
}

impl From<Name> for bool {
    /// Whether the name is set: false exactly for the empty name.
    fn from(name: Name) -> (r: bool)
        ensures
            r == (name.value != 0),
    {
        name.value != 0
    }
}

impl vstd::std_specs::convert::FromSpecImpl<Name> for bool {
    open spec fn obeys_from_spec() -> bool {
        true
    }

    open spec fn from_spec(name: Name) -> bool {
        name.value != 0
    }
}

impl Default for Name {
    /// The empty name.
    fn default() -> (n: Name)
        ensures
            n.value == 0,
    {
        Name { value: 0 }
    }
}

/// The thirteen ASCII bytes spelling `value`, unused slots as `.`.
pub fn name_to_bytes(value: u64) -> (r: Vec<u8>)
    ensures
        r@.len() == 13,
        forall|i: int| 0 <= i < 13 ==> r@[i] == name_index_byte(#[trigger] name_slot(value, i)),
{
    let slots = slots_of_value(value);
    let mut r: Vec<u8> = Vec::new();
    let mut i: usize = 0;
    while i < 13
        invariant
            i <= 13,
            slots@ == name_slots(value),
            valid_name_slots(slots@),
            r@.len() == i,
            forall|j: int| 0 <= j < i ==> r@[j] == name_index_byte(#[trigger] name_slot(value, j)),
        decreases 13 - i,
    {
        let x = slots[i];
        let b: u8 = if x == 0 {
            46
        } else if x <= 5 {
            (x + 48) as u8
        } else {
            (x + 91) as u8
        };
        r.push(b);
        i += 1;
    }
    r
}

impl Name {
    /// The string form of the name: its characters with trailing dots
    /// trimmed.
    pub fn to_string(&self) -> (r: String)
        ensures
            r@ == name_text(self.value),
    {
        let bytes = name_to_bytes(self.value);
        let mut k: usize = 13;
        while k > 0 && bytes[k - 1] == 46
            invariant
                k <= 13,
                bytes@.len() == 13,
                forall|i: int| 0 <= i < 13 ==> bytes@[i] == name_index_byte(
                    #[trigger] name_slot(self.value, i),
                ),
                forall|j: int| k <= j < 13 ==> bytes@[j] == 46,
            decreases k,
        {
            k -= 1;
        }
        let mut out: Vec<char> = Vec::new();
        let mut i: usize = 0;
        while i < k
            invariant
                i <= k <= 13,
                bytes@.len() == 13,
                out@.len() == i,
                forall|j: int| 0 <= j < i ==> out@[j] == (bytes@[j] as char),
            decreases k - i,
        {
            out.push(bytes[i] as char);
            i += 1;
        }
        proof {
            let v = self.value;
            lemma_name_slots_bound(v);
            assert forall|j: int| k <= j < 13 implies name_chars(v)[j] == '.' by {
                lemma_name_index_char_dot(name_slot(v, j));
                assert(name_index_byte(name_slot(v, j)) == 46);
                assert((46u8 as char) as u32 == 46);
                assert('.' as u32 == 46);
                char_u32_cast('.', 46);
            }
            if k > 0 {
                lemma_name_index_char_dot(name_slot(v, k - 1));
                assert(bytes@[k - 1] != 46);
                assert(name_chars(v)[k - 1] != '.');
            }
            lemma_trim_exact(name_chars(v), k as int);
            assert(out@ =~= name_text(v));
        }
        chars_to_string(out)
    }
}

// ---------------------------------------------------------------------------
// Prefix and suffix along the rightmost meaningful dot.
// ---------------------------------------------------------------------------

/// Whether some slot after position `i` holds a character.
pub open spec fn has_tail_char(s: Seq<u64>, i: int) -> bool {
    exists|j: int| i < j < 13 && s[j] != 0
}

/// Whether slot `i` is a separating dot: a dot with a character after it.
pub open spec fn is_name_sep(s: Seq<u64>, i: int) -> bool {
    s[i] == 0 && has_tail_char(s, i)
}

/// The largest separating-dot position below `k`, or -1 if there is none.
pub open spec fn last_sep_below(s: Seq<u64>, k: int) -> int
    decreases k,
{
    if k <= 0 {
        -1
    } else if is_name_sep(s, k - 1) {
        k - 1
    } else {
        last_sep_below(s, k - 1)
    }
}

/// The position of the rightmost dot that still has a character after it,
/// or -1 if no such dot exists.
pub open spec fn name_last_sep(s: Seq<u64>) -> int {
    last_sep_below(s, 13)
}

proof fn lemma_last_sep_none(s: Seq<u64>, k: int)
    requires
        0 <= k <= 13,
        forall|j: int| 0 <= j < k ==> !is_name_sep(s, j),
    ensures
        last_sep_below(s, k) == -1,
    decreases k,
{
    if k > 0 {
        lemma_last_sep_none(s, k - 1);
    }
}

proof fn lemma_last_sep_some(s: Seq<u64>, k: int, p: int)
    requires
        0 <= p < k <= 13,
        is_name_sep(s, p),
        forall|j: int| p < j < k ==> !is_name_sep(s, j),
    ensures
        last_sep_below(s, k) == p,
    decreases k,
{
    if k - 1 > p {
        lemma_last_sep_some(s, k - 1, p);
    }
}

/// The slots of the prefix of a name with slots `s`: everything from the
/// rightmost separating dot on is cleared; without such a dot the name is
/// its own prefix.
pub open spec fn name_prefix_slots(s: Seq<u64>) -> Seq<u64> {
    let p = name_last_sep(s);
    if p == -1 {
        s
    } else {
        Seq::new(13, |i: int| if i < p { s[i] } else { 0 })
    }
}

/// The slots of the suffix of a name with slots `s`: the characters after
/// the rightmost separating dot, left-justified; without such a dot the
/// name is its own suffix.
pub open spec fn name_suffix_slots(s: Seq<u64>) -> Seq<u64> {
    let p = name_last_sep(s);
    if p == -1 {
        s
    } else {
        Seq::new(13, |i: int| if i < 13 - p - 1 { s[p + 1 + i] } else { 0 })
    }
}

/// The packed prefix of the packed name `v`.
pub open spec fn name_prefix_value(v: u64) -> u64 {
    name_value_of_slots(name_prefix_slots(name_slots(v)))
}

/// The packed suffix of the packed name `v`.
pub open spec fn name_suffix_value(v: u64) -> u64 {
    name_value_of_slots(name_suffix_slots(name_slots(v)))
}

/// Finds the rightmost separating dot of `slots`, if any.
fn find_last_sep(slots: &Vec<u64>) -> (r: Option<usize>)
    requires
        slots@.len() == 13,
    ensures
        match r {
            Some(p) => p == name_last_sep(slots@) && p < 13,
            None => name_last_sep(slots@) == -1,
        },
{
    let mut i: usize = 13;
    let mut seen = false;
    while i > 0
        invariant
            i <= 13,
            slots@.len() == 13,
            seen == has_tail_char(slots@, i - 1),
            forall|j: int| i <= j < 13 ==> !is_name_sep(slots@, j),
        decreases i,
    {
        i -= 1;
        if slots[i] == 0 {
            if seen {
                proof {
                    lemma_last_sep_some(slots@, 13, i as int);
                }
                return Some(i);
            }
        } else {
            seen = true;
        }
        proof {
            assert(has_tail_char(slots@, i - 1) == (slots@[i as int] != 0 || has_tail_char(
                slots@,
                i as int,
            )));
        }
    }
    proof {
        lemma_last_sep_none(slots@, 13);
    }
    None
}

impl Name {
    /// The prefix of the name: everything before the rightmost dot that is
    /// followed by a character.  A name without such a dot is its own
    /// prefix.
    pub fn prefix(&self) -> (r: Name)
        ensures
            r.value == name_prefix_value(self.value),
    {
        let slots = slots_of_value(self.value);
        match find_last_sep(&slots) {
            None => {
                proof {
                    lemma_name_value_of_slots_of(self.value);
                }
                Name { value: self.value }
            },
            Some(p) => {
                let mut out: Vec<u64> = Vec::new();
                let mut i: usize = 0;
                while i < 13
                    invariant
                        i <= 13,
                        p < 13,
                        slots@ == name_slots(self.value),
                        valid_name_slots(slots@),
                        out@.len() == i,
                        forall|j: int| 0 <= j < i ==> out@[j] == (if j < p {
                            slots@[j]
                        } else {
                            0
                        }),
                    decreases 13 - i,
                {
                    if i < p {
                        out.push(slots[i]);
                    } else {
                        out.push(0);
                    }
                    i += 1;
                }
                proof {
                    assert(out@ =~= name_prefix_slots(name_slots(self.value)));
                }
                let v = value_of_slots(&out);
                Name { value: v }
            },
        }
    }

    /// The suffix of the name: the characters after the rightmost dot that
    /// is followed by a character.  A name without such a dot is its own
    /// suffix.
    pub fn suffix(&self) -> (r: Name)
        ensures
            r.value == name_suffix_value(self.value),
    {
        let slots = slots_of_value(self.value);
        match find_last_sep(&slots) {
            None => {
                proof {
                    lemma_name_value_of_slots_of(self.value);
                }
                Name { value: self.value }
            },
            Some(p) => {
                let mut out: Vec<u64> = Vec::new();
                let mut i: usize = 0;
                while i < 13
                    invariant
                        i <= 13,
                        p < 13,
                        slots@ == name_slots(self.value),
                        valid_name_slots(slots@),
                        out@.len() == i,
                        forall|j: int| 0 <= j < i ==> out@[j] == (if j < 13 - p - 1 {
                            slots@[p + 1 + j]
                        } else {
                            0
                        }),
                    decreases 13 - i,
                {
                    if i < 13 - p - 1 {
                        out.push(slots[p + 1 + i]);
                    } else {
                        out.push(0);
                    }
                    i += 1;
                }
                proof {
                    assert(out@ =~= name_suffix_slots(name_slots(self.value)));
                }
                let v = value_of_slots(&out);
                Name { value: v }
            },
        }
    }
}

// ---------------------------------------------------------------------------
// Laws.
// ---------------------------------------------------------------------------

proof fn lemma_trim_append_dots(a: Seq<char>, b: Seq<char>)
    requires
        forall|j: int| 0 <= j < b.len() ==> b[j] == '.',
    ensures
        trim_trailing_dots(a + b) == trim_trailing_dots(a),
    decreases b.len(),
{
    if b.len() > 0 {
        assert((a + b).last() == '.');
        assert((a + b).drop_last() =~= a + b.drop_last());
        lemma_trim_append_dots(a, b.drop_last());
    } else {
        assert(a + b =~= a);
    }
}

/// Round trip of the name codec: decoding an encoded string gives the
/// string back with its trailing dots trimmed.
pub proof fn lemma_name_round_trip(s: Seq<char>)
    requires
        valid_name_text(s),
    ensures
        name_text(name_value_of_text(s)) == trim_trailing_dots(s),
{
    let u = name_padded_indices(s);
    assert forall|i: int| 0 <= i < 12 implies u[i] < 32 by {
        if i < s.len() {
            assert(is_name_char(s[i]));
        }
    }
    assert(u[12] < 16);
    lemma_name_slots_of_value(u);
    let v = name_value_of_text(s);
    assert(name_slots(v) =~= u);
    let pad = Seq::new((13 - s.len()) as nat, |i: int| '.');
    assert forall|i: int| 0 <= i < 13 implies name_chars(v)[i] == (s + pad)[i] by {
        if i < s.len() {
            lemma_name_char_inverse(s[i]);
        }
    }
    assert(name_chars(v) =~= s + pad);
    lemma_trim_append_dots(s, pad);
}

/// The length of an encoded name equals the length of the encoded string,
/// provided the string does not end in a dot.
pub proof fn lemma_name_length(s: Seq<char>)
    requires
        valid_name_text(s),
        s.len() > 0 ==> s.last() != '.',
    ensures
        name_text(name_value_of_text(s)).len() == s.len(),
{
    lemma_name_round_trip(s);
    assert(trim_trailing_dots(s) == s);
}

/// A name without a separating dot is its own suffix, and its own prefix.
pub proof fn lemma_name_no_sep_suffix(v: u64)
    requires
        name_last_sep(name_slots(v)) == -1,
    ensures
        name_suffix_value(v) == v,
        name_prefix_value(v) == v,
{
    lemma_name_value_of_slots_of(v);
}

} // verus!
