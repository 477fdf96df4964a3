//! Bridge from character vectors to `String`.

use vstd::prelude::*;

verus! {

/// Relies on `String::from_iter` (through `Iterator::collect`): the
/// returned string holds exactly the characters of the vector, in order.
#[verifier::external_body]
pub(crate) fn chars_to_string(v: Vec<char>) -> (r: String)
    ensures
        r@ == v@,
{
    v.into_iter().collect()
}

/// The number of occurrences of `c` in `s` at or after position `i`.
pub open spec fn char_count_from(s: Seq<char>, c: char, i: int) -> int
    decreases s.len() - i,
{
    if i < 0 || i >= s.len() {
        0
    } else if s[i] == c {
        1 + char_count_from(s, c, i + 1)
    } else {
        char_count_from(s, c, i + 1)
    }
}

/// The number of occurrences of `c` in `s`.
pub open spec fn char_count(s: Seq<char>, c: char) -> int {
    char_count_from(s, c, 0)
}

/// The first occurrence of `c` in `s` at or after position `i`, or -1.
pub open spec fn char_pos_from(s: Seq<char>, c: char, i: int) -> int
    decreases s.len() - i,
{
    if i < 0 || i >= s.len() {
        -1
    } else if s[i] == c {
        i
    } else {
        char_pos_from(s, c, i + 1)
    }
}

/// The position of the first occurrence of `c` in `s`, or -1.
pub open spec fn char_pos(s: Seq<char>, c: char) -> int {
    char_pos_from(s, c, 0)
}

proof fn lemma_char_count_none(s: Seq<char>, c: char, i: int)
    requires
        0 <= i <= s.len(),
        forall|j: int| i <= j < s.len() ==> s[j] != c,
    ensures
        char_count_from(s, c, i) == 0,
    decreases s.len() - i,
{
    if i < s.len() {
        lemma_char_count_none(s, c, i + 1);
    }
}

pub(crate) proof fn lemma_char_count_one(s: Seq<char>, c: char, i: int, p: int)
    requires
        0 <= i <= p < s.len(),
        s[p] == c,
        forall|j: int| i <= j < s.len() && j != p ==> s[j] != c,
    ensures
        char_count_from(s, c, i) == 1,
    decreases s.len() - i,
{
    if i == p {
        lemma_char_count_none(s, c, i + 1);
    } else {
        lemma_char_count_one(s, c, i + 1, p);
    }
}

proof fn lemma_char_count_ge1(s: Seq<char>, c: char, i: int, p: int)
    requires
        0 <= i <= p < s.len(),
        s[p] == c,
    ensures
        char_count_from(s, c, i) >= 1,
    decreases s.len() - i,
{
    if i < p {
        lemma_char_count_ge1(s, c, i + 1, p);
    } else {
        lemma_char_count_nonneg(s, c, i + 1);
    }
}

proof fn lemma_char_count_nonneg(s: Seq<char>, c: char, i: int)
    ensures
        char_count_from(s, c, i) >= 0,
    decreases s.len() - i,
{
    if 0 <= i < s.len() {
        lemma_char_count_nonneg(s, c, i + 1);
    }
}

proof fn lemma_char_count_ge2(s: Seq<char>, c: char, i: int, p: int, q: int)
    requires
        0 <= i <= p < q < s.len(),
        s[p] == c,
        s[q] == c,
    ensures
        char_count_from(s, c, i) >= 2,
    decreases s.len() - i,
{
    if i < p {
        lemma_char_count_ge2(s, c, i + 1, p, q);
    } else {
        lemma_char_count_ge1(s, c, i + 1, q);
    }
}

pub(crate) proof fn lemma_char_pos_is(s: Seq<char>, c: char, i: int, k: int)
    requires
        0 <= i <= k <= s.len(),
        forall|j: int| i <= j < k ==> s[j] != c,
        k < s.len() ==> s[k] == c,
    ensures
        char_pos_from(s, c, i) == if k < s.len() {
            k
        } else {
            -1
        },
    decreases k - i,
{
    if i < k {
        lemma_char_pos_is(s, c, i + 1, k);
    }
}

/// Where `c` occurs at all, its first position carries `c` and nothing
/// before that position does.
pub proof fn lemma_char_pos_count(s: Seq<char>, c: char, i: int)
    requires
        0 <= i <= s.len(),
    ensures
        (char_count_from(s, c, i) > 0) <==> (char_pos_from(s, c, i) != -1),
        char_pos_from(s, c, i) != -1 ==> i <= char_pos_from(s, c, i) < s.len() && s[char_pos_from(
            s,
            c,
            i,
        )] == c,
    decreases s.len() - i,
{
    if i < s.len() {
        lemma_char_pos_count(s, c, i + 1);
        lemma_char_count_nonneg(s, c, i + 1);
    }
}

/// Splits `s` at its single occurrence of `sep`.
///
/// Returns the two surrounding parts exactly when `sep` occurs exactly
/// once in `s`.
pub(crate) fn split_two<'a>(s: &'a str, sep: char) -> (r: Option<(&'a str, &'a str)>)
    ensures
        match r {
            Some(parts) => {
                &&& char_count(s@, sep) == 1
                &&& 0 <= char_pos(s@, sep) < s@.len()
                &&& parts.0@ == s@.take(char_pos(s@, sep))
                &&& parts.1@ == s@.skip(char_pos(s@, sep) + 1)
            },
            None => char_count(s@, sep) != 1,
        },
{
    let n = s.unicode_len();
    let mut p: usize = 0;
    let mut found = false;
    let mut twice = false;
    let mut i: usize = 0;
    while i < n
        invariant
            i <= n == s@.len(),
            !found ==> forall|j: int| 0 <= j < i ==> s@[j] != sep,
            found ==> p < i && s@[p as int] == sep && (forall|j: int| 0 <= j < p ==> s@[j] != sep),
            twice ==> found && exists|j: int| p < j < i && s@[j] == sep,
            !twice && found ==> forall|j: int| p < j < i ==> s@[j] != sep,
        decreases n - i,
    {
        let c = s.get_char(i);
        if c == sep {
            if found {
                twice = true;
            } else {
                p = i;
                found = true;
            }
        }
        i += 1;
    }
    if !found {
        proof {
            lemma_char_count_none(s@, sep, 0);
        }
        return None;
    }
    if twice {
        proof {
            let q = choose|j: int| p < j < n && s@[j] == sep;
            lemma_char_count_ge2(s@, sep, 0, p as int, q);
        }
        return None;
    }
    proof {
        lemma_char_count_one(s@, sep, 0, p as int);
        lemma_char_pos_is(s@, sep, 0, p as int);
    }
    let a = s.substring_char(0, p);
    let b = s.substring_char(p + 1, n);
    proof {
        assert(a@ =~= s@.take(p as int));
        assert(b@ =~= s@.skip(p as int + 1));
    }
    Some((a, b))
}

} // verus!
