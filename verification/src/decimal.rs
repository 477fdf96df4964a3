//! Decimal digit strings: reading and writing unsigned values.

use vstd::prelude::*;

verus! {

/// Whether `c` is a decimal digit.
pub open spec fn is_digit_char(c: char) -> bool {
    48 <= c as u32 <= 57
}

/// The numeric value of the digit `c`.
pub open spec fn digit_val(c: char) -> int {
    c as u32 - 48
}

/// Whether every character of `s` is a decimal digit.
pub open spec fn all_digits(s: Seq<char>) -> bool {
    forall|i: int| 0 <= i < s.len() ==> is_digit_char(#[trigger] s[i])
}

/// The value of the digit string `s`, read most significant first.
pub open spec fn dec_value(s: Seq<char>) -> int
    decreases s.len(),
{
    if s.len() == 0 {
        0
    } else {
        dec_value(s.drop_last()) * 10 + digit_val(s.last())
    }
}

/// The character of the decimal digit `d`.
pub open spec fn digit_char(d: int) -> char {
    ((d + 48) as u8) as char
}

/// The digit string of `n`, without leading zeros (just `0` for zero).
pub open spec fn dec_digits(n: int) -> Seq<char>
    decreases n,
{
    if n < 10 {
        seq![digit_char(n)]
    } else {
        dec_digits(n / 10).push(digit_char(n % 10))
    }
}

/// The digit string of `n` left-padded with zeros to at least `width`
/// characters.
pub open spec fn dec_digits_padded(n: int, width: int) -> Seq<char> {
    if dec_digits(n).len() >= width {
        dec_digits(n)
    } else {
        Seq::new((width - dec_digits(n).len()) as nat, |i: int| '0') + dec_digits(n)
    }
}

pub proof fn lemma_dec_value_nonneg(s: Seq<char>)
    requires
        all_digits(s),
    ensures
        dec_value(s) >= 0,
    decreases s.len(),
{
    if s.len() > 0 {
        assert(all_digits(s.drop_last())) by {
            assert(forall|i: int| 0 <= i < s.len() - 1 ==> s.drop_last()[i] == s[i]);
        }
        lemma_dec_value_nonneg(s.drop_last());
    }
}

/// A digit string is worth at least any of its prefixes.
pub proof fn lemma_dec_value_prefix(s: Seq<char>, i: int)
    requires
        all_digits(s),
        0 <= i <= s.len(),
    ensures
        dec_value(s.take(i)) <= dec_value(s),
    decreases s.len(),
{
    if i < s.len() {
        assert(all_digits(s.drop_last())) by {
            assert(forall|j: int| 0 <= j < s.len() - 1 ==> s.drop_last()[j] == s[j]);
        }
        assert(s.take(i) =~= s.drop_last().take(i));
        lemma_dec_value_prefix(s.drop_last(), i);
        lemma_dec_value_nonneg(s.drop_last());
        assert(dec_value(s) == dec_value(s.drop_last()) * 10 + digit_val(s.last()));
        assert(dec_value(s.drop_last()) * 10 >= dec_value(s.drop_last())) by (nonlinear_arith)
            requires
                dec_value(s.drop_last()) >= 0,
        ;
    } else {
        assert(s.take(i) =~= s);
    }
}

/// Reads the value of a digit string, refusing anything above `limit`.
///
/// Returns the value exactly when `s` is one or more digits spelling a
/// number of at most `limit`.
pub fn parse_dec_bounded(s: &str, limit: u64) -> (r: Option<u64>)
    ensures
        match r {
            Some(v) => {
                &&& s@.len() >= 1
                &&& all_digits(s@)
                &&& v as int == dec_value(s@)
                &&& v <= limit
            },
            None => !(s@.len() >= 1 && all_digits(s@) && dec_value(s@) <= limit),
        },
{
    let n = s.unicode_len();
    if n == 0 {
        return None;
    }
    let mut val: u128 = 0;
    let mut i: usize = 0;
    while i < n
        invariant
            0 < n == s@.len(),
            i <= n,
            val as int == dec_value(s@.take(i as int)),
            val <= limit as u128,
            forall|j: int| 0 <= j < i ==> is_digit_char(#[trigger] s@[j]),
        decreases n - i,
    {
        let c = s.get_char(i);
        let u = c as u32;
        if u < 48 || u > 57 {
            return None;
        }
        proof {
            assert(s@.take(i + 1).drop_last() =~= s@.take(i as int));
            assert(s@.take(i + 1).last() == s@[i as int]);
        }
        let d = (u - 48) as u128;
        val = val * 10 + d;
        if val > limit as u128 {
            proof {
                let t = s@.take(i + 1);
                assert(forall|j: int| 0 <= j < t.len() ==> is_digit_char(#[trigger] t[j]));
                assert(dec_value(t) == val);
                if all_digits(s@) {
                    lemma_dec_value_prefix(s@, i + 1);
                    assert(dec_value(s@) >= dec_value(t));
                }
            }
            return None;
        }
        i += 1;
    }
    proof {
        assert(s@.take(n as int) =~= s@);
    }
    Some(val as u64)
}

/// Whether `t` spells a value of a signed 64-bit machine word: an
/// optional sign, then digits, within the asymmetric two's-complement
/// range.
pub open spec fn valid_signed_text(t: Seq<char>) -> bool {
    if t.len() == 0 {
        false
    } else {
        let body = if t[0] == '-' || t[0] == '+' {
            t.skip(1)
        } else {
            t
        };
        &&& body.len() >= 1
        &&& all_digits(body)
        &&& if t[0] == '-' {
            dec_value(body) <= 0x8000_0000_0000_0000
        } else {
            dec_value(body) <= 0x7FFF_FFFF_FFFF_FFFF
        }
    }
}

/// The value spelled by the signed decimal `t`.
pub open spec fn signed_value(t: Seq<char>) -> int {
    if t.len() > 0 && t[0] == '-' {
        -dec_value(t.skip(1))
    } else if t.len() > 0 && t[0] == '+' {
        dec_value(t.skip(1))
    } else {
        dec_value(t)
    }
}

/// Reads a signed 64-bit value from its decimal spelling.
///
/// Returns the value exactly when `s` is an optional sign followed by one
/// or more digits spelling a number the type can hold.
pub fn parse_i64(s: &str) -> (r: Option<i64>)
    ensures
        match r {
            Some(v) => valid_signed_text(s@) && v as int == signed_value(s@),
            None => !valid_signed_text(s@),
        },
{
    let n = s.unicode_len();
    if n == 0 {
        return None;
    }
    let c0 = s.get_char(0);
    let u0 = c0 as u32;
    if u0 == 45 {
        let body = s.substring_char(1, n);
        proof {
            assert(body@ =~= s@.skip(1));
        }
        match parse_dec_bounded(body, 9_223_372_036_854_775_808u64) {
            Some(mag) => {
                if mag == 9_223_372_036_854_775_808u64 {
                    Some(i64::MIN)
                } else {
                    Some(-(mag as i64))
                }
            },
            None => None,
        }
    } else if u0 == 43 {
        let body = s.substring_char(1, n);
        proof {
            assert(body@ =~= s@.skip(1));
        }
        match parse_dec_bounded(body, 9_223_372_036_854_775_807u64) {
            Some(mag) => Some(mag as i64),
            None => None,
        }
    } else {
        match parse_dec_bounded(s, 9_223_372_036_854_775_807u64) {
            Some(mag) => Some(mag as i64),
            None => None,
        }
    }
}

/// Appends the decimal digits of `n` to `out`.
pub fn push_dec_digits(n: u64, out: &mut Vec<char>)
    ensures
        final(out)@ == old(out)@ + dec_digits(n as int),
    decreases n,
{
    if n < 10 {
        out.push(((n + 48) as u8) as char);
        proof {
            assert(final(out)@ =~= old(out)@ + dec_digits(n as int));
        }
    } else {
        push_dec_digits(n / 10, out);
        out.push(((n % 10 + 48) as u8) as char);
        proof {
            assert(final(out)@ =~= old(out)@ + dec_digits(n as int));
        }
    }
}

/// The power of ten with exponent `p` (1 for any exponent below 1).
pub open spec fn pow10(p: int) -> int
    decreases p,
{
    if p <= 0 {
        1
    } else {
        10 * pow10(p - 1)
    }
}

/// Powers of ten are positive and weakly increasing in the exponent.
pub proof fn lemma_pow10_pos(p: int)
    ensures
        pow10(p) >= 1,
        p >= 1 ==> pow10(p) >= 10,
    decreases p,
{
    if p > 0 {
        lemma_pow10_pos(p - 1);
    }
}

/// The concrete value of every power of ten an `i64` amount can meet.
pub proof fn lemma_pow10_18()
    ensures
        pow10(18) == 1_000_000_000_000_000_000,
{
    reveal_with_fuel(pow10, 20);
}

/// A power of ten with a smaller exponent is no larger.
pub proof fn lemma_pow10_increases(p: int, q: int)
    requires
        p <= q,
    ensures
        pow10(p) <= pow10(q),
    decreases q,
{
    if p < q && q > 0 {
        lemma_pow10_increases(p, q - 1);
        lemma_pow10_pos(q - 1);
    }
}

/// The number of digits of `n` is at most `w` when `n` is below `10^w`.
pub proof fn lemma_dec_digits_len(n: int, w: int)
    requires
        0 <= n < pow10(w),
        w >= 1,
    ensures
        1 <= dec_digits(n).len() <= w,
    decreases w,
{
    if n < 10 {
    } else {
        assert(w >= 2) by {
            if w == 1 {
                lemma_pow10_pos(0);
            }
        }
        assert(pow10(w) == 10 * pow10(w - 1));
        lemma_pow10_pos(w - 1);
        assert(n / 10 < pow10(w - 1)) by (nonlinear_arith)
            requires
                n < 10 * pow10(w - 1),
                n >= 0,
                pow10(w - 1) > 0,
        ;
        lemma_dec_digits_len(n / 10, w - 1);
    }
}

/// The value of two digit strings in sequence: the first shifted by the
/// length of the second, plus the second.
pub proof fn lemma_dec_value_concat(x: Seq<char>, y: Seq<char>)
    ensures
        dec_value(x + y) == dec_value(x) * pow10(y.len() as int) + dec_value(y),
    decreases y.len(),
{
    if y.len() == 0 {
        assert(x + y =~= x);
        assert(pow10(0) == 1);
    } else {
        assert((x + y).drop_last() =~= x + y.drop_last());
        assert((x + y).last() == y.last());
        lemma_dec_value_concat(x, y.drop_last());
        let n = y.len() as int;
        let vx = dec_value(x);
        let q = dec_value(y.drop_last());
        assert(dec_value(x + y) == (vx * pow10(n - 1) + q) * 10 + digit_val(y.last()));
        assert((vx * pow10(n - 1)) * 10 == vx * (pow10(n - 1) * 10)) by (nonlinear_arith);
        assert(pow10(n) == 10 * pow10(n - 1));
        assert(dec_value(y) == q * 10 + digit_val(y.last()));
    }
}

/// A run of zero characters is worth zero.
pub proof fn lemma_dec_value_zeros(z: Seq<char>)
    requires
        forall|i: int| 0 <= i < z.len() ==> z[i] == '0',
    ensures
        dec_value(z) == 0,
    decreases z.len(),
{
    if z.len() > 0 {
        assert(forall|i: int| 0 <= i < z.len() - 1 ==> z.drop_last()[i] == z[i]);
        lemma_dec_value_zeros(z.drop_last());
        assert(z.last() == '0');
        assert(digit_val('0') == 0);
    }
}

/// Reading back the digit string of `n` gives `n`.
pub proof fn lemma_dec_digits_value(n: int)
    requires
        n >= 0,
    ensures
        all_digits(dec_digits(n)),
        dec_value(dec_digits(n)) == n,
    decreases n,
{
    if n < 10 {
        assert(dec_digits(n) == seq![digit_char(n)]);
        assert(is_digit_char(digit_char(n)));
        assert(dec_value(dec_digits(n)) == dec_value(seq![digit_char(n)].drop_last()) * 10
            + digit_val(digit_char(n)));
        assert(seq![digit_char(n)].drop_last() =~= Seq::<char>::empty());
    } else {
        lemma_dec_digits_value(n / 10);
        let s = dec_digits(n);
        assert(s == dec_digits(n / 10).push(digit_char(n % 10)));
        assert(s.drop_last() =~= dec_digits(n / 10));
        assert(s.last() == digit_char(n % 10));
        assert(is_digit_char(digit_char(n % 10)));
        assert(forall|i: int| 0 <= i < s.len() - 1 ==> s[i] == dec_digits(n / 10)[i]);
        assert(all_digits(s));
        assert(dec_value(s) == (n / 10) * 10 + n % 10);
        assert((n / 10) * 10 + n % 10 == n) by (nonlinear_arith)
            requires
                n >= 0,
        ;
    }
}

} // verus!
