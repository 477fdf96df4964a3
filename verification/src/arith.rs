//! Truncating signed division, as the hardware performs it.

use vstd::math::abs;
use vstd::prelude::*;

verus! {

/// Signed division truncating toward zero (the `/` of the machine), for a
/// nonzero divisor.
pub open spec fn trunc_div(a: int, b: int) -> int
    recommends
        b != 0,
{
    if (a >= 0) == (b >= 0) {
        abs(a) as int / abs(b) as int
    } else {
        -(abs(a) as int / abs(b) as int)
    }
}

/// The magnitude of `a` as a `u64`.
pub(crate) fn abs_u64(a: i64) -> (r: u64)
    ensures
        r as int == abs(a as int),
{
    if a >= 0 {
        a as u64
    } else {
        (-(a as i128)) as u64
    }
}

/// Truncating signed division on machine words.
pub(crate) fn div_trunc_i64(a: i64, b: i64) -> (r: i64)
    requires
        b != 0,
        !(a == i64::MIN && b == -1),
    ensures
        r as int == trunc_div(a as int, b as int),
{
    let ma = abs_u64(a);
    let mb = abs_u64(b);
    let q = ma / mb;
    proof {
        vstd::arithmetic::div_mod::lemma_div_nonincreasing(ma as int, mb as int);
        vstd::arithmetic::div_mod::lemma_div_pos_is_pos(ma as int, mb as int);
    }
    if q == 9223372036854775808u64 {
        // only |a| = 2^63 over |b| = 1 reaches this; b == -1 is excluded,
        // so the quotient is exactly the minimum value
        proof {
            vstd::arithmetic::div_mod::lemma_fundamental_div_mod(ma as int, mb as int);
            vstd::arithmetic::div_mod::lemma_mod_bound(ma as int, mb as int);
            let r0 = ma as int % mb as int;
            assert(mb == 1) by (nonlinear_arith)
                requires
                    ma as int == 9223372036854775808int * (mb as int) + r0,
                    r0 >= 0,
                    ma <= 9223372036854775808u64,
                    mb >= 1,
            ;
            assert(b == 1);
            assert(a == i64::MIN);
            assert(trunc_div(a as int, b as int) == -9223372036854775808int);
        }
        i64::MIN
    } else if (a >= 0) == (b >= 0) {
        q as i64
    } else {
        -(q as i64)
    }
}

} // verus!
