//! A placeholder for printing shifted decimals.

use vstd::prelude::*;

verus! {

/// Writes a number shifted by a number of decimal places as a string.
///
/// This routine was never finished: it ignores its arguments and yields
/// the empty string.
pub fn write_decimal(_number: u64, _num_decimal_places: u8, _negative: bool) -> (r: String)
    ensures
        r@.len() == 0,
{
    String::new()
}

} // verus!
