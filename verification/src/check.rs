//! The guard primitive used by callers to signal invariant violations.

use vstd::prelude::*;

verus! {

/// Asserts that a condition holds.
///
/// In a fail-fast execution context this guard would abort the process
/// when the condition is false; here the condition is a precondition
/// instead, so a verified caller can never reach the aborting case and
/// the function itself does nothing.
pub fn check(predicate: bool, message: &str)
    requires
        predicate,
{
}

} // verus!
