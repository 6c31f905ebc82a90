//! The one source of chance.

use vstd::prelude::*;

verus! {

/// A random number below `n`.
///
/// Calls `fastrand::u32` with the range from zero up to, not including, `n`.
/// That function draws from the thread's own generator and panics on an empty
/// range, which `n > 0` rules out. All that is claimed of the result is that
/// it lies in the range; nothing is said of how the numbers are spread, and two
/// calls may return different numbers.
#[verifier::external_body]
pub(crate) fn random_below(n: u32) -> (r: u32)
    requires
        n > 0,
    ensures
        r < n,
{
    fastrand::u32(0..n)
}

} // verus!
