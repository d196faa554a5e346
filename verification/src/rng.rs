//! Randomness at the library's edge.

use rand::Rng;
use vstd::prelude::*;

verus! {

/// Relies on rand::Rng::random_range over an integer range: the draw lies
/// in `[low, high)`, and the call panics only on an empty range, which the
/// precondition rules out. The draw is not reproducible, so nothing more is
/// promised of it.
#[verifier::external_body]
pub(crate) fn random_in_range(low: u64, high: u64) -> (r: u64)
    requires
        low < high,
    ensures
        low <= r < high,
{
    rand::rng().random_range(low..high)
}

} // verus!
