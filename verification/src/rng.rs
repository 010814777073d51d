//! The random draws the generator and the confused monsters make.

use vstd::prelude::*;
use rand::Rng;

verus! {

/// Calls `rand::Rng::gen_range` on `rand::thread_rng()`: a draw from the
/// half-open range `low..high`. The call panics unless `low < high`, which the
/// precondition rules out; all that is claimed of the outcome is that it lies
/// in the range.
#[verifier::external_body]
pub(crate) fn random_in_range(low: i32, high: i32) -> (r: i32)
    requires
        low < high,
    ensures
        low <= r < high,
{
    rand::thread_rng().gen_range(low, high)
}

/// Calls `rand::random::<bool>()`: a coin flip. Nothing is claimed of the
/// outcome.
#[verifier::external_body]
pub(crate) fn coin_flip() -> bool {
    rand::random()
}

} // verus!
