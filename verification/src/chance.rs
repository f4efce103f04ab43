//! Chance: numbers drawn at random.

use vstd::prelude::*;

use rand::Rng;

verus! {

/// Trusted: `Rng::random_range` on the thread's generator draws a number of the range, which
/// must not be empty. Which one it draws is left to chance.
#[verifier::external_body]
pub(crate) fn random_between(low: usize, high: usize) -> (r: usize)
    requires
        low < high,
    ensures
        low <= r < high,
{
    rand::rng().random_range(low..high)
}

} // verus!
