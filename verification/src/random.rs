//! The one place where chance enters the game.

use rand::Rng;
use vstd::prelude::*;

verus! {

/// Draws a number between `low` and `high`, both included: `Rng::gen_range`
/// of the `rand` crate on the inclusive range, with the generator of the
/// current thread that `rand::thread_rng` hands out.
///
/// Nothing here is proved. The contract takes from `rand` that `gen_range`
/// returns a number inside the range it was given. `gen_range` panics on an
/// empty range, which `requires` rules out. Which number comes is left open,
/// as it is up to chance; two draws from one range may differ.
///
/// Whatever the range, `thread_rng` stops the program if the system gives it
/// no seed.
#[verifier::external_body]
pub(crate) fn sample_inclusive(low: u32, high: u32) -> (sample: u32)
    requires
        low <= high,
    ensures
        low <= sample <= high,
{
    rand::thread_rng().gen_range(low..=high)
}

} // verus!
