//! Random choices.

use vstd::prelude::*;

verus! {

/// Draws a number with `Rng::gen_range` of the `rand` crate, on the
/// generator that `thread_rng` returns and the range from 0 up to, and
/// without, `bound`.
///
/// Trusted: the number drawn lies in that range. Which number it is
/// depends on chance. `gen_range` panics on an empty range, which the
/// precondition leaves out; `thread_rng` panics where the system gives it
/// no seed.
#[verifier::external_body]
pub(crate) fn random_below(bound: usize) -> (drawn: usize)
    requires
        bound > 0,
    ensures
        drawn < bound,
{
    rand::Rng::gen_range(&mut rand::thread_rng(), 0..bound)
}

} // verus!
