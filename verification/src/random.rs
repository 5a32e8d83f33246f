use vstd::prelude::*;

use rand::Rng;
use rand::SeedableRng;

verus! {

#[verifier::external_type_specification]
#[verifier::external_body]
pub struct ExStdRng(rand::rngs::StdRng);

/// Source of randomness for one simulation run. It wraps a seedable PRNG so
/// that a run can be replayed from the same seed.
pub struct SimRng {
    inner: rand::rngs::StdRng,
}

impl SimRng {
    /// Relies on rand's `StdRng::seed_from_u64` (`SeedableRng`): builds a
    /// generator from the given seed.
    #[verifier::external_body]
    pub fn from_seed(seed: u64) -> (rng: SimRng) {
        SimRng { inner: rand::rngs::StdRng::seed_from_u64(seed) }
    }

    /// Relies on rand's `Rng::gen_range` over `0..bound`: the draw lies below
    /// `bound`; nothing more is assumed of it.
    #[verifier::external_body]
    pub fn below(&mut self, bound: u64) -> (r: u64)
        requires
            bound > 0,
        ensures
            r < bound,
    {
        self.inner.gen_range(0..bound)
    }
}

/// Draws `true` with probability `percent` out of 100. At the two degenerate
/// percentages the outcome is fixed; in between, callers must hold for either
/// answer.
pub fn chance(rng: &mut SimRng, percent: u32) -> (r: bool)
    ensures
        percent >= 100 ==> r,
        percent == 0 ==> !r,
{
    rng.below(100) < percent as u64
}

} // verus!
