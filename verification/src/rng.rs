//! A seedable source of randomness.
//!
//! The stochastic strategies and the noise model draw from an explicit,
//! seedable generator that the caller passes in, so that a run can be
//! reproduced by fixing the seed.

use vstd::prelude::*;

use rand::Rng as _;
use rand::SeedableRng as _;

verus! {

#[verifier::external_type_specification]
#[verifier::external_body]
pub struct ExStdRng(rand::rngs::StdRng);

/// A seedable pseudo-random generator, wrapping rand's standard generator.
pub struct Rand {
    inner: rand::rngs::StdRng,
}

impl Rand {
    /// Relies on rand's `StdRng::seed_from_u64` to build a generator from a seed.
    #[verifier::external_body]
    pub fn from_seed(seed: u64) -> (r: Rand) {
        Rand { inner: rand::rngs::StdRng::seed_from_u64(seed) }
    }

    /// A uniform draw from `[0, bound)`.
    ///
    /// Relies on rand's `Rng::gen_range`, which returns a value of the given
    /// half-open range and panics only when the range is empty.
    #[verifier::external_body]
    pub(crate) fn draw_below(&mut self, bound: u64) -> (r: u64)
        requires
            1 <= bound,
        ensures
            r < bound,
    {
        self.inner.gen_range(0..bound)
    }
}

} // verus!
