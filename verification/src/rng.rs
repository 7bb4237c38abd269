//! The random source that feeds the search.  Randomness is an explicit
//! dependency: every draw goes through a seeded generator handed in by the
//! caller, so a run is reproducible under a fixed seed.

use vstd::prelude::*;

verus! {

#[verifier::external_type_specification]
#[verifier::external_body]
pub struct ExStdRng(rand::rngs::StdRng);

/// A seeded pseudo-random generator.  Nothing is assumed about the values it
/// yields beyond the range they are drawn from.
pub struct RandomSource {
    rng: rand::rngs::StdRng,
}

impl RandomSource {
    /// Relies on rand's `SeedableRng::seed_from_u64`: builds a generator
    /// deterministically from the seed.
    #[verifier::external_body]
    pub fn from_seed(seed: u64) -> (r: RandomSource) {
        RandomSource { rng: <rand::rngs::StdRng as rand::SeedableRng>::seed_from_u64(seed) }
    }

    /// Relies on rand's `RngExt::random_range`: a draw from a nonempty
    /// half-open range lies in that range, and the call panics only on an
    /// empty range, which the precondition rules out.
    #[verifier::external_body]
    pub(crate) fn next_in_range(&mut self, lo: i64, hi: i64) -> (r: i64)
        requires
            lo < hi,
        ensures
            lo <= r < hi,
    {
        rand::RngExt::random_range(&mut self.rng, lo..hi)
    }
}

} // verus!
