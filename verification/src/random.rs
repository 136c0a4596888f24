//! The injected uniform random source that sampling draws from.
//!
//! Randomness is the one effect of the sampler, so it is confined to this
//! module: a [`RandomSource`] wraps rand's standard generator, and the only
//! fact verified code relies on is that a draw below a bound stays below
//! that bound. Callers pass the source explicitly, so a test can seed it and
//! replay a run.

use vstd::prelude::*;

verus! {

/// Declares rand's `StdRng` so a field can hold one; the value is opaque
/// here, and everything assumed of it stands on the wrappers below.
#[verifier::external_type_specification]
#[verifier::external_body]
pub struct ExStdRng(rand::rngs::StdRng);

/// A uniform random source, passed explicitly to every sampling call.
pub struct RandomSource {
    rng: rand::rngs::StdRng,
}

impl RandomSource {
    /// Relies on rand's `SeedableRng::seed_from_u64`: builds a generator
    /// whose draws are a deterministic function of the seed, so a run can be
    /// reproduced. Nothing about the draws is assumed here.
    #[verifier::external_body]
    pub fn from_seed(seed: u64) -> RandomSource {
        RandomSource { rng: rand::SeedableRng::seed_from_u64(seed) }
    }

    /// Relies on rand's `SeedableRng::from_entropy`: builds a generator
    /// seeded from the operating system. Aborts if the operating system can
    /// give no entropy; nothing about the draws is assumed here.
    #[verifier::external_body]
    pub fn from_entropy() -> RandomSource {
        RandomSource { rng: rand::SeedableRng::from_entropy() }
    }

    /// Relies on rand's `Rng::gen_range` over `0..bound`: the draw lies in
    /// that half-open range. The bound must be positive, since `gen_range`
    /// panics on an empty range. Which value comes back is not specified:
    /// every caller must be correct for every draw below the bound.
    #[verifier::external_body]
    pub fn next_below(&mut self, bound: u64) -> (r: u64)
        requires
            bound > 0,
        ensures
            r < bound,
    {
        rand::Rng::gen_range(&mut self.rng, 0..bound)
    }

    /// A draw from the half-open range `low..high`, derived from
    /// [`Self::next_below`] by shifting.
    pub fn next_in_range(&mut self, low: i64, high: i64) -> (r: i64)
        requires
            low < high,
        ensures
            low <= r < high,
    {
        let width: u64 = ((high as i128) - (low as i128)) as u64;
        let d: u64 = self.next_below(width);
        ((low as i128) + (d as i128)) as i64
    }
}

} // verus!
