//! Explicit random source.
//!
//! Sampling is threaded through every function that needs entropy as an
//! explicit `RandomSource` parameter, so a render is reproducible from its
//! seed and the scene stays free of hidden mutable state. The generator
//! itself comes from the rand crate and is opaque here: nothing is assumed
//! of a draw beyond its range.

use rand::Rng;
use rand::SeedableRng;
use vstd::prelude::*;

verus! {

#[verifier::external_type_specification]
#[verifier::external_body]
pub struct ExStdRng(rand::rngs::StdRng);

/// Relies on rand's `StdRng::seed_from_u64`: builds a generator from a seed.
#[verifier::external_body]
fn seed_std_rng(seed: u64) -> rand::rngs::StdRng {
    rand::rngs::StdRng::seed_from_u64(seed)
}

/// Relies on rand's `Rng::random_range` over `lo..hi`, which returns a value
/// of the half-open range and panics only when the range is empty.
#[verifier::external_body]
fn draw_in_range(rng: &mut rand::rngs::StdRng, lo: i64, hi: i64) -> (r: i64)
    requires
        lo < hi,
    ensures
        lo <= r < hi,
{
    rng.random_range(lo..hi)
}

/// A stream of random scalars, owned by one render worker.
pub struct RandomSource {
    rng: rand::rngs::StdRng,
}

impl RandomSource {
    /// A deterministic stream seeded from `seed`.
    pub fn new(seed: u64) -> RandomSource {
        RandomSource { rng: seed_std_rng(seed) }
    }

    /// A scalar drawn from the half-open range `[lo, hi)`.
    pub fn next_in(&mut self, lo: i64, hi: i64) -> (r: i64)
        requires
            lo < hi,
        ensures
            lo <= r < hi,
    {
        draw_in_range(&mut self.rng, lo, hi)
    }
}

} // verus!
