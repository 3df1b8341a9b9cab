//! The random source of the simulation: a seeded generator from `rand`.

use vstd::prelude::*;
use rand::rngs::StdRng;
use rand::{Rng, SeedableRng};

verus! {

/// rand's `StdRng`, carried opaquely by the library's random source.
#[verifier::external_type_specification]
#[verifier::external_body]
pub struct ExStdRng(StdRng);

/// Relies on rand's `SeedableRng::seed_from_u64` for `StdRng`: a generator
/// whose stream is determined by the seed.
#[verifier::external_body]
fn std_rng_from_seed(seed: u64) -> StdRng {
    StdRng::seed_from_u64(seed)
}

/// Relies on rand's `Rng::gen_range` over `0..n`: a value in `[0, n)`; it
/// panics on an empty range, which `n > 0` rules out.
#[verifier::external_body]
fn std_rng_below(rng: &mut StdRng, n: u64) -> (r: u64)
    requires
        n > 0,
    ensures
        r < n,
{
    rng.gen_range(0..n)
}

/// A reproducible stream of uniform random integers.
pub struct RandomGen {
    rng: StdRng,
}

impl RandomGen {
    /// A generator whose stream is fixed by `seed`.
    pub fn new(seed: u64) -> RandomGen {
        RandomGen { rng: std_rng_from_seed(seed) }
    }

    /// A uniform integer in `[0, n)`.
    pub fn next_below(&mut self, n: u64) -> (r: u64)
        requires
            n > 0,
        ensures
            r < n,
    {
        std_rng_below(&mut self.rng, n)
    }
}

} // verus!
