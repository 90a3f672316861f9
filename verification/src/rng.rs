//! The engine's random stream: one generator handed mutably through the
//! whole graph during a tick, so the engine stays free of hidden statics and
//! can be driven from a fixed seed for deterministic runs.
//!
//! The generator itself is rand's `SmallRng`; nothing is assumed of a drawn
//! value beyond the range its documentation promises.

use vstd::prelude::*;

verus! {

#[verifier::external_type_specification]
#[verifier::external_body]
pub struct ExSmallRng(rand::rngs::SmallRng);

pub struct ScriptRng {
    inner: rand::rngs::SmallRng,
}

impl ScriptRng {
    /// Relies on rand's `SmallRng::from_entropy`: a fresh generator seeded
    /// from the operating system. Nothing is promised of its stream.
    #[verifier::external_body]
    pub fn new() -> ScriptRng {
        ScriptRng { inner: rand::SeedableRng::from_entropy() }
    }

    /// Relies on rand's `SeedableRng::seed_from_u64`: a generator whose
    /// stream is a function of the seed alone, for deterministic runs.
    #[verifier::external_body]
    pub fn new_seeded(seed: u64) -> ScriptRng {
        ScriptRng { inner: rand::SeedableRng::seed_from_u64(seed) }
    }

    /// Relies on rand's `Rng::gen_range` over an `i64` range: a value
    /// uniform in `[min, max)`. It panics on an empty range, which the
    /// precondition rules out.
    #[verifier::external_body]
    pub fn gen_range_fx(&mut self, min: i64, max: i64) -> (r: i64)
        requires
            min < max,
        ensures
            min <= r < max,
    {
        rand::Rng::gen_range(&mut self.inner, min..max)
    }

    /// Relies on rand's `Rng::gen_range` over a `usize` range: a value
    /// uniform in `[0, n)`. It panics on an empty range, which the
    /// precondition rules out.
    #[verifier::external_body]
    pub fn gen_index(&mut self, n: usize) -> (r: usize)
        requires
            n > 0,
        ensures
            r < n,
    {
        rand::Rng::gen_range(&mut self.inner, 0..n)
    }
}

} // verus!
