//! Prover-side randomness.

use vstd::prelude::*;

use crate::challenge::Sampler;

verus! {

/// A source of prover randomness.
///
/// Nothing is promised of the drawn bytes beyond their count: a seeded
/// generator, a physical one, or a squeeze stream all fit, and everything
/// proved about a prover holds for every outcome.
pub trait Rng {
    /// Draw `n` bytes.
    fn draw(&mut self, n: usize) -> (out: Vec<u8>)
        ensures
            out@.len() == n,
    ;
}

/// Any squeeze stream can serve as prover randomness.
impl<S: Sampler> Rng for S {
    fn draw(&mut self, n: usize) -> (out: Vec<u8>)
    {
        self.fill(n)
    }
}

} // verus!
