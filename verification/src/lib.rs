//! Generation of random scramble sequences for a Rubik's-cube-style puzzle.
//!
//! A scramble is an ordered list of moves, each a face paired with a rotation
//! modifier. Candidate moves are drawn from a seeded random source and only
//! kept when they pass an adjacency rule that rules out trivially redundant
//! pairs and triples, so the same seed and length always give the same
//! scramble.

use vstd::prelude::*;

pub mod permutation;
pub mod rng;
pub mod rotation;
pub mod text;

pub use permutation::Permutation;
pub use rotation::Rotation;
pub use text::parse_length;

verus! {

use crate::permutation::{adjacent_ok, plane_ok, scramble_of};
use crate::rng::random_seed;

/// The request a caller hands to the generator: an optional seed and the
/// number of moves wanted.
pub struct Cli {
    pub seed: Option<u64>,
    pub length: u8,
}

impl Cli {
    /// Generates the requested scramble. When no seed is given one is drawn
    /// from the machine's entropy; either way the scramble returned is the
    /// one that its seed and length determine.
    #[must_use]
    pub fn run(&self) -> (p: Permutation)
        ensures
            p.length == self.length,
            p.rotations@.len() == self.length as nat,
            p.rotations@ == scramble_of(p.seed, self.length as nat),
            adjacent_ok(p.rotations@),
            plane_ok(p.rotations@),
            (match self.seed {
                Some(s) => p.seed == s,
                None => true,
            }),
    {
        let seed: u64 = match self.seed {
            Some(s) => s,
            None => random_seed(),
        };
        Permutation::generate(seed, self.length)
    }
}

} // verus!
