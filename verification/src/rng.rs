//! A deterministic random source, seeded once per generation call.
//!
//! The source is rand's `StdRng`. Its stream is a pure function of the seed
//! it was built from: every draw is determined by the seed, the bounds of the
//! draws made before it, and its own bound. `draw_of` names that function;
//! nothing else is assumed of the values drawn.

use vstd::prelude::*;
use rand::Rng;
use rand::SeedableRng;

verus! {

#[verifier::external_type_specification]
#[verifier::external_body]
pub struct ExStdRng(rand::rngs::StdRng);

/// The value that a generator seeded with `seed` draws below `bound` after
/// draws with the bounds in `draws` have been made, in that order.
pub uninterp spec fn draw_of(seed: u64, draws: Seq<u32>, bound: u32) -> u32;

/// A seeded deterministic random source together with the record of the
/// draws made from it so far.
pub struct SeededRng {
    inner: rand::rngs::StdRng,
    seed: Ghost<u64>,
    draws: Ghost<Seq<u32>>,
}

impl SeededRng {
    /// The seed this source was built from.
    pub closed spec fn seed(self) -> u64 {
        self.seed@
    }

    /// The bounds of the draws made from this source so far, oldest first.
    pub closed spec fn draws(self) -> Seq<u32> {
        self.draws@
    }

    /// Builds a fresh source from a seed, with no draws made yet.
    pub fn new(seed: u64) -> (r: Self)
        ensures
            r.seed() == seed,
            r.draws() == Seq::<u32>::empty(),
    {
        SeededRng { inner: make_std_rng(seed), seed: Ghost(seed), draws: Ghost(Seq::empty()) }
    }

    /// Relies on rand's `Rng::gen_range` on a nonempty range `0..bound`: the
    /// value returned lies below the bound, and on a deterministic generator
    /// it is a function of the seed and the draws made before it.
    #[verifier::external_body]
    pub(crate) fn draw(&mut self, bound: u32) -> (v: u32)
        requires
            1 <= bound,
        ensures
            v < bound,
            v == draw_of(old(self).seed(), old(self).draws(), bound),
            final(self).seed() == old(self).seed(),
            final(self).draws() == old(self).draws().push(bound),
    {
        self.inner.gen_range(0..bound)
    }
}

/// Relies on rand's `StdRng::seed_from_u64`: the generator it returns is
/// deterministic, its stream fixed by the seed alone.
#[verifier::external_body]
fn make_std_rng(seed: u64) -> rand::rngs::StdRng {
    rand::rngs::StdRng::seed_from_u64(seed)
}

/// Relies on rand's `random`: a value drawn from the thread-local entropy
/// source. Nothing is assumed of the value.
#[verifier::external_body]
pub(crate) fn random_seed() -> u64 {
    rand::random()
}

} // verus!
