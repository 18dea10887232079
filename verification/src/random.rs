//! Hashers with seeds that callers cannot predict.
//!
//! A keyed collection that hashes with a fixed seed can be driven into its
//! worst case by keys chosen to collide. Drawing the seed from a source of
//! entropy takes that choice away. The source is handed in by the caller, so
//! a program wires in whatever its platform offers and a test can hand in a
//! fixed sequence.

use vstd::prelude::*;
use crate::xxhash32::XxHash32;
use crate::xxhash64::XxHash64;

verus! {

/// A source of seeds: each draw yields a word that an outside party cannot
/// predict.
///
/// A source says in its own terms what a draw may yield and how the draw
/// leaves it, through `draws_u32` and `draws_u64`. A source that says
/// nothing leaves them as they are here, where every outcome is possible.
/// The library assumes nothing of these relations. It only carries them
/// through, so that what it builds from a draw is known to hold the very
/// word that was drawn.
pub trait EntropySource: Sized {
    /// Whether a draw from the source in this state may yield `word` and
    /// leave the source as `after`.
    open spec fn draws_u32(&self, word: u32, after: &Self) -> bool {
        true
    }

    /// Whether a draw from the source in this state may yield `word` and
    /// leave the source as `after`.
    open spec fn draws_u64(&self, word: u64, after: &Self) -> bool {
        true
    }

    /// Draws a fresh 32-bit word.
    fn next_u32(&mut self) -> (word: u32)
        ensures
            old(self).draws_u32(word, final(self)),
    ;

    /// Draws a fresh 64-bit word.
    fn next_u64(&mut self) -> (word: u64)
        ensures
            old(self).draws_u64(word, final(self)),
    ;
}

/// Builds XXH64 hashers that all share one seed, drawn when the builder was
/// made.
#[derive(Clone, Copy, Debug)]
pub struct RandomXxHash64Builder {
    seed: u64,
}

impl RandomXxHash64Builder {
    /// The seed that every hasher of this builder starts from.
    pub closed spec fn spec_seed(&self) -> u64 {
        self.seed
    }

    /// A builder for `seed`, as drawn from a source.
    pub fn from_seed(seed: u64) -> (builder: Self)
        ensures
            builder.seed() == seed,
    {
        RandomXxHash64Builder { seed }
    }

    /// Draws one 64-bit word from `entropy`, which is left as that one draw
    /// leaves it, and keeps the word as the seed.
    pub fn new<E: EntropySource>(entropy: &mut E) -> (builder: Self)
        ensures
            old(entropy).draws_u64(builder.seed(), final(entropy)),
    {
        Self::from_seed(entropy.next_u64())
    }

    /// The seed that every hasher of this builder starts from.
    #[verifier::when_used_as_spec(spec_seed)]
    pub fn seed(&self) -> (seed: u64)
        ensures
            seed == self.spec_seed(),
    {
        self.seed
    }

    /// A hasher for the builder's seed that has seen no input.
    pub fn build_hasher(&self) -> (hasher: XxHash64)
        ensures
            hasher.seed() == self.seed(),
            hasher@ == Seq::<u8>::empty(),
    {
        XxHash64::with_seed(self.seed)
    }
}

/// Builds XXH32 hashers that all share one seed, drawn when the builder was
/// made.
#[derive(Clone, Copy, Debug)]
pub struct RandomXxHash32Builder {
    seed: u32,
}

impl RandomXxHash32Builder {
    /// The seed that every hasher of this builder starts from.
    pub closed spec fn spec_seed(&self) -> u32 {
        self.seed
    }

    /// A builder for `seed`, as drawn from a source.
    pub fn from_seed(seed: u32) -> (builder: Self)
        ensures
            builder.seed() == seed,
    {
        RandomXxHash32Builder { seed }
    }

    /// Draws one 32-bit word from `entropy`, which is left as that one draw
    /// leaves it, and keeps the word as the seed.
    pub fn new<E: EntropySource>(entropy: &mut E) -> (builder: Self)
        ensures
            old(entropy).draws_u32(builder.seed(), final(entropy)),
    {
        Self::from_seed(entropy.next_u32())
    }

    /// The seed that every hasher of this builder starts from.
    #[verifier::when_used_as_spec(spec_seed)]
    pub fn seed(&self) -> (seed: u32)
        ensures
            seed == self.spec_seed(),
    {
        self.seed
    }

    /// A hasher for the builder's seed that has seen no input.
    pub fn build_hasher(&self) -> (hasher: XxHash32)
        ensures
            hasher.seed() == self.seed(),
            hasher@ == Seq::<u8>::empty(),
    {
        XxHash32::with_seed(self.seed)
    }
}

} // verus!
