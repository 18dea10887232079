//! The executable mixing steps of XXH64 and the one-shot computation.

use vstd::prelude::*;
use crate::le::{le_u32, le_u64, read_u32_le, read_u64_le};
use crate::xxhash64::spec;
use crate::xxhash64::spec::{
    Lanes, PRIME64_1, PRIME64_2, PRIME64_3, PRIME64_4, PRIME64_5, BLOCK_BYTES,
};
use crate::IntoU64;

verus! {

/// Rotates `x` left by `bits`.
pub fn rotate_left(x: u64, bits: u32) -> (rotated: u64)
    requires
        0 < bits < 64,
    ensures
        rotated == spec::rotl(x, bits),
{
    (x << bits) | (x >> (64 - bits))
}

/// Feeds one input word to a lane.
pub fn round(lane: u64, input: u64) -> (next: u64)
    ensures
        next == spec::round(lane, input),
{
    reveal(spec::round);
    rotate_left(lane.wrapping_add(input.wrapping_mul(PRIME64_2)), 31).wrapping_mul(PRIME64_1)
}

/// Folds one lane into the accumulator at convergence.
pub fn merge_round(acc: u64, lane: u64) -> (next: u64)
    ensures
        next == spec::merge_round(acc, lane),
{
    reveal(spec::merge_round);
    (acc ^ round(0, lane)).wrapping_mul(PRIME64_1).wrapping_add(PRIME64_4)
}

/// Applies the final mix.
pub fn avalanche(acc: u64) -> (digest: u64)
    ensures
        digest == spec::avalanche(acc),
{
    reveal(spec::avalanche);
    let a = (acc ^ (acc >> 33)).wrapping_mul(PRIME64_2);
    let b = (a ^ (a >> 29)).wrapping_mul(PRIME64_3);
    b ^ (b >> 32)
}

impl Lanes {
    /// The lanes before any input.
    pub fn new(seed: u64) -> (lanes: Lanes)
        ensures
            lanes == spec::init_lanes(seed),
    {
        Lanes {
            v1: seed.wrapping_add(PRIME64_1).wrapping_add(PRIME64_2),
            v2: seed.wrapping_add(PRIME64_2),
            v3: seed,
            v4: seed.wrapping_sub(PRIME64_1),
        }
    }

    /// Takes in the block that starts at index `at` of `data`.
    pub fn write(self, data: &[u8], at: usize) -> (lanes: Lanes)
        requires
            at + 32 <= data.len(),
        ensures
            lanes == spec::absorb_block(self, data@, at as int),
    {
        Lanes {
            v1: round(self.v1, read_u64_le(data, at)),
            v2: round(self.v2, read_u64_le(data, at + 8)),
            v3: round(self.v3, read_u64_le(data, at + 16)),
            v4: round(self.v4, read_u64_le(data, at + 24)),
        }
    }

    /// Takes in every full block of `data`, in order, and returns the lanes
    /// with the number of bytes consumed.
    pub fn write_many(self, data: &[u8]) -> (out: (Lanes, usize))
        ensures
            out.0 == spec::absorb_blocks(self, data@, data@.len() / 32),
            out.1 == 32 * (data@.len() / 32),
    {
        let mut lanes = self;
        let mut at: usize = 0;
        while data.len() - at >= BLOCK_BYTES
            invariant
                at <= data.len(),
                at % 32 == 0,
                lanes == spec::absorb_blocks(self, data@, (at / 32) as nat),
            decreases data.len() - at,
        {
            lanes = lanes.write(data, at);
            at = at + BLOCK_BYTES;
        }
        (lanes, at)
    }

    /// Brings the four lanes together into one accumulator.
    pub fn finish(&self) -> (acc: u64)
        ensures
            acc == spec::merge_lanes(*self),
    {
        reveal(spec::merge_lanes);
        let sum = rotate_left(self.v1, 1).wrapping_add(rotate_left(self.v2, 7)).wrapping_add(
            rotate_left(self.v3, 12),
        ).wrapping_add(rotate_left(self.v4, 18));
        merge_round(merge_round(merge_round(merge_round(sum, self.v1), self.v2), self.v3), self.v4)
    }
}

/// Folds an eight-byte group of the tail into the accumulator.
pub fn fold_u64(acc: u64, word: u64) -> (next: u64)
    ensures
        next == spec::fold_u64(acc, word),
{
    reveal(spec::fold_u64);
    rotate_left(acc ^ round(0, word), 27).wrapping_mul(PRIME64_1).wrapping_add(PRIME64_4)
}

/// Folds a four-byte group of the tail into the accumulator.
pub fn fold_u32(acc: u64, word: u32) -> (next: u64)
    ensures
        next == spec::fold_u32(acc, word),
{
    reveal(spec::fold_u32);
    rotate_left(acc ^ word.into_u64().wrapping_mul(PRIME64_1), 23).wrapping_mul(
        PRIME64_2,
    ).wrapping_add(PRIME64_3)
}

/// Folds a single byte of the tail into the accumulator.
pub fn fold_byte(acc: u64, byte: u8) -> (next: u64)
    ensures
        next == spec::fold_byte(acc, byte),
{
    reveal(spec::fold_byte);
    rotate_left(acc ^ byte.into_u64().wrapping_mul(PRIME64_5), 11).wrapping_mul(PRIME64_1)
}

/// Folds the bytes of `tail` into the accumulator, in groups of eight, four
/// and one.
pub fn write_tail(acc: u64, tail: &[u8]) -> (out: u64)
    ensures
        out == spec::absorb_tail(acc, tail@, 0),
{
    let ghost start = acc;
    let mut acc = acc;
    let mut at: usize = 0;
    while tail.len() - at >= 8
        invariant
            at <= tail.len(),
            spec::absorb_tail(acc, tail@, at as int) == spec::absorb_tail(start, tail@, 0),
        decreases tail.len() - at,
    {
        acc = fold_u64(acc, read_u64_le(tail, at));
        at = at + 8;
    }
    if tail.len() - at >= 4 {
        acc = fold_u32(acc, read_u32_le(tail, at));
        at = at + 4;
    }
    while at < tail.len()
        invariant
            at <= tail.len(),
            tail.len() - at < 4,
            spec::absorb_tail(acc, tail@, at as int) == spec::absorb_tail(start, tail@, 0),
        decreases tail.len() - at,
    {
        acc = fold_byte(acc, tail[at]);
        at = at + 1;
    }
    acc
}

/// Finalizes a digest from the state that block processing has reached.
///
/// `large` says whether a full block has been seen, `total_len` is the number
/// of bytes taken in so far modulo 2^64, and `tail` holds the bytes after the
/// last full block.
pub fn finish_with(seed: u64, total_len: u64, large: bool, lanes: &Lanes, tail: &[u8]) -> (digest:
    u64)
    ensures
        digest == spec::finalize(spec::converge(seed, *lanes, large), total_len, tail@),
{
    let acc = if large {
        lanes.finish()
    } else {
        seed.wrapping_add(PRIME64_5)
    };
    let acc = acc.wrapping_add(total_len);
    let acc = write_tail(acc, tail);
    avalanche(acc)
}

} // verus!
