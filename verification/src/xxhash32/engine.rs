//! The executable mixing steps of XXH32.

use vstd::prelude::*;
use crate::le::read_u32_le;
use crate::xxhash32::spec;
use crate::xxhash32::spec::{
    Lanes, BLOCK_BYTES, PRIME32_1, PRIME32_2, PRIME32_3, PRIME32_4, PRIME32_5,
};
use crate::IntoU32;

verus! {

/// Rotates `x` left by `bits`.
pub fn rotate_left(x: u32, bits: u32) -> (rotated: u32)
    requires
        0 < bits < 32,
    ensures
        rotated == spec::rotl(x, bits),
{
    (x << bits) | (x >> (32 - bits))
}

/// Feeds one input word to a lane.
pub fn round(lane: u32, input: u32) -> (next: u32)
    ensures
        next == spec::round(lane, input),
{
    reveal(spec::round);
    rotate_left(lane.wrapping_add(input.wrapping_mul(PRIME32_2)), 13).wrapping_mul(PRIME32_1)
}

/// Applies the final mix.
pub fn avalanche(acc: u32) -> (digest: u32)
    ensures
        digest == spec::avalanche(acc),
{
    reveal(spec::avalanche);
    let a = (acc ^ (acc >> 15)).wrapping_mul(PRIME32_2);
    let b = (a ^ (a >> 13)).wrapping_mul(PRIME32_3);
    b ^ (b >> 16)
}

impl Lanes {
    /// The lanes before any input.
    pub fn new(seed: u32) -> (lanes: Lanes)
        ensures
            lanes == spec::init_lanes(seed),
    {
        Lanes {
            v1: seed.wrapping_add(PRIME32_1).wrapping_add(PRIME32_2),
            v2: seed.wrapping_add(PRIME32_2),
            v3: seed,
            v4: seed.wrapping_sub(PRIME32_1),
        }
    }

    /// Takes in the block that starts at index `at` of `data`.
    pub fn write(self, data: &[u8], at: usize) -> (lanes: Lanes)
        requires
            at + 16 <= data.len(),
        ensures
            lanes == spec::absorb_block(self, data@, at as int),
    {
        Lanes {
            v1: round(self.v1, read_u32_le(data, at)),
            v2: round(self.v2, read_u32_le(data, at + 4)),
            v3: round(self.v3, read_u32_le(data, at + 8)),
            v4: round(self.v4, read_u32_le(data, at + 12)),
        }
    }

    /// Takes in every full block of `data`, in order, and returns the lanes
    /// with the number of bytes consumed.
    pub fn write_many(self, data: &[u8]) -> (out: (Lanes, usize))
        ensures
            out.0 == spec::absorb_blocks(self, data@, data@.len() / 16),
            out.1 == 16 * (data@.len() / 16),
    {
        let mut lanes = self;
        let mut at: usize = 0;
        while data.len() - at >= BLOCK_BYTES
            invariant
                at <= data.len(),
                at % 16 == 0,
                lanes == spec::absorb_blocks(self, data@, (at / 16) as nat),
            decreases data.len() - at,
        {
            lanes = lanes.write(data, at);
            at = at + BLOCK_BYTES;
        }
        (lanes, at)
    }

    /// Brings the four lanes together into one accumulator.
    pub fn finish(&self) -> (acc: u32)
        ensures
            acc == spec::merge_lanes(*self),
    {
        reveal(spec::merge_lanes);
        rotate_left(self.v1, 1).wrapping_add(rotate_left(self.v2, 7)).wrapping_add(
            rotate_left(self.v3, 12),
        ).wrapping_add(rotate_left(self.v4, 18))
    }
}

/// Folds a four-byte group of the tail into the accumulator.
pub fn fold_u32(acc: u32, word: u32) -> (next: u32)
    ensures
        next == spec::fold_u32(acc, word),
{
    reveal(spec::fold_u32);
    rotate_left(acc.wrapping_add(word.wrapping_mul(PRIME32_3)), 17).wrapping_mul(PRIME32_4)
}

/// Folds a single byte of the tail into the accumulator.
pub fn fold_byte(acc: u32, byte: u8) -> (next: u32)
    ensures
        next == spec::fold_byte(acc, byte),
{
    reveal(spec::fold_byte);
    rotate_left(acc.wrapping_add(byte.into_u32().wrapping_mul(PRIME32_5)), 11).wrapping_mul(
        PRIME32_1,
    )
}

/// Folds the bytes of `tail` into the accumulator, in groups of four and
/// one.
pub fn write_tail(acc: u32, tail: &[u8]) -> (out: u32)
    ensures
        out == spec::absorb_tail(acc, tail@, 0),
{
    let ghost start = acc;
    let mut acc = acc;
    let mut at: usize = 0;
    while tail.len() - at >= 4
        invariant
            at <= tail.len(),
            spec::absorb_tail(acc, tail@, at as int) == spec::absorb_tail(start, tail@, 0),
        decreases tail.len() - at,
    {
        acc = fold_u32(acc, read_u32_le(tail, at));
        at = at + 4;
    }
    while at < tail.len()
        invariant
            at <= tail.len(),
            tail.len() - at < 4,
            spec::absorb_tail(acc, tail@, at as int) == spec::absorb_tail(start, tail@, 0),
        decreases tail.len() - at,
    {
        acc = fold_byte(acc, tail[at]);
        at = at + 1;
    }
    acc
}

/// Finalizes a digest from the state that block processing has reached.
///
/// `large` says whether a full block has been seen, `total_len` is the number
/// of bytes taken in so far, of which the hash sees the low 32 bits, and
/// `tail` holds the bytes after the last full block.
pub fn finish_with(seed: u32, total_len: u64, large: bool, lanes: &Lanes, tail: &[u8]) -> (digest:
    u32)
    ensures
        digest == spec::finalize(
            spec::converge(seed, *lanes, large),
            (total_len % 0x1_0000_0000) as u32,
            tail@,
        ),
{
    let acc = if large {
        lanes.finish()
    } else {
        seed.wrapping_add(PRIME32_5)
    };
    let acc = acc.wrapping_add((total_len % 0x1_0000_0000) as u32);
    let acc = write_tail(acc, tail);
    avalanche(acc)
}

} // verus!
