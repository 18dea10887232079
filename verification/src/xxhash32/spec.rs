//! The definition of XXH32 over a seed and a sequence of bytes.
//!
//! Input is consumed in blocks of 16 bytes, each feeding four lanes with one
//! little-endian word. The lanes are merged into one accumulator, the input
//! length is added, the bytes after the last full block are folded in, and a
//! final avalanche spreads every input bit over the digest. An input shorter
//! than one block never touches the lanes.

use vstd::prelude::*;
use crate::le::le_u32;

verus! {

pub const PRIME32_1: u32 = 0x9E3779B1;

pub const PRIME32_2: u32 = 0x85EBCA77;

pub const PRIME32_3: u32 = 0xC2B2AE3D;

pub const PRIME32_4: u32 = 0x27D4EB2F;

pub const PRIME32_5: u32 = 0x165667B1;

/// Bytes in one block: four lanes of four bytes.
pub const BLOCK_BYTES: usize = 16;

/// The four running values that block processing updates side by side.
#[derive(Clone, Copy, Debug, PartialEq, Eq, Structural)]
pub struct Lanes {
    pub v1: u32,
    pub v2: u32,
    pub v3: u32,
    pub v4: u32,
}

/// `x` rotated left by `bits`, for `0 < bits < 32`.
pub open spec fn rotl(x: u32, bits: u32) -> u32 {
    (x << bits) | (x >> ((32 - bits) as u32))
}

/// One lane after it has taken in one input word.
#[verifier::opaque]
pub open spec fn round(lane: u32, input: u32) -> u32 {
    rotl(lane.wrapping_add(input.wrapping_mul(PRIME32_2)), 13).wrapping_mul(PRIME32_1)
}

/// The four lanes brought together into one accumulator.
#[verifier::opaque]
pub open spec fn merge_lanes(lanes: Lanes) -> u32 {
    rotl(lanes.v1, 1).wrapping_add(rotl(lanes.v2, 7)).wrapping_add(rotl(lanes.v3, 12)).wrapping_add(
        rotl(lanes.v4, 18),
    )
}

/// The final mix of the accumulator.
#[verifier::opaque]
pub open spec fn avalanche(acc: u32) -> u32 {
    let a = (acc ^ (acc >> 15)).wrapping_mul(PRIME32_2);
    let b = (a ^ (a >> 13)).wrapping_mul(PRIME32_3);
    b ^ (b >> 16)
}

/// The lanes before any input, derived from the seed.
pub open spec fn init_lanes(seed: u32) -> Lanes {
    Lanes {
        v1: seed.wrapping_add(PRIME32_1).wrapping_add(PRIME32_2),
        v2: seed.wrapping_add(PRIME32_2),
        v3: seed,
        v4: seed.wrapping_sub(PRIME32_1),
    }
}

/// The accumulator that an input shorter than one block starts from.
pub open spec fn short_acc(seed: u32) -> u32 {
    seed.wrapping_add(PRIME32_5)
}

/// The lanes after the block `data[at..at + 16]`: each lane takes its own word.
pub open spec fn absorb_block(lanes: Lanes, data: Seq<u8>, at: int) -> Lanes {
    Lanes {
        v1: round(lanes.v1, le_u32(data, at)),
        v2: round(lanes.v2, le_u32(data, at + 4)),
        v3: round(lanes.v3, le_u32(data, at + 8)),
        v4: round(lanes.v4, le_u32(data, at + 12)),
    }
}

/// The lanes after the first `count` blocks of `data`, in order.
pub open spec fn absorb_blocks(lanes: Lanes, data: Seq<u8>, count: nat) -> Lanes
    decreases count,
{
    if count == 0 {
        lanes
    } else {
        absorb_block(absorb_blocks(lanes, data, (count - 1) as nat), data, 16 * (count - 1))
    }
}

/// The accumulator after a four-byte group of the tail.
#[verifier::opaque]
pub open spec fn fold_u32(acc: u32, word: u32) -> u32 {
    rotl(acc.wrapping_add(word.wrapping_mul(PRIME32_3)), 17).wrapping_mul(PRIME32_4)
}

/// The accumulator after a single byte of the tail.
#[verifier::opaque]
pub open spec fn fold_byte(acc: u32, byte: u8) -> u32 {
    rotl(acc.wrapping_add((byte as u32).wrapping_mul(PRIME32_5)), 11).wrapping_mul(PRIME32_1)
}

/// The accumulator after the bytes `data[at..]`, taken left to right in the
/// largest groups that fit: four bytes while four remain, then one at a
/// time.
pub open spec fn absorb_tail(acc: u32, data: Seq<u8>, at: int) -> u32
    decreases data.len() - at,
{
    if 0 <= at && at + 4 <= data.len() {
        absorb_tail(fold_u32(acc, le_u32(data, at)), data, at + 4)
    } else if 0 <= at < data.len() {
        absorb_tail(fold_byte(acc, data[at]), data, at + 1)
    } else {
        acc
    }
}

/// The accumulator that finalization starts from: the merged lanes once a
/// full block has been seen, the seed-derived short accumulator before that.
pub open spec fn converge(seed: u32, lanes: Lanes, large: bool) -> u32 {
    if large {
        merge_lanes(lanes)
    } else {
        short_acc(seed)
    }
}

/// The digest, given the converged accumulator, the total input length
/// modulo 2^32 and the bytes after the last full block.
pub open spec fn finalize(acc: u32, total_len: u32, tail: Seq<u8>) -> u32 {
    avalanche(absorb_tail(acc.wrapping_add(total_len), tail, 0))
}

/// The input length as the hash sees it: modulo 2^32.
pub open spec fn len_word(len: nat) -> u32 {
    (len % 0x1_0000_0000) as u32
}

/// XXH32 of `data` under `seed`.
pub open spec fn xxh32(seed: u32, data: Seq<u8>) -> u32 {
    let blocks = data.len() / 16;
    finalize(
        converge(seed, absorb_blocks(init_lanes(seed), data, blocks), data.len() >= 16),
        len_word(data.len()),
        data.skip(16 * (blocks as int)),
    )
}

} // verus!
