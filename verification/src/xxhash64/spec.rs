//! The definition of XXH64 over a seed and a sequence of bytes.
//!
//! Input is consumed in blocks of 32 bytes, each feeding four lanes with one
//! little-endian word. The lanes are merged into one accumulator, the input
//! length is added, the bytes after the last full block are folded in, and a
//! final avalanche spreads every input bit over the digest. An input shorter
//! than one block never touches the lanes.

use vstd::prelude::*;
use crate::le::{le_u32, le_u64};
use crate::stream::counted;

verus! {

pub const PRIME64_1: u64 = 0x9E3779B185EBCA87;

pub const PRIME64_2: u64 = 0xC2B2AE3D27D4EB4F;

pub const PRIME64_3: u64 = 0x165667B19E3779F9;

pub const PRIME64_4: u64 = 0x85EBCA77C2B2AE63;

pub const PRIME64_5: u64 = 0x27D4EB2F165667C5;

/// Bytes in one block: four lanes of eight bytes.
pub const BLOCK_BYTES: usize = 32;

/// The four running values that block processing updates side by side.
#[derive(Clone, Copy, Debug, PartialEq, Eq, Structural)]
pub struct Lanes {
    pub v1: u64,
    pub v2: u64,
    pub v3: u64,
    pub v4: u64,
}

/// `x` rotated left by `bits`, for `0 < bits < 64`.
pub open spec fn rotl(x: u64, bits: u32) -> u64 {
    (x << bits) | (x >> ((64 - bits) as u32))
}

/// One lane after it has taken in one input word.
#[verifier::opaque]
pub open spec fn round(lane: u64, input: u64) -> u64 {
    rotl(lane.wrapping_add(input.wrapping_mul(PRIME64_2)), 31).wrapping_mul(PRIME64_1)
}

/// The accumulator after one lane has been folded into it at convergence.
#[verifier::opaque]
pub open spec fn merge_round(acc: u64, lane: u64) -> u64 {
    (acc ^ round(0, lane)).wrapping_mul(PRIME64_1).wrapping_add(PRIME64_4)
}

/// The four lanes brought together into one accumulator.
#[verifier::opaque]
pub open spec fn merge_lanes(lanes: Lanes) -> u64 {
    let sum = rotl(lanes.v1, 1).wrapping_add(rotl(lanes.v2, 7)).wrapping_add(
        rotl(lanes.v3, 12),
    ).wrapping_add(rotl(lanes.v4, 18));
    merge_round(merge_round(merge_round(merge_round(sum, lanes.v1), lanes.v2), lanes.v3), lanes.v4)
}

/// The final mix of the accumulator.
#[verifier::opaque]
pub open spec fn avalanche(acc: u64) -> u64 {
    let a = (acc ^ (acc >> 33)).wrapping_mul(PRIME64_2);
    let b = (a ^ (a >> 29)).wrapping_mul(PRIME64_3);
    b ^ (b >> 32)
}

/// The lanes before any input, derived from the seed.
pub open spec fn init_lanes(seed: u64) -> Lanes {
    Lanes {
        v1: seed.wrapping_add(PRIME64_1).wrapping_add(PRIME64_2),
        v2: seed.wrapping_add(PRIME64_2),
        v3: seed,
        v4: seed.wrapping_sub(PRIME64_1),
    }
}

/// The accumulator that an input shorter than one block starts from.
pub open spec fn short_acc(seed: u64) -> u64 {
    seed.wrapping_add(PRIME64_5)
}

/// The lanes after the block `data[at..at + 32]`: each lane takes its own word.
pub open spec fn absorb_block(lanes: Lanes, data: Seq<u8>, at: int) -> Lanes {
    Lanes {
        v1: round(lanes.v1, le_u64(data, at)),
        v2: round(lanes.v2, le_u64(data, at + 8)),
        v3: round(lanes.v3, le_u64(data, at + 16)),
        v4: round(lanes.v4, le_u64(data, at + 24)),
    }
}

/// The lanes after the first `count` blocks of `data`, in order.
pub open spec fn absorb_blocks(lanes: Lanes, data: Seq<u8>, count: nat) -> Lanes
    decreases count,
{
    if count == 0 {
        lanes
    } else {
        absorb_block(absorb_blocks(lanes, data, (count - 1) as nat), data, 32 * (count - 1))
    }
}

/// The accumulator after an eight-byte group of the tail.
#[verifier::opaque]
pub open spec fn fold_u64(acc: u64, word: u64) -> u64 {
    rotl(acc ^ round(0, word), 27).wrapping_mul(PRIME64_1).wrapping_add(PRIME64_4)
}

/// The accumulator after a four-byte group of the tail.
#[verifier::opaque]
pub open spec fn fold_u32(acc: u64, word: u32) -> u64 {
    rotl(acc ^ (word as u64).wrapping_mul(PRIME64_1), 23).wrapping_mul(PRIME64_2).wrapping_add(
        PRIME64_3,
    )
}

/// The accumulator after a single byte of the tail.
#[verifier::opaque]
pub open spec fn fold_byte(acc: u64, byte: u8) -> u64 {
    rotl(acc ^ (byte as u64).wrapping_mul(PRIME64_5), 11).wrapping_mul(PRIME64_1)
}

/// The accumulator after the bytes `data[at..]`, taken left to right in the
/// largest groups that fit: eight bytes while eight remain, then four, then
/// one at a time.
pub open spec fn absorb_tail(acc: u64, data: Seq<u8>, at: int) -> u64
    decreases data.len() - at,
{
    if 0 <= at && at + 8 <= data.len() {
        absorb_tail(fold_u64(acc, le_u64(data, at)), data, at + 8)
    } else if 0 <= at && at + 4 <= data.len() {
        absorb_tail(fold_u32(acc, le_u32(data, at)), data, at + 4)
    } else if 0 <= at < data.len() {
        absorb_tail(fold_byte(acc, data[at]), data, at + 1)
    } else {
        acc
    }
}

/// The accumulator that finalization starts from: the merged lanes once a
/// full block has been seen, the seed-derived short accumulator before that.
pub open spec fn converge(seed: u64, lanes: Lanes, large: bool) -> u64 {
    if large {
        merge_lanes(lanes)
    } else {
        short_acc(seed)
    }
}

/// The digest, given the converged accumulator, the total input length
/// modulo 2^64 and the bytes after the last full block.
pub open spec fn finalize(acc: u64, total_len: u64, tail: Seq<u8>) -> u64 {
    avalanche(absorb_tail(acc.wrapping_add(total_len), tail, 0))
}

/// The input length as the hash sees it: modulo 2^64.
pub open spec fn len_word(len: nat) -> u64 {
    counted(len)
}

/// XXH64 of `data` under `seed`.
pub open spec fn xxh64(seed: u64, data: Seq<u8>) -> u64 {
    let blocks = data.len() / 32;
    finalize(
        converge(seed, absorb_blocks(init_lanes(seed), data, blocks), data.len() >= 32),
        len_word(data.len()),
        data.skip(32 * (blocks as int)),
    )
}

} // verus!
