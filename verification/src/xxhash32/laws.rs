//! What holds of XXH32 however the input is cut into pieces, and the published
//! digest of the empty input.

use vstd::prelude::*;
use crate::le::lemma_le_u32_window;
use crate::stream::{counted, lemma_counted_add};
use crate::xxhash32::spec::{
    absorb_block, absorb_blocks, absorb_tail, avalanche, len_word, short_acc, xxh32, Lanes,
    PRIME32_2, PRIME32_3, PRIME32_5,
};

verus! {

/// A block is read through its 16 bytes alone: two sequences that hold the
/// same bytes at two windows give the same lanes.
pub proof fn lemma_absorb_block_window(lanes: Lanes, a: Seq<u8>, i: int, b: Seq<u8>, j: int)
    requires
        0 <= i,
        i + 16 <= a.len(),
        0 <= j,
        j + 16 <= b.len(),
        a.subrange(i, i + 16) == b.subrange(j, j + 16),
    ensures
        absorb_block(lanes, a, i) == absorb_block(lanes, b, j),
{
    let wa = a.subrange(i, i + 16);
    let wb = b.subrange(j, j + 16);
    assert(a.subrange(i, i + 4) =~= wa.subrange(0, 4));
    assert(b.subrange(j, j + 4) =~= wb.subrange(0, 4));
    assert(a.subrange(i + 4, i + 8) =~= wa.subrange(4, 8));
    assert(b.subrange(j + 4, j + 8) =~= wb.subrange(4, 8));
    assert(a.subrange(i + 8, i + 12) =~= wa.subrange(8, 12));
    assert(b.subrange(j + 8, j + 12) =~= wb.subrange(8, 12));
    assert(a.subrange(i + 12, i + 16) =~= wa.subrange(12, 16));
    assert(b.subrange(j + 12, j + 16) =~= wb.subrange(12, 16));
    lemma_le_u32_window(a, i, b, j);
    lemma_le_u32_window(a, i + 4, b, j + 4);
    lemma_le_u32_window(a, i + 8, b, j + 8);
    lemma_le_u32_window(a, i + 12, b, j + 12);
}

/// The lanes after `count` blocks depend on the first `16 * count` bytes
/// only: bytes that follow, written or not yet written, do not reach them.
pub proof fn lemma_absorb_blocks_prefix(lanes: Lanes, a: Seq<u8>, b: Seq<u8>, count: nat)
    requires
        16 * count <= a.len(),
        16 * count <= b.len(),
        a.take(16 * (count as int)) == b.take(16 * (count as int)),
    ensures
        absorb_blocks(lanes, a, count) == absorb_blocks(lanes, b, count),
    decreases count,
{
    if count > 0 {
        let before = (count - 1) as nat;
        let pa = a.take(16 * (count as int));
        let pb = b.take(16 * (count as int));
        assert(a.take(16 * (before as int)) =~= pa.take(16 * (before as int)));
        assert(b.take(16 * (before as int)) =~= pb.take(16 * (before as int)));
        lemma_absorb_blocks_prefix(lanes, a, b, before);
        assert(a.subrange(16 * (before as int), 16 * (before as int) + 16) =~= pa.subrange(
            16 * (before as int),
            16 * (before as int) + 16,
        ));
        assert(b.subrange(16 * (before as int), 16 * (before as int) + 16) =~= pb.subrange(
            16 * (before as int),
            16 * (before as int) + 16,
        ));
        lemma_absorb_block_window(
            absorb_blocks(lanes, a, before),
            a,
            16 * (before as int),
            b,
            16 * (before as int),
        );
    }
}

/// Block processing can stop after any block and go on from the lanes it
/// reached: `first` blocks and then `more` blocks of what follows them are
/// `first + more` blocks of the whole.
pub proof fn lemma_absorb_blocks_split(lanes: Lanes, data: Seq<u8>, first: nat, more: nat)
    requires
        16 * (first + more) <= data.len(),
    ensures
        absorb_blocks(absorb_blocks(lanes, data, first), data.skip(16 * (first as int)), more)
            == absorb_blocks(lanes, data, first + more),
    decreases more,
{
    if more > 0 {
        let before = (more - 1) as nat;
        let rest = data.skip(16 * (first as int));
        let reached = absorb_blocks(lanes, data, first);
        lemma_absorb_blocks_split(lanes, data, first, before);
        assert(first + more - 1 == first + before);
        assert(rest.subrange(16 * (before as int), 16 * (before as int) + 16) =~= data.subrange(
            16 * ((first + before) as int),
            16 * ((first + before) as int) + 16,
        ));
        lemma_absorb_block_window(
            absorb_blocks(reached, rest, before),
            rest,
            16 * (before as int),
            data,
            16 * ((first + before) as int),
        );
    }
}

/// The hash sees the low 32 bits of the length, so a counter that wraps at
/// 2^64 loses nothing of it.
pub proof fn lemma_len_word_of_counter(len: nat)
    ensures
        len_word(len) == ((len % 0x1_0000_0000_0000_0000) % 0x1_0000_0000) as u32,
{
    vstd::arithmetic::div_mod::lemma_mod_mod(len as int, 0x1_0000_0000, 0x1_0000_0000);
}

/// The state that a write reaches is the state of the longer stream.
///
/// Taking `bytes` in after what `before` left pending, from the lanes that
/// the full blocks of `before` led to, gives the lanes of the full blocks of
/// `before + bytes` and leaves pending what follows them there. So a hasher
/// that was fed a stream in pieces is in the state of one that was fed it
/// whole.
pub proof fn lemma_write_reaches(lanes: Lanes, before: Seq<u8>, bytes: Seq<u8>)
    ensures
        ({
            let after = before + bytes;
            let blocks = before.len() / 16;
            let combined = before.skip(16 * (blocks as int)) + bytes;
            let more = combined.len() / 16;
            &&& blocks + more == after.len() / 16
            &&& combined.len() % 16 == after.len() % 16
            &&& absorb_blocks(absorb_blocks(lanes, before, blocks), combined, more)
                == absorb_blocks(lanes, after, after.len() / 16)
            &&& combined.skip(16 * (more as int)) == after.skip(16 * ((after.len() / 16) as int))
        }),
{
    let after = before + bytes;
    let blocks = before.len() / 16;
    let combined = before.skip(16 * (blocks as int)) + bytes;
    let more = combined.len() / 16;
    assert(combined.len() == after.len() - 16 * blocks);
    assert(blocks + more == after.len() / 16);
    assert(before.take(16 * (blocks as int)) =~= after.take(16 * (blocks as int)));
    lemma_absorb_blocks_prefix(lanes, before, after, blocks);
    assert(combined =~= after.skip(16 * (blocks as int)));
    lemma_absorb_blocks_split(lanes, after, blocks, more);
    assert(combined.skip(16 * (more as int)) =~= after.skip(16 * ((after.len() / 16) as int)));
}

/// A write keeps the state in step with the stream.
///
/// If the lanes, the pending bytes, the counter and the flag are those of the
/// stream `before`, and a write takes `bytes` in after the pending bytes,
/// counts them and raises the flag once a block is full, then they are those
/// of the stream `before + bytes`.
pub proof fn lemma_write_keeps_state(
    start: Lanes,
    before: Seq<u8>,
    bytes: Seq<u8>,
    lanes: Lanes,
    pending: Seq<u8>,
    total_len: u64,
    large: bool,
    next_lanes: Lanes,
    next_pending: Seq<u8>,
    next_total_len: u64,
    next_large: bool,
)
    requires
        lanes == absorb_blocks(start, before, before.len() / 16),
        pending == before.skip(16 * ((before.len() / 16) as int)),
        total_len == counted(before.len()),
        large == (before.len() >= 16),
        next_lanes == absorb_blocks(lanes, pending + bytes, (pending + bytes).len() / 16),
        next_pending == (pending + bytes).skip(16 * (((pending + bytes).len() / 16) as int)),
        next_total_len == total_len.wrapping_add(counted(bytes.len())),
        next_large == (large || bytes.len() >= 16 - pending.len()),
    ensures
        next_lanes == absorb_blocks(start, before + bytes, (before + bytes).len() / 16),
        next_pending == (before + bytes).skip(16 * (((before + bytes).len() / 16) as int)),
        next_pending.len() == (before + bytes).len() % 16,
        next_total_len == counted((before + bytes).len()),
        next_large == ((before + bytes).len() >= 16),
{
    lemma_write_reaches(start, before, bytes);
    lemma_counted_add(before.len(), bytes.len());
    assert(pending.len() == before.len() % 16);
}

/// The published digest of the empty input under seed 0.
pub proof fn lemma_xxh32_of_nothing()
    ensures
        xxh32(0, Seq::<u8>::empty()) == 0x02CC_5D05,
{
    reveal(avalanche);
    let acc: u32 = short_acc(0).wrapping_add(len_word(0));
    assert(acc == PRIME32_5);
    assert(Seq::<u8>::empty().skip(0) =~= Seq::<u8>::empty());
    assert(absorb_tail(acc, Seq::<u8>::empty(), 0) == acc);
    let a: u32 = (acc ^ (acc >> 15)).wrapping_mul(PRIME32_2);
    let b: u32 = (a ^ (a >> 13)).wrapping_mul(PRIME32_3);
    assert(acc ^ (acc >> 15) == 0x1656_4B1D) by (bit_vector)
        requires
            acc == 0x1656_67B1,
    ;
    assert((0x1656_4B1Dnat * 0x85EB_CA77nat) % 0x1_0000_0000 == 0x7E00_CC7B);
    assert(a == 0x7E00_CC7B);
    assert(a ^ (a >> 13) == 0x7E03_3C7D) by (bit_vector)
        requires
            a == 0x7E00_CC7B,
    ;
    assert((0x7E03_3C7Dnat * 0xC2B2_AE3Dnat) % 0x1_0000_0000 == 0x02CC_5FC9);
    assert(b == 0x02CC_5FC9);
    assert(b ^ (b >> 16) == 0x02CC_5D05) by (bit_vector)
        requires
            b == 0x02CC_5FC9,
    ;
}

} // verus!
