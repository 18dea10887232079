//! What holds of XXH64 however the input is cut into pieces, and the published
//! digest of the empty input.

use vstd::prelude::*;
use crate::le::lemma_le_u64_window;
use crate::stream::{counted, lemma_counted_add};
use crate::xxhash64::spec::{
    absorb_block, absorb_blocks, absorb_tail, avalanche, len_word, short_acc, xxh64, Lanes,
    PRIME64_2, PRIME64_3, PRIME64_5,
};

verus! {

/// A block is read through its 32 bytes alone: two sequences that hold the
/// same bytes at two windows give the same lanes.
pub proof fn lemma_absorb_block_window(lanes: Lanes, a: Seq<u8>, i: int, b: Seq<u8>, j: int)
    requires
        0 <= i,
        i + 32 <= a.len(),
        0 <= j,
        j + 32 <= b.len(),
        a.subrange(i, i + 32) == b.subrange(j, j + 32),
    ensures
        absorb_block(lanes, a, i) == absorb_block(lanes, b, j),
{
    let wa = a.subrange(i, i + 32);
    let wb = b.subrange(j, j + 32);
    assert(a.subrange(i, i + 8) =~= wa.subrange(0, 8));
    assert(b.subrange(j, j + 8) =~= wb.subrange(0, 8));
    assert(a.subrange(i + 8, i + 16) =~= wa.subrange(8, 16));
    assert(b.subrange(j + 8, j + 16) =~= wb.subrange(8, 16));
    assert(a.subrange(i + 16, i + 24) =~= wa.subrange(16, 24));
    assert(b.subrange(j + 16, j + 24) =~= wb.subrange(16, 24));
    assert(a.subrange(i + 24, i + 32) =~= wa.subrange(24, 32));
    assert(b.subrange(j + 24, j + 32) =~= wb.subrange(24, 32));
    lemma_le_u64_window(a, i, b, j);
    lemma_le_u64_window(a, i + 8, b, j + 8);
    lemma_le_u64_window(a, i + 16, b, j + 16);
    lemma_le_u64_window(a, i + 24, b, j + 24);
}

/// The lanes after `count` blocks depend on the first `32 * count` bytes
/// only: bytes that follow, written or not yet written, do not reach them.
pub proof fn lemma_absorb_blocks_prefix(lanes: Lanes, a: Seq<u8>, b: Seq<u8>, count: nat)
    requires
        32 * count <= a.len(),
        32 * count <= b.len(),
        a.take(32 * (count as int)) == b.take(32 * (count as int)),
    ensures
        absorb_blocks(lanes, a, count) == absorb_blocks(lanes, b, count),
    decreases count,
{
    if count > 0 {
        let before = (count - 1) as nat;
        let pa = a.take(32 * (count as int));
        let pb = b.take(32 * (count as int));
        assert(a.take(32 * (before as int)) =~= pa.take(32 * (before as int)));
        assert(b.take(32 * (before as int)) =~= pb.take(32 * (before as int)));
        lemma_absorb_blocks_prefix(lanes, a, b, before);
        assert(a.subrange(32 * (before as int), 32 * (before as int) + 32) =~= pa.subrange(
            32 * (before as int),
            32 * (before as int) + 32,
        ));
        assert(b.subrange(32 * (before as int), 32 * (before as int) + 32) =~= pb.subrange(
            32 * (before as int),
            32 * (before as int) + 32,
        ));
        lemma_absorb_block_window(
            absorb_blocks(lanes, a, before),
            a,
            32 * (before as int),
            b,
            32 * (before as int),
        );
    }
}

/// Block processing can stop after any block and go on from the lanes it
/// reached: `first` blocks and then `more` blocks of what follows them are
/// `first + more` blocks of the whole.
pub proof fn lemma_absorb_blocks_split(lanes: Lanes, data: Seq<u8>, first: nat, more: nat)
    requires
        32 * (first + more) <= data.len(),
    ensures
        absorb_blocks(absorb_blocks(lanes, data, first), data.skip(32 * (first as int)), more)
            == absorb_blocks(lanes, data, first + more),
    decreases more,
{
    if more > 0 {
        let before = (more - 1) as nat;
        let rest = data.skip(32 * (first as int));
        let reached = absorb_blocks(lanes, data, first);
        lemma_absorb_blocks_split(lanes, data, first, before);
        assert(first + more - 1 == first + before);
        assert(rest.subrange(32 * (before as int), 32 * (before as int) + 32) =~= data.subrange(
            32 * ((first + before) as int),
            32 * ((first + before) as int) + 32,
        ));
        lemma_absorb_block_window(
            absorb_blocks(reached, rest, before),
            rest,
            32 * (before as int),
            data,
            32 * ((first + before) as int),
        );
    }
}

/// The state that a write reaches is the state of the longer stream.
///
/// Taking `bytes` in after what `before` left pending, from the lanes that
/// the full blocks of `before` led to, gives the lanes of the full blocks of
/// `before + bytes` and leaves pending what follows them there. So a hasher
/// that was fed a stream in pieces is in the state of one that was fed it
/// whole.
pub proof fn lemma_write_reaches(lanes: Lanes, before: Seq<u8>, bytes: Seq<u8>)
    ensures
        ({
            let after = before + bytes;
            let blocks = before.len() / 32;
            let combined = before.skip(32 * (blocks as int)) + bytes;
            let more = combined.len() / 32;
            &&& blocks + more == after.len() / 32
            &&& combined.len() % 32 == after.len() % 32
            &&& absorb_blocks(absorb_blocks(lanes, before, blocks), combined, more)
                == absorb_blocks(lanes, after, after.len() / 32)
            &&& combined.skip(32 * (more as int)) == after.skip(32 * ((after.len() / 32) as int))
        }),
{
    let after = before + bytes;
    let blocks = before.len() / 32;
    let combined = before.skip(32 * (blocks as int)) + bytes;
    let more = combined.len() / 32;
    assert(combined.len() == after.len() - 32 * blocks);
    assert(blocks + more == after.len() / 32);
    assert(before.take(32 * (blocks as int)) =~= after.take(32 * (blocks as int)));
    lemma_absorb_blocks_prefix(lanes, before, after, blocks);
    assert(combined =~= after.skip(32 * (blocks as int)));
    lemma_absorb_blocks_split(lanes, after, blocks, more);
    assert(combined.skip(32 * (more as int)) =~= after.skip(32 * ((after.len() / 32) as int)));
}


/// A write keeps the state in step with the stream.
///
/// If the lanes, the pending bytes, the counter and the flag are those of the
/// stream `before`, and a write takes `bytes` in after the pending bytes,
/// counts them and raises the flag once a block is full, then they are those
/// of the stream `before + bytes`.
pub proof fn lemma_write_keeps_state(
    start: Lanes,
    before: Seq<u8>,
    bytes: Seq<u8>,
    lanes: Lanes,
    pending: Seq<u8>,
    total_len: u64,
    large: bool,
    next_lanes: Lanes,
    next_pending: Seq<u8>,
    next_total_len: u64,
    next_large: bool,
)
    requires
        lanes == absorb_blocks(start, before, before.len() / 32),
        pending == before.skip(32 * ((before.len() / 32) as int)),
        total_len == counted(before.len()),
        large == (before.len() >= 32),
        next_lanes == absorb_blocks(lanes, pending + bytes, (pending + bytes).len() / 32),
        next_pending == (pending + bytes).skip(32 * (((pending + bytes).len() / 32) as int)),
        next_total_len == total_len.wrapping_add(counted(bytes.len())),
        next_large == (large || bytes.len() >= 32 - pending.len()),
    ensures
        next_lanes == absorb_blocks(start, before + bytes, (before + bytes).len() / 32),
        next_pending == (before + bytes).skip(32 * (((before + bytes).len() / 32) as int)),
        next_pending.len() == (before + bytes).len() % 32,
        next_total_len == counted((before + bytes).len()),
        next_large == ((before + bytes).len() >= 32),
{
    lemma_write_reaches(start, before, bytes);
    lemma_counted_add(before.len(), bytes.len());
    assert(pending.len() == before.len() % 32);
}

/// The published digest of the empty input under seed 0.
pub proof fn lemma_xxh64_of_nothing()
    ensures
        xxh64(0, Seq::<u8>::empty()) == 0xEF46_DB37_51D8_E999,
{
    reveal(avalanche);
    let acc: u64 = short_acc(0).wrapping_add(len_word(0));
    assert(acc == PRIME64_5);
    assert(Seq::<u8>::empty().skip(0) =~= Seq::<u8>::empty());
    assert(absorb_tail(acc, Seq::<u8>::empty(), 0) == acc);
    let a: u64 = (acc ^ (acc >> 33)).wrapping_mul(PRIME64_2);
    let b: u64 = (a ^ (a >> 29)).wrapping_mul(PRIME64_3);
    assert(acc ^ (acc >> 33) == 0x27D4_EB2F_05BC_1252) by (bit_vector)
        requires
            acc == 0x27D4_EB2F_1656_67C5,
    ;
    assert((0x27D4_EB2F_05BC_1252nat * 0xC2B2_AE3D_27D4_EB4Fnat) % 0x1_0000_0000_0000_0000
        == 0xBEB1_3DDA_13C2_ED4E);
    assert(a == 0xBEB1_3DDA_13C2_ED4E);
    assert(a ^ (a >> 29) == 0xBEB1_3DDF_E64B_039E) by (bit_vector)
        requires
            a == 0xBEB1_3DDA_13C2_ED4E,
    ;
    assert((0xBEB1_3DDF_E64B_039Enat * 0x1656_67B1_9E37_79F9nat) % 0x1_0000_0000_0000_0000
        == 0xEF46_DB37_BE9E_32AE);
    assert(b == 0xEF46_DB37_BE9E_32AE);
    assert(b ^ (b >> 32) == 0xEF46_DB37_51D8_E999) by (bit_vector)
        requires
            b == 0xEF46_DB37_BE9E_32AE,
    ;
}

} // verus!
