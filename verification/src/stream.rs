//! The logical byte stream of an incremental hasher, and how writes build it.

use vstd::prelude::*;

verus! {

/// The stream after one `write` per chunk, in order, onto a hasher that
/// already holds `start`: each write appends its chunk.
pub open spec fn written(start: Seq<u8>, chunks: Seq<Seq<u8>>) -> Seq<u8>
    decreases chunks.len(),
{
    if chunks.len() == 0 {
        start
    } else {
        written(start + chunks.first(), chunks.drop_first())
    }
}

/// Writing chunk after chunk builds the stream that one write of their
/// concatenation builds, however the input was cut.
pub proof fn lemma_written_is_concatenation(start: Seq<u8>, chunks: Seq<Seq<u8>>)
    ensures
        written(start, chunks) == start + chunks.flatten(),
    decreases chunks.len(),
{
    if chunks.len() == 0 {
        assert(start + chunks.flatten() =~= start);
    } else {
        lemma_written_is_concatenation(start + chunks.first(), chunks.drop_first());
        assert((start + chunks.first()) + chunks.drop_first().flatten() =~= start
            + chunks.flatten());
    }
}

/// The length counter of a hasher whose stream has `len` bytes: the count
/// wraps at 2^64.
pub open spec fn counted(len: nat) -> u64 {
    (len % 0x1_0000_0000_0000_0000) as u64
}

/// Counting a write on top of the counter, with wrapping, counts the whole
/// stream.
pub proof fn lemma_counted_add(before: nat, more: nat)
    ensures
        counted(before + more) == counted(before).wrapping_add(counted(more)),
{
    let m = 0x1_0000_0000_0000_0000int;
    let a = before as int;
    let b = more as int;
    assert((a + b) % m == if a % m + b % m >= m {
        a % m + b % m - m
    } else {
        a % m + b % m
    }) by {
        vstd::arithmetic::div_mod::lemma_add_mod_noop(a, b, m);
        if a % m + b % m >= m {
            vstd::arithmetic::div_mod::lemma_mod_sub_multiples_vanish(a % m + b % m, m);
            vstd::arithmetic::div_mod::lemma_small_mod((a % m + b % m - m) as nat, m as nat);
        } else {
            vstd::arithmetic::div_mod::lemma_small_mod((a % m + b % m) as nat, m as nat);
        }
    }
}

} // verus!
