//! The incremental XXH32 hasher.

use vstd::prelude::*;
use vstd::slice::slice_subrange;
use crate::random::{EntropySource, RandomXxHash32Builder};
use crate::stream::{counted, lemma_written_is_concatenation, written};
use crate::xxhash32::engine::finish_with;
use crate::xxhash32::laws::{
    lemma_absorb_block_window, lemma_absorb_blocks_split, lemma_len_word_of_counter,
    lemma_write_keeps_state,
};
use crate::xxhash32::spec::{absorb_blocks, init_lanes, len_word, xxh32, Lanes, BLOCK_BYTES};
use crate::IntoU64;

verus! {

/// Copies bytes from the front of `bytes` into `buffer` from index `filled`
/// on, as many as fit, and returns how many were copied.
pub(crate) fn fill(buffer: &mut [u8; 16], filled: usize, bytes: &[u8]) -> (taken: usize)
    requires
        filled <= 16,
    ensures
        taken == if bytes@.len() < 16 - filled {
            bytes@.len() as int
        } else {
            16 - filled
        },
        final(buffer)@.take(filled + taken) == old(buffer)@.take(filled as int) + bytes@.take(
            taken as int,
        ),
{
    let room = BLOCK_BYTES - filled;
    let taken = if bytes.len() < room {
        bytes.len()
    } else {
        room
    };
    let mut i: usize = 0;
    while i < taken
        invariant
            i <= taken,
            filled + taken <= 16,
            taken <= bytes.len(),
            buffer@.take(filled + i) == old(buffer)@.take(filled as int) + bytes@.take(i as int),
        decreases taken - i,
    {
        let ghost before = buffer@;
        buffer[filled + i] = bytes[i];
        proof {
            assert(buffer@.take(filled + i + 1) =~= before.take(filled + i).push(bytes@[i as int]));
            assert(bytes@.take(i + 1) =~= bytes@.take(i as int).push(bytes@[i as int]));
            assert(buffer@.take(filled + i + 1) =~= old(buffer)@.take(filled as int) + bytes@.take(
                i + 1,
            ));
        }
        i = i + 1;
    }
    taken
}

/// Takes `bytes` in after the `buffered` bytes held in `buffer`: every full
/// block of the two together goes through the lanes, oldest bytes first, and
/// what is left is held in `buffer`. Returns the lanes and how many bytes are
/// held.
pub(crate) fn absorb(lanes: Lanes, buffer: &mut [u8; 16], buffered: usize, bytes: &[u8]) -> (out: (
    Lanes,
    usize,
))
    requires
        buffered < 16,
    ensures
        ({
            let combined = old(buffer)@.take(buffered as int) + bytes@;
            let blocks = combined.len() / 16;
            &&& out.0 == absorb_blocks(lanes, combined, blocks)
            &&& out.1 == combined.len() % 16
            &&& final(buffer)@.take(out.1 as int) == combined.skip(16 * (blocks as int))
        }),
{
    let ghost combined = buffer@.take(buffered as int) + bytes@;
    let taken = fill(buffer, buffered, bytes);
    let held = buffered + taken;
    if held < BLOCK_BYTES {
        proof {
            assert(buffer@.take(held as int) =~= combined.skip(0));
        }
        return (lanes, held);
    }
    let block = buffer.as_slice();
    let first = lanes.write(block, 0);
    let rest = slice_subrange(bytes, taken, bytes.len());
    let (reached, consumed) = first.write_many(rest);
    let left = slice_subrange(rest, consumed, rest.len());
    let kept = fill(buffer, 0, left);
    proof {
        let more = rest@.len() / 16;
        assert(first == absorb_blocks(lanes, combined, 1)) by {
            assert(block@.subrange(0, 16) =~= combined.subrange(0, 16));
            lemma_absorb_block_window(lanes, block@, 0, combined, 0);
            assert(absorb_blocks(lanes, combined, 0) == lanes);
        }
        assert(rest@ =~= combined.skip(16));
        assert(combined.len() == 16 + rest@.len());
        assert(1 + more == combined.len() / 16);
        lemma_absorb_blocks_split(lanes, combined, 1, more);
        assert(buffer@.take(kept as int) =~= combined.skip(16 * ((1 + more) as int)));
    }
    (reached, kept)
}

/// An XXH32 computation that takes its input in pieces.
///
/// The hasher stands for a seed and the stream of all bytes written to it so
/// far, in order. It keeps of that stream only the lanes that the full blocks
/// have led to, the bytes after the last full block, and the length.
pub struct XxHash32 {
    seed: u32,
    lanes: Lanes,
    buffer: [u8; 16],
    buffered: usize,
    total_len: u64,
    large: bool,
    stream: Ghost<Seq<u8>>,
}

impl XxHash32 {
    /// The seed the hasher was made with.
    pub closed spec fn spec_seed(&self) -> u32 {
        self.seed
    }

    /// The stream: every byte written so far, in order.
    pub closed spec fn view(&self) -> Seq<u8> {
        self.stream@
    }

    /// The lanes as block processing has left them.
    pub closed spec fn lanes(&self) -> Lanes {
        self.lanes
    }

    /// The bytes held back because they do not fill a block yet.
    pub closed spec fn pending(&self) -> Seq<u8> {
        self.buffer@.take(self.buffered as int)
    }

    /// The length counter.
    pub closed spec fn spec_total_len(&self) -> u64 {
        self.total_len
    }

    /// The seed the hasher was made with.
    #[verifier::when_used_as_spec(spec_seed)]
    pub fn seed(&self) -> (seed: u32)
        ensures
            seed == self.spec_seed(),
    {
        self.seed
    }

    /// The number of bytes written so far; the count wraps at 2^64.
    #[verifier::when_used_as_spec(spec_total_len)]
    pub fn total_len(&self) -> (len: u64)
        ensures
            len == self.spec_total_len(),
            len == counted(self@.len()),
    {
        proof {
            use_type_invariant(self);
        }
        self.total_len
    }

    /// What `finish` returns in this state.
    pub open spec fn digest(&self) -> u32 {
        xxh32(self.seed(), self@)
    }

    /// The state is a function of the seed and the stream: the lanes are
    /// those of the stream's full blocks, the pending bytes are what follows
    /// the last full block, and the counter is the stream's length.
    #[verifier::type_invariant]
    pub closed spec fn wf(&self) -> bool {
        let len = self.stream@.len();
        &&& self.buffered == len % 16
        &&& self.total_len == counted(len)
        &&& self.large == (len >= 16)
        &&& self.lanes == absorb_blocks(init_lanes(self.seed), self.stream@, len / 16)
        &&& self.buffer@.take(self.buffered as int) == self.stream@.skip(16 * ((len / 16) as int))
    }

    /// Computes XXH32 of `data` under `seed` in one call.
    pub fn oneshot(seed: u32, data: &[u8]) -> (digest: u32)
        ensures
            digest == xxh32(seed, data@),
    {
        let (lanes, consumed) = Lanes::new(seed).write_many(data);
        let tail = slice_subrange(data, consumed, data.len());
        proof {
            assert(tail@ =~= data@.skip(16 * (data@.len() / 16) as int));
            assert(len_word(data@.len()) == ((data.len() as u64) % 0x1_0000_0000) as u32);
        }
        finish_with(seed, data.len().into_u64(), data.len() >= BLOCK_BYTES, &lanes, tail)
    }

    /// A hasher for `seed` that has seen no input.
    pub fn with_seed(seed: u32) -> (hasher: Self)
        ensures
            hasher.seed() == seed,
            hasher@ == Seq::<u8>::empty(),
    {
        let ghost stream = Seq::<u8>::empty();
        let buffer = [0u8; 16];
        proof {
            assert(buffer@.take(0) =~= stream.skip(0));
        }
        XxHash32 {
            seed,
            lanes: Lanes::new(seed),
            buffer,
            buffered: 0,
            total_len: 0,
            large: false,
            stream: Ghost(stream),
        }
    }

    /// A hasher that has seen no input, with a seed freshly drawn from
    /// `entropy`: the seed is the word that one draw yielded, and `entropy`
    /// is left as that draw leaves it.
    pub fn random_seed_builder<E: EntropySource>(entropy: &mut E) -> (hasher: Self)
        ensures
            old(entropy).draws_u32(hasher.seed(), final(entropy)),
            hasher@ == Seq::<u8>::empty(),
    {
        RandomXxHash32Builder::new(entropy).build_hasher()
    }

    /// Appends `bytes` to the stream.
    ///
    /// Bytes held back from earlier writes come first: once they and the new
    /// bytes fill a block it goes through the lanes, then every further full
    /// block of `bytes` does, and what is left is held back in turn.
    pub fn write(&mut self, bytes: &[u8])
        ensures
            final(self).seed() == old(self).seed(),
            final(self)@ == old(self)@ + bytes@,
    {
        proof {
            use_type_invariant(&*self);
        }
        let ghost before = self.stream@;
        let ghost after = before + bytes@;
        let mut buffer = self.buffer;
        let (lanes, buffered) = absorb(self.lanes, &mut buffer, self.buffered, bytes);
        let total_len = self.total_len.wrapping_add(bytes.len().into_u64());
        let large = self.large || bytes.len() >= BLOCK_BYTES - self.buffered;
        proof {
            assert(counted(bytes@.len()) == bytes.len() as u64);
            lemma_write_keeps_state(
                init_lanes(self.seed),
                before,
                bytes@,
                self.lanes,
                self.buffer@.take(self.buffered as int),
                self.total_len,
                self.large,
                lanes,
                buffer@.take(buffered as int),
                total_len,
                large,
            );
        }
        *self = XxHash32 {
            seed: self.seed,
            lanes,
            buffer,
            buffered,
            total_len,
            large,
            stream: Ghost(after),
        };
    }

    /// Digest of the stream so far: what `oneshot` returns on the whole
    /// stream. The hasher is left as it was, so a second call returns the
    /// same digest and further writes go on from the same stream.
    pub fn finish(&self) -> (digest: u32)
        ensures
            digest == self.digest(),
            digest == xxh32(self.seed(), self@),
    {
        proof {
            use_type_invariant(self);
        }
        let tail = slice_subrange(self.buffer.as_slice(), 0, self.buffered);
        proof {
            assert(tail@ =~= self.buffer@.take(self.buffered as int));
            lemma_len_word_of_counter(self.stream@.len());
        }
        finish_with(self.seed, self.total_len, self.large, &self.lanes, tail)
    }

    /// The state is a function of the seed and the stream. However the
    /// stream was cut into writes, the lanes are those of its full blocks,
    /// the pending bytes are what follows the last full block, and the
    /// counter is its length.
    pub proof fn lemma_state_of_stream(&self)
        requires
            self.wf(),
        ensures
            self.lanes() == absorb_blocks(init_lanes(self.seed()), self@, self@.len() / 16),
            self.pending() == self@.skip(16 * ((self@.len() / 16) as int)),
            self.total_len() == counted(self@.len()),
    {
    }

    /// Two hashers with one seed and one stream are in one state, whatever
    /// writes built the stream: same lanes, same pending bytes, same
    /// counter, same digest.
    pub proof fn lemma_same_stream_same_state(a: &Self, b: &Self)
        requires
            a.wf(),
            b.wf(),
            a.seed() == b.seed(),
            a@ == b@,
        ensures
            a.lanes() == b.lanes(),
            a.pending() == b.pending(),
            a.total_len() == b.total_len(),
            a.digest() == b.digest(),
    {
    }

    /// Chunk invariance. If `fed` is a hasher that started out fresh and got
    /// one `write` per chunk, in order, then its digest is the hash of the
    /// chunks' concatenation: what `oneshot` returns on the uncut input.
    pub proof fn lemma_chunk_invariance(fresh: &Self, chunks: Seq<Seq<u8>>, fed: &Self)
        requires
            fresh@ == Seq::<u8>::empty(),
            fed.seed() == fresh.seed(),
            fed@ == written(fresh@, chunks),
        ensures
            fed@ == chunks.flatten(),
            fed.digest() == xxh32(fresh.seed(), chunks.flatten()),
    {
        lemma_written_is_concatenation(fresh@, chunks);
        assert(Seq::<u8>::empty() + chunks.flatten() =~= chunks.flatten());
    }

    /// Reading a digest does not end the stream. If `later` is what a
    /// `write` of `extra` leaves of `earlier`, with any number of calls of
    /// `finish` before and after, then its digest is the hash of the earlier
    /// stream followed by `extra`.
    pub proof fn lemma_digest_then_write(earlier: &Self, extra: Seq<u8>, later: &Self)
        requires
            later.seed() == earlier.seed(),
            later@ == earlier@ + extra,
        ensures
            later.digest() == xxh32(earlier.seed(), earlier@ + extra),
    {
    }
}

impl Clone for XxHash32 {
    /// A second hasher with the same seed and the same stream.
    fn clone(&self) -> (copy: Self)
        ensures
            copy.seed() == self.seed(),
            copy@ == self@,
    {
        proof {
            use_type_invariant(self);
        }
        XxHash32 {
            seed: self.seed,
            lanes: self.lanes,
            buffer: self.buffer,
            buffered: self.buffered,
            total_len: self.total_len,
            large: self.large,
            stream: Ghost(self.stream@),
        }
    }
}

} // verus!
