//! Little-endian decoding of fixed-width words out of a byte sequence.
//!
//! The value of a word is defined arithmetically, byte by byte, so it is the
//! same on every host whatever its native byte order.

use vstd::prelude::*;

verus! {

/// The 32-bit word whose little-endian encoding is `bytes[at..at + 4]`.
pub open spec fn le_u32(bytes: Seq<u8>, at: int) -> u32 {
    (bytes[at] + 0x100 * bytes[at + 1] + 0x1_0000 * bytes[at + 2] + 0x100_0000 * bytes[at + 3]) as u32
}

/// The 64-bit word whose little-endian encoding is `bytes[at..at + 8]`.
pub open spec fn le_u64(bytes: Seq<u8>, at: int) -> u64 {
    (le_u32(bytes, at) + 0x1_0000_0000 * le_u32(bytes, at + 4)) as u64
}

/// A word is read through its four bytes alone: two sequences that hold the
/// same bytes at two windows give the same word.
pub proof fn lemma_le_u32_window(a: Seq<u8>, i: int, b: Seq<u8>, j: int)
    requires
        0 <= i,
        i + 4 <= a.len(),
        0 <= j,
        j + 4 <= b.len(),
        a.subrange(i, i + 4) == b.subrange(j, j + 4),
    ensures
        le_u32(a, i) == le_u32(b, j),
{
    let wa = a.subrange(i, i + 4);
    let wb = b.subrange(j, j + 4);
    assert(a[i] == wa[0] && a[i + 1] == wa[1] && a[i + 2] == wa[2] && a[i + 3] == wa[3]);
    assert(b[j] == wb[0] && b[j + 1] == wb[1] && b[j + 2] == wb[2] && b[j + 3] == wb[3]);
}

/// A word is read through its eight bytes alone: two sequences that hold the
/// same bytes at two windows give the same word.
pub proof fn lemma_le_u64_window(a: Seq<u8>, i: int, b: Seq<u8>, j: int)
    requires
        0 <= i,
        i + 8 <= a.len(),
        0 <= j,
        j + 8 <= b.len(),
        a.subrange(i, i + 8) == b.subrange(j, j + 8),
    ensures
        le_u64(a, i) == le_u64(b, j),
{
    let wa = a.subrange(i, i + 8);
    let wb = b.subrange(j, j + 8);
    assert(a.subrange(i, i + 4) =~= wa.subrange(0, 4));
    assert(b.subrange(j, j + 4) =~= wb.subrange(0, 4));
    assert(a.subrange(i + 4, i + 8) =~= wa.subrange(4, 8));
    assert(b.subrange(j + 4, j + 8) =~= wb.subrange(4, 8));
    lemma_le_u32_window(a, i, b, j);
    lemma_le_u32_window(a, i + 4, b, j + 4);
}

/// Reads the 32-bit little-endian word that starts at index `at`.
pub fn read_u32_le(bytes: &[u8], at: usize) -> (word: u32)
    requires
        at + 4 <= bytes.len(),
    ensures
        word == le_u32(bytes@, at as int),
{
    let b0: u8 = bytes[at];
    let b1: u8 = bytes[at + 1];
    let b2: u8 = bytes[at + 2];
    let b3: u8 = bytes[at + 3];
    assert((b0 as u32) | ((b1 as u32) << 8) | ((b2 as u32) << 16) | ((b3 as u32) << 24) == b0
        + 0x100 * b1 + 0x1_0000 * b2 + 0x100_0000 * b3) by (bit_vector);
    (b0 as u32) | ((b1 as u32) << 8) | ((b2 as u32) << 16) | ((b3 as u32) << 24)
}

/// Reads the 64-bit little-endian word that starts at index `at`.
pub fn read_u64_le(bytes: &[u8], at: usize) -> (word: u64)
    requires
        at + 8 <= bytes.len(),
    ensures
        word == le_u64(bytes@, at as int),
{
    let low: u32 = read_u32_le(bytes, at);
    let high: u32 = read_u32_le(bytes, at + 4);
    assert((low as u64) | ((high as u64) << 32) == low + 0x1_0000_0000 * high) by (bit_vector);
    (low as u64) | ((high as u64) << 32)
}

} // verus!
