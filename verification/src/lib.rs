//! The XXHash family of non-cryptographic hashes, in its 32-bit and its 64-bit width.
//!
//! Each width offers a one-shot function over a complete byte slice and an
//! incremental hasher that takes the input in pieces of any size. Both are
//! specified against one mathematical definition of the hash, so they agree on
//! every input and every way of cutting it into pieces.

use vstd::prelude::*;

pub mod le;
pub mod random;
pub mod stream;
pub mod xxhash32;
pub mod xxhash64;

pub use random::{EntropySource, RandomXxHash32Builder, RandomXxHash64Builder};
pub use xxhash32::XxHash32;
pub use xxhash64::XxHash64;

verus! {

/// Lossless widening to `u32`.
pub(crate) trait IntoU32: Sized {
    /// The value as a `u32`.
    spec fn widened_u32(self) -> u32;

    fn into_u32(self) -> (wide: u32)
        ensures
            wide == self.widened_u32(),
    ;
}

impl IntoU32 for u8 {
    spec fn widened_u32(self) -> u32 {
        self as u32
    }

    fn into_u32(self) -> (wide: u32) {
        self as u32
    }
}

/// Lossless widening to `u64`.
pub(crate) trait IntoU64: Sized {
    /// The value as a `u64`.
    spec fn widened_u64(self) -> u64;

    fn into_u64(self) -> (wide: u64)
        ensures
            wide == self.widened_u64(),
    ;
}

impl IntoU64 for u8 {
    spec fn widened_u64(self) -> u64 {
        self as u64
    }

    fn into_u64(self) -> (wide: u64) {
        self as u64
    }
}

impl IntoU64 for u32 {
    spec fn widened_u64(self) -> u64 {
        self as u64
    }

    fn into_u64(self) -> (wide: u64) {
        self as u64
    }
}

impl IntoU64 for usize {
    spec fn widened_u64(self) -> u64 {
        self as u64
    }

    fn into_u64(self) -> (wide: u64) {
        self as u64
    }
}

} // verus!
