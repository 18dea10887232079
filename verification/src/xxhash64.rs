//! XXH64: the 64-bit member of the family.
//!
//! [`spec`] defines the hash as a mathematical function of a seed and a byte
//! sequence. [`engine`] holds the executable mixing steps, [`XxHash64`]
//! computes the hash in one call or incrementally, and [`laws`] states what
//! holds of it however the input is cut into pieces.

pub mod engine;
pub mod hasher;
pub mod laws;
pub mod spec;

pub use hasher::XxHash64;
