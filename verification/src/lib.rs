//! Core of a CPU inference engine for Llama-family transformer checkpoints.
//!
//! The library holds everything about the engine that is exact: decoding the
//! checkpoint header and weight payload, the vocabulary table, the sizes and
//! offsets of every weight section, and the index arithmetic that partitions
//! the attention and matrix-multiply work into provably disjoint regions.
//! Weight words are kept as raw 32-bit little-endian units; their numeric
//! interpretation is the caller's concern.

use vstd::prelude::*;

pub mod attention;
pub mod bytes;
pub mod config;
pub mod layout;
pub mod parallel;
pub mod rope;
pub mod vocab;
pub mod weights;

verus! {

/// Number of bytes a checkpoint header occupies: seven 32-bit fields.
pub const HEADER_BYTES: usize = 28;

} // verus!
