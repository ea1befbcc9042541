//! Core logic of a voxel chunk-streaming renderer backend.
//!
//! A camera moves through an unbounded grid of cubic chunks. A bounded
//! window of chunks around the viewer is kept resident in a fixed pool of
//! GPU buffer slots, addressed through a wrap-around (toroidal) index
//! scheme. This crate holds the verified core of that machinery: block
//! code tables, the chunk content codec and persistence format, the
//! CPU-side terrain store, the toroidal slot indexing, the streaming
//! refresh decisions, the GPU timeline bookkeeping, and the distance-field
//! pass schedule. Device submission itself stays outside, driven by the
//! plans and decisions this crate computes.

use vstd::prelude::*;

pub mod block;
pub mod chunk;
pub mod distance_field;
pub mod indexing;
pub mod input;
pub mod load_store;
pub mod looking_at;
pub mod streaming;
pub mod sync;
pub mod terrain;
pub mod vec3;

verus! {

/// Edge length of a cubic chunk, in blocks.
pub const CHUNK_SIZE: u32 = 32;

/// Number of blocks in one chunk.
pub const CHUNK_VOLUME: u32 = 32 * 32 * 32;

} // verus!
