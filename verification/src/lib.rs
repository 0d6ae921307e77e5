//! Transcoder for a voxel world's on-disk chunk storage.
//!
//! The world is organized into fixed-size region containers, each holding a
//! 32x32 grid of chunks; a chunk holds up to 16 vertically stacked 16x16x16
//! block sections. This library filters degenerate sections, remaps each
//! block through a caller-supplied lookup table, and serializes the survivors
//! into a dense binary layout that is finally run through a compressor.
#![verifier::loop_isolation(false)]

pub mod chunk;
pub mod compress;
pub mod diag;
pub mod laws;
pub mod level;
pub mod pipes;
pub mod region;
pub mod remap;
pub mod section;
pub mod wire;
