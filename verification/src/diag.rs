//! Diagnostic events raised while transcoding.
//!
//! The pipeline never aborts on a malformed chunk or section: it drops the
//! offending piece (or degrades a single block entry to zero) and records one
//! of these events for the caller to report. A chunk whose sections are all
//! filtered out is dropped silently and raises no event.

use vstd::prelude::*;

verus! {

/// One recoverable defect met while transcoding, with enough context for the
/// caller to report it.
#[derive(Clone, Copy, Debug, PartialEq, Eq, Structural)]
pub enum Diag {
    /// The chunk record has no "Level" entry; the chunk was dropped.
    MissingLevel { rx: i32, rz: i32, cx: u8, cz: u8 },
    /// The chunk's level has no section list; the chunk was dropped.
    MissingSections { rx: i32, rz: i32, cx: u8, cz: u8 },
    /// A section has no block-id array; the section was dropped.
    MissingBlocks,
    /// A section has no packed data array; the section was dropped.
    MissingData,
    /// A section has no vertical index; the section was dropped.
    MissingY,
    /// The remap table yields no mapping for the pair; the single output
    /// entry was degraded to zero.
    InvalidRemap { block: u8, nibble: u8 },
}

} // verus!
