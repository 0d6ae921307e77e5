//! One chunk section: filtering and the encoded section record.
//!
//! A section as read from the container may miss any of its three parts
//! (block-id array, packed data array, vertical index). A section is encoded
//! only if all three are present and at least one block id is non-zero. The
//! encoded record is a 16-bit big-endian count of non-air blocks followed by
//! 4096 16-bit big-endian remapped block ids; the count is pure metadata, the
//! block run always has all 4096 entries.

use vstd::prelude::*;

use crate::diag::Diag;
use crate::remap::{nibble_of, remap_entry, RemapTable, REMAP_INVALID};
use crate::wire::{be16_of, be16_of_i16, push_be16, push_be16_i16};

verus! {

/// One section as read from the container: any part may be absent.
pub struct SectionRecord {
    /// 4096 old-format block ids, one per block, in raster order.
    pub blocks: Option<Vec<u8>>,
    /// 2048 bytes packing 4096 data nibbles, two per byte.
    pub data: Option<Vec<u8>>,
    /// Vertical index of the section within its chunk.
    pub y: Option<u8>,
}

/// At least one block id is non-zero (non-air).
pub open spec fn has_nonzero(blocks: Seq<u8>) -> bool {
    exists|i: int| 0 <= i < blocks.len() && blocks[i] != 0
}

/// Number of non-zero entries of the block-id array.
pub open spec fn count_nonzero(blocks: Seq<u8>) -> nat
    decreases blocks.len(),
{
    if blocks.len() == 0 {
        0
    } else {
        count_nonzero(blocks.drop_last()) + if blocks.last() != 0 {
            1nat
        } else {
            0nat
        }
    }
}

/// The section survives filtering: all three parts present and not all air.
pub open spec fn survives(s: SectionRecord) -> bool {
    &&& s.blocks is Some
    &&& s.data is Some
    &&& s.y is Some
    &&& has_nonzero(s.blocks->0@)
}

/// The diagnostic a section raises while being filtered: the first absent
/// part, if any. An all-air section raises none.
pub open spec fn section_diag(s: SectionRecord) -> Option<Diag> {
    if s.blocks is None {
        Some(Diag::MissingBlocks)
    } else if s.data is None {
        Some(Diag::MissingData)
    } else if s.y is None {
        Some(Diag::MissingY)
    } else {
        None
    }
}

/// A section that survives filtering carries full-size arrays and an
/// in-range vertical index. The container format guarantees this of every
/// stored section; the transcoder requires it of the survivors it encodes.
pub open spec fn section_sized(s: SectionRecord) -> bool {
    survives(s) ==> {
        &&& s.blocks->0@.len() == 4096
        &&& s.data->0@.len() == 2048
        &&& s.y->0 < 16
    }
}

/// The two's-complement bytes of output entry `i`: the remapped id of block
/// `i` under its data nibble, big-endian.
pub open spec fn entry_bytes(table: Seq<i16>, blocks: Seq<u8>, data: Seq<u8>, i: int) -> Seq<u8> {
    be16_of_i16(remap_entry(table, blocks[i], nibble_of(data, i)))
}

/// The concatenated first `n` output entries of the block run.
pub open spec fn entries_bytes(table: Seq<i16>, blocks: Seq<u8>, data: Seq<u8>, n: int) -> Seq<u8>
    decreases n,
{
    if n <= 0 {
        Seq::empty()
    } else {
        entries_bytes(table, blocks, data, n - 1) + entry_bytes(table, blocks, data, n - 1)
    }
}

/// The encoded section record: non-air count, then one entry per block.
pub open spec fn section_payload(table: Seq<i16>, blocks: Seq<u8>, data: Seq<u8>) -> Seq<u8> {
    be16_of(count_nonzero(blocks) as u16) + entries_bytes(table, blocks, data, blocks.len() as int)
}

/// The diagnostics raised by the first `n` blocks of the run: one
/// `InvalidRemap` per pair the table maps to the invalid sentinel, in block
/// order.
pub open spec fn remap_diags(table: Seq<i16>, blocks: Seq<u8>, data: Seq<u8>, n: int) -> Seq<Diag>
    decreases n,
{
    if n <= 0 {
        Seq::empty()
    } else {
        remap_diags(table, blocks, data, n - 1) + {
            let i = n - 1;
            if table[blocks[i] as int * 16 + nibble_of(data, i) as int] == REMAP_INVALID {
                seq![Diag::InvalidRemap { block: blocks[i], nibble: nibble_of(data, i) }]
            } else {
                Seq::empty()
            }
        }
    }
}

/// Count the non-zero entries of the original block-id array.
pub fn count_non_air(blocks: &Vec<u8>) -> (count: u16)
    requires
        blocks@.len() == 4096,
    ensures
        count == count_nonzero(blocks@),
{
    let mut count: u16 = 0;
    let mut i: usize = 0;
    while i < 4096
        invariant
            i <= 4096,
            count == count_nonzero(blocks@.take(i as int)),
            count <= i,
        decreases 4096 - i,
    {
        proof {
            assert(blocks@.take(i + 1 as int).drop_last() =~= blocks@.take(i as int));
            assert(blocks@.take(i + 1 as int).last() == blocks@[i as int]);
        }
        if blocks[i] != 0 {
            count = count + 1;
        }
        i = i + 1;
    }
    proof {
        assert(blocks@.take(4096) =~= blocks@);
    }
    count
}

/// Encode one surviving section: append its record to `out` and one
/// diagnostic to `diags` for every block whose remap is invalid (that block's
/// entry degrades to zero; the section is never dropped for it).
pub fn encode_section(
    table: &RemapTable,
    blocks: &Vec<u8>,
    data: &Vec<u8>,
    out: &mut Vec<u8>,
    diags: &mut Vec<Diag>,
)
    requires
        table.wf(),
        blocks@.len() == 4096,
        data@.len() == 2048,
    ensures
        final(out)@ == old(out)@ + section_payload(table.entries@, blocks@, data@),
        final(diags)@ == old(diags)@ + remap_diags(table.entries@, blocks@, data@, 4096),
{
    let count = count_non_air(blocks);
    push_be16(out, count);
    let mut i: usize = 0;
    while i < 4096
        invariant
            i <= 4096,
            out@ == old(out)@ + be16_of(count_nonzero(blocks@) as u16) + entries_bytes(
                table.entries@,
                blocks@,
                data@,
                i as int,
            ),
            diags@ == old(diags)@ + remap_diags(table.entries@, blocks@, data@, i as int),
        decreases 4096 - i,
    {
        let block = blocks[i];
        let nib = crate::remap::extract_nibble(data, i);
        let raw = table.lookup(block, nib);
        let value: i16 = if raw == REMAP_INVALID {
            diags.push(Diag::InvalidRemap { block, nibble: nib });
            0
        } else {
            raw
        };
        push_be16_i16(out, value);
        proof {
            assert(out@ =~= old(out)@ + be16_of(count_nonzero(blocks@) as u16) + entries_bytes(
                table.entries@,
                blocks@,
                data@,
                i + 1 as int,
            ));
            assert(diags@ =~= old(diags)@ + remap_diags(
                table.entries@,
                blocks@,
                data@,
                i + 1 as int,
            ));
        }
        i = i + 1;
    }
    proof {
        assert(section_payload(table.entries@, blocks@, data@) == be16_of(
            count_nonzero(blocks@) as u16,
        ) + entries_bytes(table.entries@, blocks@, data@, 4096));
        assert(out@ =~= old(out)@ + section_payload(table.entries@, blocks@, data@));
    }
}

} // verus!
