//! The library's stated guarantees, as proved lemmas over the encoding
//! specifications that the executable functions' contracts use.

use vstd::prelude::*;

use crate::chunk::{
    any_survivor, chunk_bytes, chunk_wf, has_survivor_at, lemma_mask_upto_bit, region_coord_ok,
    section_mask, sections_wf, slot_bytes, survivor_index, ChunkRecord,
};
use crate::remap::{nibble_of, remap_entry, REMAP_INVALID};
use crate::section::{
    count_nonzero, entries_bytes, entry_bytes, section_payload, section_sized, survives,
    SectionRecord,
};
use crate::wire::{be16_of, be16_of_i16};

verus! {

/// A section is named by the presence bitmask exactly when it survives
/// filtering: bit `y` of the mask is set iff some section with all of its
/// parts present, at least one non-air block, and vertical index `y` exists.
pub proof fn lemma_section_inclusion(ss: Seq<SectionRecord>, y: u8)
    requires
        y < 16,
    ensures
        ((section_mask(ss) >> (y as u16)) & 1 == 1) <==> has_survivor_at(ss, y),
{
    lemma_mask_upto_bit(ss, 16, y as u16);
    assert((y as u16) as u8 == y);
}

/// A surviving section is what its vertical slot of the chunk body carries:
/// slot `y` of the body is exactly the encoded record of the survivor at `y`.
pub proof fn lemma_survivor_encoded(table: Seq<i16>, ss: Seq<SectionRecord>, i: int)
    requires
        sections_wf(ss),
        0 <= i < ss.len(),
        survives(ss[i]),
    ensures
        slot_bytes(table, ss, ss[i].y->0 as int) == section_payload(
            table,
            ss[i].blocks->0@,
            ss[i].data->0@,
        ),
{
    let y = ss[i].y->0;
    assert(has_survivor_at(ss, y));
    let ci = survivor_index(ss, y);
    assert(0 <= ci < ss.len() && survives(ss[ci]) && ss[ci].y == Some(y));
    if ci != i {
        assert(ss[ci].y != ss[i].y);
        assert(false);
    }
    assert(section_sized(ss[i]));
    assert((y as int) as u8 == y);
}

/// A chunk emits bytes exactly when it has a "Level" entry, a section list,
/// and at least one surviving section; in every other case it contributes
/// nothing at all to the stream.
pub proof fn lemma_chunk_emitted(
    table: Seq<i16>,
    c: ChunkRecord,
    rx: i32,
    rz: i32,
    cx: u8,
    cz: u8,
)
    requires
        chunk_wf(c),
        region_coord_ok(rx),
        region_coord_ok(rz),
    ensures
        chunk_bytes(table, c, rx, rz, cx, cz).len() > 0 <==> (c.level matches Some(level)
            && level.sections matches Some(ss) && any_survivor(ss@)),
{
}

/// The first two bytes of an encoded section record are the big-endian count
/// of non-zero entries of the original block-id array — the remapped values
/// play no part in it.
pub proof fn lemma_nonair_count_field(table: Seq<i16>, blocks: Seq<u8>, data: Seq<u8>)
    requires
        blocks.len() == 4096,
    ensures
        section_payload(table, blocks, data).subrange(0, 2) == be16_of(
            count_nonzero(blocks) as u16,
        ),
{
    assert(section_payload(table, blocks, data).subrange(0, 2) =~= be16_of(
        count_nonzero(blocks) as u16,
    ));
}

/// The first `n` output entries occupy exactly two bytes each.
pub proof fn lemma_entries_bytes_len(table: Seq<i16>, blocks: Seq<u8>, data: Seq<u8>, n: int)
    requires
        n >= 0,
    ensures
        entries_bytes(table, blocks, data, n).len() == 2 * n,
    decreases n,
{
    if n > 0 {
        lemma_entries_bytes_len(table, blocks, data, n - 1);
    }
}

/// Output entry `i` of the block run sits at byte offset `2 * i`.
pub proof fn lemma_entry_position(
    table: Seq<i16>,
    blocks: Seq<u8>,
    data: Seq<u8>,
    n: int,
    i: int,
)
    requires
        0 <= i < n,
    ensures
        entries_bytes(table, blocks, data, n).subrange(2 * i, 2 * i + 2) == entry_bytes(
            table,
            blocks,
            data,
            i,
        ),
    decreases n,
{
    lemma_entries_bytes_len(table, blocks, data, n - 1);
    if i == n - 1 {
        assert(entries_bytes(table, blocks, data, n).subrange(2 * i, 2 * i + 2) =~= entry_bytes(
            table,
            blocks,
            data,
            i,
        ));
    } else {
        lemma_entry_position(table, blocks, data, n - 1, i);
        assert(entries_bytes(table, blocks, data, n).subrange(2 * i, 2 * i + 2) =~= entries_bytes(
            table,
            blocks,
            data,
            n - 1,
        ).subrange(2 * i, 2 * i + 2));
    }
}

/// A (block id, nibble) pair the table maps to the invalid sentinel yields
/// an output entry of exactly zero: within the encoded section record, the
/// two bytes of entry `i` (at offset 2 for the count field) are the
/// big-endian encoding of zero.
pub proof fn lemma_invalid_remap_zeroed(table: Seq<i16>, blocks: Seq<u8>, data: Seq<u8>, i: int)
    requires
        blocks.len() == 4096,
        0 <= i < 4096,
        table[blocks[i] as int * 16 + nibble_of(data, i) as int] == REMAP_INVALID,
    ensures
        section_payload(table, blocks, data).subrange(2 + 2 * i, 4 + 2 * i) == be16_of_i16(0),
{
    lemma_entries_bytes_len(table, blocks, data, 4096);
    lemma_entry_position(table, blocks, data, 4096, i);
    assert(remap_entry(table, blocks[i], nibble_of(data, i)) == 0);
    assert(section_payload(table, blocks, data).subrange(2 + 2 * i, 4 + 2 * i) =~= entries_bytes(
        table,
        blocks,
        data,
        4096,
    ).subrange(2 * i, 2 * i + 2));
}

} // verus!
