//! One chunk: section filtering, the presence bitmask, and the encoded chunk
//! record.
//!
//! A chunk record read from the container holds, under a "Level" entry, a
//! list of sections; either entry may be absent. The encoded chunk record is
//! the absolute chunk x and z (32-bit big-endian), a 16-bit presence bitmask
//! (bit Y set iff section Y survived filtering), then one encoded section
//! record per surviving section in ascending Y order. A chunk with no
//! surviving section emits nothing at all, not even the header.

use vstd::prelude::*;

use crate::diag::Diag;
use crate::remap::RemapTable;
use crate::section::{
    encode_section, remap_diags, section_diag, section_payload, section_sized, survives,
    SectionRecord,
};
use crate::wire::{be16_of, be32_of_i32, push_be16, push_be32_i32};

verus! {

/// The "Level" entry of a chunk record: it may lack the section list.
pub struct LevelRecord {
    pub sections: Option<Vec<SectionRecord>>,
}

/// One chunk as read from the container: it may lack the "Level" entry.
pub struct ChunkRecord {
    pub level: Option<LevelRecord>,
}

/// Some section at vertical index `y` survives filtering.
pub open spec fn has_survivor_at(ss: Seq<SectionRecord>, y: u8) -> bool {
    exists|i: int| 0 <= i < ss.len() && survives(ss[i]) && ss[i].y == Some(y)
}

/// Some section survives filtering, whatever its index.
pub open spec fn any_survivor(ss: Seq<SectionRecord>) -> bool {
    exists|i: int| 0 <= i < ss.len() && survives(ss[i])
}

/// The position of the surviving section at vertical index `y` (meaningful
/// only when `has_survivor_at` holds; unique under `sections_wf`).
pub open spec fn survivor_index(ss: Seq<SectionRecord>, y: u8) -> int {
    choose|i: int| 0 <= i < ss.len() && survives(ss[i]) && ss[i].y == Some(y)
}

/// What the transcoder requires of a section list: surviving sections carry
/// full-size arrays and an in-range vertical index, and no two survivors
/// share a vertical index — the bitmask could not name both, and a decoder
/// recovers record boundaries from the bitmask's population count.
pub open spec fn sections_wf(ss: Seq<SectionRecord>) -> bool {
    &&& forall|i: int| 0 <= i < ss.len() ==> section_sized(#[trigger] ss[i])
    &&& forall|i: int, j: int|
        #![trigger ss[i], ss[j]]
        0 <= i < ss.len() && 0 <= j < ss.len() && i != j && survives(ss[i]) && survives(ss[j])
            ==> ss[i].y != ss[j].y
}

/// `sections_wf` of whatever section list the chunk holds.
pub open spec fn chunk_wf(c: ChunkRecord) -> bool {
    match c.level {
        None => true,
        Some(level) => match level.sections {
            None => true,
            Some(ss) => sections_wf(ss@),
        },
    }
}

/// The section-presence bitmask restricted to vertical indices below `n`.
pub open spec fn mask_upto(ss: Seq<SectionRecord>, n: int) -> u16
    decreases n,
{
    if n <= 0 {
        0u16
    } else {
        mask_upto(ss, n - 1) | (if has_survivor_at(ss, (n - 1) as u8) {
            1u16 << ((n - 1) as u16)
        } else {
            0u16
        })
    }
}

/// The section-presence bitmask: bit `y` set iff a section at vertical index
/// `y` survived filtering.
pub open spec fn section_mask(ss: Seq<SectionRecord>) -> u16 {
    mask_upto(ss, 16)
}

/// The bytes vertical slot `y` contributes to the chunk body: the encoded
/// record of the survivor at `y`, or nothing.
pub open spec fn slot_bytes(table: Seq<i16>, ss: Seq<SectionRecord>, y: int) -> Seq<u8> {
    if has_survivor_at(ss, y as u8) {
        let s = ss[survivor_index(ss, y as u8)];
        section_payload(table, s.blocks->0@, s.data->0@)
    } else {
        Seq::empty()
    }
}

/// The chunk body: the slots of vertical indices below `n`, in ascending
/// order.
pub open spec fn body_bytes(table: Seq<i16>, ss: Seq<SectionRecord>, n: int) -> Seq<u8>
    decreases n,
{
    if n <= 0 {
        Seq::empty()
    } else {
        body_bytes(table, ss, n - 1) + slot_bytes(table, ss, n - 1)
    }
}

/// The remap diagnostics vertical slot `y` contributes.
pub open spec fn slot_diags(table: Seq<i16>, ss: Seq<SectionRecord>, y: int) -> Seq<Diag> {
    if has_survivor_at(ss, y as u8) {
        let s = ss[survivor_index(ss, y as u8)];
        remap_diags(table, s.blocks->0@, s.data->0@, 4096)
    } else {
        Seq::empty()
    }
}

/// The remap diagnostics of the slots of vertical indices below `n`.
pub open spec fn body_diags(table: Seq<i16>, ss: Seq<SectionRecord>, n: int) -> Seq<Diag>
    decreases n,
{
    if n <= 0 {
        Seq::empty()
    } else {
        body_diags(table, ss, n - 1) + slot_diags(table, ss, n - 1)
    }
}

/// The diagnostics the first `n` sections raise while being filtered, in
/// list order: one per section with an absent part.
pub open spec fn presence_diags(ss: Seq<SectionRecord>, n: int) -> Seq<Diag>
    decreases n,
{
    if n <= 0 {
        Seq::empty()
    } else {
        presence_diags(ss, n - 1) + match section_diag(ss[n - 1]) {
            Some(d) => seq![d],
            None => Seq::empty(),
        }
    }
}

/// Absolute chunk coordinate: region coordinate times 32 plus the
/// container-relative coordinate.
pub open spec fn abs_coord(r: i32, c: u8) -> i32 {
    (32 * r + c) as i32
}

/// The region coordinate keeps every absolute chunk coordinate within `i32`.
pub open spec fn region_coord_ok(r: i32) -> bool {
    -0x4000000 <= r < 0x4000000
}

/// The full encoded chunk record, or nothing if the chunk lacks its "Level"
/// entry or its section list or no section survives filtering.
pub open spec fn chunk_bytes(
    table: Seq<i16>,
    c: ChunkRecord,
    rx: i32,
    rz: i32,
    cx: u8,
    cz: u8,
) -> Seq<u8> {
    match c.level {
        None => Seq::empty(),
        Some(level) => match level.sections {
            None => Seq::empty(),
            Some(ss) => if !any_survivor(ss@) {
                Seq::empty()
            } else {
                be32_of_i32(abs_coord(rx, cx)) + be32_of_i32(abs_coord(rz, cz)) + be16_of(
                    section_mask(ss@),
                ) + body_bytes(table, ss@, 16)
            },
        },
    }
}

/// The diagnostics transcoding the chunk raises: one event for an absent
/// "Level" or section list, else the per-section filter events followed by
/// the per-block remap events of the encoded slots. A chunk whose sections
/// are all filtered out raises no event of its own.
pub open spec fn chunk_diags(
    table: Seq<i16>,
    c: ChunkRecord,
    rx: i32,
    rz: i32,
    cx: u8,
    cz: u8,
) -> Seq<Diag> {
    match c.level {
        None => seq![Diag::MissingLevel { rx, rz, cx, cz }],
        Some(level) => match level.sections {
            None => seq![Diag::MissingSections { rx, rz, cx, cz }],
            Some(ss) => presence_diags(ss@, ss@.len() as int) + body_diags(table, ss@, 16),
        },
    }
}

proof fn lemma_bv_or_bit(m: u16, k: u16, y: u16)
    by (bit_vector)
    requires
        k < 16,
        y < 16,
    ensures
        ((m | (1u16 << k)) >> y) & 1 == (if y == k {
            1u16
        } else {
            (m >> y) & 1
        }),
{
}

proof fn lemma_bv_or_zero(m: u16)
    by (bit_vector)
    ensures
        (m | 0u16) == m,
{
}

proof fn lemma_bv_zero_bit(y: u16)
    by (bit_vector)
    requires
        y < 16,
    ensures
        (0u16 >> y) & 1 == 0,
{
}

/// Bit `y` of the partial bitmask is set iff `y` is below `n` and a section
/// at vertical index `y` survives.
pub proof fn lemma_mask_upto_bit(ss: Seq<SectionRecord>, n: int, y: u16)
    requires
        0 <= n <= 16,
        y < 16,
    ensures
        ((mask_upto(ss, n) >> y) & 1) == (if y < n && has_survivor_at(ss, y as u8) {
            1u16
        } else {
            0u16
        }),
    decreases n,
{
    if n == 0 {
        lemma_bv_zero_bit(y);
    } else {
        lemma_mask_upto_bit(ss, n - 1, y);
        let m = mask_upto(ss, n - 1);
        if has_survivor_at(ss, (n - 1) as u8) {
            lemma_bv_or_bit(m, (n - 1) as u16, y);
            if y == (n - 1) as u16 {
                assert(y as u8 == (n - 1) as u8);
            }
        } else {
            lemma_bv_or_zero(m);
            if y == (n - 1) as u16 {
                assert(y as u8 == (n - 1) as u8);
            }
        }
    }
}

/// With no survivor anywhere, the body contributes no diagnostics.
proof fn lemma_body_diags_empty(table: Seq<i16>, ss: Seq<SectionRecord>, n: int)
    requires
        0 <= n <= 16,
        forall|yy: u8| yy < 16 ==> !has_survivor_at(ss, yy),
    ensures
        body_diags(table, ss, n) =~= Seq::<Diag>::empty(),
    decreases n,
{
    if n > 0 {
        lemma_body_diags_empty(table, ss, n - 1);
        assert(!has_survivor_at(ss, (n - 1) as u8));
    }
}

/// Whether the section survives filtering: all three parts present and at
/// least one non-air block.
pub fn section_survives_exec(s: &SectionRecord) -> (r: bool)
    ensures
        r == survives(*s),
{
    match (&s.blocks, &s.data, &s.y) {
        (Some(blocks), Some(_), Some(_)) => {
            let mut i: usize = 0;
            let mut found = false;
            while i < blocks.len()
                invariant
                    i <= blocks@.len(),
                    found == exists|k: int| 0 <= k < i && blocks@[k] != 0,
                decreases blocks@.len() - i,
            {
                if blocks[i] != 0 {
                    found = true;
                    proof {
                        assert(blocks@[i as int] != 0);
                    }
                }
                i = i + 1;
            }
            found
        },
        _ => false,
    }
}

/// The position of the first surviving section at vertical index `y`, if
/// any.
pub fn find_survivor(ss: &Vec<SectionRecord>, y: u8) -> (r: Option<usize>)
    ensures
        match r {
            Some(i) => i < ss@.len() && survives(ss@[i as int]) && ss@[i as int].y == Some(y),
            None => !has_survivor_at(ss@, y),
        },
{
    let mut i: usize = 0;
    while i < ss.len()
        invariant
            i <= ss@.len(),
            forall|k: int| 0 <= k < i ==> !(survives(#[trigger] ss@[k]) && ss@[k].y == Some(y)),
        decreases ss@.len() - i,
    {
        let s = &ss[i];
        if section_survives_exec(s) {
            match &s.y {
                Some(yy) => {
                    if *yy == y {
                        return Some(i);
                    }
                },
                None => {},
            }
        }
        i = i + 1;
    }
    None
}

/// Transcode one chunk: append its encoded record to `out` (nothing at all
/// if the chunk lacks its "Level" entry or its section list, or if no
/// section survives filtering) and its diagnostics to `diags`.
pub fn encode_chunk(
    table: &RemapTable,
    chunk: &ChunkRecord,
    rx: i32,
    rz: i32,
    cx: u8,
    cz: u8,
    out: &mut Vec<u8>,
    diags: &mut Vec<Diag>,
)
    requires
        table.wf(),
        chunk_wf(*chunk),
        cx < 32,
        cz < 32,
        region_coord_ok(rx),
        region_coord_ok(rz),
    ensures
        final(out)@ == old(out)@ + chunk_bytes(table.entries@, *chunk, rx, rz, cx, cz),
        final(diags)@ == old(diags)@ + chunk_diags(table.entries@, *chunk, rx, rz, cx, cz),
{
    let level = match &chunk.level {
        None => {
            diags.push(Diag::MissingLevel { rx, rz, cx, cz });
            proof {
                assert(diags@ =~= old(diags)@ + chunk_diags(
                    table.entries@,
                    *chunk,
                    rx,
                    rz,
                    cx,
                    cz,
                ));
                assert(out@ =~= old(out)@ + chunk_bytes(table.entries@, *chunk, rx, rz, cx, cz));
            }
            return ;
        },
        Some(level) => level,
    };
    let sections = match &level.sections {
        None => {
            diags.push(Diag::MissingSections { rx, rz, cx, cz });
            proof {
                assert(diags@ =~= old(diags)@ + chunk_diags(
                    table.entries@,
                    *chunk,
                    rx,
                    rz,
                    cx,
                    cz,
                ));
                assert(out@ =~= old(out)@ + chunk_bytes(table.entries@, *chunk, rx, rz, cx, cz));
            }
            return ;
        },
        Some(ss) => ss,
    };
    // Filter pass: report each section with an absent part, in list order.
    let n = sections.len();
    let mut k: usize = 0;
    while k < n
        invariant
            k <= n,
            n == sections@.len(),
            diags@ == old(diags)@ + presence_diags(sections@, k as int),
        decreases n - k,
    {
        let s = &sections[k];
        if s.blocks.is_none() {
            diags.push(Diag::MissingBlocks);
        } else if s.data.is_none() {
            diags.push(Diag::MissingData);
        } else if s.y.is_none() {
            diags.push(Diag::MissingY);
        }
        proof {
            assert(diags@ =~= old(diags)@ + presence_diags(sections@, k + 1 as int));
        }
        k = k + 1;
    }
    // Build the presence bitmask, one bit per surviving vertical index.
    let mut mask: u16 = 0;
    let mut any = false;
    let mut y: u8 = 0;
    while y < 16
        invariant
            y <= 16,
            mask == mask_upto(sections@, y as int),
            any == exists|yy: u8| yy < y && has_survivor_at(sections@, yy),
        decreases 16 - y,
    {
        match find_survivor(sections, y) {
            Some(_) => {
                proof {
                    assert(has_survivor_at(sections@, y));
                }
                mask = mask | (1u16 << (y as u16));
                any = true;
            },
            None => {
                proof {
                    lemma_bv_or_zero(mask);
                    assert(forall|yy: u8|
                        yy < y + 1 && has_survivor_at(sections@, yy) ==> yy < y);
                }
            },
        }
        y = y + 1;
    }
    if !any {
        // Every section was filtered out: the chunk is dropped silently.
        proof {
            if any_survivor(sections@) {
                let i = choose|i: int| 0 <= i < sections@.len() && survives(sections@[i]);
                assert(section_sized(sections@[i]));
                let yv = sections@[i].y->0;
                assert(has_survivor_at(sections@, yv));
                assert(false);
            }
            lemma_body_diags_empty(table.entries@, sections@, 16);
            assert(diags@ =~= old(diags)@ + chunk_diags(table.entries@, *chunk, rx, rz, cx, cz));
            assert(out@ =~= old(out)@ + chunk_bytes(table.entries@, *chunk, rx, rz, cx, cz));
        }
        return ;
    }
    // Header: absolute coordinates, then the bitmask.
    let ax: i32 = rx * 32 + (cx as i32);
    let az: i32 = rz * 32 + (cz as i32);
    push_be32_i32(out, ax);
    push_be32_i32(out, az);
    push_be16(out, mask);
    let ghost hdr = out@;
    let ghost diags1 = diags@;
    proof {
        assert(ax == abs_coord(rx, cx));
        assert(az == abs_coord(rz, cz));
    }
    // Encode each surviving section, in ascending vertical order.
    let mut y2: u8 = 0;
    while y2 < 16
        invariant
            y2 <= 16,
            out@ == hdr + body_bytes(table.entries@, sections@, y2 as int),
            diags@ == diags1 + body_diags(table.entries@, sections@, y2 as int),
        decreases 16 - y2,
    {
        match find_survivor(sections, y2) {
            Some(i) => {
                let s = &sections[i];
                proof {
                    assert(has_survivor_at(sections@, y2));
                    let ci = survivor_index(sections@, y2);
                    assert(0 <= ci < sections@.len() && survives(sections@[ci]) && sections@[
                        ci
                    ].y == Some(y2));
                    if ci != i as int {
                        assert(sections@[ci].y != sections@[i as int].y);
                        assert(false);
                    }
                    assert(section_sized(sections@[i as int]));
                }
                match (&s.blocks, &s.data) {
                    (Some(blocks), Some(data)) => {
                        encode_section(table, blocks, data, out, diags);
                    },
                    _ => {
                        proof {
                            assert(false);
                        }
                    },
                }
                proof {
                    assert(out@ =~= hdr + body_bytes(table.entries@, sections@, y2 + 1 as int));
                    assert(diags@ =~= diags1 + body_diags(
                        table.entries@,
                        sections@,
                        y2 + 1 as int,
                    ));
                }
            },
            None => {
                proof {
                    assert(out@ =~= hdr + body_bytes(table.entries@, sections@, y2 + 1 as int));
                    assert(diags@ =~= diags1 + body_diags(
                        table.entries@,
                        sections@,
                        y2 + 1 as int,
                    ));
                }
            },
        }
        y2 = y2 + 1;
    }
    proof {
        assert(out@ =~= old(out)@ + chunk_bytes(table.entries@, *chunk, rx, rz, cx, cz));
        assert(diags@ =~= old(diags)@ + chunk_diags(table.entries@, *chunk, rx, rz, cx, cz));
    }
}

} // verus!
