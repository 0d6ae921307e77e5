use world_freezer::chunk::{encode_chunk, ChunkRecord, LevelRecord};
use world_freezer::diag::Diag;
use world_freezer::remap::RemapTable;
use world_freezer::section::SectionRecord;

const SECTION_BYTES: usize = 2 + 4096 * 2;

fn identity_table() -> RemapTable {
    let mut entries = vec![0i16; 4096];
    for b in 0..256usize {
        for n in 0..16usize {
            entries[b * 16 + n] = b as i16;
        }
    }
    RemapTable::new(entries).unwrap()
}

/// A valid section at `y` whose first block id is `first_block`.
fn section(y: u8, first_block: u8) -> SectionRecord {
    let mut blocks = vec![0u8; 4096];
    blocks[0] = first_block;
    SectionRecord { blocks: Some(blocks), data: Some(vec![0u8; 2048]), y: Some(y) }
}

/// A valid section with nothing but air.
fn air_section(y: u8) -> SectionRecord {
    SectionRecord { blocks: Some(vec![0u8; 4096]), data: Some(vec![0u8; 2048]), y: Some(y) }
}

#[test]
fn bitmask_and_ascending_order() {
    let table = identity_table();
    // Survivors at Y = 15, 0, 3, handed over out of order.
    let sections = vec![section(15, 3), section(0, 1), section(3, 2)];
    let chunk = ChunkRecord { level: Some(LevelRecord { sections: Some(sections) }) };
    let mut out = Vec::new();
    let mut diags = Vec::new();
    encode_chunk(&table, &chunk, 0, 0, 0, 0, &mut out, &mut diags);
    // Bitmask 1000000000001001 in big-endian bytes.
    assert_eq!(&out[8..10], &[0x80, 0x09]);
    // Exactly three section records follow the 10-byte header.
    assert_eq!(out.len(), 10 + 3 * SECTION_BYTES);
    // Ascending Y order: the records for Y = 0, 3, 15 in turn.
    for (record, first_entry) in [(0usize, 1u8), (1, 2), (2, 3)] {
        let start = 10 + record * SECTION_BYTES;
        assert_eq!(&out[start..start + 2], &[0x00, 0x01]);
        assert_eq!(&out[start + 2..start + 4], &[0x00, first_entry]);
    }
    assert!(diags.is_empty());
}

#[test]
fn absolute_coordinates_in_header() {
    let table = identity_table();
    let chunk = ChunkRecord {
        level: Some(LevelRecord { sections: Some(vec![section(0, 1)]) }),
    };
    let mut out = Vec::new();
    let mut diags = Vec::new();
    // Region (-1, 2), relative chunk (5, 31): absolute (-27, 95).
    encode_chunk(&table, &chunk, -1, 2, 5, 31, &mut out, &mut diags);
    assert_eq!(&out[0..4], &(-27i32).to_be_bytes());
    assert_eq!(&out[4..8], &95i32.to_be_bytes());
    assert_eq!(&out[8..10], &[0x00, 0x01]);
}

#[test]
fn missing_level_drops_chunk_with_diagnostic() {
    let table = identity_table();
    let chunk = ChunkRecord { level: None };
    let mut out = Vec::new();
    let mut diags = Vec::new();
    encode_chunk(&table, &chunk, 4, -7, 1, 2, &mut out, &mut diags);
    assert!(out.is_empty());
    assert_eq!(diags, vec![Diag::MissingLevel { rx: 4, rz: -7, cx: 1, cz: 2 }]);
}

#[test]
fn missing_sections_drops_chunk_with_diagnostic() {
    let table = identity_table();
    let chunk = ChunkRecord { level: Some(LevelRecord { sections: None }) };
    let mut out = Vec::new();
    let mut diags = Vec::new();
    encode_chunk(&table, &chunk, 0, 0, 3, 4, &mut out, &mut diags);
    assert!(out.is_empty());
    assert_eq!(diags, vec![Diag::MissingSections { rx: 0, rz: 0, cx: 3, cz: 4 }]);
}

#[test]
fn all_filtered_chunk_is_dropped_silently() {
    let table = identity_table();
    // Only air: filtered without a diagnostic.
    let chunk = ChunkRecord {
        level: Some(LevelRecord { sections: Some(vec![air_section(0), air_section(1)]) }),
    };
    let mut out = Vec::new();
    let mut diags = Vec::new();
    encode_chunk(&table, &chunk, 0, 0, 0, 0, &mut out, &mut diags);
    assert!(out.is_empty());
    assert!(diags.is_empty());
}

#[test]
fn malformed_sections_drop_with_diagnostics_but_chunk_survives() {
    let table = identity_table();
    let no_blocks = SectionRecord { blocks: None, data: Some(vec![0u8; 2048]), y: Some(1) };
    let no_data = SectionRecord { blocks: Some(vec![1u8; 4096]), data: None, y: Some(2) };
    let no_y = SectionRecord { blocks: Some(vec![1u8; 4096]), data: Some(vec![0u8; 2048]), y: None };
    let sections = vec![no_blocks, no_data, no_y, section(4, 9)];
    let chunk = ChunkRecord { level: Some(LevelRecord { sections: Some(sections) }) };
    let mut out = Vec::new();
    let mut diags = Vec::new();
    encode_chunk(&table, &chunk, 0, 0, 0, 0, &mut out, &mut diags);
    assert_eq!(diags, vec![Diag::MissingBlocks, Diag::MissingData, Diag::MissingY]);
    // Only the intact section is encoded: bit 4 alone.
    assert_eq!(&out[8..10], &[0x00, 0x10]);
    assert_eq!(out.len(), 10 + SECTION_BYTES);
    assert_eq!(&out[12..14], &[0x00, 0x09]);
}

#[test]
fn malformed_sections_alone_drop_chunk_with_diagnostics_only() {
    let table = identity_table();
    let no_data = SectionRecord { blocks: Some(vec![1u8; 4096]), data: None, y: Some(2) };
    let chunk = ChunkRecord { level: Some(LevelRecord { sections: Some(vec![no_data]) }) };
    let mut out = Vec::new();
    let mut diags = Vec::new();
    encode_chunk(&table, &chunk, 0, 0, 0, 0, &mut out, &mut diags);
    assert!(out.is_empty());
    assert_eq!(diags, vec![Diag::MissingData]);
}
