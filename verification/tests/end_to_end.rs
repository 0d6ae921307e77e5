use world_freezer::chunk::{ChunkRecord, LevelRecord};
use world_freezer::compress::compress_level;
use world_freezer::pipes::MeteredPipe;
use world_freezer::region::{process_region, ChunkEntry};
use world_freezer::remap::RemapTable;
use world_freezer::section::SectionRecord;

/// remap(0, any) = 0 (air stays air) and remap(1, 0) = 42.
fn tiny_world_table() -> RemapTable {
    let mut entries = vec![0i16; 4096];
    entries[1 * 16] = 42;
    RemapTable::new(entries).unwrap()
}

/// One region at (0,0) with one chunk at relative (0,0) holding a single
/// section at Y=5 whose only non-air block sits at position 0.
fn tiny_world_chunks() -> Vec<ChunkEntry> {
    let mut blocks = vec![0u8; 4096];
    blocks[0] = 1;
    let section = SectionRecord { blocks: Some(blocks), data: Some(vec![0u8; 2048]), y: Some(5) };
    let record = ChunkRecord { level: Some(LevelRecord { sections: Some(vec![section]) }) };
    vec![ChunkEntry { record, cx: 0, cz: 0 }]
}

fn expected_stream() -> Vec<u8> {
    let mut expected = Vec::new();
    expected.extend_from_slice(&[0, 0, 0, 0]); // x = 0
    expected.extend_from_slice(&[0, 0, 0, 0]); // z = 0
    expected.extend_from_slice(&[0x00, 0x20]); // mask: bit 5
    expected.extend_from_slice(&[0x00, 0x01]); // one non-air block
    expected.extend_from_slice(&[0x00, 42]); // position 0 remaps to 42
    expected.extend_from_slice(&vec![0u8; 4095 * 2]); // the rest stays air
    expected
}

#[test]
fn tiny_world_uncompressed_stream() {
    let table = tiny_world_table();
    let chunks = tiny_world_chunks();
    let mut pipe = MeteredPipe::new("uncompressed");
    let mut diags = Vec::new();
    process_region(&table, 0, 0, &chunks, &mut pipe, &mut diags);
    assert!(diags.is_empty());
    assert_eq!(pipe.destination, expected_stream());
    assert_eq!(pipe.flush(), expected_stream().len() as u64);
    assert_eq!(pipe.flush(), 0);
}

#[test]
fn tiny_world_round_trips_through_compression() {
    let table = tiny_world_table();
    let chunks = tiny_world_chunks();
    let mut pipe = MeteredPipe::new("uncompressed");
    let mut diags = Vec::new();
    process_region(&table, 0, 0, &chunks, &mut pipe, &mut diags);
    let frame = compress_level(&pipe.destination).unwrap();
    assert_ne!(frame, pipe.destination);
    let decoded = zstd::stream::decode_all(&frame[..]).unwrap();
    assert_eq!(decoded, expected_stream());
}

#[test]
fn frame_header_records_exact_uncompressed_size() {
    let table = tiny_world_table();
    let chunks = tiny_world_chunks();
    let mut pipe = MeteredPipe::new("uncompressed");
    let mut diags = Vec::new();
    process_region(&table, 0, 0, &chunks, &mut pipe, &mut diags);
    let frame = compress_level(&pipe.destination).unwrap();
    let embedded = zstd::zstd_safe::get_frame_content_size(&frame).unwrap();
    assert_eq!(embedded, Some(pipe.destination.len() as u64));
}

#[test]
fn empty_payload_compresses_with_zero_content_size() {
    let frame = compress_level(&Vec::new()).unwrap();
    let embedded = zstd::zstd_safe::get_frame_content_size(&frame).unwrap();
    assert_eq!(embedded, Some(0));
    let decoded = zstd::stream::decode_all(&frame[..]).unwrap();
    assert!(decoded.is_empty());
}

#[test]
fn target_name_appends_extension() {
    assert_eq!(world_freezer::level::target_file_name("myworld"), "myworld.cum");
    assert_eq!(world_freezer::level::target_file_name(""), ".cum");
}

#[test]
fn metered_pipe_counts_and_resets() {
    let mut pipe = MeteredPipe::new("uncompressed");
    assert_eq!(pipe.write(&[1, 2, 3]), 3);
    assert_eq!(pipe.write(&[4]), 1);
    assert_eq!(pipe.flush(), 4);
    assert_eq!(pipe.write(&[5, 6]), 2);
    assert_eq!(pipe.flush(), 2);
    assert_eq!(pipe.destination, vec![1, 2, 3, 4, 5, 6]);
}
