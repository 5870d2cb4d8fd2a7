use std::collections::HashMap;
use std::io::Write;

use anvil_region::chunks::parse_chunk_surface;
use anvil_region::dimensions::Dimension;
use anvil_region::errors::{DecodeError, TagKind};
use anvil_region::regions::{chunk_from_tree, parse_region_bytes, Region};
use anvil_region::tags::Tag;

fn compound(entries: Vec<(&str, Tag)>) -> Tag {
    Tag::Compound(entries.into_iter().map(|(k, v)| (k.to_string(), v)).collect())
}

#[test]
fn empty_region_file_decodes_to_zero_chunks() {
    let data = vec![0u8; 8192];
    let region: Region = parse_region_bytes(&data).unwrap();
    assert_eq!(region.chunks.len(), 0);
}

#[test]
fn truncated_region_file_is_a_hard_error() {
    let data = vec![0u8; 100];
    match parse_region_bytes(&data) {
        Err(DecodeError::TruncatedRegion { len }) => assert_eq!(len, 100),
        other => panic!("expected a truncation error, got {other:?}"),
    }
}

#[test]
fn slot_pointing_past_the_buffer_is_skipped() {
    let mut data = vec![0u8; 8192];
    // slot 0: offset 100 sectors, 1 sector long, but the file ends at 8192
    data[2] = 100;
    data[3] = 1;
    let region = parse_region_bytes(&data).unwrap();
    assert_eq!(region.chunks.len(), 0);
}

#[test]
fn foreign_compression_marker_is_skipped() {
    let mut data = vec![0u8; 3 * 4096];
    data[2] = 2; // sector 2: right after the header
    data[3] = 1;
    let payload = [1u8, 2, 3, 4];
    let at = 8192;
    data[at..at + 4].copy_from_slice(&(payload.len() as u32 + 1).to_be_bytes());
    data[at + 4] = 1; // gzip marker: out of scope, skipped
    data[at + 5..at + 5 + payload.len()].copy_from_slice(&payload);
    let region = parse_region_bytes(&data).unwrap();
    assert_eq!(region.chunks.len(), 0);
}

#[test]
fn corrupt_zlib_stream_fails_the_region() {
    let mut data = vec![0u8; 3 * 4096];
    data[2] = 2;
    data[3] = 1;
    let payload = [0xde, 0xad, 0xbe, 0xef];
    let at = 8192;
    data[at..at + 4].copy_from_slice(&(payload.len() as u32 + 1).to_be_bytes());
    data[at + 4] = 2; // zlib marker, but the bytes are garbage
    data[at + 5..at + 5 + payload.len()].copy_from_slice(&payload);
    match parse_region_bytes(&data) {
        Err(DecodeError::CorruptCompressedChunk { slot }) => assert_eq!(slot, 0),
        other => panic!("expected a corrupt-chunk error, got {other:?}"),
    }
}

fn nbt_chunk_value(status: &str, data_version: i32, x: i32, z: i32) -> fastnbt::Value {
    let mut heightmaps = HashMap::new();
    heightmaps.insert(
        "MOTION_BLOCKING".to_string(),
        fastnbt::Value::LongArray(fastnbt::LongArray::new(vec![0i64; 37])),
    );
    heightmaps.insert(
        "OCEAN_FLOOR".to_string(),
        fastnbt::Value::LongArray(fastnbt::LongArray::new(vec![0i64; 37])),
    );

    let mut block_entry = HashMap::new();
    block_entry.insert(
        "Name".to_string(),
        fastnbt::Value::String("minecraft:stone".to_string()),
    );
    let mut block_states = HashMap::new();
    block_states.insert(
        "palette".to_string(),
        fastnbt::Value::List(vec![fastnbt::Value::Compound(block_entry)]),
    );
    let mut biomes = HashMap::new();
    biomes.insert(
        "palette".to_string(),
        fastnbt::Value::List(vec![fastnbt::Value::String("minecraft:plains".to_string())]),
    );
    let mut section = HashMap::new();
    section.insert("Y".to_string(), fastnbt::Value::Byte(-4));
    section.insert("block_states".to_string(), fastnbt::Value::Compound(block_states));
    section.insert("biomes".to_string(), fastnbt::Value::Compound(biomes));

    let mut root = HashMap::new();
    root.insert("Status".to_string(), fastnbt::Value::String(status.to_string()));
    root.insert("DataVersion".to_string(), fastnbt::Value::Int(data_version));
    root.insert("LastUpdate".to_string(), fastnbt::Value::Long(777));
    root.insert("InhabitedTime".to_string(), fastnbt::Value::Long(888));
    root.insert("xPos".to_string(), fastnbt::Value::Int(x));
    root.insert("zPos".to_string(), fastnbt::Value::Int(z));
    root.insert(
        "Heightmaps".to_string(),
        fastnbt::Value::Compound(heightmaps),
    );
    root.insert(
        "sections".to_string(),
        fastnbt::Value::List(vec![fastnbt::Value::Compound(section)]),
    );
    fastnbt::Value::Compound(root)
}

fn region_with_payloads(payloads: Vec<Vec<u8>>) -> Vec<u8> {
    let mut data = vec![0u8; 8192];
    let mut sector = 2u32;
    for (slot, payload) in payloads.iter().enumerate() {
        let sectors_needed = ((payload.len() + 5 + 4095) / 4096) as u32;
        let idx = slot * 4;
        data[idx] = (sector >> 16) as u8;
        data[idx + 1] = (sector >> 8) as u8;
        data[idx + 2] = sector as u8;
        data[idx + 3] = sectors_needed as u8;

        let at = sector as usize * 4096;
        data.resize(at + sectors_needed as usize * 4096, 0);
        data[at..at + 4].copy_from_slice(&(payload.len() as u32 + 1).to_be_bytes());
        data[at + 4] = 2;
        data[at + 5..at + 5 + payload.len()].copy_from_slice(payload);
        sector += sectors_needed;
    }
    data
}

fn zlib_compress(bytes: &[u8]) -> Vec<u8> {
    let mut encoder =
        flate2::write::ZlibEncoder::new(Vec::new(), flate2::Compression::default());
    encoder.write_all(bytes).unwrap();
    encoder.finish().unwrap()
}

#[test]
fn full_round_trip_through_real_compression_and_nbt() {
    let full = fastnbt::to_bytes(&nbt_chunk_value("minecraft:full", 3465, 7, -3)).unwrap();
    let proto = fastnbt::to_bytes(&nbt_chunk_value("minecraft:features", 3465, 8, -3)).unwrap();
    let data = region_with_payloads(vec![zlib_compress(&full), zlib_compress(&proto)]);

    let region = parse_region_bytes(&data).unwrap();
    // the proto-chunk is skipped, the full chunk kept
    assert_eq!(region.chunks.len(), 1);
    let chunk = &region.chunks[0];
    assert_eq!(chunk.data_version, 3465);
    assert_eq!(chunk.last_update, 777);
    assert_eq!(chunk.inhabited_time, 888);
    assert_eq!(chunk.position.x, 7);
    assert_eq!(chunk.position.z, -3);

    let surface = parse_chunk_surface(chunk, &Dimension::Overworld).unwrap();
    assert_eq!(surface.blocks.len(), 256);
    assert_eq!(surface.biomes.len(), 16);
    assert_eq!(surface.blocks[0].name, "minecraft:stone");
    assert_eq!(surface.blocks[0].position.x, 7 * 16);
    assert_eq!(surface.blocks[0].position.y, -64);
}

#[test]
fn undecodable_payload_is_no_chunk() {
    // valid zlib around bytes that are not NBT: the slot is skipped
    let data = region_with_payloads(vec![zlib_compress(&[0xff, 0xfe, 0xfd])]);
    let region = parse_region_bytes(&data).unwrap();
    assert_eq!(region.chunks.len(), 0);
}

#[test]
fn chunk_from_tree_skips_proto_chunks() {
    let tree = compound(vec![
        ("Status", Tag::Str("minecraft:features".to_string())),
        ("DataVersion", Tag::Int(1)),
        ("LastUpdate", Tag::Long(2)),
        ("InhabitedTime", Tag::Long(3)),
    ]);
    assert!(chunk_from_tree(0, tree).unwrap().is_none());
}

#[test]
fn chunk_from_tree_requires_data_version() {
    let tree = compound(vec![
        ("LastUpdate", Tag::Long(2)),
        ("InhabitedTime", Tag::Long(3)),
    ]);
    match chunk_from_tree(0, tree) {
        Err(DecodeError::WrongTag { key, found }) => {
            assert_eq!(key, "DataVersion");
            assert_eq!(found, None);
        }
        other => panic!("expected a data-version error, got {other:?}"),
    }
}

#[test]
fn chunk_from_tree_rejects_mistyped_timestamps() {
    let tree = compound(vec![
        ("DataVersion", Tag::Int(1)),
        ("LastUpdate", Tag::Int(2)),
        ("InhabitedTime", Tag::Long(3)),
    ]);
    match chunk_from_tree(0, tree) {
        Err(DecodeError::WrongTag { key, found }) => {
            assert_eq!(key, "LastUpdate");
            assert_eq!(found, Some(TagKind::Int));
        }
        other => panic!("expected a timestamp error, got {other:?}"),
    }
}

#[test]
fn chunk_from_tree_non_compound_root_is_no_chunk() {
    assert!(chunk_from_tree(0, Tag::Long(9)).unwrap().is_none());
}

#[test]
fn chunk_position_falls_back_to_the_slot() {
    let tree = compound(vec![
        ("DataVersion", Tag::Int(1)),
        ("LastUpdate", Tag::Long(2)),
        ("InhabitedTime", Tag::Long(3)),
    ]);
    let chunk = chunk_from_tree(35, tree).unwrap().unwrap();
    assert_eq!(chunk.position.x, 3);
    assert_eq!(chunk.position.z, 1);
}

#[test]
fn structural_chunk_error_fails_the_region() {
    // a full chunk whose LastUpdate is missing aborts the whole region
    let mut root = HashMap::new();
    root.insert(
        "Status".to_string(),
        fastnbt::Value::String("minecraft:full".to_string()),
    );
    root.insert("DataVersion".to_string(), fastnbt::Value::Int(1));
    root.insert("InhabitedTime".to_string(), fastnbt::Value::Long(3));
    let bytes = fastnbt::to_bytes(&fastnbt::Value::Compound(root)).unwrap();
    let data = region_with_payloads(vec![zlib_compress(&bytes)]);
    match parse_region_bytes(&data) {
        Err(DecodeError::WrongTag { key, found }) => {
            assert_eq!(key, "LastUpdate");
            assert_eq!(found, None);
        }
        other => panic!("expected a structural error, got {other:?}"),
    }
}
