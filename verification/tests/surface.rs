use anvil_region::blocks::Block;
use anvil_region::chunks::{parse_chunk_heightmaps, parse_chunk_sections, parse_chunk_surface, Chunk, ChunkPosition};
use anvil_region::dimensions::Dimension;
use anvil_region::errors::{DecodeError, TagKind};
use anvil_region::sections::{extract_block_data, get_biome_at_position, get_block_at_position};
use anvil_region::tags::{Compound, Tag};

fn compound(entries: Vec<(&str, Tag)>) -> Tag {
    Tag::Compound(entries.into_iter().map(|(k, v)| (k.to_string(), v)).collect())
}

fn packed_heightmap(value: u64) -> Vec<i64> {
    let mut words = Vec::new();
    for w in 0..37 {
        let mut word: u64 = 0;
        for slot in 0..7 {
            if w * 7 + slot < 256 {
                word |= (value & 0x1ff) << (slot * 9);
            }
        }
        words.push(word as i64);
    }
    words
}

fn palette_block(name: &str) -> Tag {
    compound(vec![("Name", Tag::Str(name.to_string()))])
}

fn single_block_section(y: i32, name: &str) -> Tag {
    compound(vec![
        ("Y", Tag::Byte(y as i8)),
        (
            "block_states",
            compound(vec![("palette", Tag::List(vec![palette_block(name)]))]),
        ),
        (
            "biomes",
            compound(vec![(
                "palette",
                Tag::List(vec![Tag::Str("minecraft:plains".to_string())]),
            )]),
        ),
    ])
}

fn chunk_with(sections: Vec<Tag>, mb: u64, of: u64, pos: (i32, i32)) -> Chunk {
    Chunk {
        data_version: 3465,
        last_update: 11,
        inhabited_time: 22,
        position: ChunkPosition { x: pos.0, z: pos.1 },
        nbt: compound(vec![
            (
                "Heightmaps",
                compound(vec![
                    ("MOTION_BLOCKING", Tag::LongArray(packed_heightmap(mb))),
                    ("OCEAN_FLOOR", Tag::LongArray(packed_heightmap(of))),
                ]),
            ),
            ("sections", Tag::List(sections)),
        ]),
    }
}

fn root_of(chunk: &Chunk) -> &Compound {
    match &chunk.nbt {
        Tag::Compound(c) => c,
        _ => panic!("chunk root is not a compound"),
    }
}

#[test]
fn overworld_surface_has_256_blocks_and_16_biomes() {
    let chunk = chunk_with(vec![single_block_section(-4, "minecraft:stone")], 0, 0, (3, -2));
    for dimension in [Dimension::Overworld] {
        let surface = parse_chunk_surface(&chunk, &dimension).unwrap();
        assert_eq!(surface.blocks.len(), 256);
        assert_eq!(surface.biomes.len(), 16);
        assert!(surface.biomes.iter().all(|b| b == "minecraft:plains"));
        let first: &Block = &surface.blocks[0];
        assert_eq!(first.name, "minecraft:stone");
        // raw height 0 gives -65 after offset, clamped to the floor
        assert_eq!(first.position.y, -64);
        assert_eq!(first.position.x, 3 * 16);
        assert_eq!(first.position.z, -2 * 16);
        assert_eq!(first.depth, 0);
        assert!(!first.snowy);
        // row-major: column 17 is z = 1, x = 1
        assert_eq!(surface.blocks[17].position.x, 3 * 16 + 1);
        assert_eq!(surface.blocks[17].position.z, -2 * 16 + 1);
    }
}

#[test]
fn all_three_dimensions_shape() {
    for dimension in [Dimension::Overworld, Dimension::Nether, Dimension::End] {
        // sections -4..=20 cover every height any dimension can ask for

        let chunk = chunk_with(
            (-4..=20).map(|y| single_block_section(y, "minecraft:stone")).collect(),
            70,
            66,
            (0, 0),
        );
        let surface = parse_chunk_surface(&chunk, &dimension).unwrap();
        assert_eq!(surface.blocks.len(), 256);
        assert_eq!(surface.biomes.len(), 16);
    }
}

#[test]
fn missing_section_fails_with_its_index() {
    let mut chunk = chunk_with(vec![single_block_section(0, "minecraft:stone")], 0, 0, (0, 0));
    // mark the chunk fully generated, as a region decode would have
    if let Tag::Compound(root) = &mut chunk.nbt {
        root.push(("Status".to_string(), Tag::Str("minecraft:full".to_string())));
    }
    match parse_chunk_surface(&chunk, &Dimension::Overworld) {
        Err(DecodeError::MissingSection { section_y }) => assert_eq!(section_y, -4),
        other => panic!("expected a missing-section error, got {other:?}"),
    }
}

#[test]
fn water_column_depth_is_surface_minus_floor() {
    // motion-blocking top at raw 70 -> y 5; ocean floor at raw 66 -> y 1
    let chunk = chunk_with(vec![single_block_section(0, "minecraft:water")], 70, 66, (0, 0));
    let surface = parse_chunk_surface(&chunk, &Dimension::Overworld).unwrap();
    for block in &surface.blocks {
        assert_eq!(block.position.y, 1);
        assert_eq!(block.depth, 4);
    }
}

#[test]
fn end_collapses_ocean_floor_onto_surface() {
    // no offset outside the Overworld: raw 70 puts the surface at 69
    let chunk = chunk_with(vec![single_block_section(4, "minecraft:end_stone")], 70, 66, (0, 0));
    let surface = parse_chunk_surface(&chunk, &Dimension::End).unwrap();
    for block in &surface.blocks {
        assert_eq!(block.position.y, 69);
        assert_eq!(block.depth, 0);
    }
}

#[test]
fn nether_all_solid_falls_back_to_31() {
    let sections: Vec<Tag> = (1..=7).map(|y| single_block_section(y, "minecraft:netherrack")).collect();
    let chunk = chunk_with(sections, 0, 0, (0, 0));
    let surface = parse_chunk_surface(&chunk, &Dimension::Nether).unwrap();
    assert_eq!(surface.blocks.len(), 256);
    for block in &surface.blocks {
        assert_eq!(block.position.y, 31);
        assert_eq!(block.name, "minecraft:netherrack");
        assert_eq!(block.depth, 0);
    }
}

#[test]
fn nether_roof_opening_finds_floor_below() {
    // air from y 112 to 127, netherrack below: the search lands on y 111
    let mut sections: Vec<Tag> = (1..=6).map(|y| single_block_section(y, "minecraft:netherrack")).collect();
    sections.push(single_block_section(7, "minecraft:air"));
    let chunk = chunk_with(sections, 0, 0, (0, 0));
    let surface = parse_chunk_surface(&chunk, &Dimension::Nether).unwrap();
    for block in &surface.blocks {
        assert_eq!(block.position.y, 111);
        assert_eq!(block.name, "minecraft:netherrack");
    }
}

#[test]
fn nether_cave_air_counts_as_air() {
    // the air family includes any name ending in _air
    let mut sections: Vec<Tag> = (1..=6).map(|y| single_block_section(y, "minecraft:netherrack")).collect();
    sections.push(single_block_section(7, "minecraft:cave_air"));
    let chunk = chunk_with(sections, 0, 0, (0, 0));
    let surface = parse_chunk_surface(&chunk, &Dimension::Nether).unwrap();
    assert_eq!(surface.blocks[0].position.y, 111);
}

#[test]
fn multi_entry_palette_with_snowy_property() {
    let snow_block = compound(vec![
        ("Name", Tag::Str("minecraft:snow".to_string())),
        (
            "Properties",
            compound(vec![("snowy", Tag::Str("true".to_string()))]),
        ),
    ]);
    let section = compound(vec![
        ("Y", Tag::Byte(-4)),
        (
            "block_states",
            compound(vec![
                (
                    "palette",
                    Tag::List(vec![palette_block("minecraft:stone"), snow_block]),
                ),
                // 4 bits per entry: every index reads 1
                ("data", Tag::LongArray(vec![0x1111_1111_1111_1111u64 as i64; 256])),
            ]),
        ),
        (
            "biomes",
            compound(vec![(
                "palette",
                Tag::List(vec![Tag::Str("minecraft:plains".to_string())]),
            )]),
        ),
    ]);
    let chunk = chunk_with(vec![section], 0, 0, (0, 0));
    let surface = parse_chunk_surface(&chunk, &Dimension::Overworld).unwrap();
    for block in &surface.blocks {
        assert_eq!(block.name, "minecraft:snow");
        assert!(block.snowy);
    }
}

#[test]
fn palette_index_out_of_bounds_reports_context() {
    let section = compound(vec![
        ("Y", Tag::Byte(-4)),
        (
            "block_states",
            compound(vec![
                (
                    "palette",
                    Tag::List(vec![
                        palette_block("minecraft:stone"),
                        palette_block("minecraft:dirt"),
                    ]),
                ),
                // every 4-bit index reads 3, past the 2-entry palette
                ("data", Tag::LongArray(vec![0x3333_3333_3333_3333u64 as i64; 256])),
            ]),
        ),
        (
            "biomes",
            compound(vec![(
                "palette",
                Tag::List(vec![Tag::Str("minecraft:plains".to_string())]),
            )]),
        ),
    ]);
    let chunk = chunk_with(vec![section], 0, 0, (0, 0));
    match parse_chunk_surface(&chunk, &Dimension::Overworld) {
        Err(DecodeError::PaletteIndexOutOfBounds {
            palette_index,
            palette_len,
            bits_per_entry,
            element_index,
        }) => {
            assert_eq!(palette_index, 3);
            assert_eq!(palette_len, 2);
            assert_eq!(bits_per_entry, 4);
            // column 0 at local y 0: flattened (0*16 + 0)*16 + 0
            assert_eq!(element_index, 0);
        }
        other => panic!("expected a palette-bounds error, got {other:?}"),
    }
}

#[test]
fn biome_multi_entry_palette() {
    let section = compound(vec![
        ("Y", Tag::Int(-4)),
        (
            "block_states",
            compound(vec![("palette", Tag::List(vec![palette_block("minecraft:stone")]))]),
        ),
        (
            "biomes",
            compound(vec![
                (
                    "palette",
                    Tag::List(vec![
                        Tag::Str("minecraft:plains".to_string()),
                        Tag::Str("minecraft:desert".to_string()),
                    ]),
                ),
                // 1 bit per entry, all ones: every cell reads entry 1
                ("data", Tag::LongArray(vec![-1i64])),
            ]),
        ),
    ]);
    let chunk = chunk_with(vec![section], 0, 0, (0, 0));
    let surface = parse_chunk_surface(&chunk, &Dimension::Overworld).unwrap();
    assert!(surface.biomes.iter().all(|b| b == "minecraft:desert"));
}

#[test]
fn root_must_be_a_compound() {
    let chunk = Chunk {
        data_version: 1,
        last_update: 0,
        inhabited_time: 0,
        position: ChunkPosition { x: 0, z: 0 },
        nbt: Tag::Int(7),
    };
    match parse_chunk_surface(&chunk, &Dimension::Overworld) {
        Err(DecodeError::WrongTag { key, found }) => {
            assert_eq!(key, "root");
            assert_eq!(found, Some(TagKind::Int));
        }
        other => panic!("expected a root error, got {other:?}"),
    }
}

#[test]
fn heightmaps_errors_name_their_key() {
    let chunk = chunk_with(vec![single_block_section(-4, "minecraft:stone")], 0, 0, (0, 0));
    let root = root_of(&chunk);
    // well-formed root parses
    assert!(parse_chunk_heightmaps(root).is_ok());

    let bad: Compound = vec![("Heightmaps".to_string(), Tag::Byte(1))];
    match parse_chunk_heightmaps(&bad) {
        Err(DecodeError::WrongTag { key, found }) => {
            assert_eq!(key, "Heightmaps");
            assert_eq!(found, Some(TagKind::Byte));
        }
        other => panic!("expected a heightmaps error, got {other:?}"),
    }
}

#[test]
fn heightmaps_missing_ocean_floor() {
    let root: Compound = vec![(
        "Heightmaps".to_string(),
        compound(vec![("MOTION_BLOCKING", Tag::LongArray(packed_heightmap(0)))]),
    )];
    match parse_chunk_heightmaps(&root) {
        Err(DecodeError::WrongTag { key, found }) => {
            assert_eq!(key, "OCEAN_FLOOR");
            assert_eq!(found, None);
        }
        other => panic!("expected an ocean-floor error, got {other:?}"),
    }
}

#[test]
fn sections_map_accepts_byte_and_int_y() {
    let root: Compound = vec![(
        "sections".to_string(),
        Tag::List(vec![
            single_block_section(-4, "minecraft:stone"),
            compound(vec![("Y", Tag::Int(5))]),
        ]),
    )];
    let map = parse_chunk_sections(&root).unwrap();
    assert!(map.contains_key(&-4));
    assert!(map.contains_key(&5));
    assert_eq!(map.len(), 2);
}

#[test]
fn sections_entry_with_bad_y_fails() {
    let root: Compound = vec![(
        "sections".to_string(),
        Tag::List(vec![compound(vec![("Y", Tag::Str("zero".to_string()))])]),
    )];
    match parse_chunk_sections(&root) {
        Err(DecodeError::WrongTag { key, found }) => {
            assert_eq!(key, "Y");
            assert_eq!(found, Some(TagKind::Str));
        }
        other => panic!("expected a Y error, got {other:?}"),
    }
}

#[test]
fn block_lookup_single_entry_palette() {
    let section = match single_block_section(0, "minecraft:stone") {
        Tag::Compound(c) => c,
        _ => unreachable!(),
    };
    let (name, snowy) = get_block_at_position(&section, 9, 3, 14).unwrap();
    assert_eq!(name, "minecraft:stone");
    assert_eq!(snowy, None);
    let biome = get_biome_at_position(&section, 9, 3, 14).unwrap();
    assert_eq!(biome, "minecraft:plains");
}

#[test]
fn extract_block_data_properties_must_be_a_compound() {
    let block: Compound = vec![
        ("Name".to_string(), Tag::Str("minecraft:stone".to_string())),
        ("Properties".to_string(), Tag::Int(3)),
    ];
    match extract_block_data(&block) {
        Err(DecodeError::WrongTag { key, found }) => {
            assert_eq!(key, "Properties");
            assert_eq!(found, Some(TagKind::Int));
        }
        other => panic!("expected a properties error, got {other:?}"),
    }
}

#[test]
fn extract_block_data_requires_a_name() {
    let block: Compound = vec![];
    match extract_block_data(&block) {
        Err(DecodeError::WrongTag { key, found }) => {
            assert_eq!(key, "Name");
            assert_eq!(found, None);
        }
        other => panic!("expected a name error, got {other:?}"),
    }
}
