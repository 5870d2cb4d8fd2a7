use anvil_region::dimensions::{get_dimension_height_offset, get_dimension_heights, Dimension};
use anvil_region::tags::{compound_get, str_eq, Tag};
use anvil_region::utils::{chunk_to_region_coords, get_biome_index, u32_to_rgb};

#[test]
fn rgb_channels_split() {
    assert_eq!(u32_to_rgb(0x00aabbcc), [0xaa, 0xbb, 0xcc]);
    assert_eq!(u32_to_rgb(0), [0, 0, 0]);
    assert_eq!(u32_to_rgb(0xffffffff), [0xff, 0xff, 0xff]);
}

#[test]
fn region_coords_floor_toward_negative_infinity() {
    assert_eq!(chunk_to_region_coords(0, 0), (0, 0));
    assert_eq!(chunk_to_region_coords(31, 32), (0, 1));
    assert_eq!(chunk_to_region_coords(-1, 33), (-1, 1));
    assert_eq!(chunk_to_region_coords(-32, -33), (-1, -2));
    assert_eq!(chunk_to_region_coords(i32::MIN, i32::MAX), (-67108864, 67108863));
}

#[test]
fn biome_index_walks_the_cell_grid() {
    assert_eq!(get_biome_index(0, 0), 0);
    assert_eq!(get_biome_index(5, 9), 9);
    assert_eq!(get_biome_index(15, 15), 15);
    assert_eq!(get_biome_index(4, 0), 1);
}

#[test]
fn dimension_constants() {
    assert_eq!(get_dimension_height_offset(&Dimension::Overworld), -64);
    assert_eq!(get_dimension_height_offset(&Dimension::Nether), 0);
    assert_eq!(get_dimension_height_offset(&Dimension::End), 0);
    assert_eq!(get_dimension_heights(&Dimension::Overworld), (-64, 320));
    assert_eq!(get_dimension_heights(&Dimension::Nether), (0, 256));
    assert_eq!(get_dimension_heights(&Dimension::End), (0, 256));
}

#[test]
fn string_equality_is_by_characters() {
    assert!(str_eq("minecraft:air", "minecraft:air"));
    assert!(!str_eq("minecraft:air", "minecraft:airs"));
    assert!(!str_eq("", "a"));
    assert!(str_eq("", ""));
}

#[test]
fn compound_lookup_finds_first_match() {
    let entries = vec![
        ("one".to_string(), Tag::Int(1)),
        ("two".to_string(), Tag::Int(2)),
    ];
    assert!(matches!(compound_get(&entries, "two"), Some(Tag::Int(2))));
    assert!(compound_get(&entries, "three").is_none());
}
