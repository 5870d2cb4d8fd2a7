use std::collections::HashMap;

use vstd::prelude::*;
use vstd::arithmetic::div_mod::{lemma_fundamental_div_mod, lemma_fundamental_div_mod_converse, lemma_mod_bound};

use crate::blocks::{Block, BlockPosition, BlockView};
use crate::dimensions::{get_dimension_height_offset, get_dimension_heights, spec_dimension_height_offset, spec_dimension_heights, Dimension};
use crate::errors::{DecodeError, ErrorView};
use crate::heightmaps::{decode_heightmap, spec_decoded_heightmap, Heightmap, HM_MIN_WORDS};
use crate::sections::{get_biome_at_position, get_block_at_position};
use crate::tags::{compound_get, spec_lookup, str_eq, Compound, Tag};

verus! {

broadcast use vstd::std_specs::hash::group_hash_axioms;

/// Where a chunk sits, in chunk units (16 blocks per unit).
#[derive(Debug, Clone)]
pub struct ChunkPosition {
    pub x: i32,
    pub z: i32,
}

/// One decoded, fully generated chunk: its format version, its two
/// timestamps, its position, and the decoded tagged tree it owns.
#[derive(Debug)]
pub struct Chunk {
    pub data_version: i32,
    pub last_update: i64,
    pub inhabited_time: i64,
    pub position: ChunkPosition,
    pub nbt: Tag,
}

/// The extracted surface of one chunk: the highest 256 blocks
/// (16x16, row-major with Z outer and X inner) and 16 biome names
/// sampled on the 4x4 cell grid in the same order.
#[derive(Debug, Clone)]
pub struct ChunkSurface {
    pub blocks: Vec<Block>,
    pub biomes: Vec<String>,
}

/// The mathematical shadow of [`ChunkSurface`].
pub struct SurfaceView {
    pub blocks: Seq<BlockView>,
    pub biomes: Seq<Seq<char>>,
}

impl View for ChunkSurface {
    type V = SurfaceView;

    open spec fn view(&self) -> SurfaceView {
        SurfaceView { blocks: self.blocks.deep_view(), biomes: self.biomes.deep_view() }
    }
}

/// What `parse_chunk_heightmaps` returns: the decoded
/// `MOTION_BLOCKING` and `OCEAN_FLOOR` heightmaps of the chunk, or
/// the first structural or length error met reading them.
pub open spec fn spec_parse_chunk_heightmaps(root: Seq<(String, Tag)>) -> Result<
    (Seq<u16>, Seq<u16>),
    ErrorView,
> {
    match spec_lookup(root, "Heightmaps"@) {
        Some(ht) => match ht {
            Tag::Compound(h) => match spec_lookup(h@, "MOTION_BLOCKING"@) {
                Some(mt) => match mt {
                    Tag::LongArray(mb) => match spec_lookup(h@, "OCEAN_FLOOR"@) {
                        Some(ot) => match ot {
                            Tag::LongArray(of) => if mb@.len() < HM_MIN_WORDS {
                                Err(ErrorView::HeightmapTooShort { len: mb@.len() as int })
                            } else if of@.len() < HM_MIN_WORDS {
                                Err(ErrorView::HeightmapTooShort { len: of@.len() as int })
                            } else {
                                Ok((spec_decoded_heightmap(mb@), spec_decoded_heightmap(of@)))
                            },
                            _ => Err(
                                ErrorView::WrongTag {
                                    key: "OCEAN_FLOOR"@,
                                    found: Some(ot.kind_spec()),
                                },
                            ),
                        },
                        None => Err(ErrorView::WrongTag { key: "OCEAN_FLOOR"@, found: None }),
                    },
                    _ => Err(
                        ErrorView::WrongTag { key: "MOTION_BLOCKING"@, found: Some(mt.kind_spec()) },
                    ),
                },
                None => Err(ErrorView::WrongTag { key: "MOTION_BLOCKING"@, found: None }),
            },
            _ => Err(ErrorView::WrongTag { key: "Heightmaps"@, found: Some(ht.kind_spec()) }),
        },
        None => Err(ErrorView::WrongTag { key: "Heightmaps"@, found: None }),
    }
}

/// Decode the two heightmaps every surface extraction needs: the
/// motion-blocking surface and the ocean floor.
pub fn parse_chunk_heightmaps(root: &Compound) -> (r: Result<(Heightmap, Heightmap), DecodeError>)
    ensures
        match r {
            Ok(p) => spec_parse_chunk_heightmaps(root@) == Ok::<(Seq<u16>, Seq<u16>), ErrorView>(
                (p.0@, p.1@),
            ),
            Err(e) => spec_parse_chunk_heightmaps(root@) == Err::<(Seq<u16>, Seq<u16>), ErrorView>(
                e@,
            ),
        },
{
    let heightmaps = match compound_get(root, "Heightmaps") {
        Some(t) => {
            match t {
                Tag::Compound(h) => h,
                _ => {
                    return Err(
                        DecodeError::WrongTag { key: "Heightmaps".to_owned(), found: Some(t.kind()) },
                    );
                },
            }
        },
        None => {
            return Err(DecodeError::WrongTag { key: "Heightmaps".to_owned(), found: None });
        },
    };

    let motion_blocking_raw = match compound_get(heightmaps, "MOTION_BLOCKING") {
        Some(t) => {
            match t {
                Tag::LongArray(a) => a,
                _ => {
                    return Err(
                        DecodeError::WrongTag {
                            key: "MOTION_BLOCKING".to_owned(),
                            found: Some(t.kind()),
                        },
                    );
                },
            }
        },
        None => {
            return Err(DecodeError::WrongTag { key: "MOTION_BLOCKING".to_owned(), found: None });
        },
    };

    let ocean_floor_raw = match compound_get(heightmaps, "OCEAN_FLOOR") {
        Some(t) => {
            match t {
                Tag::LongArray(a) => a,
                _ => {
                    return Err(
                        DecodeError::WrongTag {
                            key: "OCEAN_FLOOR".to_owned(),
                            found: Some(t.kind()),
                        },
                    );
                },
            }
        },
        None => {
            return Err(DecodeError::WrongTag { key: "OCEAN_FLOOR".to_owned(), found: None });
        },
    };

    let motion_blocking_heightmap = match decode_heightmap(motion_blocking_raw.as_slice()) {
        Ok(h) => h,
        Err(e) => {
            return Err(e);
        },
    };
    let ocean_floor_heightmap = match decode_heightmap(ocean_floor_raw.as_slice()) {
        Ok(h) => h,
        Err(e) => {
            return Err(e);
        },
    };

    Ok((motion_blocking_heightmap, ocean_floor_heightmap))
}

/// The vertical index of one section subtree: its `Y` tag, accepted
/// as an 8-bit or a 32-bit integer and widened to 32 bits.
pub open spec fn spec_section_y(section: Seq<(String, Tag)>) -> Result<i32, ErrorView> {
    match spec_lookup(section, "Y"@) {
        Some(yt) => match yt {
            Tag::Byte(y) => Ok(y as i32),
            Tag::Int(y) => Ok(y),
            _ => Err(ErrorView::WrongTag { key: "Y"@, found: Some(yt.kind_spec()) }),
        },
        None => Err(ErrorView::WrongTag { key: "Y"@, found: None }),
    }
}

/// What `parse_chunk_sections` builds from the `sections` list: a
/// map from each section's vertical index to its subtree, later
/// entries overwriting earlier ones, or the first malformed entry's
/// error.
pub open spec fn spec_sections_map(sections: Seq<Tag>) -> Result<Map<i32, Compound>, ErrorView>
    decreases sections.len(),
{
    if sections.len() == 0 {
        Ok(Map::empty())
    } else {
        match spec_sections_map(sections.drop_last()) {
            Err(e) => Err(e),
            Ok(m) => match sections.last() {
                Tag::Compound(sc) => match spec_section_y(sc@) {
                    Ok(y) => Ok(m.insert(y, sc)),
                    Err(e) => Err(e),
                },
                _ => Err(
                    ErrorView::WrongTag {
                        key: "section"@,
                        found: Some(sections.last().kind_spec()),
                    },
                ),
            },
        }
    }
}

/// A malformed entry poisons the whole scan: once some prefix of the
/// `sections` list fails, the full list fails with the same error.
proof fn lemma_sections_map_err_prefix(sections: Seq<Tag>, j: int)
    requires
        0 <= j <= sections.len(),
        spec_sections_map(sections.take(j)) is Err,
    ensures
        spec_sections_map(sections) == spec_sections_map(sections.take(j)),
    decreases sections.len(),
{
    if j == sections.len() {
        assert(sections.take(j) =~= sections);
    } else {
        assert(sections.drop_last().take(j) =~= sections.take(j));
        lemma_sections_map_err_prefix(sections.drop_last(), j);
    }
}

/// The chunk's `sections` list.
pub open spec fn spec_sections_list(root: Seq<(String, Tag)>) -> Result<Seq<Tag>, ErrorView> {
    match spec_lookup(root, "sections"@) {
        Some(st) => match st {
            Tag::List(v) => Ok(v@),
            _ => Err(ErrorView::WrongTag { key: "sections"@, found: Some(st.kind_spec()) }),
        },
        None => Err(ErrorView::WrongTag { key: "sections"@, found: None }),
    }
}

/// The relation between the executable section map and its
/// mathematical shadow: same vertical indices, and each reference
/// leads to the subtree the shadow holds.
pub open spec fn sections_map_matches(m: Map<i32, &Compound>, gm: Map<i32, Compound>) -> bool {
    &&& m.dom() =~= gm.dom()
    &&& forall|y: i32| gm.dom().contains(y) ==> *(#[trigger] m[y]) == gm[y]
}

/// Build the map from vertical section index to section subtree by
/// scanning the chunk's `sections` list and reading each entry's `Y`
/// tag.  Indices can be negative, so the key is signed.
#[verifier::loop_isolation(false)]
pub fn parse_chunk_sections<'a>(root: &'a Compound) -> (r: Result<
    HashMap<i32, &'a Compound>,
    DecodeError,
>)
    ensures
        match r {
            Ok(m) => match spec_sections_list(root@) {
                Ok(slist) => match spec_sections_map(slist) {
                    Ok(gm) => sections_map_matches(m@, gm),
                    Err(_) => false,
                },
                Err(_) => false,
            },
            Err(e) => {
                ||| spec_sections_list(root@) == Err::<Seq<Tag>, ErrorView>(e@)
                ||| (spec_sections_list(root@) matches Ok(slist) && spec_sections_map(slist)
                    == Err::<Map<i32, Compound>, ErrorView>(e@))
            },
        },
{
    let sections = match compound_get(root, "sections") {
        Some(t) => {
            match t {
                Tag::List(v) => v,
                _ => {
                    return Err(
                        DecodeError::WrongTag { key: "sections".to_owned(), found: Some(t.kind()) },
                    );
                },
            }
        },
        None => {
            return Err(DecodeError::WrongTag { key: "sections".to_owned(), found: None });
        },
    };

    let mut sorted_sections: HashMap<i32, &Compound> = HashMap::new();
    let n = sections.len();
    let mut i: usize = 0;

    proof {
        assert(sections@.take(0) =~= Seq::<Tag>::empty());
    }

    while i < n
        invariant
            i <= n,
            n == sections@.len(),
            spec_sections_map(sections@.take(i as int)) matches Ok(gm) && sections_map_matches(
                sorted_sections@,
                gm,
            ),
        decreases n - i,
    {
        let ghost prefix = sections@.take(i as int);
        let ghost gm = spec_sections_map(prefix)->Ok_0;
        proof {
            assert(sections@.take(i + 1).drop_last() =~= prefix);
            assert(sections@.take(i + 1).last() == sections@[i as int]);
        }
        let section = &sections[i];
        match section {
            Tag::Compound(section_compound) => {
                let y_pos: i32 = match compound_get(section_compound, "Y") {
                    Some(t) => {
                        match t {
                            Tag::Byte(y) => *y as i32,
                            Tag::Int(y) => *y,
                            _ => {
                                proof {
                                    lemma_sections_map_err_prefix(sections@, i as int + 1);
                                }
                                return Err(
                                    DecodeError::WrongTag {
                                        key: "Y".to_owned(),
                                        found: Some(t.kind()),
                                    },
                                );
                            },
                        }
                    },
                    None => {
                        proof {
                            lemma_sections_map_err_prefix(sections@, i as int + 1);
                        }
                        return Err(DecodeError::WrongTag { key: "Y".to_owned(), found: None });
                    },
                };

                sorted_sections.insert(y_pos, section_compound);
                proof {
                    let gm1 = spec_sections_map(sections@.take(i + 1))->Ok_0;
                    assert(gm1 == gm.insert(y_pos, *section_compound));
                    assert(sorted_sections@.dom() =~= gm1.dom());
                }
            },
            _ => {
                proof {
                    lemma_sections_map_err_prefix(sections@, i as int + 1);
                }
                return Err(
                    DecodeError::WrongTag { key: "section".to_owned(), found: Some(section.kind()) },
                );
            },
        }
        i += 1;
    }

    proof {
        assert(sections@.take(n as int) =~= sections@);
    }
    Ok(sorted_sections)
}

/// Clamp `v` into the inclusive range `[lo, hi]`.
pub open spec fn spec_clamp(v: int, lo: int, hi: int) -> int {
    if v < lo {
        lo
    } else if v > hi {
        hi
    } else {
        v
    }
}

/// Whether a block name belongs to the air family: `minecraft:air`,
/// bare `air`, or any name ending in `_air`.
pub open spec fn spec_is_air_name(name: Seq<char>) -> bool {
    ||| name == "minecraft:air"@
    ||| name == "air"@
    ||| (name.len() >= 4 && name.subrange(name.len() - 4, name.len() as int) == "_air"@)
}

/// Highest level at or below `l` whose name is an air-family block.
pub open spec fn spec_find_air_from(names: Seq<Seq<char>>, l: int) -> Option<int>
    decreases l + 1,
{
    if l < 0 {
        None
    } else if spec_is_air_name(names[l]) {
        Some(l)
    } else {
        spec_find_air_from(names, l - 1)
    }
}

/// Highest level at or below `l` whose name is not air.
pub open spec fn spec_find_solid_from(names: Seq<Seq<char>>, l: int) -> Option<int>
    decreases l + 1,
{
    if l < 0 {
        None
    } else if !spec_is_air_name(names[l]) {
        Some(l)
    } else {
        spec_find_solid_from(names, l - 1)
    }
}

/// The level the roof search selects in one precomputed column
/// (level 0 stands for y = 31, level 96 for y = 127): the first
/// solid block below the highest air opening, or level 0 when no
/// opening, or no solid block under it, exists.
pub open spec fn spec_nether_surface_level(names: Seq<Seq<char>>) -> int {
    match spec_find_air_from(names, 96) {
        None => 0,
        Some(a) => match spec_find_solid_from(names, a - 1) {
            None => 0,
            Some(s) => s,
        },
    }
}

/// An opening, when found, lies within the searched levels.
proof fn lemma_find_air_range(names: Seq<Seq<char>>, l: int)
    ensures
        spec_find_air_from(names, l) matches Some(a) ==> 0 <= a <= l,
    decreases l + 1,
{
    if l >= 0 {
        lemma_find_air_range(names, l - 1);
    }
}

/// A floor, when found, lies within the searched levels.
proof fn lemma_find_solid_range(names: Seq<Seq<char>>, l: int)
    ensures
        spec_find_solid_from(names, l) matches Some(a) ==> 0 <= a <= l,
    decreases l + 1,
{
    if l >= 0 {
        lemma_find_solid_range(names, l - 1);
    }
}

/// Whatever the column holds, the roof search answers a level in
/// the search range.
pub proof fn lemma_nether_level_range(names: Seq<Seq<char>>)
    ensures
        0 <= spec_nether_surface_level(names) <= 96,
{
    lemma_find_air_range(names, 96);
    match spec_find_air_from(names, 96) {
        Some(a) => {
            lemma_find_solid_range(names, a - 1);
        },
        None => {},
    }
}

/// No air anywhere in range means no opening at any level.
proof fn lemma_find_air_none(names: Seq<Seq<char>>, l: int)
    requires
        l < 97,
        forall|j: int| 0 <= j < 97 ==> !spec_is_air_name(#[trigger] names[j]),
    ensures
        spec_find_air_from(names, l) is None,
    decreases l + 1,
{
    if l >= 0 {
        lemma_find_air_none(names, l - 1);
    }
}

/// A column with no air anywhere in the search range falls back to
/// the bottom of the range: level 0, that is y = 31, for surface and
/// ocean floor alike.
pub proof fn lemma_nether_all_solid_level(names: Seq<Seq<char>>)
    requires
        forall|j: int| 0 <= j < 97 ==> !spec_is_air_name(#[trigger] names[j]),
    ensures
        spec_nether_surface_level(names) == 0,
{
    lemma_find_air_none(names, 96);
}

/// The names of one Nether column from level `l` up to the top:
/// level 0 is y = 31, each level's block resolved through the
/// section that holds it.
pub open spec fn spec_nether_column_from(
    smap: Map<i32, Compound>,
    x: int,
    z: int,
    l: int,
) -> Result<Seq<Seq<char>>, ErrorView>
    decreases 97 - l,
{
    if l >= 97 {
        Ok(Seq::empty())
    } else {
        let y = 31 + l;
        let sy = (y / 16) as i32;
        if !smap.dom().contains(sy) {
            Err(ErrorView::MissingSection { section_y: sy as int })
        } else {
            match crate::sections::spec_get_block_at_position(smap[sy]@, x, y % 16, z) {
                Err(e) => Err(e),
                Ok(p) => match spec_nether_column_from(smap, x, z, l + 1) {
                    Err(e) => Err(e),
                    Ok(rest) => Ok(seq![p.0] + rest),
                },
            }
        }
    }
}

/// All 256 precomputed Nether columns, row-major (Z outer, X inner).
pub open spec fn spec_nether_columns_from(smap: Map<i32, Compound>, col: int) -> Result<
    Seq<Seq<Seq<char>>>,
    ErrorView,
>
    decreases 256 - col,
{
    if col >= 256 {
        Ok(Seq::empty())
    } else {
        match spec_nether_column_from(smap, col % 16, col / 16, 0) {
            Err(e) => Err(e),
            Ok(names) => match spec_nether_columns_from(smap, col + 1) {
                Err(e) => Err(e),
                Ok(rest) => Ok(seq![names] + rest),
            },
        }
    }
}

/// A successfully precomputed column holds one name per level.
proof fn lemma_nether_column_len(smap: Map<i32, Compound>, x: int, z: int, l: int)
    requires
        0 <= l <= 97,
        spec_nether_column_from(smap, x, z, l) is Ok,
    ensures
        spec_nether_column_from(smap, x, z, l)->Ok_0.len() == 97 - l,
    decreases 97 - l,
{
    if l < 97 {
        lemma_nether_column_len(smap, x, z, l + 1);
    }
}

/// A successful precompute holds one column per horizontal position,
/// each with one name per level.
proof fn lemma_nether_columns_len(smap: Map<i32, Compound>, col: int)
    requires
        0 <= col <= 256,
        spec_nether_columns_from(smap, col) is Ok,
    ensures
        spec_nether_columns_from(smap, col)->Ok_0.len() == 256 - col,
        forall|j: int| 0 <= j < 256 - col ==> (#[trigger] spec_nether_columns_from(
            smap,
            col,
        )->Ok_0[j]).len() == 97,
    decreases 256 - col,
{
    if col < 256 {
        lemma_nether_columns_len(smap, col + 1);
        lemma_nether_column_len(smap, col % 16, col / 16, 0);
    }
}

/// The heightmap-derived surface and ocean-floor heights of one
/// column: raw values offset by the dimension's vertical offset and
/// clamped to its inclusive bounds, the ocean floor collapsing onto
/// the surface outside the Overworld.
pub open spec fn spec_column_heights(dim: Dimension, mb: Seq<u16>, of: Seq<u16>, col: int) -> (
    int,
    int,
) {
    let offset = spec_dimension_height_offset(dim);
    let bounds = spec_dimension_heights(dim);
    let surface = spec_clamp(mb[col] - 1 + offset, bounds.0, bounds.1);
    let ocean = spec_clamp(of[col] - 1 + offset, bounds.0, bounds.1);
    if dim != Dimension::Overworld {
        (surface, surface)
    } else {
        (surface, ocean)
    }
}

/// The surface and ocean-floor heights the extractor uses for one
/// column: the heightmap-derived pair everywhere but the Nether,
/// where the roof search decides both.
pub open spec fn spec_column_surface_ocean(
    dim: Dimension,
    mb: Seq<u16>,
    of: Seq<u16>,
    nether: Option<Seq<Seq<Seq<char>>>>,
    col: int,
) -> (int, int) {
    if dim == Dimension::Nether {
        let level = spec_nether_surface_level(nether.unwrap()[col]);
        (31 + level, 31 + level)
    } else {
        spec_column_heights(dim, mb, of, col)
    }
}

/// The outcome of one column: its surface block and, on columns
/// whose local x and z are both multiples of 4, its biome name.
pub open spec fn spec_surface_column(
    pos_x: int,
    pos_z: int,
    dim: Dimension,
    smap: Map<i32, Compound>,
    mb: Seq<u16>,
    of: Seq<u16>,
    nether: Option<Seq<Seq<Seq<char>>>>,
    col: int,
) -> Result<(BlockView, Option<Seq<char>>), ErrorView> {
    let x = col % 16;
    let z = col / 16;
    let so = spec_column_surface_ocean(dim, mb, of, nether, col);
    let surface_y = so.0;
    let ocean_y = so.1;
    let section_y = (ocean_y / 16) as i32;
    let local_y = ocean_y % 16;
    if !smap.dom().contains(section_y) {
        Err(ErrorView::MissingSection { section_y: section_y as int })
    } else {
        let section = smap[section_y];
        let biome = if x % 4 == 0 && z % 4 == 0 {
            match crate::sections::spec_get_biome_at_position(section@, x, local_y, z) {
                Ok(name) => Ok(Some(name)),
                Err(e) => Err(e),
            }
        } else {
            Ok(None)
        };
        match biome {
            Err(e) => Err(e),
            Ok(b) => match crate::sections::spec_get_block_at_position(section@, x, local_y, z) {
                Err(e) => Err(e),
                Ok(p) => {
                    let depth = if surface_y > ocean_y {
                        surface_y - ocean_y
                    } else {
                        0
                    };
                    let snowy = p.1 == Some("true"@);
                    Ok(
                        (
                            BlockView {
                                x: pos_x * 16 + x,
                                y: ocean_y,
                                z: pos_z * 16 + z,
                                name: p.0,
                                depth,
                                snowy,
                            },
                            b,
                        ),
                    )
                },
            },
        }
    }
}

/// Columns `col..256` in row-major order; the first failing column
/// aborts the whole extraction.
pub open spec fn spec_surface_from(
    pos_x: int,
    pos_z: int,
    dim: Dimension,
    smap: Map<i32, Compound>,
    mb: Seq<u16>,
    of: Seq<u16>,
    nether: Option<Seq<Seq<Seq<char>>>>,
    col: int,
) -> Result<(Seq<BlockView>, Seq<Seq<char>>), ErrorView>
    decreases 256 - col,
{
    if col >= 256 {
        Ok((Seq::empty(), Seq::empty()))
    } else {
        match spec_surface_column(pos_x, pos_z, dim, smap, mb, of, nether, col) {
            Err(e) => Err(e),
            Ok(p) => match spec_surface_from(pos_x, pos_z, dim, smap, mb, of, nether, col + 1) {
                Err(e) => Err(e),
                Ok(rest) => Ok(
                    (
                        seq![p.0] + rest.0,
                        match p.1 {
                            Some(b) => seq![b] + rest.1,
                            None => rest.1,
                        },
                    ),
                ),
            },
        }
    }
}

/// What `parse_chunk_surface` returns for a chunk and a dimension:
/// heightmaps decoded, sections mapped, the Nether precompute run
/// when it applies, and all 256 columns resolved, or the first error
/// any of those steps meets.
pub open spec fn spec_parse_chunk_surface(chunk: Chunk, dim: Dimension) -> Result<
    SurfaceView,
    ErrorView,
> {
    match chunk.nbt {
        Tag::Compound(root) => match spec_parse_chunk_heightmaps(root@) {
            Err(e) => Err(e),
            Ok(hm) => match spec_sections_list(root@) {
                Err(e) => Err(e),
                Ok(slist) => match spec_sections_map(slist) {
                    Err(e) => Err(e),
                    Ok(smap) => {
                        let nether_r = if dim == Dimension::Nether {
                            match spec_nether_columns_from(smap, 0) {
                                Err(e) => Err(e),
                                Ok(ns) => Ok(Some(ns)),
                            }
                        } else {
                            Ok(None)
                        };
                        match nether_r {
                            Err(e) => Err(e),
                            Ok(nether) => match spec_surface_from(
                                chunk.position.x as int,
                                chunk.position.z as int,
                                dim,
                                smap,
                                hm.0,
                                hm.1,
                                nether,
                                0,
                            ) {
                                Err(e) => Err(e),
                                Ok(p) => Ok(SurfaceView { blocks: p.0, biomes: p.1 }),
                            },
                        }
                    },
                },
            },
        },
        _ => Err(ErrorView::WrongTag { key: "root"@, found: Some(chunk.nbt.kind_spec()) }),
    }
}

/// Decide membership in the air family by comparing characters.
fn is_air_name(name: &str) -> (r: bool)
    ensures
        r == spec_is_air_name(name@),
{
    if str_eq(name, "minecraft:air") {
        return true;
    }
    if str_eq(name, "air") {
        return true;
    }
    let n = name.unicode_len();
    if n < 4 {
        return false;
    }
    let c0 = name.get_char(n - 4);
    let c1 = name.get_char(n - 3);
    let c2 = name.get_char(n - 2);
    let c3 = name.get_char(n - 1);
    let res = c0 == '_' && c1 == 'a' && c2 == 'i' && c3 == 'r';
    proof {
        reveal_strlit("_air");
        let tail = name@.subrange(n - 4, n as int);
        if res {
            assert(tail =~= "_air"@);
        } else {
            if tail == "_air"@ {
                assert(tail[0] == '_' && tail[1] == 'a' && tail[2] == 'i' && tail[3] == 'r');
                assert(false);
            }
        }
    }
    res
}

/// Clamp a height into a dimension's inclusive bounds.
fn clamp_i32(v: i32, lo: i32, hi: i32) -> (r: i32)
    requires
        lo <= hi,
    ensures
        r as int == spec_clamp(v as int, lo as int, hi as int),
{
    if v < lo {
        lo
    } else if v > hi {
        hi
    } else {
        v
    }
}

/// Resolve every block name of one Nether column, y = 31 through
/// y = 127, reading each level through its section.
#[verifier::loop_isolation(false)]
fn nether_column(
    sections: &HashMap<i32, &Compound>,
    Ghost(gsmap): Ghost<Map<i32, Compound>>,
    x: usize,
    z: usize,
) -> (r: Result<Vec<String>, DecodeError>)
    requires
        sections_map_matches(sections@, gsmap),
        x < 16,
        z < 16,
    ensures
        match r {
            Ok(names) => spec_nether_column_from(gsmap, x as int, z as int, 0) == Ok::<
                Seq<Seq<char>>,
                ErrorView,
            >(names.deep_view()),
            Err(e) => spec_nether_column_from(gsmap, x as int, z as int, 0) == Err::<
                Seq<Seq<char>>,
                ErrorView,
            >(e@),
        },
{
    let mut names: Vec<String> = Vec::with_capacity(97);
    let mut l: usize = 0;

    while l < 97
        invariant
            l <= 97,
            names@.len() == l,
            spec_nether_column_from(gsmap, x as int, z as int, l as int) matches Ok(rest)
                ==> spec_nether_column_from(gsmap, x as int, z as int, 0) == Ok::<
                Seq<Seq<char>>,
                ErrorView,
            >(names.deep_view() + rest),
            spec_nether_column_from(gsmap, x as int, z as int, l as int) matches Err(e)
                ==> spec_nether_column_from(gsmap, x as int, z as int, 0) == Err::<
                Seq<Seq<char>>,
                ErrorView,
            >(e),
        decreases 97 - l,
    {
        let y = 31 + l;
        let section_y = (y / 16) as i32;
        let section: &Compound = match sections.get(&section_y) {
            Some(s) => *s,
            None => {
                return Err(DecodeError::MissingSection { section_y });
            },
        };
        proof {
            assert(gsmap.dom().contains(section_y));
            assert(*section == gsmap[section_y]);
        }
        let looked_up = match get_block_at_position(section, x, y % 16, z) {
            Ok(p) => p,
            Err(e) => {
                return Err(e);
            },
        };
        let ghost old_deep = names.deep_view();
        let ghost name_view = looked_up.0@;
        names.push(looked_up.0);
        l += 1;
        proof {
            assert(names.deep_view() =~= old_deep + seq![name_view]);
            let prev = spec_nether_column_from(gsmap, x as int, z as int, l - 1);
            let next = spec_nether_column_from(gsmap, x as int, z as int, l as int);
            match next {
                Ok(rest) => {
                    assert(prev == Ok::<Seq<Seq<char>>, ErrorView>(seq![name_view] + rest));
                    assert(old_deep + (seq![name_view] + rest) =~= (old_deep + seq![name_view])
                        + rest);
                },
                Err(e) => {
                    assert(prev == Err::<Seq<Seq<char>>, ErrorView>(e));
                },
            }
        }
    }

    proof {
        assert(names.deep_view() + Seq::<Seq<char>>::empty() =~= names.deep_view());
    }
    Ok(names)
}

/// Precompute all 256 Nether columns in row-major order.
#[verifier::loop_isolation(false)]
fn nether_columns(sections: &HashMap<i32, &Compound>, Ghost(gsmap): Ghost<Map<i32, Compound>>) -> (r:
    Result<Vec<Vec<String>>, DecodeError>)
    requires
        sections_map_matches(sections@, gsmap),
    ensures
        match r {
            Ok(cols) => spec_nether_columns_from(gsmap, 0) == Ok::<Seq<Seq<Seq<char>>>, ErrorView>(
                cols.deep_view(),
            ),
            Err(e) => spec_nether_columns_from(gsmap, 0) == Err::<Seq<Seq<Seq<char>>>, ErrorView>(
                e@,
            ),
        },
{
    let mut cols: Vec<Vec<String>> = Vec::with_capacity(256);
    let mut col: usize = 0;

    while col < 256
        invariant
            col <= 256,
            cols@.len() == col,
            spec_nether_columns_from(gsmap, col as int) matches Ok(rest)
                ==> spec_nether_columns_from(gsmap, 0) == Ok::<Seq<Seq<Seq<char>>>, ErrorView>(
                cols.deep_view() + rest,
            ),
            spec_nether_columns_from(gsmap, col as int) matches Err(e) ==> spec_nether_columns_from(
                gsmap,
                0,
            ) == Err::<Seq<Seq<Seq<char>>>, ErrorView>(e),
        decreases 256 - col,
    {
        let x = col % 16;
        let z = col / 16;
        let names = match nether_column(sections, Ghost(gsmap), x, z) {
            Ok(v) => v,
            Err(e) => {
                return Err(e);
            },
        };
        let ghost old_deep = cols.deep_view();
        let ghost names_view = names.deep_view();
        cols.push(names);
        col += 1;
        proof {
            assert(cols.deep_view() =~= old_deep + seq![names_view]);
            let prev = spec_nether_columns_from(gsmap, col - 1);
            let next = spec_nether_columns_from(gsmap, col as int);
            match next {
                Ok(rest) => {
                    assert(prev == Ok::<Seq<Seq<Seq<char>>>, ErrorView>(seq![names_view] + rest));
                    assert(old_deep + (seq![names_view] + rest) =~= (old_deep + seq![names_view])
                        + rest);
                },
                Err(e) => {
                    assert(prev == Err::<Seq<Seq<Seq<char>>>, ErrorView>(e));
                },
            }
        }
    }

    proof {
        assert(cols.deep_view() + Seq::<Seq<Seq<char>>>::empty() =~= cols.deep_view());
    }
    Ok(cols)
}

/// Run the roof search on one precomputed column: the highest air
/// opening, then the first solid block below it; level 0 when either
/// search comes up empty.
#[verifier::loop_isolation(false)]
fn nether_surface_level(names: &Vec<String>) -> (r: usize)
    requires
        names@.len() == 97,
    ensures
        r as int == spec_nether_surface_level(names.deep_view()),
        r < 97,
{
    let ghost dnames = names.deep_view();

    let mut opening: Option<usize> = None;
    let mut l: usize = 0;
    while l < 97
        invariant
            l <= 97,
            match opening {
                Some(o) => o < l && spec_find_air_from(dnames, l as int - 1) == Some(o as int),
                None => spec_find_air_from(dnames, l as int - 1) is None,
            },
        decreases 97 - l,
    {
        if is_air_name(names[l].as_str()) {
            opening = Some(l);
        }
        l += 1;
    }

    let a = match opening {
        Some(v) => v,
        None => {
            return 0;
        },
    };

    let mut floor: Option<usize> = None;
    let mut lj: usize = 0;
    while lj < a
        invariant
            lj <= a,
            a < 97,
            spec_find_air_from(dnames, 96) == Some(a as int),
            match floor {
                Some(f) => f < lj && spec_find_solid_from(dnames, lj as int - 1) == Some(f as int),
                None => spec_find_solid_from(dnames, lj as int - 1) is None,
            },
        decreases a - lj,
    {
        if !is_air_name(names[lj].as_str()) {
            floor = Some(lj);
        }
        lj += 1;
    }

    match floor {
        Some(f) => f,
        None => 0,
    }
}

/// Columns whose local x and z are both multiples of 4 carry a biome
/// sample; this counts them among the first `col` columns.
pub open spec fn spec_sampled_before(col: int) -> int {
    let z = col / 16;
    let x = col % 16;
    ((z + 3) / 4) * 4 + if z % 4 == 0 {
        (x + 3) / 4
    } else {
        0
    }
}

/// One more column adds one sample exactly when its local x and z
/// are both multiples of 4.
proof fn lemma_sampled_before_step(col: int)
    requires
        0 <= col < 256,
    ensures
        spec_sampled_before(col + 1) == spec_sampled_before(col) + if col % 16 % 4 == 0 && col
            / 16 % 4 == 0 {
            1int
        } else {
            0int
        },
{
    let z = col / 16;
    let x = col % 16;
    lemma_fundamental_div_mod(col, 16);
    lemma_mod_bound(col, 16);
    assert(0 <= z <= 15) by (nonlinear_arith)
        requires
            col == 16 * z + x,
            0 <= x < 16,
            0 <= col < 256,
    ;
    if x < 15 {
        lemma_fundamental_div_mod_converse(col + 1, 16, z, x + 1);
        assert((col + 1) / 16 == z && (col + 1) % 16 == x + 1);
    } else {
        lemma_fundamental_div_mod_converse(col + 1, 16, z + 1, 0);
        assert((col + 1) / 16 == z + 1 && (col + 1) % 16 == 0);
    }
}

/// Resolve one column: pick its surface and ocean-floor heights,
/// find the section that holds the ocean-floor block, and read the
/// block (and on sampled columns the biome) out of it.
#[verifier::loop_isolation(false)]
fn surface_column(
    sections: &HashMap<i32, &Compound>,
    Ghost(gsmap): Ghost<Map<i32, Compound>>,
    pos_x: i32,
    pos_z: i32,
    dimension: &Dimension,
    mb: &Heightmap,
    of: &Heightmap,
    nether: Option<&Vec<Vec<String>>>,
    Ghost(gnether): Ghost<Option<Seq<Seq<Seq<char>>>>>,
    col: usize,
) -> (r: Result<(Block, Option<String>), DecodeError>)
    requires
        sections_map_matches(sections@, gsmap),
        -134217728 <= pos_x <= 134217727,
        -134217728 <= pos_z <= 134217727,
        col < 256,
        mb@.len() == 256,
        of@.len() == 256,
        (*dimension == Dimension::Nether) <==> (nether is Some),
        match (nether, gnether) {
            (Some(n), Some(g)) => n.deep_view() == g && g.len() == 256 && (forall|j: int|
                0 <= j < 256 ==> (#[trigger] g[j]).len() == 97),
            (None, None) => true,
            _ => false,
        },
    ensures
        match r {
            Ok(p) => spec_surface_column(
                pos_x as int,
                pos_z as int,
                *dimension,
                gsmap,
                mb@,
                of@,
                gnether,
                col as int,
            ) == Ok::<(BlockView, Option<Seq<char>>), ErrorView>(
                (p.0@, crate::tags::opt_string_view(p.1)),
            ) && (p.1 is Some <==> (col % 16 % 4 == 0 && col / 16 % 4 == 0)),
            Err(e) => spec_surface_column(
                pos_x as int,
                pos_z as int,
                *dimension,
                gsmap,
                mb@,
                of@,
                gnether,
                col as int,
            ) == Err::<(BlockView, Option<Seq<char>>), ErrorView>(e@),
        },
{
    let x = col % 16;
    let z = col / 16;

    let mut surface_y: i32 = 0;
    let mut ocean_y: i32 = 0;
    match nether {
        Some(ncols) => {
            let names = &ncols[col];
            proof {
                assert(names.deep_view() == gnether.unwrap()[col as int]);
                assert(names@.len() == names.deep_view().len());
            }
            let level = nether_surface_level(names);
            surface_y = 31 + level as i32;
            ocean_y = surface_y;
        },
        None => {
            let offset = get_dimension_height_offset(dimension);
            let bounds = get_dimension_heights(dimension);
            let s_raw = mb[col] as i32 - 1 + offset;
            let o_raw = of[col] as i32 - 1 + offset;
            let s_clamped = clamp_i32(s_raw, bounds.0, bounds.1);
            let o_clamped = clamp_i32(o_raw, bounds.0, bounds.1);
            surface_y = s_clamped;
            if *dimension != Dimension::Overworld {
                ocean_y = s_clamped;
            } else {
                ocean_y = o_clamped;
            }
        },
    }

    let ghost so = spec_column_surface_ocean(*dimension, mb@, of@, gnether, col as int);
    proof {
        assert(surface_y as int == so.0 && ocean_y as int == so.1);
        assert(-64 <= ocean_y <= 320);
        assert(-64 <= surface_y <= 320);
        assert(surface_y as int - ocean_y as int <= 384);
    }

    let shifted = (ocean_y + 64) as usize;
    let section_y = (shifted / 16) as i32 - 4;
    let local_y = shifted % 16;
    proof {
        lemma_fundamental_div_mod(ocean_y as int, 16);
        lemma_mod_bound(ocean_y as int, 16);
        let q = ocean_y as int / 16;
        let rem = ocean_y as int % 16;
        lemma_fundamental_div_mod_converse(ocean_y as int + 64, 16, q + 4, rem);
        assert(section_y as int == ocean_y as int / 16);
        assert(local_y as int == ocean_y as int % 16);
        assert(local_y < 16);
    }

    let section: &Compound = match sections.get(&section_y) {
        Some(s) => *s,
        None => {
            return Err(DecodeError::MissingSection { section_y });
        },
    };
    proof {
        assert(gsmap.dom().contains(section_y));
        assert(*section == gsmap[section_y]);
    }

    let mut biome: Option<String> = None;
    if x % 4 == 0 && z % 4 == 0 {
        match get_biome_at_position(section, x, local_y, z) {
            Ok(name) => {
                biome = Some(name);
            },
            Err(e) => {
                return Err(e);
            },
        }
    }

    let looked_up = match get_block_at_position(section, x, local_y, z) {
        Ok(p) => p,
        Err(e) => {
            return Err(e);
        },
    };

    let depth: u16 = if surface_y > ocean_y {
        (surface_y - ocean_y) as u16
    } else {
        0
    };
    let snowy = match &looked_up.1 {
        Some(s) => str_eq(s.as_str(), "true"),
        None => false,
    };

    let block = Block {
        position: BlockPosition {
            x: pos_x * 16 + x as i32,
            y: ocean_y,
            z: pos_z * 16 + z as i32,
        },
        name: looked_up.0,
        depth,
        snowy,
    };
    Ok((block, biome))
}

/// Extract the surface of one chunk for one dimension: decode both
/// heightmaps, map the sections, run the Nether precompute when it
/// applies, and resolve all 256 columns.  Extraction is all or
/// nothing: the first malformed or missing piece aborts it with a
/// descriptive error.
///
/// Block positions are 32-bit world coordinates, so only chunks
/// whose 16 columns fit in them can be extracted; the bounds on the
/// chunk position say exactly that.
#[verifier::loop_isolation(false)]
#[verifier::rlimit(100)]
pub fn parse_chunk_surface(chunk: &Chunk, dimension: &Dimension) -> (r: Result<
    ChunkSurface,
    DecodeError,
>)
    requires
        -134217728 <= chunk.position.x <= 134217727,
        -134217728 <= chunk.position.z <= 134217727,
    ensures
        match r {
            Ok(s) => spec_parse_chunk_surface(*chunk, *dimension) == Ok::<SurfaceView, ErrorView>(
                s@,
            ) && s.blocks@.len() == 256 && s.biomes@.len() == 16,
            Err(e) => spec_parse_chunk_surface(*chunk, *dimension) == Err::<SurfaceView, ErrorView>(
                e@,
            ),
        },
{
    let root: &Compound = match &chunk.nbt {
        Tag::Compound(v) => v,
        _ => {
            return Err(DecodeError::WrongTag { key: "root".to_owned(), found: Some(chunk.nbt.kind()) });
        },
    };

    let hm = match parse_chunk_heightmaps(root) {
        Ok(p) => p,
        Err(e) => {
            return Err(e);
        },
    };
    let mb = hm.0;
    let of = hm.1;

    let sections = match parse_chunk_sections(root) {
        Ok(m) => m,
        Err(e) => {
            return Err(e);
        },
    };
    let ghost slist = spec_sections_list(root@)->Ok_0;
    let ghost gsmap = spec_sections_map(slist)->Ok_0;

    let is_nether = match dimension {
        Dimension::Nether => true,
        _ => false,
    };
    let nether_cols: Option<Vec<Vec<String>>> = if is_nether {
        match nether_columns(&sections, Ghost(gsmap)) {
            Ok(v) => Some(v),
            Err(e) => {
                return Err(e);
            },
        }
    } else {
        None
    };
    let ghost gnether: Option<Seq<Seq<Seq<char>>>> = match &nether_cols {
        Some(v) => Some(v.deep_view()),
        None => None,
    };
    proof {
        if nether_cols is Some {
            lemma_nether_columns_len(gsmap, 0);
        }
    }

    let mut highest_blocks: Vec<Block> = Vec::with_capacity(256);
    let mut highest_biomes: Vec<String> = Vec::with_capacity(16);
    let mut col: usize = 0;
    let ghost px = chunk.position.x as int;
    let ghost pz = chunk.position.z as int;

    while col < 256
        invariant
            col <= 256,
            highest_blocks@.len() == col,
            highest_biomes@.len() as int == spec_sampled_before(col as int),
            spec_surface_from(px, pz, *dimension, gsmap, mb@, of@, gnether, col as int) matches Ok(
                rest,
            ) ==> spec_surface_from(px, pz, *dimension, gsmap, mb@, of@, gnether, 0) == Ok::<
                (Seq<BlockView>, Seq<Seq<char>>),
                ErrorView,
            >((highest_blocks.deep_view() + rest.0, highest_biomes.deep_view() + rest.1)),
            spec_surface_from(px, pz, *dimension, gsmap, mb@, of@, gnether, col as int) matches Err(
                e,
            ) ==> spec_surface_from(px, pz, *dimension, gsmap, mb@, of@, gnether, 0) == Err::<
                (Seq<BlockView>, Seq<Seq<char>>),
                ErrorView,
            >(e),
        decreases 256 - col,
    {
        let column = match surface_column(
            &sections,
            Ghost(gsmap),
            chunk.position.x,
            chunk.position.z,
            dimension,
            &mb,
            &of,
            match &nether_cols {
                Some(v) => Some(v),
                None => None,
            },
            Ghost(gnether),
            col,
        ) {
            Ok(p) => p,
            Err(e) => {
                return Err(e);
            },
        };

        let ghost old_blocks_deep = highest_blocks.deep_view();
        let ghost old_biomes_deep = highest_biomes.deep_view();
        let ghost block_view = column.0@;
        let ghost biome_opt_view = crate::tags::opt_string_view(column.1);

        highest_blocks.push(column.0);
        match column.1 {
            Some(b) => {
                highest_biomes.push(b);
            },
            None => {},
        }
        col += 1;

        proof {
            lemma_sampled_before_step(col - 1);
            assert(highest_blocks.deep_view() =~= old_blocks_deep + seq![block_view]);
            match biome_opt_view {
                Some(bv) => {
                    assert(highest_biomes.deep_view() =~= old_biomes_deep + seq![bv]);
                },
                None => {
                    assert(highest_biomes.deep_view() =~= old_biomes_deep);
                },
            }
            let prev = spec_surface_from(px, pz, *dimension, gsmap, mb@, of@, gnether, col - 1);
            let next = spec_surface_from(px, pz, *dimension, gsmap, mb@, of@, gnether, col as int);
            match next {
                Ok(rest) => {
                    assert(prev == Ok::<(Seq<BlockView>, Seq<Seq<char>>), ErrorView>(
                        (
                            seq![block_view] + rest.0,
                            match biome_opt_view {
                                Some(bv) => seq![bv] + rest.1,
                                None => rest.1,
                            },
                        ),
                    ));
                    assert(old_blocks_deep + (seq![block_view] + rest.0) =~= (old_blocks_deep
                        + seq![block_view]) + rest.0);
                    match biome_opt_view {
                        Some(bv) => {
                            assert(old_biomes_deep + (seq![bv] + rest.1) =~= (old_biomes_deep
                                + seq![bv]) + rest.1);
                        },
                        None => {},
                    }
                },
                Err(e) => {
                    assert(prev == Err::<(Seq<BlockView>, Seq<Seq<char>>), ErrorView>(e));
                },
            }
        }
    }

    proof {
        assert(highest_blocks.deep_view() + Seq::<BlockView>::empty() =~= highest_blocks.deep_view());
        assert(highest_biomes.deep_view() + Seq::<Seq<char>>::empty() =~= highest_biomes.deep_view());
    }
    Ok(ChunkSurface { blocks: highest_blocks, biomes: highest_biomes })
}

/// Each extracted block is its own column's result, in row-major
/// order: position `j - col` of the blocks that columns `col..256`
/// produce belongs to column `j`.
proof fn lemma_surface_from_pointwise(
    pos_x: int,
    pos_z: int,
    dim: Dimension,
    smap: Map<i32, Compound>,
    mb: Seq<u16>,
    of: Seq<u16>,
    nether: Option<Seq<Seq<Seq<char>>>>,
    col: int,
)
    requires
        0 <= col <= 256,
        spec_surface_from(pos_x, pos_z, dim, smap, mb, of, nether, col) is Ok,
    ensures
        spec_surface_from(pos_x, pos_z, dim, smap, mb, of, nether, col)->Ok_0.0.len() == 256 - col,
        forall|j: int| col <= j < 256 ==> #[trigger] spec_surface_column(
            pos_x,
            pos_z,
            dim,
            smap,
            mb,
            of,
            nether,
            j,
        ) is Ok && spec_surface_from(pos_x, pos_z, dim, smap, mb, of, nether, col)->Ok_0.0[j - col]
            == spec_surface_column(pos_x, pos_z, dim, smap, mb, of, nether, j)->Ok_0.0,
    decreases 256 - col,
{
    if col < 256 {
        lemma_surface_from_pointwise(pos_x, pos_z, dim, smap, mb, of, nether, col + 1);
    }
}

/// One column's depth law: the block extracted for column `j`
/// carries exactly `max(surface_y - ocean_y, 0)` of that column.
pub open spec fn spec_depth_matches(
    pos_x: int,
    pos_z: int,
    dim: Dimension,
    smap: Map<i32, Compound>,
    mb: Seq<u16>,
    of: Seq<u16>,
    nether: Option<Seq<Seq<Seq<char>>>>,
    j: int,
) -> bool {
    let so = spec_column_surface_ocean(dim, mb, of, nether, j);
    let b = spec_surface_from(pos_x, pos_z, dim, smap, mb, of, nether, 0)->Ok_0.0[j];
    b.depth == (if so.0 - so.1 > 0 {
        so.0 - so.1
    } else {
        0int
    }) && b.depth >= 0
}

/// Depth is never negative: every extracted block's depth is exactly
/// the surface height minus the ocean-floor height of its column,
/// floored at zero.
pub proof fn lemma_depth_matches_heights(
    pos_x: int,
    pos_z: int,
    dim: Dimension,
    smap: Map<i32, Compound>,
    mb: Seq<u16>,
    of: Seq<u16>,
    nether: Option<Seq<Seq<Seq<char>>>>,
)
    requires
        spec_surface_from(pos_x, pos_z, dim, smap, mb, of, nether, 0) is Ok,
    ensures
        forall|j: int| 0 <= j < 256 ==> #[trigger] spec_depth_matches(
            pos_x,
            pos_z,
            dim,
            smap,
            mb,
            of,
            nether,
            j,
        ),
{
    lemma_surface_from_pointwise(pos_x, pos_z, dim, smap, mb, of, nether, 0);
    assert forall|j: int| 0 <= j < 256 implies #[trigger] spec_depth_matches(
        pos_x,
        pos_z,
        dim,
        smap,
        mb,
        of,
        nether,
        j,
    ) by {
        assert(spec_surface_column(pos_x, pos_z, dim, smap, mb, of, nether, j) is Ok);
    }
}

/// A Nether column whose precomputed names are all solid keeps both
/// of its heights at the bottom of the search range: surface and
/// ocean floor alike land on y = 31.
pub proof fn lemma_nether_all_solid_heights(
    mb: Seq<u16>,
    of: Seq<u16>,
    nether: Option<Seq<Seq<Seq<char>>>>,
    col: int,
)
    requires
        nether is Some,
        forall|l: int| 0 <= l < 97 ==> !spec_is_air_name(#[trigger] nether.unwrap()[col][l]),
    ensures
        spec_column_surface_ocean(Dimension::Nether, mb, of, nether, col) == (31int, 31int),
{
    lemma_nether_all_solid_level(nether.unwrap()[col]);
}

/// The vertical section index column `col` needs: the Euclidean
/// quotient of its ocean-floor height by 16.
pub open spec fn spec_column_section_index(
    dim: Dimension,
    mb: Seq<u16>,
    of: Seq<u16>,
    nether: Option<Seq<Seq<Seq<char>>>>,
    col: int,
) -> i32 {
    (spec_column_surface_ocean(dim, mb, of, nether, col).1 / 16) as i32
}

/// Once every earlier column has resolved, the first failing column
/// decides the whole extraction's error.
proof fn lemma_surface_from_first_error(
    pos_x: int,
    pos_z: int,
    dim: Dimension,
    smap: Map<i32, Compound>,
    mb: Seq<u16>,
    of: Seq<u16>,
    nether: Option<Seq<Seq<Seq<char>>>>,
    from: int,
    col: int,
)
    requires
        0 <= from <= col < 256,
        forall|j: int|
            from <= j < col ==> #[trigger] spec_surface_column(
                pos_x,
                pos_z,
                dim,
                smap,
                mb,
                of,
                nether,
                j,
            ) is Ok,
        spec_surface_column(pos_x, pos_z, dim, smap, mb, of, nether, col) is Err,
    ensures
        spec_surface_from(pos_x, pos_z, dim, smap, mb, of, nether, from) == Err::<
            (Seq<BlockView>, Seq<Seq<char>>),
            ErrorView,
        >(spec_surface_column(pos_x, pos_z, dim, smap, mb, of, nether, col)->Err_0),
    decreases col - from,
{
    if from < col {
        lemma_surface_from_first_error(pos_x, pos_z, dim, smap, mb, of, nether, from + 1, col);
    }
}

/// A missing section for an in-range height is unrecoverable, and
/// the error names it: if every column before `col` resolves and the
/// section `col` needs is absent from the map, the whole extraction
/// fails with exactly that section's index.
pub proof fn lemma_missing_section_named(
    pos_x: int,
    pos_z: int,
    dim: Dimension,
    smap: Map<i32, Compound>,
    mb: Seq<u16>,
    of: Seq<u16>,
    nether: Option<Seq<Seq<Seq<char>>>>,
    col: int,
)
    requires
        0 <= col < 256,
        forall|j: int|
            0 <= j < col ==> #[trigger] spec_surface_column(
                pos_x,
                pos_z,
                dim,
                smap,
                mb,
                of,
                nether,
                j,
            ) is Ok,
        !smap.dom().contains(spec_column_section_index(dim, mb, of, nether, col)),
    ensures
        spec_surface_from(pos_x, pos_z, dim, smap, mb, of, nether, 0) == Err::<
            (Seq<BlockView>, Seq<Seq<char>>),
            ErrorView,
        >(
            ErrorView::MissingSection {
                section_y: spec_column_section_index(dim, mb, of, nether, col) as int,
            },
        ),
{
    assert(spec_surface_column(pos_x, pos_z, dim, smap, mb, of, nether, col) == Err::<
        (BlockView, Option<Seq<char>>),
        ErrorView,
    >(
        ErrorView::MissingSection {
            section_y: spec_column_section_index(dim, mb, of, nether, col) as int,
        },
    ));
    lemma_surface_from_first_error(pos_x, pos_z, dim, smap, mb, of, nether, 0, col);
}

/// One column's bounds law: the block extracted for column `j`
/// sits inside the dimension's inclusive height bounds.
pub open spec fn spec_block_y_in_bounds(
    pos_x: int,
    pos_z: int,
    dim: Dimension,
    smap: Map<i32, Compound>,
    mb: Seq<u16>,
    of: Seq<u16>,
    nether: Option<Seq<Seq<Seq<char>>>>,
    j: int,
) -> bool {
    let bounds = spec_dimension_heights(dim);
    let b = spec_surface_from(pos_x, pos_z, dim, smap, mb, of, nether, 0)->Ok_0.0[j];
    bounds.0 <= b.y <= bounds.1
}

/// Every extracted block's y lies within the owning dimension's
/// inclusive height bounds: heights are clamped into them, and the
/// Nether search range sits inside them.
pub proof fn lemma_block_y_within_bounds(
    pos_x: int,
    pos_z: int,
    dim: Dimension,
    smap: Map<i32, Compound>,
    mb: Seq<u16>,
    of: Seq<u16>,
    nether: Option<Seq<Seq<Seq<char>>>>,
)
    requires
        spec_surface_from(pos_x, pos_z, dim, smap, mb, of, nether, 0) is Ok,
    ensures
        forall|j: int| 0 <= j < 256 ==> #[trigger] spec_block_y_in_bounds(
            pos_x,
            pos_z,
            dim,
            smap,
            mb,
            of,
            nether,
            j,
        ),
{
    lemma_surface_from_pointwise(pos_x, pos_z, dim, smap, mb, of, nether, 0);
    assert forall|j: int| 0 <= j < 256 implies #[trigger] spec_block_y_in_bounds(
        pos_x,
        pos_z,
        dim,
        smap,
        mb,
        of,
        nether,
        j,
    ) by {
        assert(spec_surface_column(pos_x, pos_z, dim, smap, mb, of, nether, j) is Ok);
        if dim == Dimension::Nether {
            lemma_nether_level_range(nether.unwrap()[j]);
        }
    }
}

} // verus!
