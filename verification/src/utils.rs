use vstd::prelude::*;
use vstd::arithmetic::div_mod::{
    lemma_fundamental_div_mod, lemma_fundamental_div_mod_converse, lemma_mod_bound,
};

verus! {

/// How chunk surfaces are turned into pixels; a selector consumed by
/// the rendering collaborator.
#[derive(Debug, Clone, PartialEq, Eq, Structural)]
pub enum ImageRenderType {
    Textures,
    TexturesWithoutWater,
    Heightmap,
    Biomes,
    Temperature,
    Downfall,
    Inhabited,
    LastUpdated,
}

/// Split a packed 0xRRGGBB color into its red, green and blue
/// channels.
pub fn u32_to_rgb(color: u32) -> (r: [u8; 3])
    ensures
        r@.len() == 3,
        r@[0] == ((color >> 16) & 0xff) as u8,
        r@[1] == ((color >> 8) & 0xff) as u8,
        r@[2] == (color & 0xff) as u8,
{
    [((color >> 16) & 0xff) as u8, ((color >> 8) & 0xff) as u8, (color & 0xff) as u8]
}

/// The region a chunk belongs to: both coordinates divided by 32,
/// rounding toward negative infinity.
pub fn chunk_to_region_coords(x: i32, z: i32) -> (r: (i32, i32))
    ensures
        r.0 as int == (x as int) / 32,
        r.1 as int == (z as int) / 32,
{
    (div32_floor(x), div32_floor(z))
}

/// Flooring division by 32, computed on a shifted non-negative
/// range so that no signed division is needed.
fn div32_floor(v: i32) -> (r: i32)
    ensures
        r as int == (v as int) / 32,
{
    let shifted = (v as i64) + 2147483648i64;
    let q = ((shifted as u64) / 32) as i64 - 67108864i64;
    proof {
        lemma_fundamental_div_mod(v as int, 32);
        lemma_mod_bound(v as int, 32);
        lemma_fundamental_div_mod_converse(
            v as int + 2147483648,
            32,
            (v as int) / 32 + 67108864,
            (v as int) % 32,
        );
    }
    q as i32
}

/// The slot of a column's biome sample in the 4 x 4 cell grid.
pub fn get_biome_index(local_x: i32, local_z: i32) -> (r: usize)
    requires
        0 <= local_x < 16,
        0 <= local_z < 16,
    ensures
        r as int == (local_z as int / 4) * 4 + local_x as int / 4,
        r < 16,
{
    let cell_x = (local_x as usize) / 4;
    let cell_z = (local_z as usize) / 4;
    cell_z * 4 + cell_x
}

} // verus!
