use vstd::prelude::*;

use crate::errors::{DecodeError, ErrorView};

verus! {

/// 256 per-column height values, row-major (Z outer, X inner).
pub type Heightmap = Vec<u16>;

/// Number of columns in a chunk, and so of values in a heightmap.
pub const HM_LENGTH: usize = 256;

/// Width in bits of one packed height value.
pub const HM_BITS_PER_VALUE: usize = 9;

/// How many 9-bit values fit in one 64-bit word; the last bit of each
/// word is unused padding, and no value straddles a word boundary.
pub const HM_VALUES_PER_LONG: usize = 64 / HM_BITS_PER_VALUE;

/// Fewest words that can carry 256 values at 7 per word.
pub const HM_MIN_WORDS: usize = 37;

/// The `i`-th 9-bit value packed into `words`: values fill each word
/// from the low bit upward, 7 per word.
pub open spec fn spec_heightmap_value(words: Seq<i64>, i: int) -> u16 {
    ((((words[i / 7]) as u64) >> (((i % 7) * 9) as u64)) & 0x1ff) as u16
}

/// All 256 values packed into `words`.
pub open spec fn spec_decoded_heightmap(words: Seq<i64>) -> Seq<u16> {
    Seq::new(256, |i: int| spec_heightmap_value(words, i))
}

/// Unpack a heightmap: 256 fixed-width 9-bit values read from an
/// array of 64-bit words.  An input with fewer words than 256 values
/// need is rejected.
pub fn decode_heightmap(packed_data: &[i64]) -> (r: Result<Heightmap, DecodeError>)
    ensures
        packed_data@.len() < HM_MIN_WORDS ==> (r matches Err(e) && e@ == (ErrorView::HeightmapTooShort { len: packed_data@.len() as int })),
        packed_data@.len() >= HM_MIN_WORDS ==> (r matches Ok(h) && h@ == spec_decoded_heightmap(packed_data@)),
{
    if packed_data.len() < HM_MIN_WORDS {
        return Err(DecodeError::HeightmapTooShort { len: packed_data.len() });
    }

    let mut heights: Vec<u16> = Vec::with_capacity(HM_LENGTH);

    let mut i: usize = 0;
    while i < HM_LENGTH
        invariant
            i <= 256,
            heights@.len() == i,
            packed_data@.len() >= 37,
            forall|j: int| 0 <= j < i ==> heights@[j] == spec_heightmap_value(packed_data@, j),
        decreases 256 - i,
    {
        let long_index = i / HM_VALUES_PER_LONG;
        let value_index = i % HM_VALUES_PER_LONG;

        assert(long_index <= 36);
        let long_value = packed_data[long_index] as u64;
        let bit_offset = value_index * HM_BITS_PER_VALUE;
        assert(bit_offset <= 54);

        let mask: u64 = 0x1ff;
        let shifted = (long_value >> (bit_offset as u64)) & mask;
        assert(shifted < 0x200) by (bit_vector)
            requires
                shifted == (long_value >> (bit_offset as u64)) & 0x1ffu64,
        ;
        let height = shifted as u16;

        assert(height == spec_heightmap_value(packed_data@, i as int));
        heights.push(height);

        i += 1;
    }

    proof {
        assert(heights@ =~= spec_decoded_heightmap(packed_data@));
    }
    Ok(heights)
}

} // verus!
