use vstd::prelude::*;

verus! {

/// The world dimension a chunk belongs to; a lookup key for the
/// per-dimension vertical constants.
#[derive(Clone, Copy, Debug, PartialEq, Eq, Structural)]
pub enum Dimension {
    Overworld,
    Nether,
    End,
}

/// Vertical offset added to raw heightmap values in this dimension.
pub open spec fn spec_dimension_height_offset(dimension: Dimension) -> int {
    match dimension {
        Dimension::Overworld => -64,
        Dimension::Nether => 0,
        Dimension::End => 0,
    }
}

/// Inclusive vertical bounds of this dimension.
pub open spec fn spec_dimension_heights(dimension: Dimension) -> (int, int) {
    match dimension {
        Dimension::Overworld => (-64, 320),
        Dimension::Nether => (0, 256),
        Dimension::End => (0, 256),
    }
}

pub fn get_dimension_height_offset(dimension: &Dimension) -> (r: i32)
    ensures
        r as int == spec_dimension_height_offset(*dimension),
{
    match dimension {
        Dimension::Overworld => -64,
        Dimension::Nether => 0,
        Dimension::End => 0,
    }
}

pub fn get_dimension_heights(dimension: &Dimension) -> (r: (i32, i32))
    ensures
        (r.0 as int, r.1 as int) == spec_dimension_heights(*dimension),
{
    match dimension {
        Dimension::Overworld => (-64, 320),
        Dimension::Nether => (0, 256),
        Dimension::End => (0, 256),
    }
}

} // verus!
