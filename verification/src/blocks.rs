use vstd::prelude::*;

verus! {

/// World coordinates of one block.
#[derive(Debug, Clone)]
pub struct BlockPosition {
    pub x: i32,
    pub y: i32,
    pub z: i32,
}

/// One extracted surface block: where it sits, what it is, how much
/// transparent water or ice lies above it, and whether it is snowy.
#[derive(Debug, Clone)]
pub struct Block {
    pub position: BlockPosition,
    pub name: String,
    pub depth: u16,
    pub snowy: bool,
}

/// The mathematical shadow of [`Block`]: coordinates as integers and
/// the name as a character sequence.
pub struct BlockView {
    pub x: int,
    pub y: int,
    pub z: int,
    pub name: Seq<char>,
    pub depth: int,
    pub snowy: bool,
}

impl View for Block {
    type V = BlockView;

    open spec fn view(&self) -> BlockView {
        BlockView {
            x: self.position.x as int,
            y: self.position.y as int,
            z: self.position.z as int,
            name: self.name@,
            depth: self.depth as int,
            snowy: self.snowy,
        }
    }
}

impl DeepView for Block {
    type V = BlockView;

    open spec fn deep_view(&self) -> BlockView {
        self.view()
    }
}

} // verus!
