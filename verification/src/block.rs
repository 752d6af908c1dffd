use vstd::prelude::*;

use crate::geometry::Rect;

verus! {

/// The side length of one destructible cover cell.
pub const BLOCK_SIZE: i32 = 3;

/// One cell of a cover cluster: an independently destructible square with no
/// health — a single hit removes it entirely.
#[derive(Clone, Copy, PartialEq, Eq, Structural, Debug)]
pub struct Block {
    pub x: i32,
    pub y: i32,
}

impl Block {
    pub fn new(x: i32, y: i32) -> (b: Block)
        ensures
            b == (Block { x, y }),
    {
        Block { x, y }
    }

    pub open spec fn spec_rect(self) -> Rect {
        Rect { x: self.x, y: self.y, w: BLOCK_SIZE, h: BLOCK_SIZE }
    }

    pub fn get_rect(&self) -> (r: Rect)
        ensures
            r == self.spec_rect(),
    {
        Rect { x: self.x, y: self.y, w: BLOCK_SIZE, h: BLOCK_SIZE }
    }
}

} // verus!
