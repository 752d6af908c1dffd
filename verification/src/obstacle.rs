use vstd::prelude::*;

use crate::block::Block;
use crate::block::BLOCK_SIZE;
use crate::geometry::Rect;
use crate::geometry::overlaps;
use crate::geometry::rects_overlap;
use crate::seq_facts::lemma_filter_push;

verus! {

/// Rows of the cover cluster's shape mask.
pub const GRID_ROWS: i32 = 13;

/// Columns of the cover cluster's shape mask.
pub const GRID_COLS: i32 = 23;

/// The fixed binary shape mask of a cover cluster: a rectangle with the two
/// top corners cut diagonally and a notch carved out of the bottom middle.
pub open spec fn grid_cell(r: int, c: int) -> bool {
    0 <= r < GRID_ROWS && 0 <= c < GRID_COLS && c + r >= 3 && c - r <= 19 && !(r >= 10 && 8 <= c
        && c <= 14)
}

/// The cells of one mask row up to column `c`, as blocks anchored at (x, y),
/// in column order.
pub open spec fn row_blocks(x: i32, y: i32, r: int, c: int) -> Seq<Block>
    decreases c,
{
    if c <= 0 {
        Seq::empty()
    } else {
        row_blocks(x, y, r, c - 1) + if grid_cell(r, c - 1) {
            seq![Block { x: (x + BLOCK_SIZE * (c - 1)) as i32, y: (y + BLOCK_SIZE * r) as i32 }]
        } else {
            Seq::empty()
        }
    }
}

/// The cells of the whole mask up to row `r`, row by row.
pub open spec fn cluster_blocks(x: i32, y: i32, r: int) -> Seq<Block>
    decreases r,
{
    if r <= 0 {
        Seq::empty()
    } else {
        cluster_blocks(x, y, r - 1) + row_blocks(x, y, r - 1, GRID_COLS as int)
    }
}

/// Predicate for the cells that survive an impact at `rect`.
pub open spec fn not_hit_by(rect: Rect) -> spec_fn(Block) -> bool {
    |b: Block| !overlaps(b.spec_rect(), rect)
}

/// The cells left after an impact at `rect`: exactly those whose bounding
/// boxes do not intersect it, in their original order.
pub open spec fn blocks_surviving(blocks: Seq<Block>, rect: Rect) -> Seq<Block> {
    blocks.filter(not_hit_by(rect))
}

/// Whether an impact at `rect` destroys at least one cell of `blocks`.
pub open spec fn any_block_hit(blocks: Seq<Block>, rect: Rect) -> bool {
    exists|i: int| 0 <= i < blocks.len() && overlaps(blocks[i].spec_rect(), rect)
}

/// A destructible cover cluster: independent cells built from the fixed
/// shape mask, each scaled to one `BLOCK_SIZE` square at an offset from the
/// cluster's anchor. The cluster object persists even with zero cells left.
pub struct Obstacle {
    pub x: i32,
    pub y: i32,
    pub blocks: Vec<Block>,
}

impl Obstacle {
    /// Builds the cluster at anchor (x, y): one block per set mask cell, in
    /// row-major order.
    pub fn new(x: i32, y: i32) -> (o: Obstacle)
        requires
            -1000000 <= x <= 1000000,
            -1000000 <= y <= 1000000,
        ensures
            o.x == x,
            o.y == y,
            o.blocks@ == cluster_blocks(x, y, GRID_ROWS as int),
    {
        let mut blocks: Vec<Block> = Vec::new();
        let mut r: i32 = 0;
        while r < GRID_ROWS
            invariant
                0 <= r <= GRID_ROWS,
                -1000000 <= x <= 1000000,
                -1000000 <= y <= 1000000,
                blocks@ == cluster_blocks(x, y, r as int),
            decreases GRID_ROWS - r,
        {
            let mut c: i32 = 0;
            while c < GRID_COLS
                invariant
                    0 <= c <= GRID_COLS,
                    0 <= r < GRID_ROWS,
                    -1000000 <= x <= 1000000,
                    -1000000 <= y <= 1000000,
                    blocks@ == cluster_blocks(x, y, r as int) + row_blocks(x, y, r as int, c as int),
                decreases GRID_COLS - c,
            {
                let in_left_cut: bool = c + r >= 3;
                let in_right_cut: bool = c - r <= 19;
                let in_notch: bool = r >= 10 && 8 <= c && c <= 14;
                if in_left_cut && in_right_cut && !in_notch {
                    let b = Block::new(x + BLOCK_SIZE * c, y + BLOCK_SIZE * r);
                    blocks.push(b);
                    proof {
                        assert(cluster_blocks(x, y, r as int) + row_blocks(
                            x,
                            y,
                            r as int,
                            c as int + 1,
                        ) =~= (cluster_blocks(x, y, r as int) + row_blocks(
                            x,
                            y,
                            r as int,
                            c as int,
                        )).push(b));
                    }
                } else {
                    proof {
                        assert(cluster_blocks(x, y, r as int) + row_blocks(
                            x,
                            y,
                            r as int,
                            c as int + 1,
                        ) =~= cluster_blocks(x, y, r as int) + row_blocks(x, y, r as int, c as int));
                    }
                }
                c = c + 1;
            }
            r = r + 1;
        }
        Obstacle { x, y, blocks }
    }

    /// Deletes every cell whose bounding box intersects the given rectangle;
    /// reports whether any cell was deleted. Used symmetrically for player
    /// lasers, enemy lasers, and enemy-body overlap.
    pub fn remove_cells_colliding_with(&mut self, rect: Rect) -> (hit: bool)
        ensures
            final(self).x == old(self).x,
            final(self).y == old(self).y,
            final(self).blocks@ == blocks_surviving(old(self).blocks@, rect),
            hit == any_block_hit(old(self).blocks@, rect),
    {
        let ghost pred: spec_fn(Block) -> bool = not_hit_by(rect);
        let mut kept: Vec<Block> = Vec::new();
        let mut hit: bool = false;
        let mut i: usize = 0;
        proof {
            reveal(Seq::filter);
            assert(self.blocks@.take(0int).filter(pred) =~= Seq::<Block>::empty());
        }
        while i < self.blocks.len()
            invariant
                0 <= i <= self.blocks@.len(),
                pred == not_hit_by(rect),
                kept@ == self.blocks@.take(i as int).filter(pred),
                hit == exists|j: int|
                    0 <= j < i && overlaps(self.blocks@[j].spec_rect(), rect),
            decreases self.blocks@.len() - i,
        {
            let b = self.blocks[i];
            proof {
                assert(pred(b) == !overlaps(b.spec_rect(), rect));
                assert(self.blocks@.take(i as int + 1) =~= self.blocks@.take(i as int).push(b));
                lemma_filter_push(self.blocks@.take(i as int), b, pred);
            }
            if rects_overlap(b.get_rect(), rect) {
                hit = true;
            } else {
                kept.push(b);
            }
            i = i + 1;
        }
        proof {
            assert(self.blocks@.take(self.blocks@.len() as int) =~= self.blocks@);
        }
        self.blocks = kept;
        hit
    }
}

} // verus!
