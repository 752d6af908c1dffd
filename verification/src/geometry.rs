use vstd::prelude::*;

verus! {

/// An axis-aligned rectangle in the play area's integer coordinate space.
/// `w` and `h` may be zero; a zero-area rectangle overlaps nothing.
#[derive(Clone, Copy, PartialEq, Eq, Structural, Debug)]
pub struct Rect {
    pub x: i32,
    pub y: i32,
    pub w: i32,
    pub h: i32,
}

/// Two rectangles overlap when both have positive extent and their
/// interiors intersect: strict inequalities, so touching edges do not
/// collide, and a zero-area rectangle (a dormant bonus target's box) never
/// collides with anything.
pub open spec fn overlaps(a: Rect, b: Rect) -> bool {
    a.w > 0 && a.h > 0 && b.w > 0 && b.h > 0 && a.x < b.x + b.w && b.x < a.x + a.w && a.y < b.y
        + b.h && b.y < a.y + a.h
}

/// Overlap test, computed in 64-bit arithmetic so that no sum can overflow.
pub fn rects_overlap(a: Rect, b: Rect) -> (r: bool)
    ensures
        r == overlaps(a, b),
{
    a.w > 0 && a.h > 0 && b.w > 0 && b.h > 0 && (a.x as i64) < (b.x as i64) + (b.w as i64) && (
    b.x as i64) < (a.x as i64) + (a.w as i64) && (a.y as i64) < (b.y as i64) + (b.h as i64) && (
    b.y as i64) < (a.y as i64) + (a.h as i64)
}

/// `x + d` clamped to the `i32` range; the simulation steps positions with it
/// so that movement is total even on degenerate states.
pub open spec fn sat_add(x: i32, d: i32) -> i32 {
    if x + d > i32::MAX {
        i32::MAX
    } else if x + d < i32::MIN {
        i32::MIN
    } else {
        (x + d) as i32
    }
}

pub fn sat_add_i32(x: i32, d: i32) -> (r: i32)
    ensures
        r == sat_add(x, d),
{
    let s: i64 = x as i64 + d as i64;
    if s > i32::MAX as i64 {
        i32::MAX
    } else if s < i32::MIN as i64 {
        i32::MIN
    } else {
        s as i32
    }
}

} // verus!
