use vstd::prelude::*;

use crate::geometry::Rect;

verus! {

/// The three enemy tiers. Each kind has a fixed point value and its own
/// sprite, so each alien carries the dimensions of the sprite it is drawn
/// with; the core only ever reads those dimensions.
#[derive(Clone, Copy, PartialEq, Eq, Structural, Debug)]
pub enum Kind {
    Skull,
    Bug,
    Octopus,
}

/// The score awarded for destroying an enemy of the given kind.
pub open spec fn spec_points(k: Kind) -> u64 {
    match k {
        Kind::Skull => 100,
        Kind::Bug => 200,
        Kind::Octopus => 300,
    }
}

pub fn points(k: Kind) -> (p: u64)
    ensures
        p == spec_points(k),
{
    match k {
        Kind::Skull => 100,
        Kind::Bug => 200,
        Kind::Octopus => 300,
    }
}

/// One enemy of the formation: a position, a kind, and the dimensions of the
/// kind's sprite (the core models the shared texture by the two numbers the
/// simulation reads from it).
#[derive(Clone, Copy, PartialEq, Eq, Structural, Debug)]
pub struct Alien {
    pub x: i32,
    pub y: i32,
    pub w: i32,
    pub h: i32,
    pub kind: Kind,
}

impl Alien {
    pub fn new(kind: Kind, x: i32, y: i32, w: i32, h: i32) -> (a: Alien)
        ensures
            a == (Alien { x, y, w, h, kind }),
    {
        Alien { x, y, w, h, kind }
    }

    pub open spec fn spec_rect(self) -> Rect {
        Rect { x: self.x, y: self.y, w: self.w, h: self.h }
    }

    pub fn get_rect(&self) -> (r: Rect)
        ensures
            r == self.spec_rect(),
    {
        Rect { x: self.x, y: self.y, w: self.w, h: self.h }
    }
}

} // verus!
