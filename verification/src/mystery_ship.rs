use vstd::prelude::*;

use crate::geometry::Rect;

verus! {

/// Horizontal speed of the bonus target, in units per frame.
pub const MYSTERY_SPEED: i32 = 3;

/// Altitude at which the bonus target crosses the play area.
pub const MYSTERY_ALTITUDE: i32 = 90;

/// The bonus target: dormant until spawned from one side, then crossing the
/// play width at a fixed altitude. Missing it yields nothing; destroying it
/// awards a fixed bonus. Its sprite dimensions and the screen width are the
/// configuration the simulation reads.
#[derive(Clone, Copy, PartialEq, Eq, Structural, Debug)]
pub struct MysteryShip {
    pub alive: bool,
    pub x: i32,
    pub y: i32,
    pub speed: i32,
    pub width: i32,
    pub height: i32,
    pub screen_width: i32,
}

impl MysteryShip {
    /// Well-formedness: sane configuration, a bounded speed, and, while
    /// alive, a position inside the horizontal corridor the update rule
    /// maintains.
    pub open spec fn wf(self) -> bool {
        &&& 1 <= self.width <= 10000
        &&& 1 <= self.height <= 10000
        &&& self.width + 50 <= self.screen_width <= 100000
        &&& -10 <= self.speed <= 10
        &&& self.alive ==> 25 <= self.x <= self.screen_width - self.width - 25
    }

    pub fn new(screen_width: i32, width: i32, height: i32) -> (m: MysteryShip)
        requires
            1 <= width <= 10000,
            1 <= height <= 10000,
            width + 50 <= screen_width <= 100000,
        ensures
            m == (MysteryShip { alive: false, x: 0, y: 0, speed: 0, width, height, screen_width }),
            m.wf(),
    {
        MysteryShip { alive: false, x: 0, y: 0, speed: 0, width, height, screen_width }
    }

    /// While dormant the bounding box has zero area, so the target can never
    /// register a spurious collision; while alive it is the sprite's box.
    pub open spec fn spec_rect(self) -> Rect {
        if self.alive {
            Rect { x: self.x, y: self.y, w: self.width, h: self.height }
        } else {
            Rect { x: self.x, y: self.y, w: 0, h: 0 }
        }
    }

    pub fn get_rect(&self) -> (r: Rect)
        ensures
            r == self.spec_rect(),
    {
        if self.alive {
            Rect { x: self.x, y: self.y, w: self.width, h: self.height }
        } else {
            Rect { x: self.x, y: self.y, w: 0, h: 0 }
        }
    }

    /// The value spawning produces: awake at the chosen margin — starting x
    /// at the left margin with rightward speed, or at the right margin with
    /// leftward speed — at the fixed altitude.
    pub open spec fn spec_spawned(self, from_left: bool) -> MysteryShip {
        MysteryShip {
            alive: true,
            y: MYSTERY_ALTITUDE,
            x: if from_left {
                25
            } else {
                (self.screen_width - self.width - 25) as i32
            },
            speed: if from_left {
                MYSTERY_SPEED
            } else {
                (-MYSTERY_SPEED) as i32
            },
            ..self
        }
    }

    /// Wakes the target, exactly as `spec_spawned` describes it.
    pub fn spawn(&mut self, from_left: bool)
        requires
            old(self).wf(),
        ensures
            final(self).wf(),
            *final(self) == old(self).spec_spawned(from_left),
    {
        self.y = MYSTERY_ALTITUDE;
        if from_left {
            self.x = 25;
            self.speed = MYSTERY_SPEED;
        } else {
            self.x = self.screen_width - self.width - 25;
            self.speed = -MYSTERY_SPEED;
        }
        self.alive = true;
    }

    /// The value one tick produces: while alive the target advances
    /// horizontally and dies exactly when it crosses past either margin; a
    /// dormant target does not move. A miss awards nothing — dying this way
    /// changes no score.
    pub open spec fn spec_updated(self) -> MysteryShip {
        if self.alive {
            let x2 = (self.x + self.speed) as i32;
            MysteryShip {
                x: x2,
                alive: 25 <= x2 && x2 <= self.screen_width - self.width - 25,
                ..self
            }
        } else {
            self
        }
    }

    /// One tick of movement, exactly as `spec_updated` describes it.
    pub fn update(&mut self)
        requires
            old(self).wf(),
        ensures
            final(self).wf(),
            *final(self) == old(self).spec_updated(),
    {
        if self.alive {
            self.x = self.x + self.speed;
            if self.x > self.screen_width - self.width - 25 || self.x < 25 {
                self.alive = false;
            }
        }
    }
}

} // verus!
