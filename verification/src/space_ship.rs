use vstd::prelude::*;

use crate::geometry::Rect;
use crate::laser::Laser;

verus! {

/// Horizontal step of the player ship, in units per frame.
pub const SHIP_STEP: i32 = 7;

/// Minimum time between two player shots, in milliseconds.
pub const PLAYER_FIRE_COOLDOWN_MS: u64 = 350;

/// Upward speed of a player laser (negative: toward the formation).
pub const PLAYER_LASER_SPEED: i32 = -6;

/// The player-controlled ship: a clamped horizontal position, a fire
/// cooldown timestamp, and the collection of its outgoing lasers. The
/// sprite dimensions and screen size are the configuration it reads.
pub struct SpaceShip {
    pub lasers: Vec<Laser>,
    pub x: i32,
    pub y: i32,
    pub width: i32,
    pub height: i32,
    pub screen_width: i32,
    pub screen_height: i32,
    pub last_fire_time: u64,
}

impl SpaceShip {
    /// The horizontal corridor the ship is clamped to: a 25-unit margin on
    /// each side of the play area.
    pub open spec fn min_x(self) -> int {
        25
    }

    pub open spec fn max_x(self) -> int {
        self.screen_width - self.width - 25
    }

    /// Well-formedness: sane configuration, position inside the corridor,
    /// and the fixed altitude the ship sits at.
    pub open spec fn wf(self) -> bool {
        &&& 1 <= self.width <= 10000
        &&& 1 <= self.height <= 10000
        &&& self.width + 50 <= self.screen_width <= 100000
        &&& self.height + 125 <= self.screen_height <= 100000
        &&& self.min_x() <= self.x <= self.max_x()
        &&& self.y == self.screen_height - self.height - 100
    }

    /// The ship starts horizontally centred, at its fixed altitude, with no
    /// lasers and the cooldown timer cleared.
    pub fn new(screen_width: i32, screen_height: i32, width: i32, height: i32) -> (s: SpaceShip)
        requires
            1 <= width <= 10000,
            1 <= height <= 10000,
            width + 50 <= screen_width <= 100000,
            height + 125 <= screen_height <= 100000,
        ensures
            s.wf(),
            s.lasers@ == Seq::<Laser>::empty(),
            s.x == (screen_width - width) / 2,
            s.y == screen_height - height - 100,
            s.width == width,
            s.height == height,
            s.screen_width == screen_width,
            s.screen_height == screen_height,
            s.last_fire_time == 0,
    {
        SpaceShip {
            lasers: Vec::new(),
            x: (screen_width - width) / 2,
            y: screen_height - height - 100,
            width,
            height,
            screen_width,
            screen_height,
            last_fire_time: 0,
        }
    }

    /// One step left, clamped at the left margin.
    pub fn move_left(&mut self)
        requires
            old(self).wf(),
        ensures
            final(self).wf(),
            *final(self) == (SpaceShip {
                x: if old(self).x - SHIP_STEP < 25 {
                    25
                } else {
                    (old(self).x - SHIP_STEP) as i32
                },
                ..*old(self)
            }),
    {
        self.x = self.x - SHIP_STEP;
        if self.x < 25 {
            self.x = 25;
        }
    }

    /// One step right, clamped at the right margin.
    pub fn move_right(&mut self)
        requires
            old(self).wf(),
        ensures
            final(self).wf(),
            *final(self) == (SpaceShip {
                x: if old(self).x + SHIP_STEP > old(self).max_x() {
                    (old(self).max_x()) as i32
                } else {
                    (old(self).x + SHIP_STEP) as i32
                },
                ..*old(self)
            }),
    {
        self.x = self.x + SHIP_STEP;
        if self.x > self.screen_width - self.width - 25 {
            self.x = self.screen_width - self.width - 25;
        }
    }

    /// Whether a shot fired at `now` is allowed by the rate limit.
    pub open spec fn can_fire(self, now: u64) -> bool {
        now >= self.last_fire_time + PLAYER_FIRE_COOLDOWN_MS
    }

    /// The laser a shot at the current position spawns: anchored at the
    /// ship's horizontal centre, moving upward.
    pub open spec fn spawned_laser(self) -> Laser {
        Laser {
            active: true,
            x: (self.x + self.width / 2 - 2) as i32,
            y: self.y,
            speed: PLAYER_LASER_SPEED,
        }
    }

    /// Rate-limited firing: if and only if the cooldown has elapsed at
    /// `now`, a new upward laser is appended and the cooldown restarts.
    pub fn fire_laser(&mut self, now: u64) -> (fired: bool)
        requires
            old(self).wf(),
        ensures
            final(self).wf(),
            fired == old(self).can_fire(now),
            fired ==> *final(self) == (SpaceShip {
                last_fire_time: now,
                lasers: final(self).lasers,
                ..*old(self)
            }) && final(self).lasers@ == old(self).lasers@.push(old(self).spawned_laser()),
            !fired ==> *final(self) == *old(self),
    {
        if now >= self.last_fire_time && now - self.last_fire_time >= PLAYER_FIRE_COOLDOWN_MS {
            let l = Laser::new(self.x + self.width / 2 - 2, self.y, PLAYER_LASER_SPEED);
            self.lasers.push(l);
            self.last_fire_time = now;
            true
        } else {
            false
        }
    }

    pub open spec fn spec_rect(self) -> Rect {
        Rect { x: self.x, y: self.y, w: self.width, h: self.height }
    }

    pub fn get_rect(&self) -> (r: Rect)
        ensures
            r == self.spec_rect(),
    {
        Rect { x: self.x, y: self.y, w: self.width, h: self.height }
    }

    /// New-round reset: recentre the ship and clear its laser collection.
    pub fn reset(&mut self)
        requires
            old(self).wf(),
        ensures
            final(self).wf(),
            final(self).x == (old(self).screen_width - old(self).width) / 2,
            final(self).y == old(self).y,
            final(self).width == old(self).width,
            final(self).height == old(self).height,
            final(self).screen_width == old(self).screen_width,
            final(self).screen_height == old(self).screen_height,
            final(self).last_fire_time == old(self).last_fire_time,
            final(self).lasers@ == Seq::<Laser>::empty(),
    {
        self.x = (self.screen_width - self.width) / 2;
        self.lasers.clear();
    }
}

} // verus!
