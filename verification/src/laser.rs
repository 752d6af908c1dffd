use vstd::prelude::*;

use crate::geometry::Rect;
use crate::geometry::sat_add;
use crate::geometry::sat_add_i32;

verus! {

/// A projectile: a bolt moving along the vertical axis. The sign of `speed`
/// encodes the direction (negative is up, toward the formation). `active`
/// is a tombstone flag: once false, the owning collection purges the laser
/// before the next collision pass.
#[derive(Clone, Copy, PartialEq, Eq, Structural, Debug)]
pub struct Laser {
    pub active: bool,
    pub x: i32,
    pub y: i32,
    pub speed: i32,
}

pub const LASER_WIDTH: i32 = 4;

pub const LASER_HEIGHT: i32 = 15;

impl Laser {
    pub fn new(x: i32, y: i32, speed: i32) -> (l: Laser)
        ensures
            l == (Laser { active: true, x, y, speed }),
    {
        Laser { active: true, x, y, speed }
    }

    /// The fixed-size bounding box used for every collision test.
    pub open spec fn spec_rect(self) -> Rect {
        Rect { x: self.x, y: self.y, w: LASER_WIDTH, h: LASER_HEIGHT }
    }

    pub fn get_rect(&self) -> (r: Rect)
        ensures
            r == self.spec_rect(),
    {
        Rect { x: self.x, y: self.y, w: LASER_WIDTH, h: LASER_HEIGHT }
    }

    /// A laser stays active only while its top edge lies inside the vertical
    /// play corridor: below the top margin (25) and above the bottom margin
    /// (100 units up from the play-area edge).
    pub open spec fn in_vertical_bounds(y: i32, screen_height: i32) -> bool {
        25 <= y && y <= screen_height - 100
    }

    /// The value one movement tick produces: the position advances by
    /// `speed` along the vertical axis, and `active` becomes false exactly
    /// when the laser exits the vertical bounds — it never re-activates.
    pub open spec fn spec_updated(self, screen_height: i32) -> Laser {
        Laser {
            y: sat_add(self.y, self.speed),
            active: self.active && Laser::in_vertical_bounds(
                sat_add(self.y, self.speed),
                screen_height,
            ),
            ..self
        }
    }

    /// One tick of movement, exactly as `spec_updated` describes it.
    pub fn update(&mut self, screen_height: i32)
        ensures
            *final(self) == old(self).spec_updated(screen_height),
    {
        self.y = sat_add_i32(self.y, self.speed);
        if self.active && (self.y as i64) > (screen_height as i64) - 100 || self.y < 25 {
            self.active = false;
        }
    }
}

/// Predicate for the lasers that are still active (not tombstoned).
pub open spec fn is_active() -> spec_fn(Laser) -> bool {
    |l: Laser| l.active
}

/// The lasers left after a tombstone purge, in their original order.
pub open spec fn active_lasers(s: Seq<Laser>) -> Seq<Laser> {
    s.filter(is_active())
}

/// Purges tombstoned lasers from a collection, keeping the active ones in
/// order; run before each collision pass so no resolution logic ever sees
/// an inactive projectile.
pub fn retain_active(v: &mut Vec<Laser>)
    ensures
        final(v)@ == active_lasers(old(v)@),
{
    let ghost pred: spec_fn(Laser) -> bool = is_active();
    let mut kept: Vec<Laser> = Vec::new();
    let mut i: usize = 0;
    proof {
        reveal(Seq::filter);
        assert(v@.take(0int).filter(pred) =~= Seq::<Laser>::empty());
    }
    while i < v.len()
        invariant
            0 <= i <= v@.len(),
            pred == is_active(),
            kept@ == v@.take(i as int).filter(pred),
        decreases v@.len() - i,
    {
        let l = v[i];
        proof {
            assert(v@.take(i as int + 1) =~= v@.take(i as int).push(l));
            crate::seq_facts::lemma_filter_push(v@.take(i as int), l, pred);
        }
        if l.active {
            kept.push(l);
        }
        i = i + 1;
    }
    proof {
        assert(v@.take(v@.len() as int) =~= v@);
    }
    *v = kept;
}

} // verus!
