use vstd::prelude::*;

use crate::alien::Alien;
use crate::alien::Kind;
use crate::alien::points;
use crate::alien::spec_points;
use crate::block::Block;
use crate::game::Game;
use crate::game::MYSTERY_BONUS;
use crate::game::add_score;
use crate::game::award;
use crate::game::sub_lives;
use crate::geometry::Rect;
use crate::geometry::overlaps;
use crate::geometry::rects_overlap;
use crate::laser::Laser;
use crate::mystery_ship::MysteryShip;
use crate::obstacle::any_block_hit;
use crate::obstacle::blocks_surviving;
use crate::seq_facts::lemma_filter_filter;
use crate::seq_facts::lemma_filter_true;
use crate::space_ship::SpaceShip;

verus! {

/// The cover cells of every cluster, cluster by cluster.
pub open spec fn obs_blocks(obstacles: Seq<crate::obstacle::Obstacle>) -> Seq<Seq<Block>> {
    Seq::new(obstacles.len() as nat, |m: int| obstacles[m].blocks@)
}

/// Every cluster struck by one impact rectangle.
pub open spec fn strike_all(obs: Seq<Seq<Block>>, r: Rect) -> Seq<Seq<Block>> {
    Seq::new(obs.len(), |m: int| blocks_surviving(obs[m], r))
}

/// Whether the impact destroys a cell of any cluster.
pub open spec fn any_obstacle_hit(obs: Seq<Seq<Block>>, r: Rect) -> bool {
    exists|m: int| 0 <= m < obs.len() && any_block_hit(obs[m], r)
}

/// The formation after one player-laser impact: the first enemy (in
/// collection order) whose box the laser intersects is removed and its kind
/// reported; with no intersection the formation is unchanged. At most one
/// enemy falls to one projectile.
pub open spec fn remove_first_hit(aliens: Seq<Alien>, r: Rect) -> (Seq<Alien>, Option<Kind>)
    decreases aliens.len(),
{
    if aliens.len() == 0 {
        (aliens, Option::<Kind>::None)
    } else if overlaps(aliens[0].spec_rect(), r) {
        (aliens.drop_first(), Option::Some(aliens[0].kind))
    } else {
        let rest = remove_first_hit(aliens.drop_first(), r);
        (seq![aliens[0]] + rest.0, rest.1)
    }
}

/// The state the player-laser resolution threads through the pass: the
/// formation, the cover cells of each cluster, the bonus target, the score,
/// and the player lasers themselves (whose tombstone flags the pass sets).
#[verifier::ext_equal]
pub struct PlayerPassState {
    pub aliens: Seq<Alien>,
    pub obstacles: Seq<Seq<Block>>,
    pub mystery: MysteryShip,
    pub score: u64,
    pub lasers: Seq<Laser>,
}

/// The fixed per-projectile resolution order: enemies are tested first
/// (first hit removed, kind-specific score, laser tombstoned), cover
/// second (overlapping cells removed, laser tombstoned), the bonus target
/// third (fixed bonus, target killed, laser tombstoned). A laser
/// tombstoned by an earlier test still takes part in the later tests of
/// its own turn.
pub open spec fn player_laser_step(s: PlayerPassState, j: int) -> PlayerPassState {
    let l = s.lasers[j];
    let r = l.spec_rect();
    let rm = remove_first_hit(s.aliens, r);
    let score_after_aliens = match rm.1 {
        Option::Some(k) => add_score(s.score, spec_points(k)),
        Option::None => s.score,
    };
    let active_after_aliens = if rm.1 is Some {
        false
    } else {
        l.active
    };
    let active_after_cover = if any_obstacle_hit(s.obstacles, r) {
        false
    } else {
        active_after_aliens
    };
    let mystery_hit = overlaps(s.mystery.spec_rect(), r);
    let mystery_after = if mystery_hit {
        MysteryShip { alive: false, ..s.mystery }
    } else {
        s.mystery
    };
    let score_after = if mystery_hit {
        add_score(score_after_aliens, MYSTERY_BONUS)
    } else {
        score_after_aliens
    };
    let active_after = if mystery_hit {
        false
    } else {
        active_after_cover
    };
    PlayerPassState {
        aliens: rm.0,
        obstacles: strike_all(s.obstacles, r),
        mystery: mystery_after,
        score: score_after,
        lasers: s.lasers.update(j, Laser { active: active_after, ..l }),
    }
}

/// The pass state after the first `n` player lasers have resolved in
/// collection order.
pub open spec fn player_pass(s: PlayerPassState, n: int) -> PlayerPassState
    decreases n,
{
    if n <= 0 {
        s
    } else {
        player_laser_step(player_pass(s, n - 1), n - 1)
    }
}

/// The engine state seen through the player-laser pass.
pub open spec fn game_pass_view(g: Game) -> PlayerPassState {
    PlayerPassState {
        aliens: g.aliens@,
        obstacles: obs_blocks(g.obstacles@),
        mystery: g.mystery_ship,
        score: g.score,
        lasers: g.space_ship.lasers@,
    }
}

/// Predicate for cover cells missed by the first `n` lasers of a
/// collection.
pub open spec fn missed_by_lasers(lasers: Seq<Laser>, n: int) -> spec_fn(Block) -> bool {
    |b: Block| forall|j: int| 0 <= j < n ==> !overlaps(b.spec_rect(), (#[trigger] lasers[j]).spec_rect())
}

/// Predicate for cover cells missed by the first `n` aliens of the
/// formation.
pub open spec fn missed_by_aliens(aliens: Seq<Alien>, n: int) -> spec_fn(Block) -> bool {
    |b: Block| forall|i: int| 0 <= i < n ==> !overlaps(b.spec_rect(), (#[trigger] aliens[i]).spec_rect())
}

/// How many of the first `n` lasers hit the given box.
pub open spec fn count_laser_hits(lasers: Seq<Laser>, r: Rect, n: int) -> int
    decreases n,
{
    if n <= 0 {
        0
    } else {
        count_laser_hits(lasers, r, n - 1) + if overlaps(lasers[n - 1].spec_rect(), r) {
            1int
        } else {
            0int
        }
    }
}

/// How many of the first `n` aliens overlap the given box.
pub open spec fn count_alien_touches(aliens: Seq<Alien>, r: Rect, n: int) -> int
    decreases n,
{
    if n <= 0 {
        0
    } else {
        count_alien_touches(aliens, r, n - 1) + if overlaps(aliens[n - 1].spec_rect(), r) {
            1int
        } else {
            0int
        }
    }
}

/// A hit count is never negative.
pub proof fn lemma_count_laser_hits_nonneg(lasers: Seq<Laser>, r: Rect, n: int)
    ensures
        count_laser_hits(lasers, r, n) >= 0,
    decreases n,
{
    if n > 0 {
        lemma_count_laser_hits_nonneg(lasers, r, n - 1);
    }
}

/// A touch count is never negative.
pub proof fn lemma_count_alien_touches_nonneg(aliens: Seq<Alien>, r: Rect, n: int)
    ensures
        count_alien_touches(aliens, r, n) >= 0,
    decreases n,
{
    if n > 0 {
        lemma_count_alien_touches_nonneg(aliens, r, n - 1);
    }
}

/// A collection none of whose first `n` lasers intersect the box scores
/// no hit.
pub proof fn lemma_count_no_laser_hits(lasers: Seq<Laser>, r: Rect, n: int)
    requires
        forall|j: int| 0 <= j < n ==> !overlaps((#[trigger] lasers[j]).spec_rect(), r),
    ensures
        count_laser_hits(lasers, r, n) == 0,
    decreases n,
{
    if n > 0 {
        lemma_count_no_laser_hits(lasers, r, n - 1);
    }
}

/// A formation none of whose first `n` enemies overlap the box scores no
/// touch.
pub proof fn lemma_count_no_alien_touches(aliens: Seq<Alien>, r: Rect, n: int)
    requires
        forall|i: int| 0 <= i < n ==> !overlaps((#[trigger] aliens[i]).spec_rect(), r),
    ensures
        count_alien_touches(aliens, r, n) == 0,
    decreases n,
{
    if n > 0 {
        lemma_count_no_alien_touches(aliens, r, n - 1);
    }
}

/// With exactly one projectile of the collection intersecting the box the
/// hit count is one — so a lone enemy laser on the ship costs exactly one
/// life, and with one life left the pass reaches zero and ends the round.
pub proof fn lemma_count_single_hit(lasers: Seq<Laser>, r: Rect, j: int, n: int)
    requires
        0 <= j < n <= lasers.len(),
        overlaps(lasers[j].spec_rect(), r),
        forall|j2: int|
            0 <= j2 < n && j2 != j ==> !overlaps((#[trigger] lasers[j2]).spec_rect(), r),
    ensures
        count_laser_hits(lasers, r, n) == 1,
    decreases n,
{
    if j < n - 1 {
        lemma_count_single_hit(lasers, r, j, n - 1);
    } else {
        lemma_count_no_laser_hits(lasers, r, n - 1);
    }
}

/// With no enemy in a laser's way the formation is untouched.
pub proof fn lemma_remove_first_none(aliens: Seq<Alien>, r: Rect)
    requires
        forall|k: int| 0 <= k < aliens.len() ==> !overlaps((#[trigger] aliens[k]).spec_rect(), r),
    ensures
        remove_first_hit(aliens, r) == (aliens, Option::<Kind>::None),
    decreases aliens.len(),
{
    if aliens.len() > 0 {
        lemma_remove_first_none(aliens.drop_first(), r);
        assert(seq![aliens[0]] + aliens.drop_first() =~= aliens);
    }
}

/// A laser whose first overlapping enemy stands at index `k` removes
/// exactly that enemy.
pub proof fn lemma_remove_first_at(aliens: Seq<Alien>, r: Rect, k: int)
    requires
        0 <= k < aliens.len(),
        overlaps(aliens[k].spec_rect(), r),
        forall|k2: int| 0 <= k2 < k ==> !overlaps((#[trigger] aliens[k2]).spec_rect(), r),
    ensures
        remove_first_hit(aliens, r) == (aliens.remove(k), Option::Some(aliens[k].kind)),
    decreases k,
{
    if k == 0 {
        assert(aliens.remove(0) =~= aliens.drop_first());
    } else {
        lemma_remove_first_at(aliens.drop_first(), r, k - 1);
        assert(seq![aliens[0]] + aliens.drop_first().remove(k - 1) =~= aliens.remove(k));
    }
}

/// Destroying an enemy shrinks the formation by one; a miss leaves it as
/// it was. The count never grows.
pub proof fn lemma_remove_first_len(aliens: Seq<Alien>, r: Rect)
    ensures
        remove_first_hit(aliens, r).1 is Some ==> remove_first_hit(aliens, r).0.len()
            == aliens.len() - 1,
        remove_first_hit(aliens, r).1 is None ==> remove_first_hit(aliens, r).0 == aliens,
    decreases aliens.len(),
{
    if aliens.len() > 0 && !overlaps(aliens[0].spec_rect(), r) {
        lemma_remove_first_len(aliens.drop_first(), r);
        if remove_first_hit(aliens.drop_first(), r).1 is None {
            assert(seq![aliens[0]] + aliens.drop_first() =~= aliens);
        }
    }
}

/// Every survivor of a player-laser impact was already in the formation.
pub proof fn lemma_remove_first_elems(aliens: Seq<Alien>, r: Rect)
    ensures
        forall|t: int|
            0 <= t < remove_first_hit(aliens, r).0.len() ==> exists|s: int|
                0 <= s < aliens.len() && #[trigger] remove_first_hit(aliens, r).0[t] == aliens[s],
    decreases aliens.len(),
{
    let res = remove_first_hit(aliens, r);
    if aliens.len() == 0 {
    } else if overlaps(aliens[0].spec_rect(), r) {
        assert forall|t: int| 0 <= t < res.0.len() implies exists|s: int|
            0 <= s < aliens.len() && #[trigger] res.0[t] == aliens[s] by {
            assert(res.0[t] == aliens[t + 1]);
        }
    } else {
        lemma_remove_first_elems(aliens.drop_first(), r);
        let rest = remove_first_hit(aliens.drop_first(), r);
        assert forall|t: int| 0 <= t < res.0.len() implies exists|s: int|
            0 <= s < aliens.len() && #[trigger] res.0[t] == aliens[s] by {
            if t == 0 {
                assert(res.0[0] == aliens[0]);
            } else {
                assert(res.0[t] == rest.0[t - 1]);
                let s0 = choose|s0: int|
                    0 <= s0 < aliens.drop_first().len() && rest.0[t - 1] == aliens.drop_first()[s0];
                assert(res.0[t] == aliens[s0 + 1]);
            }
        }
    }
}

/// Removes from the formation the first enemy the impact rectangle hits,
/// if any, and reports its kind.
fn strike_aliens(aliens: &mut Vec<Alien>, r: Rect) -> (kill: Option<Kind>)
    ensures
        final(aliens)@ == remove_first_hit(old(aliens)@, r).0,
        kill == remove_first_hit(old(aliens)@, r).1,
        forall|t: int|
            0 <= t < final(aliens)@.len() ==> exists|s: int|
                0 <= s < old(aliens)@.len() && #[trigger] final(aliens)@[t] == old(aliens)@[s],
{
    let ghost aliens0 = aliens@;
    let mut k: usize = 0;
    while k < aliens.len()
        invariant
            aliens0 == old(aliens)@,
            0 <= k <= aliens0.len(),
            aliens@ == aliens0,
            forall|k2: int| 0 <= k2 < k ==> !overlaps((#[trigger] aliens0[k2]).spec_rect(), r),
        decreases aliens0.len() - k,
    {
        let a = aliens[k];
        if rects_overlap(a.get_rect(), r) {
            aliens.remove(k);
            proof {
                lemma_remove_first_at(aliens0, r, k as int);
                lemma_remove_first_elems(aliens0, r);
            }
            return Option::Some(a.kind);
        }
        k = k + 1;
    }
    proof {
        lemma_remove_first_none(aliens0, r);
    }
    Option::None
}

impl Game {
    /// Resolves every player laser in collection order, each per the fixed
    /// test order `player_laser_step` describes: enemies, then cover, then
    /// the bonus target. Lives, the run flag, the enemy lasers and every
    /// timer are untouched.
    pub fn resolve_player_lasers(&mut self)
        requires
            old(self).wf(),
        ensures
            final(self).wf(),
            *final(self) == (Game {
                score: final(self).score,
                space_ship: final(self).space_ship,
                obstacles: final(self).obstacles,
                aliens: final(self).aliens,
                mystery_ship: final(self).mystery_ship,
                ..*old(self)
            }),
            final(self).space_ship == (SpaceShip {
                lasers: final(self).space_ship.lasers,
                ..old(self).space_ship
            }),
            final(self).obstacles@.len() == old(self).obstacles@.len(),
            forall|m: int|
                0 <= m < old(self).obstacles@.len() ==> (#[trigger] final(self).obstacles@[m]).x
                    == old(self).obstacles@[m].x && final(self).obstacles@[m].y == old(
                    self,
                ).obstacles@[m].y,
            game_pass_view(*final(self)) == player_pass(
                game_pass_view(*old(self)),
                old(self).space_ship.lasers@.len() as int,
            ),
    {
        let ghost g0 = *old(self);
        let ghost v0 = game_pass_view(g0);
        let mut j: usize = 0;
        while j < self.space_ship.lasers.len()
            invariant
                g0 == *old(self),
                v0 == game_pass_view(g0),
                g0.wf(),
                0 <= j <= v0.lasers.len(),
                self.space_ship.lasers@.len() == v0.lasers.len(),
                *self == (Game {
                    score: self.score,
                    space_ship: self.space_ship,
                    obstacles: self.obstacles,
                    aliens: self.aliens,
                    mystery_ship: self.mystery_ship,
                    ..g0
                }),
                self.space_ship == (SpaceShip { lasers: self.space_ship.lasers, ..g0.space_ship }),
                self.obstacles@.len() == g0.obstacles@.len(),
                forall|m: int|
                    0 <= m < g0.obstacles@.len() ==> (#[trigger] self.obstacles@[m]).x
                        == g0.obstacles@[m].x && self.obstacles@[m].y == g0.obstacles@[m].y,
                self.mystery_ship.wf(),
                self.mystery_ship.width == g0.mystery_ship.width,
                self.mystery_ship.height == g0.mystery_ship.height,
                self.mystery_ship.screen_width == g0.mystery_ship.screen_width,
                forall|i: int|
                    0 <= i < self.aliens@.len() ==> 0 <= (#[trigger] self.aliens@[i]).w <= 10000
                        && 0 <= self.aliens@[i].h <= 10000,
                game_pass_view(*self) == player_pass(v0, j as int),
            decreases v0.lasers.len() - j,
        {
            let ghost vj = player_pass(v0, j as int);
            let ghost aliens_before = self.aliens@;
            let l = self.space_ship.lasers[j];
            let r = l.get_rect();
            let kill = strike_aliens(&mut self.aliens, r);
            proof {
                assert forall|i: int| 0 <= i < self.aliens@.len() implies 0 <= (
                #[trigger] self.aliens@[i]).w <= 10000 && 0 <= self.aliens@[i].h <= 10000 by {
                    let s = choose|s: int|
                        0 <= s < aliens_before.len() && self.aliens@[i] == aliens_before[s];
                }
            }
            let mut active = l.active;
            match kill {
                Option::Some(k) => {
                    self.score = award(self.score, points(k));
                    active = false;
                },
                Option::None => {},
            }
            let ghost mid = *self;
            let ghost obs_start = self.obstacles@;
            let mut any_hit = false;
            let mut m: usize = 0;
            while m < self.obstacles.len()
                invariant
                    *self == (Game { obstacles: self.obstacles, ..mid }),
                    obs_start == mid.obstacles@,
                    0 <= m <= obs_start.len(),
                    self.obstacles@.len() == obs_start.len(),
                    forall|m2: int|
                        m <= m2 < obs_start.len() ==> #[trigger] self.obstacles@[m2]
                            == obs_start[m2],
                    forall|m2: int|
                        0 <= m2 < m ==> (#[trigger] self.obstacles@[m2]).x == obs_start[m2].x
                            && self.obstacles@[m2].y == obs_start[m2].y
                            && self.obstacles@[m2].blocks@ == blocks_surviving(
                            obs_start[m2].blocks@,
                            r,
                        ),
                    any_hit == exists|m2: int|
                        0 <= m2 < m && any_block_hit(obs_start[m2].blocks@, r),
                decreases obs_start.len() - m,
            {
                let ghost before = self.obstacles@;
                let mut ob = self.obstacles.remove(m);
                let hit = ob.remove_cells_colliding_with(r);
                self.obstacles.insert(m, ob);
                proof {
                    assert(self.obstacles@ =~= before.update(m as int, ob));
                }
                if hit {
                    any_hit = true;
                }
                m = m + 1;
            }
            if any_hit {
                active = false;
            }
            if rects_overlap(self.mystery_ship.get_rect(), r) {
                self.mystery_ship.alive = false;
                self.score = award(self.score, MYSTERY_BONUS);
                active = false;
            }
            self.space_ship.lasers[j] = Laser { active, x: l.x, y: l.y, speed: l.speed };
            proof {
                assert(l == vj.lasers[j as int]);
                assert(vj.obstacles =~~= obs_blocks(obs_start));
                assert(obs_blocks(self.obstacles@) =~~= strike_all(vj.obstacles, r));
                assert(any_hit == any_obstacle_hit(vj.obstacles, r)) by {
                    if any_hit {
                        let m2 = choose|m2: int|
                            0 <= m2 < obs_start.len() && any_block_hit(obs_start[m2].blocks@, r);
                        assert(any_block_hit(vj.obstacles[m2], r));
                    }
                    if any_obstacle_hit(vj.obstacles, r) {
                        let m2 = choose|m2: int|
                            0 <= m2 < vj.obstacles.len() && any_block_hit(vj.obstacles[m2], r);
                        assert(any_block_hit(obs_start[m2].blocks@, r));
                    }
                }
                assert(game_pass_view(*self) =~~= player_laser_step(vj, j as int));
                assert(player_pass(v0, j as int + 1) == player_laser_step(
                    player_pass(v0, j as int),
                    j as int,
                ));
            }
            j = j + 1;
        }
    }

    /// Resolves every enemy laser: a laser that intersects the ship costs a
    /// life and is tombstoned; overlapping cover cells are removed and
    /// tombstone the laser too. Score, formation and bonus target are
    /// untouched; the run flag is not yet examined here.
    pub fn resolve_alien_lasers(&mut self)
        requires
            old(self).wf(),
        ensures
            final(self).wf(),
            *final(self) == (Game {
                lives: final(self).lives,
                alien_lasers: final(self).alien_lasers,
                obstacles: final(self).obstacles,
                ..*old(self)
            }),
            final(self).alien_lasers@.len() == old(self).alien_lasers@.len(),
            forall|j: int|
                0 <= j < old(self).alien_lasers@.len() ==> #[trigger] final(self).alien_lasers@[j]
                    == (Laser {
                    active: old(self).alien_lasers@[j].active && !overlaps(
                        old(self).alien_lasers@[j].spec_rect(),
                        old(self).space_ship.spec_rect(),
                    ) && !enemy_laser_cover_hit(
                        obs_blocks(old(self).obstacles@),
                        old(self).alien_lasers@,
                        j,
                    ),
                    ..old(self).alien_lasers@[j]
                }),
            final(self).obstacles@.len() == old(self).obstacles@.len(),
            forall|m: int|
                0 <= m < old(self).obstacles@.len() ==> (#[trigger] final(self).obstacles@[m]).x
                    == old(self).obstacles@[m].x && final(self).obstacles@[m].y == old(
                    self,
                ).obstacles@[m].y && final(self).obstacles@[m].blocks@ == old(
                    self,
                ).obstacles@[m].blocks@.filter(
                    missed_by_lasers(old(self).alien_lasers@, old(self).alien_lasers@.len() as int),
                ),
            final(self).lives == sub_lives(
                old(self).lives,
                count_laser_hits(
                    old(self).alien_lasers@,
                    old(self).space_ship.spec_rect(),
                    old(self).alien_lasers@.len() as int,
                ),
            ),
    {
        let ghost g0 = *old(self);
        let ghost ls = g0.alien_lasers@;
        let ship_r = self.space_ship.get_rect();
        proof {
            assert forall|m: int| 0 <= m < g0.obstacles@.len() implies (
            #[trigger] self.obstacles@[m]).blocks@ == g0.obstacles@[m].blocks@.filter(
                missed_by_lasers(g0.alien_lasers@, 0),
            ) by {
                let blocks = g0.obstacles@[m].blocks@;
                assert forall|bi: int| 0 <= bi < blocks.len() implies missed_by_lasers(
                    g0.alien_lasers@,
                    0,
                )(#[trigger] blocks[bi]) by {}
                lemma_filter_true(blocks, missed_by_lasers(g0.alien_lasers@, 0));
            }
        }
        let mut j: usize = 0;
        while j < self.alien_lasers.len()
            invariant
                g0 == *old(self),
                g0.wf(),
                ls == g0.alien_lasers@,
                ship_r == g0.space_ship.spec_rect(),
                0 <= j <= ls.len(),
                *self == (Game {
                    lives: self.lives,
                    alien_lasers: self.alien_lasers,
                    obstacles: self.obstacles,
                    ..g0
                }),
                self.alien_lasers@.len() == ls.len(),
                forall|k: int| j <= k < ls.len() ==> #[trigger] self.alien_lasers@[k] == ls[k],
                forall|k: int|
                    0 <= k < j ==> #[trigger] self.alien_lasers@[k] == (Laser {
                        active: ls[k].active && !overlaps(ls[k].spec_rect(), ship_r)
                            && !enemy_laser_cover_hit(obs_blocks(g0.obstacles@), ls, k),
                        ..ls[k]
                    }),
                self.obstacles@.len() == g0.obstacles@.len(),
                forall|m: int|
                    0 <= m < g0.obstacles@.len() ==> (#[trigger] self.obstacles@[m]).x
                        == g0.obstacles@[m].x && self.obstacles@[m].y == g0.obstacles@[m].y
                        && self.obstacles@[m].blocks@ == g0.obstacles@[m].blocks@.filter(
                        missed_by_lasers(ls, j as int),
                    ),
                self.lives == sub_lives(g0.lives, count_laser_hits(ls, ship_r, j as int)),
            decreases ls.len() - j,
        {
            let l = self.alien_lasers[j];
            let r = l.get_rect();
            let mut active = l.active;
            if rects_overlap(r, ship_r) {
                active = false;
                self.lives = if self.lives == i32::MIN {
                    self.lives
                } else {
                    self.lives - 1
                };
            }
            let ghost mid = *self;
            let ghost obs_start = self.obstacles@;
            let mut any_hit = false;
            let mut m: usize = 0;
            while m < self.obstacles.len()
                invariant
                    *self == (Game { obstacles: self.obstacles, ..mid }),
                    obs_start == mid.obstacles@,
                    0 <= m <= obs_start.len(),
                    self.obstacles@.len() == obs_start.len(),
                    forall|m2: int|
                        m <= m2 < obs_start.len() ==> #[trigger] self.obstacles@[m2]
                            == obs_start[m2],
                    forall|m2: int|
                        0 <= m2 < m ==> (#[trigger] self.obstacles@[m2]).x == obs_start[m2].x
                            && self.obstacles@[m2].y == obs_start[m2].y
                            && self.obstacles@[m2].blocks@ == blocks_surviving(
                            obs_start[m2].blocks@,
                            r,
                        ),
                    any_hit == exists|m2: int|
                        0 <= m2 < m && any_block_hit(obs_start[m2].blocks@, r),
                decreases obs_start.len() - m,
            {
                let ghost before = self.obstacles@;
                let mut ob = self.obstacles.remove(m);
                let hit = ob.remove_cells_colliding_with(r);
                self.obstacles.insert(m, ob);
                proof {
                    assert(self.obstacles@ =~= before.update(m as int, ob));
                }
                if hit {
                    any_hit = true;
                }
                m = m + 1;
            }
            if any_hit {
                active = false;
            }
            self.alien_lasers[j] = Laser { active, x: l.x, y: l.y, speed: l.speed };
            proof {
                assert forall|b: Block| #[trigger] missed_by_lasers(ls, j as int + 1)(b) == (
                missed_by_lasers(ls, j as int)(b) && crate::obstacle::not_hit_by(r)(b)) by {}
                assert forall|m2: int| 0 <= m2 < g0.obstacles@.len() implies (
                #[trigger] self.obstacles@[m2]).blocks@ == g0.obstacles@[m2].blocks@.filter(
                    missed_by_lasers(ls, j as int + 1),
                ) by {
                    lemma_filter_filter(
                        g0.obstacles@[m2].blocks@,
                        missed_by_lasers(ls, j as int),
                        crate::obstacle::not_hit_by(r),
                        missed_by_lasers(ls, j as int + 1),
                    );
                }
                assert(any_hit == enemy_laser_cover_hit(obs_blocks(g0.obstacles@), ls, j as int))
                    by {
                    if any_hit {
                        let m2 = choose|m2: int|
                            0 <= m2 < obs_start.len() && any_block_hit(obs_start[m2].blocks@, r);
                        assert(any_block_hit(
                            obs_blocks(g0.obstacles@)[m2].filter(missed_by_lasers(ls, j as int)),
                            ls[j as int].spec_rect(),
                        ));
                    }
                    if enemy_laser_cover_hit(obs_blocks(g0.obstacles@), ls, j as int) {
                        let m2 = choose|m2: int|
                            0 <= m2 < obs_blocks(g0.obstacles@).len() && any_block_hit(
                                obs_blocks(g0.obstacles@)[m2].filter(
                                    missed_by_lasers(ls, j as int),
                                ),
                                ls[j as int].spec_rect(),
                            );
                        assert(any_block_hit(obs_start[m2].blocks@, r));
                    }
                }
                lemma_count_laser_hits_nonneg(ls, ship_r, j as int);
                assert(count_laser_hits(ls, ship_r, j as int + 1) == count_laser_hits(
                    ls,
                    ship_r,
                    j as int,
                ) + if overlaps(ls[j as int].spec_rect(), ship_r) {
                    1int
                } else {
                    0int
                });
            }
            j = j + 1;
        }
    }

    /// Resolves enemy-body contact: every enemy silently erases the cover
    /// cells it overlaps (no score), and every enemy overlapping the ship
    /// costs a life — the enemy itself survives the contact.
    pub fn resolve_alien_contact(&mut self)
        requires
            old(self).wf(),
        ensures
            final(self).wf(),
            *final(self) == (Game {
                lives: final(self).lives,
                obstacles: final(self).obstacles,
                ..*old(self)
            }),
            final(self).obstacles@.len() == old(self).obstacles@.len(),
            forall|m: int|
                0 <= m < old(self).obstacles@.len() ==> (#[trigger] final(self).obstacles@[m]).x
                    == old(self).obstacles@[m].x && final(self).obstacles@[m].y == old(
                    self,
                ).obstacles@[m].y && final(self).obstacles@[m].blocks@ == old(
                    self,
                ).obstacles@[m].blocks@.filter(
                    missed_by_aliens(old(self).aliens@, old(self).aliens@.len() as int),
                ),
            final(self).lives == sub_lives(
                old(self).lives,
                count_alien_touches(
                    old(self).aliens@,
                    old(self).space_ship.spec_rect(),
                    old(self).aliens@.len() as int,
                ),
            ),
    {
        let ghost g0 = *old(self);
        let ghost als = g0.aliens@;
        let ship_r = self.space_ship.get_rect();
        proof {
            assert forall|m: int| 0 <= m < g0.obstacles@.len() implies (
            #[trigger] self.obstacles@[m]).blocks@ == g0.obstacles@[m].blocks@.filter(
                missed_by_aliens(g0.aliens@, 0),
            ) by {
                let blocks = g0.obstacles@[m].blocks@;
                assert forall|bi: int| 0 <= bi < blocks.len() implies missed_by_aliens(
                    g0.aliens@,
                    0,
                )(#[trigger] blocks[bi]) by {}
                lemma_filter_true(blocks, missed_by_aliens(g0.aliens@, 0));
            }
        }
        let mut i: usize = 0;
        while i < self.aliens.len()
            invariant
                g0 == *old(self),
                g0.wf(),
                als == g0.aliens@,
                ship_r == g0.space_ship.spec_rect(),
                0 <= i <= als.len(),
                *self == (Game { lives: self.lives, obstacles: self.obstacles, ..g0 }),
                self.obstacles@.len() == g0.obstacles@.len(),
                forall|m: int|
                    0 <= m < g0.obstacles@.len() ==> (#[trigger] self.obstacles@[m]).x
                        == g0.obstacles@[m].x && self.obstacles@[m].y == g0.obstacles@[m].y
                        && self.obstacles@[m].blocks@ == g0.obstacles@[m].blocks@.filter(
                        missed_by_aliens(als, i as int),
                    ),
                self.lives == sub_lives(g0.lives, count_alien_touches(als, ship_r, i as int)),
            decreases als.len() - i,
        {
            let a = self.aliens[i];
            let r = a.get_rect();
            let ghost mid = *self;
            let ghost obs_start = self.obstacles@;
            let mut m: usize = 0;
            while m < self.obstacles.len()
                invariant
                    *self == (Game { obstacles: self.obstacles, ..mid }),
                    obs_start == mid.obstacles@,
                    0 <= m <= obs_start.len(),
                    self.obstacles@.len() == obs_start.len(),
                    forall|m2: int|
                        m <= m2 < obs_start.len() ==> #[trigger] self.obstacles@[m2]
                            == obs_start[m2],
                    forall|m2: int|
                        0 <= m2 < m ==> (#[trigger] self.obstacles@[m2]).x == obs_start[m2].x
                            && self.obstacles@[m2].y == obs_start[m2].y
                            && self.obstacles@[m2].blocks@ == blocks_surviving(
                            obs_start[m2].blocks@,
                            r,
                        ),
                decreases obs_start.len() - m,
            {
                let ghost before = self.obstacles@;
                let mut ob = self.obstacles.remove(m);
                let _ = ob.remove_cells_colliding_with(r);
                self.obstacles.insert(m, ob);
                proof {
                    assert(self.obstacles@ =~= before.update(m as int, ob));
                }
                m = m + 1;
            }
            if rects_overlap(r, ship_r) {
                self.lives = if self.lives == i32::MIN {
                    self.lives
                } else {
                    self.lives - 1
                };
            }
            proof {
                assert forall|b: Block| #[trigger] missed_by_aliens(als, i as int + 1)(b) == (
                missed_by_aliens(als, i as int)(b) && crate::obstacle::not_hit_by(r)(b)) by {}
                assert forall|m2: int| 0 <= m2 < g0.obstacles@.len() implies (
                #[trigger] self.obstacles@[m2]).blocks@ == g0.obstacles@[m2].blocks@.filter(
                    missed_by_aliens(als, i as int + 1),
                ) by {
                    lemma_filter_filter(
                        g0.obstacles@[m2].blocks@,
                        missed_by_aliens(als, i as int),
                        crate::obstacle::not_hit_by(r),
                        missed_by_aliens(als, i as int + 1),
                    );
                }
                lemma_count_alien_touches_nonneg(als, ship_r, i as int);
                assert(count_alien_touches(als, ship_r, i as int + 1) == count_alien_touches(
                    als,
                    ship_r,
                    i as int,
                ) + if overlaps(als[i as int].spec_rect(), ship_r) {
                    1int
                } else {
                    0int
                });
            }
            i = i + 1;
        }
    }
}

impl Game {
    /// The single collision-resolution pass of a frame, in the fixed order:
    /// every player laser (enemies, then cover, then the bonus target),
    /// every enemy laser (ship, then cover), every enemy body (cover, then
    /// ship contact), and finally the terminal-state check: lives at or
    /// below zero flips the run flag within this same pass.
    pub fn check_for_collisions(&mut self)
        requires
            old(self).wf(),
        ensures
            final(self).wf(),
            ({
                let v1 = player_pass(
                    game_pass_view(*old(self)),
                    old(self).space_ship.lasers@.len() as int,
                );
                let ls = old(self).alien_lasers@;
                let ship_r = old(self).space_ship.spec_rect();
                let lives2 = sub_lives(
                    old(self).lives,
                    count_laser_hits(ls, ship_r, ls.len() as int),
                );
                let lives3 = sub_lives(
                    lives2,
                    count_alien_touches(v1.aliens, ship_r, v1.aliens.len() as int),
                );
                &&& final(self).aliens@ == v1.aliens
                &&& final(self).score == v1.score
                &&& final(self).mystery_ship == v1.mystery
                &&& final(self).space_ship == (SpaceShip {
                    lasers: final(self).space_ship.lasers,
                    ..old(self).space_ship
                })
                &&& final(self).space_ship.lasers@ == v1.lasers
                &&& final(self).alien_lasers@.len() == ls.len()
                &&& (forall|j: int|
                    0 <= j < ls.len() ==> #[trigger] final(self).alien_lasers@[j] == (Laser {
                        active: ls[j].active && !overlaps(ls[j].spec_rect(), ship_r)
                            && !enemy_laser_cover_hit(v1.obstacles, ls, j),
                        ..ls[j]
                    }))
                &&& final(self).obstacles@.len() == old(self).obstacles@.len()
                &&& (forall|m: int|
                    0 <= m < old(self).obstacles@.len()
                        ==> (#[trigger] final(self).obstacles@[m]).x
                        == old(self).obstacles@[m].x && final(self).obstacles@[m].y
                        == old(self).obstacles@[m].y && final(self).obstacles@[m].blocks@
                        == v1.obstacles[m].filter(missed_by_lasers(ls, ls.len() as int)).filter(
                        missed_by_aliens(v1.aliens, v1.aliens.len() as int),
                    ))
                &&& final(self).lives == lives3
                &&& final(self).run == (if lives3 <= 0 {
                    false
                } else {
                    old(self).run
                })
                &&& final(self).config == old(self).config
                &&& final(self).aliens_horiz_direction == old(self).aliens_horiz_direction
                &&& final(self).aliens_vert_direction == old(self).aliens_vert_direction
                &&& final(self).time_last_alien_fired == old(self).time_last_alien_fired
                &&& final(self).mystery_ship_spawn_interval
                    == old(self).mystery_ship_spawn_interval
                &&& final(self).time_last_spawn == old(self).time_last_spawn
            }),
    {
        let ghost v1 = player_pass(
            game_pass_view(*old(self)),
            old(self).space_ship.lasers@.len() as int,
        );
        self.resolve_player_lasers();
        proof {
            assert forall|m: int| 0 <= m < self.obstacles@.len() implies (
            #[trigger] self.obstacles@[m]).blocks@ == v1.obstacles[m] by {
                assert(obs_blocks(self.obstacles@)[m] == self.obstacles@[m].blocks@);
            }
        }
        self.resolve_alien_lasers();
        self.resolve_alien_contact();
        if self.lives <= 0 {
            self.game_over();
        }
    }
}

/// Resolving the player lasers never grows the formation, never lowers the
/// score, never revives a tombstoned laser or the bonus target, and leaves
/// every laser in place (only its tombstone flag can change).
pub proof fn lemma_player_pass_monotone(s: PlayerPassState, n: int)
    requires
        n <= s.lasers.len(),
    ensures
        player_pass(s, n).aliens.len() <= s.aliens.len(),
        player_pass(s, n).score >= s.score,
        player_pass(s, n).lasers.len() == s.lasers.len(),
        forall|k: int|
            0 <= k < s.lasers.len() ==> #[trigger] player_pass(s, n).lasers[k] == s.lasers[k]
                || player_pass(s, n).lasers[k] == (Laser { active: false, ..s.lasers[k] }),
        player_pass(s, n).mystery == s.mystery || player_pass(s, n).mystery == (MysteryShip {
            alive: false,
            ..s.mystery
        }),
    decreases n,
{
    if n > 0 {
        lemma_player_pass_monotone(s, n - 1);
        let p = player_pass(s, n - 1);
        lemma_remove_first_len(p.aliens, p.lasers[n - 1].spec_rect());
    }
}

/// A laser with at least one enemy in its path destroys one.
pub proof fn lemma_remove_first_some(aliens: Seq<Alien>, r: Rect)
    requires
        exists|k: int| 0 <= k < aliens.len() && overlaps((#[trigger] aliens[k]).spec_rect(), r),
    ensures
        remove_first_hit(aliens, r).1 is Some,
    decreases aliens.len(),
{
    if !overlaps(aliens[0].spec_rect(), r) {
        let k = choose|k: int| 0 <= k < aliens.len() && overlaps((#[trigger] aliens[k]).spec_rect(), r);
        assert(aliens.drop_first()[k - 1] == aliens[k]);
        lemma_remove_first_some(aliens.drop_first(), r);
    }
}

/// A player projectile that has both an enemy and a cover cell in its path
/// resolves against both within its one turn, in the fixed test order:
/// the first overlapping enemy falls, every overlapping cover cell of
/// every cluster is removed, and the projectile is tombstoned — hitting
/// the enemy does not shield the cover, nor the cover the enemy.
pub proof fn lemma_resolution_order(s: PlayerPassState, j: int)
    requires
        0 <= j < s.lasers.len(),
        exists|k: int|
            0 <= k < s.aliens.len() && overlaps(
                (#[trigger] s.aliens[k]).spec_rect(),
                s.lasers[j].spec_rect(),
            ),
        any_obstacle_hit(s.obstacles, s.lasers[j].spec_rect()),
    ensures
        remove_first_hit(s.aliens, s.lasers[j].spec_rect()).1 is Some,
        player_laser_step(s, j).aliens.len() == s.aliens.len() - 1,
        player_laser_step(s, j).obstacles == strike_all(s.obstacles, s.lasers[j].spec_rect()),
        !player_laser_step(s, j).lasers[j].active,
{
    let r = s.lasers[j].spec_rect();
    lemma_remove_first_some(s.aliens, r);
    lemma_remove_first_len(s.aliens, r);
}

/// Score increments come only in the fixed denominations: 100, 200 or 300
/// for the three enemy kinds and 500 for the bonus target. One
/// projectile's turn changes the score not at all, by one such
/// denomination, or by an enemy denomination followed by the bonus.
pub proof fn lemma_score_increments(s: PlayerPassState, j: int)
    ensures
        ({
            let s2 = player_laser_step(s, j).score;
            ||| s2 == s.score
            ||| (exists|d: u64|
                (d == 100 || d == 200 || d == 300 || d == 500) && s2 == add_score(s.score, d))
            ||| (exists|d: u64|
                (d == 100 || d == 200 || d == 300) && s2 == add_score(
                    add_score(s.score, d),
                    MYSTERY_BONUS,
                ))
        }),
{
    let r = s.lasers[j].spec_rect();
    let rm = remove_first_hit(s.aliens, r);
    let s2 = player_laser_step(s, j).score;
    match rm.1 {
        Option::Some(k) => {
            let d = spec_points(k);
            assert(d == 100 || d == 200 || d == 300);
            if overlaps(s.mystery.spec_rect(), r) {
                assert((exists|d2: u64|
                    (d2 == 100 || d2 == 200 || d2 == 300) && s2 == add_score(
                        add_score(s.score, d2),
                        MYSTERY_BONUS,
                    )));
            } else {
                assert((exists|d2: u64|
                    (d2 == 100 || d2 == 200 || d2 == 300 || d2 == 500) && s2 == add_score(
                        s.score,
                        d2,
                    )));
            }
        },
        Option::None => {
            if overlaps(s.mystery.spec_rect(), r) {
                assert(s2 == add_score(s.score, 500));
                assert((exists|d2: u64|
                    (d2 == 100 || d2 == 200 || d2 == 300 || d2 == 500) && s2 == add_score(
                        s.score,
                        d2,
                    )));
            }
        },
    }
}

/// How many enemies of the given kind fall to the first `n` player lasers
/// of the pass.
pub open spec fn kills_of_kind(s: PlayerPassState, n: int, k: Kind) -> int
    decreases n,
{
    if n <= 0 {
        0
    } else {
        let p = player_pass(s, n - 1);
        kills_of_kind(s, n - 1, k) + if remove_first_hit(
            p.aliens,
            p.lasers[n - 1].spec_rect(),
        ).1 == Option::Some(k) {
            1int
        } else {
            0int
        }
    }
}

/// How often the bonus target falls to the first `n` player lasers: zero
/// or one, since a dead target's box is zero-area and cannot be hit again.
pub open spec fn mystery_kills(s: PlayerPassState, n: int) -> int
    decreases n,
{
    if n <= 0 {
        0
    } else {
        let p = player_pass(s, n - 1);
        mystery_kills(s, n - 1) + if overlaps(
            p.mystery.spec_rect(),
            p.lasers[n - 1].spec_rect(),
        ) {
            1int
        } else {
            0int
        }
    }
}

/// Each kill counter lies between zero and the number of lasers counted:
/// one projectile fells at most one enemy and at most one bonus target.
pub proof fn lemma_kill_counts_nonneg(s: PlayerPassState, n: int)
    ensures
        0 <= kills_of_kind(s, n, Kind::Skull) <= (if n >= 0 { n } else { 0 }),
        0 <= kills_of_kind(s, n, Kind::Bug) <= (if n >= 0 { n } else { 0 }),
        0 <= kills_of_kind(s, n, Kind::Octopus) <= (if n >= 0 { n } else { 0 }),
        0 <= mystery_kills(s, n) <= (if n >= 0 { n } else { 0 }),
    decreases n,
{
    if n > 0 {
        lemma_kill_counts_nonneg(s, n - 1);
    }
}

/// The score the pass awards is exactly the kind-wise sum: 100 per fallen
/// low-tier enemy, 200 per middle, 300 per top, and 500 if the bonus
/// target fell — and nothing else, provided the total fits the counter.
pub proof fn lemma_score_sum(s: PlayerPassState, n: int)
    requires
        0 <= n <= s.lasers.len(),
        s.score + 100 * kills_of_kind(s, n, Kind::Skull) + 200 * kills_of_kind(s, n, Kind::Bug)
            + 300 * kills_of_kind(s, n, Kind::Octopus) + 500 * mystery_kills(s, n) <= u64::MAX,
    ensures
        player_pass(s, n).score == s.score + 100 * kills_of_kind(s, n, Kind::Skull) + 200
            * kills_of_kind(s, n, Kind::Bug) + 300 * kills_of_kind(s, n, Kind::Octopus) + 500
            * mystery_kills(s, n),
    decreases n,
{
    if n > 0 {
        lemma_kill_counts_nonneg(s, n - 1);
        lemma_score_sum(s, n - 1);
        let p = player_pass(s, n - 1);
        let r = p.lasers[n - 1].spec_rect();
        let rm = remove_first_hit(p.aliens, r);
        match rm.1 {
            Option::Some(k) => {
                match k {
                    Kind::Skull => {},
                    Kind::Bug => {},
                    Kind::Octopus => {},
                }
            },
            Option::None => {},
        }
    }
}

/// Whether enemy laser `j` destroys a cover cell still standing when its
/// turn comes: a cell of some cluster that it overlaps and that no earlier
/// enemy laser had already destroyed.
pub open spec fn enemy_laser_cover_hit(obs: Seq<Seq<Block>>, lasers: Seq<Laser>, j: int) -> bool {
    exists|m: int|
        0 <= m < obs.len() && any_block_hit(
            obs[m].filter(missed_by_lasers(lasers, j)),
            lasers[j].spec_rect(),
        )
}

} // verus!
