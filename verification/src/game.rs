use vstd::prelude::*;

use crate::alien::Alien;
use crate::alien::Kind;
use crate::collisions::PlayerPassState;
use crate::collisions::count_alien_touches;
use crate::collisions::count_laser_hits;
use crate::collisions::enemy_laser_cover_hit;
use crate::collisions::missed_by_aliens;
use crate::collisions::missed_by_lasers;
use crate::collisions::obs_blocks;
use crate::collisions::player_pass;
use crate::geometry::overlaps;
use crate::geometry::sat_add;
use crate::geometry::sat_add_i32;
use crate::laser::Laser;
use crate::laser::active_lasers;
use crate::laser::retain_active;
use crate::mystery_ship::MysteryShip;
use crate::obstacle::Obstacle;
use crate::obstacle::GRID_COLS;
use crate::obstacle::GRID_ROWS;
use crate::obstacle::cluster_blocks;
use crate::space_ship::SpaceShip;
use crate::space_ship::SHIP_STEP;
use vstd::arithmetic::div_mod::lemma_fundamental_div_mod_converse;

verus! {

/// Minimum time between two shots of the formation, in milliseconds.
pub const ALIEN_LASER_SHOOT_INTERVAL_MS: u64 = 350;

/// Downward speed of an enemy laser.
pub const ALIEN_LASER_SPEED: i32 = 6;

/// The formation's dimensions and spacing.
pub const ALIEN_ROWS: i32 = 5;

pub const ALIEN_COLS: i32 = 11;

pub const ALIEN_SPACING: i32 = 55;

pub const FORMATION_ORIGIN_X: i32 = 75;

pub const FORMATION_ORIGIN_Y: i32 = 110;

/// Score awarded for destroying the bonus target.
pub const MYSTERY_BONUS: u64 = 500;

/// Lives a fresh round starts with.
pub const START_LIVES: i32 = 3;

/// The fixed configuration the engine reads from the enclosing application:
/// the play-area size and the dimensions of each sprite the simulation
/// collides with.
#[derive(Clone, Copy, PartialEq, Eq, Structural, Debug)]
pub struct Config {
    pub screen_width: i32,
    pub screen_height: i32,
    pub skull_width: i32,
    pub skull_height: i32,
    pub bug_width: i32,
    pub bug_height: i32,
    pub octopus_width: i32,
    pub octopus_height: i32,
}

impl Config {
    pub open spec fn wf(self) -> bool {
        &&& 400 <= self.screen_width <= 100000
        &&& 400 <= self.screen_height <= 100000
        &&& 1 <= self.skull_width <= 10000
        &&& 1 <= self.skull_height <= 10000
        &&& 1 <= self.bug_width <= 10000
        &&& 1 <= self.bug_height <= 10000
        &&& 1 <= self.octopus_width <= 10000
        &&& 1 <= self.octopus_height <= 10000
    }

    pub open spec fn kind_width(self, k: Kind) -> i32 {
        match k {
            Kind::Skull => self.skull_width,
            Kind::Bug => self.bug_width,
            Kind::Octopus => self.octopus_width,
        }
    }

    pub open spec fn kind_height(self, k: Kind) -> i32 {
        match k {
            Kind::Skull => self.skull_height,
            Kind::Bug => self.bug_height,
            Kind::Octopus => self.octopus_height,
        }
    }
}

/// Score addition, saturating instead of wrapping: the counter stops at the
/// top of its range rather than overflowing.
pub open spec fn add_score(s: u64, d: u64) -> u64 {
    if s + d <= u64::MAX {
        (s + d) as u64
    } else {
        s
    }
}

pub fn award(s: u64, d: u64) -> (r: u64)
    ensures
        r == add_score(s, d),
{
    if d <= u64::MAX - s {
        s + d
    } else {
        s
    }
}

/// `k` lives lost in a row.
pub open spec fn sub_lives(l: i32, k: int) -> i32 {
    if l - k < i32::MIN {
        i32::MIN
    } else {
        (l - k) as i32
    }
}

/// The enemy kind of a formation row: the top row is the highest tier, the
/// next two the middle tier, the last two the lowest.
pub open spec fn kind_for_row(row: int) -> Kind {
    if row == 0 {
        Kind::Octopus
    } else if row == 1 || row == 2 {
        Kind::Bug
    } else {
        Kind::Skull
    }
}

/// The alien a fresh formation places at (row, col): fixed spacing from the
/// fixed origin, carrying its kind's sprite dimensions.
pub open spec fn spec_alien_at(cfg: Config, row: int, col: int) -> Alien {
    let k = kind_for_row(row);
    Alien {
        x: (FORMATION_ORIGIN_X + col * ALIEN_SPACING) as i32,
        y: (FORMATION_ORIGIN_Y + row * ALIEN_SPACING) as i32,
        w: cfg.kind_width(k),
        h: cfg.kind_height(k),
        kind: k,
    }
}

/// A fresh formation, row-major: 5 rows by 11 columns.
pub open spec fn spec_formation(cfg: Config) -> Seq<Alien> {
    Seq::new(55, |i: int| spec_alien_at(cfg, i / 11, i % 11))
}

/// Width of one cover cluster in play-area units.
pub open spec fn cluster_width() -> int {
    GRID_COLS * 3
}

/// Horizontal gap between clusters (and at both edges), chosen so the four
/// clusters sit evenly spaced across the play width.
pub open spec fn obstacle_gap(cfg: Config) -> int {
    (cfg.screen_width - 4 * cluster_width()) / 5
}

/// Anchor x of cluster `i`.
pub open spec fn spec_obstacle_x(cfg: Config, i: int) -> int {
    (i + 1) * obstacle_gap(cfg) + i * cluster_width()
}

/// The per-frame simulation engine: owns every entity collection, runs the
/// per-frame update order and the collision-resolution pass, and tracks
/// score, lives and the binary run state.
pub struct Game {
    pub run: bool,
    pub lives: i32,
    pub score: u64,
    pub config: Config,
    pub space_ship: SpaceShip,
    pub obstacles: Vec<Obstacle>,
    pub aliens: Vec<Alien>,
    pub aliens_horiz_direction: i32,
    pub aliens_vert_direction: i32,
    pub alien_lasers: Vec<Laser>,
    pub time_last_alien_fired: u64,
    pub mystery_ship: MysteryShip,
    pub mystery_ship_spawn_interval: u64,
    pub time_last_spawn: u64,
}

impl Game {
    /// Well-formedness: sane configuration, well-formed entities agreeing
    /// with the shared configuration, drift directions in {-1, 0, 1}, and
    /// every alien carrying sane sprite dimensions.
    pub open spec fn wf(self) -> bool {
        &&& self.config.wf()
        &&& self.space_ship.wf()
        &&& self.mystery_ship.wf()
        &&& self.space_ship.screen_width == self.config.screen_width
        &&& self.space_ship.screen_height == self.config.screen_height
        &&& self.mystery_ship.screen_width == self.config.screen_width
        &&& -1 <= self.aliens_horiz_direction <= 1
        &&& -1 <= self.aliens_vert_direction <= 1
        &&& forall|i: int|
            0 <= i < self.aliens@.len() ==> 0 <= (#[trigger] self.aliens@[i]).w <= 10000 && 0
                <= self.aliens@[i].h <= 10000
    }

    /// A fresh engine: not running, everything empty, all timers cleared.
    /// The collections are only populated by the Idle-to-Active transition.
    pub fn new(config: Config, space_ship: SpaceShip, mystery_ship: MysteryShip) -> (g: Game)
        requires
            config.wf(),
            space_ship.wf(),
            mystery_ship.wf(),
            space_ship.screen_width == config.screen_width,
            space_ship.screen_height == config.screen_height,
            mystery_ship.screen_width == config.screen_width,
        ensures
            g.wf(),
            !g.run,
            g.lives == 0,
            g.score == 0,
            g.config == config,
            g.space_ship == space_ship,
            g.mystery_ship == mystery_ship,
            g.obstacles@ == Seq::<Obstacle>::empty(),
            g.aliens@ == Seq::<Alien>::empty(),
            g.alien_lasers@ == Seq::<Laser>::empty(),
            g.aliens_horiz_direction == 0,
            g.aliens_vert_direction == 0,
            g.time_last_alien_fired == 0,
            g.mystery_ship_spawn_interval == 0,
            g.time_last_spawn == 0,
    {
        Game {
            run: false,
            lives: 0,
            score: 0,
            config,
            space_ship,
            obstacles: Vec::new(),
            aliens: Vec::new(),
            aliens_horiz_direction: 0,
            aliens_vert_direction: 0,
            alien_lasers: Vec::new(),
            time_last_alien_fired: 0,
            mystery_ship,
            mystery_ship_spawn_interval: 0,
            time_last_spawn: 0,
        }
    }

    /// The game-over transition: a pure state flip; no collection is
    /// cleared until the next round starts.
    pub fn game_over(&mut self)
        ensures
            *final(self) == (Game { run: false, ..*old(self) }),
    {
        self.run = false;
    }

    /// Builds the four evenly spaced cover clusters for a fresh round.
    pub fn create_obstacles(config: &Config) -> (obstacles: Vec<Obstacle>)
        requires
            config.wf(),
        ensures
            obstacles@.len() == 4,
            forall|i: int|
                0 <= i < 4 ==> (#[trigger] obstacles@[i]).x == spec_obstacle_x(*config, i)
                    && obstacles@[i].y == config.screen_height - 200 && obstacles@[i].blocks@
                    == cluster_blocks(
                    (spec_obstacle_x(*config, i)) as i32,
                    (config.screen_height - 200) as i32,
                    GRID_ROWS as int,
                ),
    {
        let obstacle_width: i32 = GRID_COLS * 3;
        let gap: i32 = (config.screen_width - 4 * obstacle_width) / 5;
        let y: i32 = config.screen_height - 200;
        let mut obstacles: Vec<Obstacle> = Vec::new();
        let mut i: i32 = 0;
        while i < 4
            invariant
            config.wf(),
                0 <= i <= 4,
                obstacle_width == cluster_width(),
                gap == obstacle_gap(*config),
                24 <= gap <= 20000,
                y == config.screen_height - 200,
                obstacles@.len() == i,
                forall|j: int|
                    0 <= j < i ==> (#[trigger] obstacles@[j]).x == spec_obstacle_x(*config, j)
                        && obstacles@[j].y == y && obstacles@[j].blocks@ == cluster_blocks(
                        (spec_obstacle_x(*config, j)) as i32,
                        y,
                        GRID_ROWS as int,
                    ),
            decreases 4 - i,
        {
            proof {
                assert(0 <= (i + 1) * gap + i * obstacle_width <= 1000000) by (nonlinear_arith)
                    requires
                        0 <= i < 4,
                        24 <= gap <= 20000,
                        obstacle_width == 69,
                ;
            }
            let x: i32 = (i + 1) * gap + i * obstacle_width;
            let o = Obstacle::new(x, y);
            obstacles.push(o);
            i = i + 1;
        }
        obstacles
    }

    /// Builds a fresh 5-by-11 formation at the fixed origin and spacing,
    /// highest-value kind in the top row.
    pub fn create_aliens(config: &Config) -> (aliens: Vec<Alien>)
        requires
            config.wf(),
        ensures
            aliens@ == spec_formation(*config),
    {
        let mut aliens: Vec<Alien> = Vec::new();
        let mut row: i32 = 0;
        while row < ALIEN_ROWS
            invariant
                config.wf(),
                0 <= row <= ALIEN_ROWS,
                aliens@.len() == row * ALIEN_COLS,
                forall|i: int|
                    0 <= i < aliens@.len() ==> #[trigger] aliens@[i] == spec_alien_at(
                        *config,
                        i / (ALIEN_COLS as int),
                        i % (ALIEN_COLS as int),
                    ),
            decreases ALIEN_ROWS - row,
        {
            let mut col: i32 = 0;
            while col < ALIEN_COLS
                invariant
                    config.wf(),
                    0 <= row < ALIEN_ROWS,
                    0 <= col <= ALIEN_COLS,
                    aliens@.len() == row * ALIEN_COLS + col,
                    forall|i: int|
                        0 <= i < aliens@.len() ==> #[trigger] aliens@[i] == spec_alien_at(
                            *config,
                            i / (ALIEN_COLS as int),
                            i % (ALIEN_COLS as int),
                        ),
                decreases ALIEN_COLS - col,
            {
                let kind = if row == 0 {
                    Kind::Octopus
                } else if row == 1 || row == 2 {
                    Kind::Bug
                } else {
                    Kind::Skull
                };
                let w = match kind {
                    Kind::Skull => config.skull_width,
                    Kind::Bug => config.bug_width,
                    Kind::Octopus => config.octopus_width,
                };
                let h = match kind {
                    Kind::Skull => config.skull_height,
                    Kind::Bug => config.bug_height,
                    Kind::Octopus => config.octopus_height,
                };
                let a = Alien::new(
                    kind,
                    FORMATION_ORIGIN_X + col * ALIEN_SPACING,
                    FORMATION_ORIGIN_Y + row * ALIEN_SPACING,
                    w,
                    h,
                );
                proof {
                    let n: int = row as int * (ALIEN_COLS as int) + col as int;
                    lemma_fundamental_div_mod_converse(
                        n,
                        ALIEN_COLS as int,
                        row as int,
                        col as int,
                    );
                    assert(a == spec_alien_at(*config, n / (ALIEN_COLS as int), n % (
                    ALIEN_COLS as int)));
                }
                aliens.push(a);
                col = col + 1;
            }
            row = row + 1;
        }
        proof {
            assert(aliens@ =~= spec_formation(*config));
        }
        aliens
    }

    /// Idle-to-Active: fresh cover, a fresh formation, drift directions
    /// reset to down-right, timers cleared, lives and score reset, and the
    /// first bonus-spawn interval (given in whole seconds) installed.
    pub fn init_game(&mut self, interval_s: u64)
        requires
            old(self).wf(),
            10 <= interval_s <= 20,
        ensures
            final(self).wf(),
            final(self).run,
            final(self).lives == START_LIVES,
            final(self).score == 0,
            final(self).config == old(self).config,
            final(self).space_ship == old(self).space_ship,
            final(self).mystery_ship == old(self).mystery_ship,
            final(self).obstacles@.len() == 4,
            forall|i: int|
                0 <= i < 4 ==> (#[trigger] final(self).obstacles@[i]).x == spec_obstacle_x(
                    old(self).config,
                    i,
                ) && final(self).obstacles@[i].y == old(self).config.screen_height - 200
                    && final(self).obstacles@[i].blocks@ == cluster_blocks(
                    (spec_obstacle_x(old(self).config, i)) as i32,
                    (old(self).config.screen_height - 200) as i32,
                    GRID_ROWS as int,
                ),
            final(self).aliens@ == spec_formation(old(self).config),
            final(self).aliens_horiz_direction == 1,
            final(self).aliens_vert_direction == 1,
            final(self).alien_lasers@ == old(self).alien_lasers@,
            final(self).time_last_alien_fired == 0,
            final(self).time_last_spawn == 0,
            final(self).mystery_ship_spawn_interval == interval_s * 1000,
    {
        self.obstacles = Game::create_obstacles(&self.config);
        self.aliens = Game::create_aliens(&self.config);
        self.aliens_horiz_direction = 1;
        self.aliens_vert_direction = 1;
        self.time_last_alien_fired = 0;
        self.time_last_spawn = 0;
        self.lives = START_LIVES;
        self.score = 0;
        self.run = true;
        self.mystery_ship_spawn_interval = interval_s * 1000;
        proof {
            assert forall|i: int| 0 <= i < self.aliens@.len() implies 0 <= (
            #[trigger] self.aliens@[i]).w <= 10000 && 0 <= self.aliens@[i].h <= 10000 by {
                assert(self.aliens@[i] == spec_alien_at(self.config, i / 11, i % 11));
            }
        }
    }

    /// Clears the mutable battlefield state ahead of a fresh round: the
    /// ship recentres and drops its lasers; formation, enemy lasers and
    /// cover are emptied.
    pub fn reset(&mut self)
        requires
            old(self).wf(),
        ensures
            final(self).wf(),
            final(self).run == old(self).run,
            final(self).lives == old(self).lives,
            final(self).score == old(self).score,
            final(self).config == old(self).config,
            final(self).mystery_ship == old(self).mystery_ship,
            final(self).aliens_horiz_direction == old(self).aliens_horiz_direction,
            final(self).aliens_vert_direction == old(self).aliens_vert_direction,
            final(self).time_last_alien_fired == old(self).time_last_alien_fired,
            final(self).mystery_ship_spawn_interval == old(self).mystery_ship_spawn_interval,
            final(self).time_last_spawn == old(self).time_last_spawn,
            final(self).space_ship.lasers@ == Seq::<Laser>::empty(),
            final(self).space_ship.x == (old(self).config.screen_width
                - old(self).space_ship.width) / 2,
            final(self).space_ship.y == old(self).space_ship.y,
            final(self).space_ship.width == old(self).space_ship.width,
            final(self).space_ship.height == old(self).space_ship.height,
            final(self).space_ship.last_fire_time == old(self).space_ship.last_fire_time,
            final(self).aliens@ == Seq::<Alien>::empty(),
            final(self).alien_lasers@ == Seq::<Laser>::empty(),
            final(self).obstacles@ == Seq::<Obstacle>::empty(),
    {
        self.space_ship.reset();
        self.aliens = Vec::new();
        self.alien_lasers = Vec::new();
        self.obstacles = Vec::new();
    }
}

/// One alien's contribution to the shared drift directions: an alien past
/// the right margin steers the formation left, one past the left margin
/// steers it right (the left test is decisive when both hold), and likewise
/// for the bottom and top of the corridor.
pub open spec fn dirs_step(cfg: Config, a: Alien, h: i32, v: i32) -> (i32, i32) {
    let h1: i32 = if a.x < 25 {
        1i32
    } else if a.x + a.w > cfg.screen_width - 25 {
        -1i32
    } else {
        h
    };
    let v1: i32 = if a.y < 110 {
        1i32
    } else if a.y + a.h > cfg.screen_height - 210 {
        -1i32
    } else {
        v
    };
    (h1, v1)
}

/// The shared drift directions after scanning the first `i` aliens in
/// order, starting from (h, v).
pub open spec fn dirs_after(cfg: Config, aliens: Seq<Alien>, i: int, h: i32, v: i32) -> (i32, i32)
    decreases i,
{
    if i <= 0 {
        (h, v)
    } else {
        let prev = dirs_after(cfg, aliens, i - 1, h, v);
        dirs_step(cfg, aliens[i - 1], prev.0, prev.1)
    }
}

/// An alien shifted by the shared directions, one unit per axis.
pub open spec fn moved_alien(a: Alien, h: i32, v: i32) -> Alien {
    Alien { x: sat_add(a.x, h), y: sat_add(a.y, v), ..a }
}

/// The enemy laser an alien spawns: anchored at its horizontal centre,
/// bottom edge, moving down.
pub open spec fn alien_laser_from(a: Alien) -> Laser {
    Laser {
        active: true,
        x: sat_add(a.x, (a.w / 2) as i32),
        y: sat_add(a.y, a.h),
        speed: ALIEN_LASER_SPEED,
    }
}

/// Every laser of a collection advanced by one movement tick.
pub open spec fn advanced_lasers(lasers: Seq<Laser>, screen_height: i32) -> Seq<Laser> {
    Seq::new(lasers.len(), |i: int| lasers[i].spec_updated(screen_height))
}

/// The whole formation shifted by the directions its scan yields.
pub open spec fn moved_formation(cfg: Config, aliens: Seq<Alien>, h: i32, v: i32) -> Seq<Alien> {
    let d = dirs_after(cfg, aliens, aliens.len() as int, h, v);
    Seq::new(aliens.len(), |i: int| moved_alien(aliens[i], d.0, d.1))
}

/// Edge-triggered formation steering: an enemy past the right-margin
/// boundary flips the shared horizontal direction to leftward for the same
/// frame's movement application — not the next frame's — provided no enemy
/// simultaneously sits past the left margin (whose test is decisive).
/// `Game::move_aliens` then shifts every enemy by exactly this direction.
pub proof fn lemma_direction_flip(cfg: Config, aliens: Seq<Alien>, n: int, h: i32, v: i32)
    requires
        0 <= n <= aliens.len(),
        exists|i: int|
            0 <= i < n && (#[trigger] aliens[i]).x + aliens[i].w > cfg.screen_width - 25,
        forall|i: int| 0 <= i < n ==> (#[trigger] aliens[i]).x >= 25,
    ensures
        dirs_after(cfg, aliens, n, h, v).0 == -1,
    decreases n,
{
    let i = choose|i: int|
        0 <= i < n && (#[trigger] aliens[i]).x + aliens[i].w > cfg.screen_width - 25;
    if i < n - 1 {
        lemma_direction_flip(cfg, aliens, n - 1, h, v);
    }
}

impl Game {
    /// Formation movement: first every alien is tested against the four
    /// corridor bounds and may flip the shared direction of either axis;
    /// then every alien is shifted by the (possibly just-updated) shared
    /// directions — the flip applies within the same frame, so the whole
    /// formation moves as one rigid body.
    pub fn move_aliens(&mut self)
        requires
            old(self).wf(),
        ensures
            final(self).wf(),
            *final(self) == (Game {
                aliens: final(self).aliens,
                aliens_horiz_direction: final(self).aliens_horiz_direction,
                aliens_vert_direction: final(self).aliens_vert_direction,
                ..*old(self)
            }),
            (final(self).aliens_horiz_direction, final(self).aliens_vert_direction) == dirs_after(
                old(self).config,
                old(self).aliens@,
                old(self).aliens@.len() as int,
                old(self).aliens_horiz_direction,
                old(self).aliens_vert_direction,
            ),
            final(self).aliens@.len() == old(self).aliens@.len(),
            forall|i: int|
                0 <= i < old(self).aliens@.len() ==> #[trigger] final(self).aliens@[i]
                    == moved_alien(
                    old(self).aliens@[i],
                    final(self).aliens_horiz_direction,
                    final(self).aliens_vert_direction,
                ),
    {
        let ghost cfg = self.config;
        let ghost aliens0 = self.aliens@;
        let ghost h0 = self.aliens_horiz_direction;
        let ghost v0 = self.aliens_vert_direction;
        let mut h: i32 = self.aliens_horiz_direction;
        let mut v: i32 = self.aliens_vert_direction;
        let mut i: usize = 0;
        while i < self.aliens.len()
            invariant
                0 <= i <= aliens0.len(),
                self.aliens@ == aliens0,
                cfg == self.config,
                -1 <= h <= 1,
                -1 <= v <= 1,
                (h, v) == dirs_after(cfg, aliens0, i as int, h0, v0),
            decreases aliens0.len() - i,
        {
            let a = self.aliens[i];
            if a.x < 25 {
                h = 1;
            } else if (a.x as i64) + (a.w as i64) > (self.config.screen_width as i64) - 25 {
                h = -1;
            }
            if a.y < 110 {
                v = 1;
            } else if (a.y as i64) + (a.h as i64) > (self.config.screen_height as i64) - 210 {
                v = -1;
            }
            i = i + 1;
        }
        self.aliens_horiz_direction = h;
        self.aliens_vert_direction = v;
        let mut j: usize = 0;
        while j < self.aliens.len()
            invariant
                0 <= j <= aliens0.len(),
                self.aliens@.len() == aliens0.len(),
                -1 <= h <= 1,
                -1 <= v <= 1,
                *self == (Game {
                    aliens: self.aliens,
                    aliens_horiz_direction: h,
                    aliens_vert_direction: v,
                    ..*old(self)
                }),
                forall|k: int|
                    0 <= k < j ==> #[trigger] self.aliens@[k] == moved_alien(aliens0[k], h, v),
                forall|k: int| j <= k < aliens0.len() ==> #[trigger] self.aliens@[k] == aliens0[k],
            decreases aliens0.len() - j,
        {
            let a = self.aliens[j];
            let a2 = Alien {
                x: sat_add_i32(a.x, h),
                y: sat_add_i32(a.y, v),
                w: a.w,
                h: a.h,
                kind: a.kind,
            };
            self.aliens[j] = a2;
            j = j + 1;
        }
    }

    /// Whether the bonus-spawn interval has elapsed at `now`.
    pub open spec fn spawn_due(self, now: u64) -> bool {
        now > self.time_last_spawn + self.mystery_ship_spawn_interval
    }

    /// Whether the formation fires at `now`: the shared interval has
    /// elapsed and the formation is non-empty (an empty formation suspends
    /// firing — the guard, not an error).
    pub open spec fn alien_can_fire(self, now: u64) -> bool {
        now >= self.time_last_alien_fired + ALIEN_LASER_SHOOT_INTERVAL_MS && self.aliens@.len() > 0
    }

    /// The laser the alien at `shooter` spawns.
    pub open spec fn spec_alien_laser(self, shooter: int) -> Laser {
        alien_laser_from(self.aliens@[shooter])
    }

    /// Randomized formation firing: the caller picks the shooter uniformly
    /// among the alive aliens; at most one new enemy laser per interval,
    /// and none while the formation is empty.
    pub fn alien_shoot_laser(&mut self, now: u64, shooter: usize)
        requires
            old(self).wf(),
            old(self).aliens@.len() == 0 || shooter < old(self).aliens@.len(),
        ensures
            final(self).wf(),
            old(self).alien_can_fire(now) ==> *final(self) == (Game {
                alien_lasers: final(self).alien_lasers,
                time_last_alien_fired: now,
                ..*old(self)
            }) && final(self).alien_lasers@ == old(self).alien_lasers@.push(
                old(self).spec_alien_laser(shooter as int),
            ),
            !old(self).alien_can_fire(now) ==> *final(self) == *old(self),
    {
        if now >= self.time_last_alien_fired && now - self.time_last_alien_fired
            >= ALIEN_LASER_SHOOT_INTERVAL_MS && self.aliens.len() > 0 {
            let a = self.aliens[shooter];
            let l = Laser::new(
                sat_add_i32(a.x, a.w / 2),
                sat_add_i32(a.y, a.h),
                ALIEN_LASER_SPEED,
            );
            self.alien_lasers.push(l);
            self.time_last_alien_fired = now;
        }
    }

    /// Purges tombstoned lasers from both collections, so that the next
    /// collision pass only ever operates on active projectiles.
    pub fn delete_inactive_lasers(&mut self)
        requires
            old(self).wf(),
        ensures
            final(self).wf(),
            *final(self) == (Game {
                space_ship: final(self).space_ship,
                alien_lasers: final(self).alien_lasers,
                ..*old(self)
            }),
            final(self).space_ship == (SpaceShip {
                lasers: final(self).space_ship.lasers,
                ..old(self).space_ship
            }),
            final(self).space_ship.lasers@ == active_lasers(old(self).space_ship.lasers@),
            final(self).alien_lasers@ == active_lasers(old(self).alien_lasers@),
    {
        retain_active(&mut self.space_ship.lasers);
        retain_active(&mut self.alien_lasers);
    }

    /// Input handling while running: left movement takes priority over
    /// right, which takes priority over firing; in the Idle state input
    /// here changes nothing.
    pub fn handle_input(&mut self, left: bool, right: bool, fire: bool, now: u64)
        requires
            old(self).wf(),
        ensures
            final(self).wf(),
            *final(self) == (Game { space_ship: final(self).space_ship, ..*old(self) }),
            !old(self).run ==> *final(self) == *old(self),
            old(self).run && left ==> final(self).space_ship == (SpaceShip {
                x: if old(self).space_ship.x - SHIP_STEP < 25 {
                    25
                } else {
                    (old(self).space_ship.x - SHIP_STEP) as i32
                },
                ..old(self).space_ship
            }),
            old(self).run && !left && right ==> final(self).space_ship == (SpaceShip {
                x: if old(self).space_ship.x + SHIP_STEP > old(self).space_ship.max_x() {
                    (old(self).space_ship.max_x()) as i32
                } else {
                    (old(self).space_ship.x + SHIP_STEP) as i32
                },
                ..old(self).space_ship
            }),
            old(self).run && !left && !right && fire && old(self).space_ship.can_fire(now)
                ==> final(self).space_ship == (SpaceShip {
                last_fire_time: now,
                lasers: final(self).space_ship.lasers,
                ..old(self).space_ship
            }) && final(self).space_ship.lasers@ == old(self).space_ship.lasers@.push(
                old(self).space_ship.spawned_laser(),
            ),
            old(self).run && !left && !right && (!fire || !old(self).space_ship.can_fire(now))
                ==> final(self).space_ship == old(self).space_ship,
    {
        if self.run {
            if left {
                self.space_ship.move_left();
            } else if right {
                self.space_ship.move_right();
            } else if fire {
                let _ = self.space_ship.fire_laser(now);
            }
        }
    }

    /// One frame of the state machine. In the Idle state only `confirm`
    /// does anything: it starts a fresh round. In the Active state the
    /// fixed tick order runs: conditional bonus-target spawn, player-laser
    /// advance, formation movement and conditional firing, enemy-laser
    /// advance, tombstone purge, bonus-target advance, and the collision
    /// pass. The caller supplies the clock reading and the frame's random
    /// draws: the spawn side, the next spawn interval in whole seconds,
    /// and the index of the firing alien (ignored while the formation is
    /// empty).
    ///
    /// While Active: the formation never grows, lives never increase, the
    /// score never decreases, and the run flag stays set exactly while
    /// lives remain — dropping to zero or below ends the round within the
    /// same tick.
    pub fn update(
        &mut self,
        now: u64,
        mystery_from_left: bool,
        interval_s: u64,
        shooter: usize,
        confirm: bool,
    )
        requires
            old(self).wf(),
            10 <= interval_s <= 20,
            old(self).aliens@.len() == 0 || shooter < old(self).aliens@.len(),
        ensures
            final(self).wf(),
            final(self).config == old(self).config,
            !old(self).run && !confirm ==> *final(self) == *old(self),
            !old(self).run && confirm ==> final(self).run && final(self).lives == START_LIVES
                && final(self).score == 0 && final(self).aliens@ == spec_formation(
                old(self).config,
            ) && final(self).obstacles@.len() == 4 && final(self).alien_lasers@.len() == 0
                && final(self).space_ship.lasers@.len() == 0
                && final(self).mystery_ship == old(self).mystery_ship
                && final(self).mystery_ship_spawn_interval == interval_s * 1000
                && final(self).aliens_horiz_direction == 1
                && final(self).aliens_vert_direction == 1
                && final(self).time_last_alien_fired == 0
                && final(self).time_last_spawn == 0
                && (forall|m: int|
                    0 <= m < 4 ==> (#[trigger] final(self).obstacles@[m]).x == spec_obstacle_x(
                        old(self).config,
                        m,
                    ) && final(self).obstacles@[m].y == old(self).config.screen_height - 200
                        && final(self).obstacles@[m].blocks@ == cluster_blocks(
                        (spec_obstacle_x(old(self).config, m)) as i32,
                        (old(self).config.screen_height - 200) as i32,
                        GRID_ROWS as int,
                    )),
            old(self).run ==> final(self).aliens@.len() <= old(self).aliens@.len(),
            old(self).run ==> final(self).lives <= old(self).lives,
            old(self).run ==> final(self).score >= old(self).score,
            old(self).run ==> final(self).run == (final(self).lives > 0),
            old(self).run ==> (final(self).aliens_horiz_direction,
            final(self).aliens_vert_direction) == dirs_after(
                old(self).config,
                old(self).aliens@,
                old(self).aliens@.len() as int,
                old(self).aliens_horiz_direction,
                old(self).aliens_vert_direction,
            ),
            old(self).run && now > old(self).time_last_spawn
                + old(self).mystery_ship_spawn_interval ==> final(self).time_last_spawn == now
                && final(self).mystery_ship_spawn_interval == interval_s * 1000,
            old(self).run && !(now > old(self).time_last_spawn
                + old(self).mystery_ship_spawn_interval) ==> final(self).time_last_spawn
                == old(self).time_last_spawn && final(self).mystery_ship_spawn_interval
                == old(self).mystery_ship_spawn_interval,
            old(self).run && now >= old(self).time_last_alien_fired
                + ALIEN_LASER_SHOOT_INTERVAL_MS && old(self).aliens@.len() > 0
                ==> final(self).time_last_alien_fired == now,
            old(self).run && !(now >= old(self).time_last_alien_fired
                + ALIEN_LASER_SHOOT_INTERVAL_MS && old(self).aliens@.len() > 0)
                ==> final(self).time_last_alien_fired == old(self).time_last_alien_fired,
            old(self).run ==> final(self).space_ship == (SpaceShip {
                lasers: final(self).space_ship.lasers,
                ..old(self).space_ship
            }),
            old(self).run ==> ({
                let cfg = old(self).config;
                let mystery1 = if old(self).spawn_due(now) {
                    old(self).mystery_ship.spec_spawned(mystery_from_left)
                } else {
                    old(self).mystery_ship
                };
                let pl1 = advanced_lasers(old(self).space_ship.lasers@, cfg.screen_height);
                let aliens1 = moved_formation(
                    cfg,
                    old(self).aliens@,
                    old(self).aliens_horiz_direction,
                    old(self).aliens_vert_direction,
                );
                let fires = now >= old(self).time_last_alien_fired
                    + ALIEN_LASER_SHOOT_INTERVAL_MS && aliens1.len() > 0;
                let al1 = if fires {
                    old(self).alien_lasers@.push(alien_laser_from(aliens1[shooter as int]))
                } else {
                    old(self).alien_lasers@
                };
                let pl2 = active_lasers(pl1);
                let al2 = active_lasers(advanced_lasers(al1, cfg.screen_height));
                let mystery2 = mystery1.spec_updated();
                let ship_r = old(self).space_ship.spec_rect();
                let v1 = player_pass(
                    PlayerPassState {
                        aliens: aliens1,
                        obstacles: obs_blocks(old(self).obstacles@),
                        mystery: mystery2,
                        score: old(self).score,
                        lasers: pl2,
                    },
                    pl2.len() as int,
                );
                let lives2 = sub_lives(
                    old(self).lives,
                    count_laser_hits(al2, ship_r, al2.len() as int),
                );
                let lives3 = sub_lives(
                    lives2,
                    count_alien_touches(v1.aliens, ship_r, v1.aliens.len() as int),
                );
                &&& final(self).aliens@ == v1.aliens
                &&& final(self).score == v1.score
                &&& final(self).mystery_ship == v1.mystery
                &&& final(self).space_ship.lasers@ == v1.lasers
                &&& final(self).alien_lasers@.len() == al2.len()
                &&& (forall|j: int|
                    0 <= j < al2.len() ==> #[trigger] final(self).alien_lasers@[j] == (Laser {
                        active: al2[j].active && !overlaps(al2[j].spec_rect(), ship_r)
                            && !enemy_laser_cover_hit(v1.obstacles, al2, j),
                        ..al2[j]
                    }))
                &&& final(self).obstacles@.len() == old(self).obstacles@.len()
                &&& (forall|m: int|
                    0 <= m < old(self).obstacles@.len()
                        ==> (#[trigger] final(self).obstacles@[m]).x
                        == old(self).obstacles@[m].x && final(self).obstacles@[m].y
                        == old(self).obstacles@[m].y && final(self).obstacles@[m].blocks@
                        == v1.obstacles[m].filter(missed_by_lasers(al2, al2.len() as int)).filter(
                        missed_by_aliens(v1.aliens, v1.aliens.len() as int),
                    ))
                &&& final(self).lives == lives3
                &&& final(self).run == (lives3 > 0)
            }),
    {
        if self.run {
            let ghost g0 = *old(self);
            if now >= self.time_last_spawn && now - self.time_last_spawn
                > self.mystery_ship_spawn_interval {
                self.mystery_ship.spawn(mystery_from_left);
                self.time_last_spawn = now;
                self.mystery_ship_spawn_interval = interval_s * 1000;
            }
            let ghost g1 = *self;
            let screen_height = self.config.screen_height;
            let mut i: usize = 0;
            while i < self.space_ship.lasers.len()
                invariant
                    g1.wf(),
                    *self == (Game { space_ship: self.space_ship, ..g1 }),
                    self.space_ship == (SpaceShip {
                        lasers: self.space_ship.lasers,
                        ..g1.space_ship
                    }),
                    self.space_ship.lasers@.len() == g1.space_ship.lasers@.len(),
                    0 <= i <= g1.space_ship.lasers@.len(),
                    screen_height == g1.config.screen_height,
                    forall|k2: int|
                        0 <= k2 < i ==> #[trigger] self.space_ship.lasers@[k2]
                            == g1.space_ship.lasers@[k2].spec_updated(screen_height),
                    forall|k2: int|
                        i <= k2 < g1.space_ship.lasers@.len()
                            ==> #[trigger] self.space_ship.lasers@[k2]
                            == g1.space_ship.lasers@[k2],
                decreases g1.space_ship.lasers@.len() - i,
            {
                let mut l = self.space_ship.lasers[i];
                l.update(screen_height);
                self.space_ship.lasers[i] = l;
                i = i + 1;
            }
            proof {
                assert(self.space_ship.lasers@ =~= advanced_lasers(
                    g1.space_ship.lasers@,
                    screen_height,
                ));
            }
            self.move_aliens();
            self.alien_shoot_laser(now, shooter);
            let ghost g2 = *self;
            let mut k: usize = 0;
            while k < self.alien_lasers.len()
                invariant
                    g2.wf(),
                    *self == (Game { alien_lasers: self.alien_lasers, ..g2 }),
                    self.alien_lasers@.len() == g2.alien_lasers@.len(),
                    0 <= k <= g2.alien_lasers@.len(),
                    screen_height == g2.config.screen_height,
                    forall|k2: int|
                        0 <= k2 < k ==> #[trigger] self.alien_lasers@[k2]
                            == g2.alien_lasers@[k2].spec_updated(screen_height),
                    forall|k2: int|
                        k <= k2 < g2.alien_lasers@.len() ==> #[trigger] self.alien_lasers@[k2]
                            == g2.alien_lasers@[k2],
                decreases g2.alien_lasers@.len() - k,
            {
                let mut l = self.alien_lasers[k];
                l.update(screen_height);
                self.alien_lasers[k] = l;
                k = k + 1;
            }
            proof {
                assert(self.alien_lasers@ =~= advanced_lasers(g2.alien_lasers@, screen_height));
            }
            self.delete_inactive_lasers();
            self.mystery_ship.update();
            let ghost g3 = *self;
            self.check_for_collisions();
            proof {
                let v0 = crate::collisions::game_pass_view(g3);
                crate::collisions::lemma_player_pass_monotone(
                    v0,
                    g3.space_ship.lasers@.len() as int,
                );
                crate::collisions::lemma_count_laser_hits_nonneg(
                    g3.alien_lasers@,
                    g3.space_ship.spec_rect(),
                    g3.alien_lasers@.len() as int,
                );
                let v1 = crate::collisions::player_pass(v0, g3.space_ship.lasers@.len() as int);
                crate::collisions::lemma_count_alien_touches_nonneg(
                    v1.aliens,
                    g3.space_ship.spec_rect(),
                    v1.aliens.len() as int,
                );
                let cfg = g0.config;
                let mystery1 = if g0.spawn_due(now) {
                    g0.mystery_ship.spec_spawned(mystery_from_left)
                } else {
                    g0.mystery_ship
                };
                let pl1 = advanced_lasers(g0.space_ship.lasers@, cfg.screen_height);
                let aliens1 = moved_formation(
                    cfg,
                    g0.aliens@,
                    g0.aliens_horiz_direction,
                    g0.aliens_vert_direction,
                );
                let fires = now >= g0.time_last_alien_fired + ALIEN_LASER_SHOOT_INTERVAL_MS
                    && aliens1.len() > 0;
                let al1 = if fires {
                    g0.alien_lasers@.push(alien_laser_from(aliens1[shooter as int]))
                } else {
                    g0.alien_lasers@
                };
                let pl2 = active_lasers(pl1);
                let al2 = active_lasers(advanced_lasers(al1, cfg.screen_height));
                let mystery2 = mystery1.spec_updated();
                assert(g1.mystery_ship == mystery1);
                assert(g2.aliens@ =~= aliens1);
                assert(g2.alien_lasers@ == al1);
                assert(g3.space_ship.lasers@ == pl2);
                assert(g3.alien_lasers@ == al2);
                assert(g3.mystery_ship == mystery2);
                assert(g3.aliens@ == aliens1);
                assert(v0 =~= (PlayerPassState {
                    aliens: aliens1,
                    obstacles: obs_blocks(g0.obstacles@),
                    mystery: mystery2,
                    score: g0.score,
                    lasers: pl2,
                }));
                assert(g3.space_ship.spec_rect() == g0.space_ship.spec_rect());
            }
        } else if confirm {
            self.reset();
            self.init_game(interval_s);
        }
    }
}

} // verus!
