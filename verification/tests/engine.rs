use space_invaders::Alien;
use space_invaders::Config;
use space_invaders::Game;
use space_invaders::Kind;
use space_invaders::Laser;
use space_invaders::MysteryShip;
use space_invaders::SpaceShip;

fn test_config() -> Config {
    Config {
        screen_width: 800,
        screen_height: 800,
        skull_width: 8,
        skull_height: 8,
        bug_width: 8,
        bug_height: 8,
        octopus_width: 44,
        octopus_height: 44,
    }
}

fn fresh_game() -> Game {
    let cfg = test_config();
    let ship = SpaceShip::new(800, 800, 10, 10);
    let mystery = MysteryShip::new(800, 20, 10);
    Game::new(cfg, ship, mystery)
}

#[test]
fn idle_state_ignores_everything_but_confirm() {
    let mut g = fresh_game();
    assert!(!g.run);
    g.update(1000, false, 10, 0, false);
    assert!(!g.run);
    assert_eq!(g.aliens.len(), 0);
    g.handle_input(true, false, false, 1000);
    assert_eq!(g.space_ship.x, 395);
}

#[test]
fn confirm_starts_fresh_round() {
    let mut g = fresh_game();
    g.update(0, false, 12, 0, true);
    assert!(g.run);
    assert_eq!(g.lives, 3);
    assert_eq!(g.score, 0);
    assert_eq!(g.aliens.len(), 55);
    assert_eq!(g.obstacles.len(), 4);
    assert_eq!(g.mystery_ship_spawn_interval, 12000);
}

#[test]
fn formation_layout() {
    let mut g = fresh_game();
    g.update(0, false, 10, 0, true);
    let first = g.aliens[0];
    assert_eq!((first.x, first.y), (75, 110));
    assert!(matches!(first.kind, Kind::Octopus));
    let row1 = g.aliens[11];
    assert_eq!((row1.x, row1.y), (75, 165));
    assert!(matches!(row1.kind, Kind::Bug));
    let last = g.aliens[54];
    assert_eq!((last.x, last.y), (75 + 10 * 55, 110 + 4 * 55));
    assert!(matches!(last.kind, Kind::Skull));
}

#[test]
fn obstacles_evenly_spaced() {
    let mut g = fresh_game();
    g.update(0, false, 10, 0, true);
    // gap = (800 - 4 * 69) / 5 = 104
    let expected_x = [104, 2 * 104 + 69, 3 * 104 + 2 * 69, 4 * 104 + 3 * 69];
    for (i, ob) in g.obstacles.iter().enumerate() {
        assert_eq!(ob.x, expected_x[i]);
        assert_eq!(ob.y, 600);
        assert!(!ob.blocks.is_empty());
    }
}

#[test]
fn fresh_round_octopus_kill() {
    // A fresh round; the lower-tier sprites are narrow, so a shot placed
    // under the right part of the top-row enemy at row 0 col 0 travels past
    // every other enemy and past the gap between the first two cover
    // clusters.
    let mut g = fresh_game();
    g.update(0, false, 10, 0, true);
    for _ in 0..32 {
        g.handle_input(true, false, false, 0);
    }
    assert_eq!(g.space_ship.x, 171);
    g.handle_input(false, false, true, 400);
    assert_eq!(g.space_ship.lasers.len(), 1);
    for k in 1..=76u32 {
        let shooter = if k == 1 { 54 } else { 0 };
        g.update(400, false, 10, shooter, false);
        assert_eq!(g.score, 0);
        assert_eq!(g.aliens.len(), 55);
    }
    // the 77th frame is the projectile's moment of impact
    g.update(400, false, 10, 0, false);
    assert_eq!(g.score, 300);
    assert_eq!(g.aliens.len(), 54);
    assert_eq!(g.lives, 3);
    assert!(g.run);
}

#[test]
fn last_life_lost_flips_run_in_same_pass() {
    let mut g = fresh_game();
    g.update(0, false, 10, 0, true);
    g.lives = 1;
    let hit = Laser::new(g.space_ship.x, g.space_ship.y, 6);
    g.alien_lasers.push(hit);
    g.check_for_collisions();
    assert_eq!(g.lives, 0);
    assert!(!g.run);
    // game over is a pure state flip: nothing is cleared until next round
    assert_eq!(g.aliens.len(), 55);
    assert_eq!(g.obstacles.len(), 4);
    assert!(!g.alien_lasers[0].active);
}

#[test]
fn bonus_crossing_awards_nothing() {
    let mut g = fresh_game();
    g.update(0, false, 10, 0, true);
    // the spawn interval (10 s) has elapsed: the bonus target enters from
    // the left margin
    g.update(20001, true, 10, 54, false);
    assert!(g.mystery_ship.alive);
    assert_eq!(g.mystery_ship.x, 25 + 3);
    // the spawn clock restarts and a fresh interval is drawn
    assert_eq!(g.time_last_spawn, 20001);
    assert_eq!(g.mystery_ship_spawn_interval, 10000);
    for _ in 0..260 {
        g.update(20001, true, 10, 0, false);
    }
    assert!(!g.mystery_ship.alive);
    assert_eq!(g.score, 0);
    assert_eq!(g.lives, 3);
}

#[test]
fn projectile_resolves_enemy_and_cover_in_one_turn() {
    let mut g = fresh_game();
    g.update(0, false, 10, 0, true);
    let blocks_before: usize = g.obstacles[0].blocks.len();
    // one enemy parked on top of the first cover cluster, one player laser
    // overlapping both
    g.aliens = vec![Alien::new(Kind::Skull, 104, 600, 8, 8)];
    g.space_ship.lasers.push(Laser::new(106, 600, -6));
    g.check_for_collisions();
    assert_eq!(g.score, 100);
    assert_eq!(g.aliens.len(), 0);
    assert!(!g.space_ship.lasers[0].active);
    assert!(g.obstacles[0].blocks.len() < blocks_before);
}

#[test]
fn direction_flip_applies_same_frame() {
    let mut g = fresh_game();
    g.update(0, false, 10, 0, true);
    assert_eq!(g.aliens_horiz_direction, 1);
    g.aliens = vec![Alien::new(Kind::Bug, 770, 300, 8, 8)];
    g.move_aliens();
    assert_eq!(g.aliens_horiz_direction, -1);
    // the flip steers this very frame's movement, not the next one's
    assert_eq!(g.aliens[0].x, 769);
}

#[test]
fn empty_formation_suspends_firing() {
    let mut g = fresh_game();
    g.update(0, false, 10, 0, true);
    g.aliens = Vec::new();
    g.alien_shoot_laser(5000, 0);
    assert_eq!(g.alien_lasers.len(), 0);
}

#[test]
fn formation_fire_interval_and_anchor() {
    let mut g = fresh_game();
    g.update(0, false, 10, 0, true);
    g.alien_shoot_laser(400, 3);
    assert_eq!(g.alien_lasers.len(), 1);
    let l = g.alien_lasers[0];
    // alien 3 is row 0 col 3: horizontal centre, bottom edge, moving down
    assert_eq!((l.x, l.y, l.speed), (75 + 3 * 55 + 22, 110 + 44, 6));
    g.alien_shoot_laser(500, 3);
    assert_eq!(g.alien_lasers.len(), 1);
    g.alien_shoot_laser(750, 3);
    assert_eq!(g.alien_lasers.len(), 2);
}

#[test]
fn purge_removes_tombstones_in_order() {
    let mut g = fresh_game();
    g.update(0, false, 10, 0, true);
    let mut a = Laser::new(1, 400, 6);
    let b = Laser::new(2, 400, 6);
    let mut c = Laser::new(3, 400, 6);
    a.active = false;
    c.active = false;
    g.alien_lasers = vec![a, b, c];
    g.space_ship.lasers = vec![b, a];
    g.delete_inactive_lasers();
    assert_eq!(g.alien_lasers.len(), 1);
    assert_eq!(g.alien_lasers[0].x, 2);
    assert_eq!(g.space_ship.lasers.len(), 1);
    assert_eq!(g.space_ship.lasers[0].x, 2);
}

#[test]
fn bonus_target_shot_awards_fixed_bonus() {
    let mut g = fresh_game();
    g.update(0, false, 10, 0, true);
    g.update(20001, true, 10, 54, false);
    assert!(g.mystery_ship.alive);
    let (mx, my) = (g.mystery_ship.x, g.mystery_ship.y);
    g.space_ship.lasers.push(Laser::new(mx, my - 5, -6));
    g.check_for_collisions();
    assert_eq!(g.score, 500);
    assert!(!g.mystery_ship.alive);
    assert!(!g.space_ship.lasers[0].active);
}

#[test]
fn vertical_flip_at_bottom_of_corridor() {
    let mut g = fresh_game();
    g.update(0, false, 10, 0, true);
    assert_eq!(g.aliens_vert_direction, 1);
    // bottom margin: an enemy whose box dips below screen_height - 210
    g.aliens = vec![Alien::new(Kind::Bug, 400, 585, 8, 8)];
    g.move_aliens();
    assert_eq!(g.aliens_vert_direction, -1);
    assert_eq!(g.aliens[0].y, 584);
}

#[test]
fn sustained_enemy_contact_drains_lives_every_frame() {
    let mut g = fresh_game();
    g.update(0, false, 10, 0, true);
    // an enemy overlapping the ship survives contact and costs a life on
    // every resolution pass it persists through
    g.aliens = vec![Alien::new(Kind::Skull, g.space_ship.x, g.space_ship.y, 8, 8)];
    g.check_for_collisions();
    assert_eq!(g.lives, 2);
    assert_eq!(g.aliens.len(), 1);
    assert!(g.run);
    g.check_for_collisions();
    assert_eq!(g.lives, 1);
}
