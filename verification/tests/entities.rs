use space_invaders::Kind;
use space_invaders::Laser;
use space_invaders::MysteryShip;
use space_invaders::Rect;
use space_invaders::SpaceShip;
use space_invaders::points;
use space_invaders::rects_overlap;

#[test]
fn overlap_is_strict() {
    let a = Rect { x: 0, y: 0, w: 10, h: 10 };
    let b = Rect { x: 10, y: 0, w: 10, h: 10 };
    // touching edges do not collide
    assert!(!rects_overlap(a, b));
    let c = Rect { x: 9, y: 9, w: 10, h: 10 };
    assert!(rects_overlap(a, c));
}

#[test]
fn zero_area_rect_never_collides() {
    let dormant = Rect { x: 5, y: 5, w: 0, h: 0 };
    let big = Rect { x: 0, y: 0, w: 100, h: 100 };
    assert!(!rects_overlap(dormant, big));
    assert!(!rects_overlap(big, dormant));
}

#[test]
fn laser_deactivates_past_top_and_stays_inactive() {
    let mut l = Laser::new(100, 30, -6);
    assert!(l.active);
    l.update(800);
    // y is now 24, above the top margin of 25
    assert_eq!(l.y, 24);
    assert!(!l.active);
    l.update(800);
    assert!(!l.active);
}

#[test]
fn laser_deactivates_past_bottom() {
    let mut l = Laser::new(100, 699, 6);
    l.update(800);
    // y is now 705, below screen_height - 100
    assert!(!l.active);
}

#[test]
fn laser_active_inside_bounds() {
    let mut l = Laser::new(100, 400, 6);
    l.update(800);
    assert_eq!(l.y, 406);
    assert!(l.active);
    assert_eq!(l.get_rect(), Rect { x: 100, y: 406, w: 4, h: 15 });
}

#[test]
fn alien_points_per_kind() {
    assert_eq!(points(Kind::Skull), 100);
    assert_eq!(points(Kind::Bug), 200);
    assert_eq!(points(Kind::Octopus), 300);
}

#[test]
fn ship_clamps_to_margins() {
    let mut ship = SpaceShip::new(800, 800, 10, 10);
    assert_eq!(ship.x, 395);
    for _ in 0..60 {
        ship.move_left();
    }
    assert_eq!(ship.x, 25);
    for _ in 0..200 {
        ship.move_right();
    }
    assert_eq!(ship.x, 800 - 10 - 25);
}

#[test]
fn ship_fire_is_rate_limited() {
    let mut ship = SpaceShip::new(800, 800, 10, 10);
    assert!(ship.fire_laser(400));
    assert_eq!(ship.lasers.len(), 1);
    // only 100 ms later: the 350 ms cooldown has not elapsed
    assert!(!ship.fire_laser(500));
    assert_eq!(ship.lasers.len(), 1);
    assert!(ship.fire_laser(750));
    assert_eq!(ship.lasers.len(), 2);
    let l = ship.lasers[0];
    assert_eq!((l.x, l.y, l.speed, l.active), (395 + 5 - 2, 690, -6, true));
}

#[test]
fn mystery_dormant_rect_is_zero() {
    let m = MysteryShip::new(800, 20, 10);
    assert!(!m.alive);
    let r = m.get_rect();
    assert_eq!((r.w, r.h), (0, 0));
}

#[test]
fn mystery_spawn_sides() {
    let mut m = MysteryShip::new(800, 20, 10);
    m.spawn(true);
    assert!(m.alive);
    assert_eq!((m.x, m.y, m.speed), (25, 90, 3));
    let mut m2 = MysteryShip::new(800, 20, 10);
    m2.spawn(false);
    assert_eq!((m2.x, m2.y, m2.speed), (800 - 20 - 25, 90, -3));
}

#[test]
fn mystery_crossing_deactivates_silently() {
    let mut m = MysteryShip::new(800, 20, 10);
    m.spawn(true);
    let mut steps = 0;
    while m.alive && steps < 1000 {
        m.update();
        steps += 1;
    }
    assert!(!m.alive);
    // (755 - 25) / 3 rounded up: first position past the right margin
    assert_eq!(steps, 244);
}
