use swept_aabb::body::{CollisionEvent, Placement, RigidBody};
use swept_aabb::collider::Collider;
use swept_aabb::math::{Fraction, Vec2, Vec3};
use swept_aabb::step::{apply_movements, can_step, detect_collisions, TimeStep};

fn body_at(x: i32, y: i32) -> RigidBody {
    let mut body = RigidBody::from_transform(Placement {
        translation: Vec3::new(x, y, 10),
        scale: Vec3::new(1, 1, 1),
    });
    body.on_ground = false;
    body.was_on_ground = false;
    body
}

fn tile() -> Collider {
    Collider::new(Vec2::zero(), Vec2::new(16, 16))
}

fn sixtieth() -> TimeStep {
    TimeStep::new(1, 60)
}

#[test]
fn body_at_rest_is_left_alone() {
    let colliders = vec![tile()];
    let half = Vec2::new(8, 10);
    let mut body = body_at(-8, 16);
    body.on_ground = true;
    body.at_left_tile = true;
    let start = body;
    for _ in 0..25 {
        assert!(can_step(&body, half, sixtieth()));
        let event = detect_collisions(7, &mut body, half, &colliders, None, sixtieth());
        assert_eq!(event, None);
        assert_eq!(body.position, start.position);
        assert_eq!(body.speed, start.speed);
        assert_eq!(body.on_ground, start.on_ground);
        assert_eq!(body.on_platform, start.on_platform);
        assert_eq!(body.at_ceiling, start.at_ceiling);
        assert_eq!(body.at_left_tile, start.at_left_tile);
        assert_eq!(body.at_right_tile, start.at_right_tile);
    }
}

#[test]
fn slow_body_does_not_move() {
    // 29 units a second cover less than half a unit in a sixtieth of one.
    let colliders = vec![tile()];
    let half = Vec2::new(8, 10);
    let mut body = body_at(100, 100);
    body.speed = Vec3::new(29, -29, 0);
    let event = detect_collisions(7, &mut body, half, &colliders, None, sixtieth());
    assert_eq!(event, None);
    assert_eq!(body.position, Vec3::new(100, 100, 10));
    assert_eq!(body.speed, Vec3::new(29, -29, 0));
}

#[test]
fn movement_is_rounded_away_from_zero_on_a_tie() {
    let colliders: Vec<Collider> = Vec::new();
    let half = Vec2::new(8, 10);
    let mut body = body_at(0, 0);
    // 30 / 60 is a half and becomes one; 90 / 60 is one and a half and becomes two.
    body.speed = Vec3::new(30, -90, 0);
    let event = detect_collisions(7, &mut body, half, &colliders, None, sixtieth());
    assert_eq!(event, None);
    assert_eq!(body.old_position, Vec3::new(0, 0, 10));
    assert_eq!(body.position, Vec3::new(1, -2, 10));
}

#[test]
fn falling_body_lands_on_tile() {
    // The top of the tile is at 16; the lower side of the body is at 17.
    let colliders = vec![tile()];
    let half = Vec2::new(8, 10);
    let mut body = body_at(-8, 17);
    body.speed = Vec3::new(0, -120, 0);
    assert!(can_step(&body, half, sixtieth()));
    let event = detect_collisions(7, &mut body, half, &colliders, None, sixtieth());
    assert_eq!(event, Some(CollisionEvent { entity: 7, collider: tile() }));
    assert_eq!(body.on_ground, true);
    assert_eq!(body.at_ceiling, false);
    assert_eq!(body.at_left_tile, false);
    assert_eq!(body.at_right_tile, false);
    assert_eq!(body.speed, Vec3::new(0, 0, 0));
    // Not inside the tile: the movement is taken back from where it ended.
    assert!(body.position.y >= 16);
    assert_eq!(body.position, Vec3::new(-8, 17, 10));
    assert_eq!(body.old_position, Vec3::new(-8, 17, 10));
    assert_eq!(body.old_speed, Vec3::new(0, -120, 0));
}

#[test]
fn falling_body_is_stopped_short_of_tile() {
    // Lower side at 26, ten units above the tile, falling six units a tick:
    // the box at the end of the movement, moved on by the movement, meets
    // the tile after two thirds of it, so a third is taken back.
    let colliders = vec![tile()];
    let half = Vec2::new(8, 10);
    let mut body = body_at(-8, 26);
    body.speed = Vec3::new(0, -360, 0);
    let event = detect_collisions(1, &mut body, half, &colliders, None, sixtieth());
    assert!(event.is_some());
    assert_eq!(body.position, Vec3::new(-8, 22, 10));
    assert_eq!(body.on_ground, true);
    assert_eq!(body.speed.y, 0);
}

#[test]
fn rising_body_hits_ceiling() {
    let colliders = vec![tile()];
    let half = Vec2::new(8, 10);
    // Upper side at -17, one below the lower side of the tile.
    let mut body = body_at(-8, -37);
    body.speed = Vec3::new(0, 120, 0);
    let event = detect_collisions(3, &mut body, half, &colliders, None, sixtieth());
    assert_eq!(event, Some(CollisionEvent { entity: 3, collider: tile() }));
    assert_eq!(body.at_ceiling, true);
    assert_eq!(body.on_ground, false);
    assert_eq!(body.speed.y, 0);
    assert_eq!(body.position, Vec3::new(-8, -37, 10));
}

#[test]
fn body_runs_into_walls() {
    let colliders = vec![tile()];
    let half = Vec2::new(8, 10);
    // Left side at 17, one right of the right side of the tile.
    let mut body = body_at(17, -10);
    body.speed = Vec3::new(-120, 0, 0);
    let event = detect_collisions(3, &mut body, half, &colliders, None, sixtieth());
    assert!(event.is_some());
    assert_eq!(body.at_left_tile, true);
    assert_eq!(body.at_right_tile, false);
    assert_eq!(body.speed.x, 0);
    assert_eq!(body.position, Vec3::new(17, -10, 10));

    // Right side at -17, one left of the left side of the tile.
    let mut body = body_at(-33, -10);
    body.speed = Vec3::new(120, 0, 0);
    let event = detect_collisions(3, &mut body, half, &colliders, None, sixtieth());
    assert!(event.is_some());
    assert_eq!(body.at_right_tile, true);
    assert_eq!(body.at_left_tile, false);
    assert_eq!(body.speed.x, 0);
    assert_eq!(body.position, Vec3::new(-33, -10, 10));
}

#[test]
fn ground_flag_is_cleared_when_nothing_is_below() {
    // The body walks to the right, one unit above the tile: nothing stops
    // it, and a movement of one unit down does not reach the tile.
    let colliders = vec![tile()];
    let half = Vec2::new(8, 10);
    let mut body = body_at(-8, 17);
    body.on_ground = true;
    body.speed = Vec3::new(120, 0, 0);
    let event = detect_collisions(3, &mut body, half, &colliders, None, sixtieth());
    assert_eq!(event, None);
    assert_eq!(body.position, Vec3::new(-6, 17, 10));
    assert_eq!(body.was_on_ground, true);
    assert_eq!(body.on_ground, false);
    assert_eq!(body.speed, Vec3::new(120, 0, 0));
}

#[test]
fn ground_flag_is_kept_when_the_ground_is_there() {
    // The body slides along the very top of the tile.
    let colliders = vec![tile()];
    let half = Vec2::new(8, 10);
    let mut body = body_at(-8, 16);
    body.on_ground = true;
    body.speed = Vec3::new(120, 0, 0);
    let event = detect_collisions(3, &mut body, half, &colliders, None, sixtieth());
    assert_eq!(event, None);
    assert_eq!(body.position, Vec3::new(-6, 16, 10));
    assert_eq!(body.on_ground, true);
}

#[test]
fn own_collider_is_left_out() {
    let half = Vec2::new(8, 10);
    let mut body = body_at(-8, 17);
    body.speed = Vec3::new(0, -120, 0);
    let own = Collider::from_position(body.position, half);
    let colliders = vec![own];
    let mut alone = body;
    let event = detect_collisions(3, &mut alone, half, &colliders, Some(0), sixtieth());
    assert_eq!(event, None);
    assert_eq!(alone.position, Vec3::new(-8, 15, 10));

    let event = detect_collisions(3, &mut body, half, &colliders, None, sixtieth());
    assert_eq!(event.map(|e| e.collider), Some(own));
}

#[test]
fn one_way_platform() {
    let platform = Collider::new(Vec2::zero(), Vec2::new(16, 1)).edges(true, true, false, true);
    let colliders = vec![platform];
    let half = Vec2::new(8, 8);

    // From below: no hit.
    let below = Collider::new(Vec2::new(0, -20), half);
    let sweep = platform.sweep(&below, Vec2::new(0, 30));
    assert_eq!(sweep.hit, None);
    assert_eq!(sweep.time, Fraction { num: 1, den: 1 });
    assert_eq!(sweep.pos.x, Fraction { num: 0, den: 1 });
    assert_eq!(sweep.pos.y, Fraction { num: 10, den: 1 });
    // Also on a slant.
    assert_eq!(platform.sweep(&below, Vec2::new(5, 30)).hit, None);
    // The same box, solid below, stops it.
    assert!(platform.edges(true, true, true, true).sweep(&below, Vec2::new(0, 30)).hit.is_some());

    // From above: a hit that pushes up.
    let above = Collider::new(Vec2::new(0, 20), half);
    let hit = platform.sweep(&above, Vec2::new(0, -30)).hit.unwrap();
    assert_eq!(hit.normal, Vec2::new(0, 1));
    assert!(hit.delta.y.num > 0);

    // A body jumps up through it ...
    let mut body = body_at(-8, -20);
    body.speed = Vec3::new(0, 1800, 0);
    assert_eq!(detect_collisions(1, &mut body, half, &colliders, None, sixtieth()), None);
    assert_eq!(body.position, Vec3::new(-8, 10, 10));
    assert_eq!(body.on_ground, false);
    assert_eq!(body.on_platform, false);

    // ... and lands on it on the way down.
    let mut body = body_at(-8, 2);
    body.speed = Vec3::new(0, -120, 0);
    let event = detect_collisions(1, &mut body, half, &colliders, None, sixtieth());
    assert_eq!(event.map(|e| e.collider), Some(platform));
    assert_eq!(body.on_ground, true);
    assert_eq!(body.on_platform, true);
    assert_eq!(body.speed.y, 0);
}

#[test]
fn platform_flag_needs_a_platform_close_below() {
    let platform = Collider::new(Vec2::zero(), Vec2::new(16, 1)).edges(true, true, false, true);
    let half = Vec2::new(8, 8);
    // The top of the platform is at 1. Three above is too far, two is not.
    for (y, expected) in [(4, false), (3, true), (1, true), (-1, true), (-2, false)] {
        let mut body = body_at(0, y);
        body.speed = Vec3::new(60, 0, 0);
        detect_collisions(1, &mut body, half, &vec![platform], None, sixtieth());
        assert_eq!(body.on_platform, expected, "at {}", y);
    }
    // Not on the way up.
    let mut body = body_at(0, 1);
    body.speed = Vec3::new(0, 60, 0);
    detect_collisions(1, &mut body, half, &vec![platform], None, sixtieth());
    assert_eq!(body.position, Vec3::new(0, 2, 10));
    assert_eq!(body.on_platform, false);
    // A solid tile is no platform.
    let mut body = body_at(0, 17);
    body.speed = Vec3::new(60, 0, 0);
    detect_collisions(1, &mut body, half, &vec![tile()], None, sixtieth());
    assert_eq!(body.on_platform, false);
    // Not beside it.
    let mut body = body_at(40, 2);
    body.speed = Vec3::new(60, 0, 0);
    detect_collisions(1, &mut body, half, &vec![platform], None, sixtieth());
    assert_eq!(body.on_platform, false);
}

#[test]
fn can_step_knows_the_limits() {
    let half = Vec2::new(8, 10);
    let body = body_at(0, 0);
    assert!(can_step(&body, half, sixtieth()));
    assert!(!can_step(&body, half, TimeStep { num: 1, den: 0 }));
    assert!(!can_step(&body, Vec2::new(-1, 10), sixtieth()));
    assert!(!can_step(&body_at(0x1000_0001, 0), half, sixtieth()));
    assert!(can_step(&body_at(0x1000_0000, -0x1000_0000), half, sixtieth()));
    let mut fast = body_at(0, 0);
    fast.speed = Vec3::new(i32::MAX, 0, 0);
    assert!(can_step(&fast, half, sixtieth()));
    assert!(!can_step(&fast, half, TimeStep::new(1, 1)));
}

#[test]
fn movement_is_published() {
    let mut body = body_at(3, 4);
    body.scale = Vec3::new(-1, 1, 1);
    let mut placement = Placement { translation: Vec3::zero(), scale: Vec3::zero() };
    let mut collider = Collider::new(Vec2::zero(), Vec2::new(8, 10)).edges(true, true, false, true);
    apply_movements(&body, &mut placement, &mut collider);
    assert_eq!(placement.translation, Vec3::new(3, 4, 10));
    assert_eq!(placement.scale, Vec3::new(-1, 1, 1));
    assert_eq!(collider.center, Vec2::new(11, 14));
    assert_eq!(collider.half, Vec2::new(8, 10));
    assert_eq!(collider.bottom, false);
}
