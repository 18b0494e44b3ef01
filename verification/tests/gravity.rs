use swept_aabb::gravity::{collide, gravity, Fall};
use swept_aabb::math::{Vec2, Vec3};

#[test]
fn rectangles_that_touch_do_not_collide() {
    let size = Vec2::new(10, 10);
    assert_eq!(collide(Vec3::new(0, 0, 0), size, Vec3::new(9, 0, 5), size), true);
    assert_eq!(collide(Vec3::new(0, 0, 0), size, Vec3::new(10, 0, 0), size), false);
    assert_eq!(collide(Vec3::new(0, 0, 0), size, Vec3::new(0, -10, 0), size), false);
    assert_eq!(collide(Vec3::new(0, 0, 0), size, Vec3::new(-9, 9, 0), size), true);
    // Sizes need not be even: 5 and 10 wide, centres 7 apart, overlap by half a unit.
    assert_eq!(
        collide(Vec3::new(0, 0, 0), Vec2::new(5, 5), Vec3::new(7, 0, 0), size),
        true
    );
    assert_eq!(
        collide(Vec3::new(0, 0, 0), Vec2::new(4, 5), Vec3::new(7, 0, 0), size),
        false
    );
}

#[test]
fn falling_thing_speeds_up() {
    let others: Vec<(Vec3, Vec2)> = Vec::new();
    // It moves by what the old velocity covers: 120 / 60.
    assert_eq!(
        gravity(Vec3::new(0, 100, 0), Vec2::new(10, 10), -120, 30, &others, 768),
        Fall::Falling { y: 98, velocity: -150 }
    );
    // The velocity has a limit.
    assert_eq!(
        gravity(Vec3::new(0, 100, 0), Vec2::new(10, 10), -990, 30, &others, 768),
        Fall::Falling { y: 83, velocity: -1000 }
    );
}

#[test]
fn falling_thing_stays_in_the_window() {
    let others: Vec<(Vec3, Vec2)> = Vec::new();
    assert_eq!(
        gravity(Vec3::new(0, -382, 0), Vec2::new(10, 10), -120, 30, &others, 768),
        Fall::Falling { y: -382, velocity: -150 }
    );
    assert_eq!(
        gravity(Vec3::new(0, -381, 0), Vec2::new(10, 10), -120, 30, &others, 768),
        Fall::Falling { y: -383, velocity: -150 }
    );
}

#[test]
fn falling_thing_lands() {
    let floor = (Vec3::new(0, 0, 0), Vec2::new(100, 10));
    let far = (Vec3::new(500, 0, 0), Vec2::new(100, 10));
    // At the new velocity of 180 it would fall by 3 and get into the floor.
    assert_eq!(
        gravity(Vec3::new(0, 12, 0), Vec2::new(10, 10), -120, 60, &vec![far, floor], 768),
        Fall::Landed
    );
    // By 2 it would only touch it.
    assert_eq!(
        gravity(Vec3::new(0, 12, 0), Vec2::new(10, 10), -90, 30, &vec![far, floor], 768),
        Fall::Falling { y: 10, velocity: -120 }
    );
}
