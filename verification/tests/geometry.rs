use swept_aabb::collider::Collider;
use swept_aabb::math::{Fraction, Vec2};

fn value(f: Fraction) -> f32 {
    f.num as f32 / f.den as f32
}

#[test]
fn test_intersect_point_does_not_collide() {
    let collider = Collider::new(Vec2::zero(), Vec2::new(8, 8));
    let points = vec![
        Vec2::new(-16, -16),
        Vec2::new(0, -16),
        Vec2::new(16, -16),
        Vec2::new(16, 0),
        Vec2::new(16, 16),
        Vec2::new(0, 16),
        Vec2::new(-16, 16),
        Vec2::new(-16, 0),
    ];

    for point in points.iter() {
        assert_eq!(collider.intersect_point(*point).is_none(), true);
    }
}

#[test]
fn test_intersect_point_does_collide() {
    let collider = Collider::new(Vec2::zero(), Vec2::new(8, 8));
    let points = vec![Vec2::new(4, 4)];

    for point in points.iter() {
        assert_eq!(collider.intersect_point(*point).is_some(), true);
    }
}

#[test]
fn test_intersect_segment_does_not_collide() {
    let collider = Collider::new(Vec2::zero(), Vec2::new(8, 8));
    assert_eq!(
        collider
            .intersect_segment(Vec2::new(-16, -16), Vec2::new(32, 0), 0, 0)
            .is_none(),
        true
    );
    // no movement
    assert_eq!(
        collider
            .intersect_segment(Vec2::new(-16, -16), Vec2::new(0, 0), 0, 0)
            .is_none(),
        true
    );
}

#[test]
fn test_intersect_segment_does_collide() {
    let collider = Collider::new(Vec2::zero(), Vec2::new(8, 8));
    let point = Vec2::new(-16, 4);
    let delta = Vec2::new(32, 0);
    let result = collider.intersect_segment(point, delta, 0, 0);
    assert_eq!(result.is_some(), true);

    let time = 0.25;
    let hit = result.unwrap();
    assert_eq!(hit.collider, collider);
    assert_eq!(value(hit.time), time);
    assert_eq!(value(hit.pos.x), point.x as f32 + delta.x as f32 * time);
    assert_eq!(value(hit.pos.y), point.y as f32 + delta.y as f32 * time);
    assert_eq!(value(hit.delta.x), (1.0 - time) * -(delta.x as f32));
    assert_eq!(value(hit.delta.y), (1.0 - time) * -(delta.y as f32));
    assert_eq!(hit.normal.x, -1);
    assert_eq!(hit.normal.y, 0);
}

#[test]
fn test_intersect_segment_sets_hit_time_to_zero_when_segment_starts_inside_box() {
    let collider = Collider::new(Vec2::zero(), Vec2::new(8, 8));
    let point = Vec2::new(-4, 4);
    let delta = Vec2::new(32, 0);
    let result = collider.intersect_segment(point, delta, 0, 0);
    assert_eq!(result.is_some(), true);

    let hit = result.unwrap();
    assert_eq!(hit.collider, collider);
    assert_eq!(value(hit.time), 0.);
    assert_eq!(value(hit.pos.x), -4.);
    assert_eq!(value(hit.pos.y), 4.);
    assert_eq!(value(hit.delta.x), -(delta.x as f32));
    assert_eq!(value(hit.delta.y), -(delta.y as f32));
    assert_eq!(hit.normal.x, -1);
    assert_eq!(hit.normal.y, 0);
}

#[test]
fn test_intersect_segment_should_add_padding_to_half_size_box() {
    let collider = Collider::new(Vec2::zero(), Vec2::new(8, 8));
    let point = Vec2::new(-16, 4);
    let delta = Vec2::new(32, 0);
    let padding = 4;
    let result = collider.intersect_segment(point, delta, padding, padding);
    assert_eq!(result.is_some(), true);

    let time = 0.125;
    let hit = result.unwrap();
    assert_eq!(hit.collider, collider);
    assert_eq!(value(hit.time), time);
    assert_eq!(value(hit.pos.x), point.x as f32 + delta.x as f32 * time);
    assert_eq!(value(hit.pos.y), point.y as f32 + delta.y as f32 * time);
    assert_eq!(value(hit.delta.x), (1.0 - time) * -(delta.x as f32));
    assert_eq!(value(hit.delta.y), (1.0 - time) * -(delta.y as f32));
    assert_eq!(hit.normal.x, -1);
    assert_eq!(hit.normal.y, 0);
}

#[test]
fn test_intersect_segment_should_have_consistent_results_in_both_directions() {
    let collider = Collider::new(Vec2::zero(), Vec2::new(32, 32));
    let far_pos = Vec2::new(-64, 0);
    let far_to_near_delta = Vec2::new(-32, 0);
    assert_eq!(
        collider
            .intersect_segment(far_pos, far_to_near_delta, 0, 0)
            .is_none(),
        true
    );

    let near_pos = Vec2::new(32, 0);
    let near_to_far_delta = Vec2::new(32, 0);
    assert_eq!(
        collider
            .intersect_segment(near_pos, near_to_far_delta, 0, 0)
            .is_none(),
        true
    );
}

#[test]
fn test_intersect_segment_should_work_when_axis_aligned() {
    let collider = Collider::new(Vec2::zero(), Vec2::new(16, 16));
    let pos = Vec2::new(-32, 0);
    let delta = Vec2::new(64, 0);
    let result = collider.intersect_segment(pos, delta, 0, 0);
    assert_eq!(result.is_some(), true);

    let hit = result.unwrap();
    assert_eq!(value(hit.time), 0.25);
    assert_eq!(hit.normal.x, -1);
    assert_eq!(hit.normal.y, 0);
}

#[test]
fn test_sweep_does_not_collide() {
    let collider1 = Collider::new(Vec2::zero(), Vec2::new(16, 16));
    let collider2 = Collider::new(Vec2::new(64, -64), Vec2::new(8, 8));
    let delta = Vec2::new(0, 128);
    let sweep = collider1.sweep(&collider2, delta);
    assert_eq!(sweep.hit.is_none(), true);
    assert_eq!(value(sweep.time), 1.);
    assert_eq!(value(sweep.pos.x), (collider2.center.x + delta.x) as f32);
    assert_eq!(value(sweep.pos.y), (collider2.center.y + delta.y) as f32);
}

#[test]
fn test_sweep_does_collide_vertical() {
    let collider1 = Collider::new(Vec2::zero(), Vec2::new(16, 16));
    let collider2 = Collider::new(Vec2::new(0, -64), Vec2::new(8, 8));
    let delta = Vec2::new(0, 128);
    let sweep = collider1.sweep(&collider2, delta);
    assert_eq!(sweep.hit.is_some(), true);

    let hit = sweep.hit.unwrap();
    assert_eq!(hit.collider, collider1);
    assert_eq!(value(hit.delta.x), -0.);
    assert_eq!(value(hit.delta.y), -88.);
}

#[test]
fn test_sweep_does_collide_horizontal() {
    let collider1 = Collider::new(Vec2::zero(), Vec2::new(16, 16));
    let collider2 = Collider::new(Vec2::new(-64, 0), Vec2::new(8, 8));
    let delta = Vec2::new(128, 0);
    let sweep = collider1.sweep(&collider2, delta);
    assert_eq!(sweep.hit.is_some(), true);

    let hit = sweep.hit.unwrap();
    assert_eq!(hit.collider, collider1);
    assert_eq!(value(hit.delta.x), -88.);
    assert_eq!(value(hit.delta.y), -0.);
}

#[test]
fn test_sweep_does_collide_diagonal() {
    let collider1 = Collider::new(Vec2::zero(), Vec2::new(16, 16));
    let collider2 = Collider::new(Vec2::new(-64, -64), Vec2::new(8, 8));
    let delta = Vec2::new(128, 128);
    let sweep = collider1.sweep(&collider2, delta);
    assert_eq!(sweep.hit.is_some(), true);

    let hit = sweep.hit.unwrap();
    assert_eq!(hit.collider, collider1);
    assert_eq!(value(hit.delta.x), -88.);
    assert_eq!(value(hit.delta.y), -88.);
}

#[test]
fn test_sweep_into_does_collide() {
    let actor = Collider::new(Vec2::new(64, -64), Vec2::new(8, 8));

    let colliders = vec![
        Collider::new(Vec2::zero(), Vec2::new(16, 16)),
        Collider::new(Vec2::new(0, -64), Vec2::new(8, 8)),
    ];
    let delta = Vec2::new(-64, 128);
    let nearest = actor.sweep_into(&colliders, delta);
    assert_eq!(value(nearest.time), 0.625);
    assert_eq!(nearest.hit.is_some(), true);

    let hit = nearest.hit.unwrap();
    assert_eq!(hit.collider, colliders[0]);
}

#[test]
fn test_horizontal_movement_no_gravity() {
    let half = Vec2::new(16, 16);
    // start at the "left most" tile, with a vertical offset to prevent ground collision
    let actor = Collider::new(Vec2::new(0, 33), half);

    // flat line, no gaps, left to right (effectively starting at -16px)
    let colliders = vec![
        Collider::new(Vec2::zero(), half),
        Collider::new(Vec2::new(16, 0), half),
        Collider::new(Vec2::new(48, 0), half),
    ];
    let delta = Vec2::new(4, 0);
    let nearest = actor.sweep_into(&colliders, delta);
    assert_eq!(value(nearest.time), 1.);
    assert_eq!(nearest.hit.is_some(), false);

    let delta = Vec2::new(-4, 0);
    let nearest = actor.sweep_into(&colliders, delta);
    assert_eq!(value(nearest.time), 1.);
    assert_eq!(nearest.hit.is_some(), false);

    let delta = Vec2::new(0, -2);
    let nearest = actor.sweep_into(&colliders, delta);
    assert_eq!(nearest.hit.is_some(), true);
    let hit = nearest.hit.unwrap();
    assert_eq!(hit.collider, colliders[0]);
    assert_eq!(value(hit.delta.x), 0.);
    assert_eq!(value(hit.delta.y), 1.);
}

#[test]
fn test_vertical_movement_no_gravity() {
    let half = Vec2::new(16, 16);
    let actor = Collider::new(Vec2::new(0, 1063), half);

    // straight vertical drop from large distance
    let colliders = vec![Collider::new(Vec2::zero(), half)];
    let delta = Vec2::new(0, -1032);
    let nearest = actor.sweep_into(&colliders, delta);
    assert_eq!(nearest.hit.is_some(), true);
    let hit = nearest.hit.unwrap();
    assert_eq!(hit.collider, colliders[0]);
    assert_eq!(value(hit.delta.x), 0.);
    assert_eq!(value(hit.delta.y), 1.);
}

#[test]
fn test_jumping_movement_no_gravity() {
    let half = Vec2::new(16, 16);
    let actor = Collider::new(Vec2::new(0, 33), half);

    // an inverted L
    let colliders = vec![
        Collider::new(Vec2::zero(), half),
        Collider::new(Vec2::new(32, 0), half),
        Collider::new(Vec2::new(64, 0), half),
        Collider::new(Vec2::new(64, 32), half),
        Collider::new(Vec2::new(64, 64), half),
    ];
    let delta = Vec2::new(72, 56);
    let nearest = actor.sweep_into(&colliders, delta);
    assert_eq!(nearest.hit.is_some(), true);
    let hit = nearest.hit.unwrap();
    assert_eq!(hit.collider, colliders[3]);
    assert_eq!(value(hit.delta.x), -40.);
    // The correction takes back the whole rest of the movement, five
    // ninths of it, along both axes.
    assert_eq!(hit.delta.y, Fraction { num: -40 * 56, den: 72 });
}
