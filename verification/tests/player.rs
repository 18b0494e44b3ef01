use swept_aabb::body::{Placement, RigidBody};
use swept_aabb::math::{Vec2, Vec3};
use swept_aabb::player::{
    player_attack, player_movement, projectile_movement, Direction, Intents, Player,
    PlayerReadyAttack, PlayerState, Projectile, Speed, WinSize,
};
use swept_aabb::step::TimeStep;

fn keys() -> Intents {
    Intents {
        left: false,
        right: false,
        jump: false,
        down: false,
        attack: false,
        attack_released: false,
    }
}

fn grounded() -> RigidBody {
    let mut body = RigidBody::from_transform(Placement {
        translation: Vec3::new(0, 100, 10),
        scale: Vec3::new(1, 1, 1),
    });
    body.on_ground = true;
    body
}

fn tick() -> TimeStep {
    TimeStep::new(1, 60)
}

fn walking_speed() -> Speed {
    Speed::new(240, 0)
}

#[test]
fn directions_are_unit_steps() {
    assert_eq!(Direction::Left.vec2(), Vec2::new(-1, 0));
    assert_eq!(Direction::Right.vec2(), Vec2::new(1, 0));
    assert_eq!(Direction::Up.vec2(), Vec2::new(0, 1));
    assert_eq!(Direction::Down.vec2(), Vec2::new(0, -1));
}

#[test]
fn defaults() {
    let player = Player::default();
    assert_eq!(player.facing, Direction::Right);
    assert_eq!(player.state, PlayerState::Stand);
    assert_eq!(player.min_jump_speed, 200);
    assert_eq!(player.jump_speed, 410);
    assert_eq!(Speed::default(), Speed(Vec3::new(160, 160, 1)));
    assert_eq!(Speed::new(240, 0), Speed(Vec3::new(240, 0, 1)));
    let body = RigidBody::default();
    assert_eq!(body.on_ground, true);
    assert_eq!(body.at_ceiling, false);
    assert_eq!(body.position, Vec3::zero());
}

#[test]
fn standing_player_stays_put() {
    let mut player = Player::default();
    let mut body = grounded();
    body.speed = Vec3::new(5, 6, 7);
    player_movement(&keys(), tick(), &walking_speed(), &mut player, &mut body);
    assert_eq!(player.state, PlayerState::Stand);
    assert_eq!(body.speed, Vec3::zero());
    assert_eq!(body.position, Vec3::new(0, 100, 10));
}

#[test]
fn standing_player_starts_to_walk_jump_or_fall() {
    let mut player = Player::default();
    let mut body = grounded();
    player_movement(&Intents { left: true, ..keys() }, tick(), &walking_speed(), &mut player, &mut body);
    assert_eq!(player.state, PlayerState::Walk);
    assert_eq!(body.speed, Vec3::zero());

    // Left and right together are no direction.
    let mut player = Player::default();
    player_movement(
        &Intents { left: true, right: true, ..keys() },
        tick(),
        &walking_speed(),
        &mut player,
        &mut body,
    );
    assert_eq!(player.state, PlayerState::Stand);

    let mut player = Player::default();
    player_movement(&Intents { jump: true, ..keys() }, tick(), &walking_speed(), &mut player, &mut body);
    assert_eq!(player.state, PlayerState::Jump);
    assert_eq!(body.speed, Vec3::new(0, 410, 0));

    // No jump under a ceiling.
    let mut player = Player::default();
    let mut body = grounded();
    body.at_ceiling = true;
    player_movement(&Intents { jump: true, ..keys() }, tick(), &walking_speed(), &mut player, &mut body);
    assert_eq!(player.state, PlayerState::Stand);
    assert_eq!(body.speed, Vec3::zero());

    // Without ground it falls, whatever the keys say.
    let mut player = Player::default();
    let mut body = grounded();
    body.on_ground = false;
    player_movement(&Intents { right: true, ..keys() }, tick(), &walking_speed(), &mut player, &mut body);
    assert_eq!(player.state, PlayerState::Jump);
    assert_eq!(body.speed, Vec3::zero());
}

#[test]
fn standing_player_drops_through_platform() {
    let mut player = Player::default();
    let mut body = grounded();
    body.on_platform = true;
    player_movement(&Intents { down: true, ..keys() }, tick(), &walking_speed(), &mut player, &mut body);
    assert_eq!(player.state, PlayerState::Stand);
    assert_eq!(body.position, Vec3::new(0, 98, 10));

    let mut body = grounded();
    player_movement(&Intents { down: true, ..keys() }, tick(), &walking_speed(), &mut player, &mut body);
    assert_eq!(body.position, Vec3::new(0, 100, 10));
}

#[test]
fn walking_player_is_steered() {
    let mut player = Player { state: PlayerState::Walk, ..Player::default() };
    let mut body = grounded();
    player_movement(&Intents { left: true, ..keys() }, tick(), &walking_speed(), &mut player, &mut body);
    assert_eq!(player.state, PlayerState::Walk);
    assert_eq!(player.facing, Direction::Left);
    assert_eq!(body.speed, Vec3::new(-240, 0, 0));
    assert_eq!(body.scale, Vec3::new(-1, 1, 1));

    player_movement(&Intents { right: true, ..keys() }, tick(), &walking_speed(), &mut player, &mut body);
    assert_eq!(player.facing, Direction::Right);
    assert_eq!(body.speed, Vec3::new(240, 0, 0));
    assert_eq!(body.scale, Vec3::new(1, 1, 1));

    // A wall stops it, but it still turns.
    body.at_left_tile = true;
    player_movement(&Intents { left: true, ..keys() }, tick(), &walking_speed(), &mut player, &mut body);
    assert_eq!(player.facing, Direction::Left);
    assert_eq!(body.speed, Vec3::new(0, 0, 0));

    // No keys: it stands.
    player_movement(&keys(), tick(), &walking_speed(), &mut player, &mut body);
    assert_eq!(player.state, PlayerState::Stand);
    assert_eq!(player.facing, Direction::Left);
    assert_eq!(body.speed, Vec3::zero());
}

#[test]
fn walking_player_jumps_and_falls() {
    let mut player = Player { state: PlayerState::Walk, ..Player::default() };
    let mut body = grounded();
    player_movement(
        &Intents { right: true, jump: true, ..keys() },
        tick(),
        &walking_speed(),
        &mut player,
        &mut body,
    );
    assert_eq!(player.state, PlayerState::Jump);
    assert_eq!(body.speed, Vec3::new(240, 410, 0));

    let mut player = Player { state: PlayerState::Walk, ..Player::default() };
    let mut body = grounded();
    body.on_ground = false;
    player_movement(&Intents { right: true, ..keys() }, tick(), &walking_speed(), &mut player, &mut body);
    assert_eq!(player.state, PlayerState::Jump);
    assert_eq!(body.speed, Vec3::new(240, 0, 0));

    // Stopping and jumping at once is a jump straight up.
    let mut player = Player { state: PlayerState::Walk, ..Player::default() };
    let mut body = grounded();
    body.speed = Vec3::new(240, 0, 0);
    player_movement(&Intents { jump: true, ..keys() }, tick(), &walking_speed(), &mut player, &mut body);
    assert_eq!(player.state, PlayerState::Jump);
    assert_eq!(body.speed, Vec3::new(0, 410, 0));
}

#[test]
fn player_in_the_air_falls() {
    let mut player = Player { state: PlayerState::Jump, ..Player::default() };
    let mut body = grounded();
    body.on_ground = false;
    body.speed = Vec3::new(0, 410, 0);
    // 1030 / 60 is 17 and a sixth.
    player_movement(&Intents { jump: true, ..keys() }, tick(), &walking_speed(), &mut player, &mut body);
    assert_eq!(player.state, PlayerState::Jump);
    assert_eq!(body.speed, Vec3::new(0, 393, 0));

    // The key let go cuts the rise.
    player_movement(&keys(), tick(), &walking_speed(), &mut player, &mut body);
    assert_eq!(body.speed, Vec3::new(0, 200, 0));
    player_movement(&keys(), tick(), &walking_speed(), &mut player, &mut body);
    assert_eq!(body.speed, Vec3::new(0, 183, 0));

    // The fall has a limit.
    body.speed = Vec3::new(0, -890, 0);
    player_movement(&Intents { left: true, ..keys() }, tick(), &walking_speed(), &mut player, &mut body);
    assert_eq!(body.speed, Vec3::new(-240, -900, 0));
    assert_eq!(player.facing, Direction::Left);
    player_movement(&keys(), tick(), &walking_speed(), &mut player, &mut body);
    assert_eq!(body.speed, Vec3::new(0, -900, 0));
    body.speed = Vec3::new(0, i32::MIN, 0);
    player_movement(&keys(), tick(), &walking_speed(), &mut player, &mut body);
    assert_eq!(body.speed, Vec3::new(0, -900, 0));

    // A ceiling cuts the rise though the key is held.
    body.speed = Vec3::new(0, 410, 0);
    body.at_ceiling = true;
    player_movement(&Intents { jump: true, ..keys() }, tick(), &walking_speed(), &mut player, &mut body);
    assert_eq!(body.speed, Vec3::new(0, 200, 0));
}

#[test]
fn player_in_the_air_lands() {
    let mut player = Player { state: PlayerState::Jump, ..Player::default() };
    let mut body = grounded();
    body.speed = Vec3::new(240, -300, 0);
    player_movement(&keys(), tick(), &walking_speed(), &mut player, &mut body);
    assert_eq!(player.state, PlayerState::Stand);
    assert_eq!(body.speed, Vec3::zero());

    let mut player = Player { state: PlayerState::Jump, ..Player::default() };
    body.speed = Vec3::new(0, -300, 0);
    player_movement(&Intents { right: true, ..keys() }, tick(), &walking_speed(), &mut player, &mut body);
    assert_eq!(player.state, PlayerState::Walk);
    assert_eq!(body.speed, Vec3::new(240, 0, 0));
}

#[test]
fn player_shoots_once() {
    let player = Player { facing: Direction::Right, ..Player::default() };
    let mut ready = PlayerReadyAttack(true);
    let shot = player_attack(
        &Intents { attack: true, ..keys() },
        Vec3::new(30, 40, 10),
        &mut ready,
        &player,
    )
    .unwrap();
    assert_eq!(ready, PlayerReadyAttack(false));
    assert_eq!(shot.placement.translation, Vec3::new(30, 40, 1));
    assert_eq!(shot.placement.scale, Vec3::new(-1, 1, 1));
    assert_eq!(shot.projectile, Projectile { direction: Direction::Right });
    assert_eq!(shot.speed, Speed(Vec3::new(1000, 1000, 1)));

    // Not ready: nothing.
    let none = player_attack(
        &Intents { attack: true, ..keys() },
        Vec3::new(30, 40, 10),
        &mut ready,
        &player,
    );
    assert_eq!(none, None);
    assert_eq!(ready, PlayerReadyAttack(false));

    // Ready, but not asked for: nothing.
    let mut ready = PlayerReadyAttack(true);
    assert_eq!(player_attack(&keys(), Vec3::zero(), &mut ready, &player), None);
    assert_eq!(ready, PlayerReadyAttack(true));

    let left = Player { facing: Direction::Left, ..Player::default() };
    let shot = player_attack(
        &Intents { attack: true, attack_released: true, ..keys() },
        Vec3::zero(),
        &mut ready,
        &left,
    )
    .unwrap();
    assert_eq!(shot.placement.scale, Vec3::new(1, 1, 1));
    assert_eq!(ready, PlayerReadyAttack(true));
}

#[test]
fn shot_flies_until_it_leaves_the_window() {
    let window = WinSize { w: 1400, h: 768 };
    let speed = Speed::new(1000, 1000);
    // 1000 / 60 is 16 and two thirds: 17 units a tick.
    let mut at = Vec3::new(680, 0, 1);
    let right = Projectile { direction: Direction::Right };
    assert_eq!(projectile_movement(&right, &speed, &mut at, &window, tick()), false);
    assert_eq!(at, Vec3::new(697, 0, 1));
    assert_eq!(projectile_movement(&right, &speed, &mut at, &window, tick()), true);
    assert_eq!(at, Vec3::new(714, 0, 1));

    let mut at = Vec3::new(-690, 5, 1);
    let left = Projectile { direction: Direction::Left };
    assert_eq!(projectile_movement(&left, &speed, &mut at, &window, tick()), true);
    assert_eq!(at, Vec3::new(-707, 5, 1));

    let mut at = Vec3::new(0, 367, 1);
    let up = Projectile { direction: Direction::Up };
    assert_eq!(projectile_movement(&up, &speed, &mut at, &window, tick()), false);
    assert_eq!(at, Vec3::new(0, 384, 1));
    assert_eq!(projectile_movement(&up, &speed, &mut at, &window, tick()), true);

    let mut at = Vec3::new(0, -380, 1);
    let down = Projectile { direction: Direction::Down };
    assert_eq!(projectile_movement(&down, &speed, &mut at, &window, tick()), true);
    assert_eq!(at, Vec3::new(0, -397, 1));
}
