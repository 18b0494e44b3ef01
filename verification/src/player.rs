//! The player: what the keys ask for, and what becomes of it given what the
//! body touches.

use vstd::prelude::*;
use crate::body::{Placement, RigidBody};
use crate::math::{abs, lemma_product_bound, lemma_round_div_between, Vec2, Vec3};
use crate::step::{travel, travel_of, TimeStep, PLATFORM_THRESHOLD};

verus! {

/// What a second of falling adds to the velocity of a player in the air.
pub const GRAVITY: i32 = -1030;

/// A player does not fall faster than this.
pub const MAX_FALLING_SPEED: i32 = -900;

/// How much the pictures of the game are enlarged.
pub const SPRITE_SCALE: i32 = 2;

/// The velocity of a shot along each axis.
pub const SHOT_SPEED: i32 = 1000;

#[derive(Clone, Copy, Debug, PartialEq, Eq, Structural)]
pub enum Direction {
    Left,
    Right,
    Up,
    Down,
}

impl Direction {
    /// The step of one unit in this direction.
    pub open spec fn unit(self) -> Vec2 {
        match self {
            Direction::Left => Vec2 { x: -1i32, y: 0 },
            Direction::Right => Vec2 { x: 1, y: 0 },
            Direction::Up => Vec2 { x: 0, y: 1 },
            Direction::Down => Vec2 { x: 0, y: -1i32 },
        }
    }

    pub fn vec2(&self) -> (r: Vec2)
        ensures
            r == self.unit(),
    {
        match self {
            Direction::Left => Vec2::new(-1, 0),
            Direction::Right => Vec2::new(1, 0),
            Direction::Up => Vec2::new(0, 1),
            Direction::Down => Vec2::new(0, -1),
        }
    }
}

#[derive(Clone, Copy, Debug, PartialEq, Eq, Structural)]
pub enum PlayerState {
    Stand,
    Walk,
    Jump,
}

#[derive(Clone, Copy, Debug, PartialEq, Eq, Structural)]
pub struct Player {
    pub facing: Direction,
    pub state: PlayerState,
    /// The upward velocity that a jump is cut down to when the key is let
    /// go.
    pub min_jump_speed: i32,
    /// The upward velocity that a jump begins with.
    pub jump_speed: i32,
}

impl Default for Player {
    fn default() -> (r: Player)
        ensures
            r == (Player {
                facing: Direction::Right,
                state: PlayerState::Stand,
                min_jump_speed: 200,
                jump_speed: 410,
            }),
    {
        Player {
            facing: Direction::Right,
            state: PlayerState::Stand,
            min_jump_speed: 200,
            jump_speed: 410,
        }
    }
}

/// Whether the player may shoot.
#[derive(Clone, Copy, Debug, PartialEq, Eq, Structural)]
pub struct PlayerReadyAttack(pub bool);

/// How fast something moves when it moves, along each axis.
#[derive(Clone, Copy, Debug, PartialEq, Eq, Structural)]
pub struct Speed(pub Vec3);

impl Speed {
    pub fn new(x: i32, y: i32) -> (r: Speed)
        ensures
            r == Speed(Vec3 { x, y, z: 1 }),
    {
        Speed(Vec3::new(x, y, 1))
    }
}

impl Default for Speed {
    fn default() -> (r: Speed)
        ensures
            r == Speed(Vec3 { x: 160, y: 160, z: 1 }),
    {
        Speed(Vec3::new(160, 160, 1))
    }
}

/// A shot in flight.
#[derive(Clone, Copy, Debug, PartialEq, Eq, Structural)]
pub struct Projectile {
    pub direction: Direction,
}

/// The size of the window.
#[derive(Clone, Copy, Debug, PartialEq, Eq, Structural)]
pub struct WinSize {
    pub w: i32,
    pub h: i32,
}

/// What the keys ask for at one moment.
#[derive(Clone, Copy, Debug, PartialEq, Eq, Structural)]
pub struct Intents {
    pub left: bool,
    pub right: bool,
    pub jump: bool,
    pub down: bool,
    pub attack: bool,
    /// The key to attack was let go at this moment.
    pub attack_released: bool,
}

impl Intents {
    /// One of left and right is asked for, and not the other.
    pub open spec fn steers(self) -> bool {
        self.left != self.right
    }
}

/// The body as the keys for left and right turn it while the player walks
/// or is in the air: towards the one that is asked for, at the speed
/// `speed` unless a wall is in the way, its picture facing that way. Where
/// neither or both are asked for the body is left as it is.
pub open spec fn steered(intents: Intents, speed: Speed, body: RigidBody) -> RigidBody {
    if !intents.steers() {
        body
    } else if intents.right {
        RigidBody {
            speed: Vec3 { x: if body.at_right_tile { 0 } else { speed.0.x }, ..body.speed },
            scale: Vec3 { x: abs(body.scale.x as int) as i32, ..body.scale },
            ..body
        }
    } else {
        RigidBody {
            speed: Vec3 {
                x: if body.at_left_tile { 0 } else { (-speed.0.x) as i32 },
                ..body.speed
            },
            scale: Vec3 { x: (-abs(body.scale.x as int)) as i32, ..body.scale },
            ..body
        }
    }
}

/// The way the player faces after the keys for left and right have been
/// looked at.
pub open spec fn faced(intents: Intents, facing: Direction) -> Direction {
    if !intents.steers() {
        facing
    } else if intents.right {
        Direction::Right
    } else {
        Direction::Left
    }
}

/// The vertical velocity of a player in the air after a tick of length
/// `dt`: gravity has pulled, the fall is no faster than
/// `MAX_FALLING_SPEED`, and the velocity is cut down to `min_jump_speed`
/// if the body is at a ceiling, or if it rises and the key to jump is not
/// held.
pub open spec fn fallen(
    speed_y: int,
    min_jump_speed: int,
    at_ceiling: bool,
    held: bool,
    dt: TimeStep,
) -> int {
    let pulled = speed_y + travel(GRAVITY as int, dt);
    let capped = if pulled < MAX_FALLING_SPEED { MAX_FALLING_SPEED as int } else { pulled };
    if (at_ceiling || (!held && capped > 0)) && capped > min_jump_speed {
        min_jump_speed
    } else {
        capped
    }
}

/// A player that stands, after one tick.
///
/// It stands still. Without ground under it, it is in the air. With one
/// of left and right asked for it walks. Else, if a jump is asked for and
/// no ceiling is in the way, it jumps; else, if down is asked for and it
/// stands on a platform, it drops through it.
pub open spec fn stood(intents: Intents, player: Player, body: RigidBody) -> (Player, RigidBody) {
    let still = RigidBody { speed: Vec3 { x: 0, y: 0, z: 0 }, ..body };
    if !body.on_ground {
        (Player { state: PlayerState::Jump, ..player }, still)
    } else if intents.steers() {
        (Player { state: PlayerState::Walk, ..player }, still)
    } else if intents.jump && !body.at_ceiling {
        (
            Player { state: PlayerState::Jump, ..player },
            RigidBody { speed: Vec3 { x: 0, y: player.jump_speed, z: 0 }, ..body },
        )
    } else if intents.down && body.on_platform {
        (
            player,
            RigidBody {
                position: Vec3 {
                    y: (body.position.y - PLATFORM_THRESHOLD) as i32,
                    ..body.position
                },
                ..still
            },
        )
    } else {
        (player, still)
    }
}

/// A player that walks, after one tick.
///
/// With neither or both of left and right asked for it stops and stands;
/// else it is steered. After that, if a jump is asked for and no ceiling
/// is in the way, it jumps; else, without ground under it, it is in the
/// air.
pub open spec fn walked(intents: Intents, speed: Speed, player: Player, body: RigidBody) -> (
    Player,
    RigidBody,
) {
    let turned = if intents.steers() {
        steered(intents, speed, body)
    } else {
        RigidBody { speed: Vec3 { x: 0, y: 0, z: 0 }, ..body }
    };
    let state = if intents.steers() {
        player.state
    } else {
        PlayerState::Stand
    };
    let facing = faced(intents, player.facing);
    if intents.jump && !body.at_ceiling {
        (
            Player { state: PlayerState::Jump, facing, ..player },
            RigidBody { speed: Vec3 { y: player.jump_speed, ..turned.speed }, ..turned },
        )
    } else if !body.on_ground {
        (Player { state: PlayerState::Jump, facing, ..player }, turned)
    } else {
        (Player { state, facing, ..player }, turned)
    }
}

/// A player in the air, after one tick of length `dt`.
///
/// It falls as `fallen` says and is steered, standing still along x where
/// neither or both of left and right are asked for. With ground under it,
/// it has landed: it stands still if it is not steered, and else walks on
/// without vertical velocity.
pub open spec fn jumped(
    intents: Intents,
    dt: TimeStep,
    speed: Speed,
    player: Player,
    body: RigidBody,
) -> (Player, RigidBody) {
    let speed_y = fallen(
        body.speed.y as int,
        player.min_jump_speed as int,
        body.at_ceiling,
        intents.jump,
        dt,
    ) as i32;
    let falling = RigidBody { speed: Vec3 { y: speed_y, ..body.speed }, ..body };
    let turned = if intents.steers() {
        steered(intents, speed, falling)
    } else {
        RigidBody { speed: Vec3 { x: 0, ..falling.speed }, ..falling }
    };
    let facing = faced(intents, player.facing);
    if !body.on_ground {
        (Player { facing, ..player }, turned)
    } else if intents.steers() {
        (
            Player { state: PlayerState::Walk, facing, ..player },
            RigidBody { speed: Vec3 { y: 0, ..turned.speed }, ..turned },
        )
    } else {
        (
            Player { state: PlayerState::Stand, facing, ..player },
            RigidBody { speed: Vec3 { x: 0, y: 0, z: 0 }, ..turned },
        )
    }
}

/// The player and its body after one tick of length `dt` in which the keys
/// ask for `intents`.
pub open spec fn moved(
    intents: Intents,
    dt: TimeStep,
    speed: Speed,
    player: Player,
    body: RigidBody,
) -> (Player, RigidBody) {
    match player.state {
        PlayerState::Stand => stood(intents, player, body),
        PlayerState::Walk => walked(intents, speed, player, body),
        PlayerState::Jump => jumped(intents, dt, speed, player, body),
    }
}

/// What `player_movement` can work on: the tick has a length, and nothing
/// that it negates or lowers is at the very end of its range.
pub open spec fn movable(dt: TimeStep, speed: Speed, body: RigidBody) -> bool {
    &&& dt.den > 0
    &&& speed.0.x > i32::MIN
    &&& body.scale.x > i32::MIN
    &&& body.position.y >= i32::MIN + PLATFORM_THRESHOLD
}

/// Whether `player_movement` can work on this body.
pub fn can_move(dt: TimeStep, speed: &Speed, body: &RigidBody) -> (r: bool)
    ensures
        r == movable(dt, *speed, *body),
{
    dt.den > 0 && speed.0.x > i32::MIN && body.scale.x > i32::MIN && body.position.y >= i32::MIN
        + PLATFORM_THRESHOLD
}

/// Turns a body as the keys for left and right ask.
fn steer(intents: &Intents, speed: &Speed, player: &mut Player, body: &mut RigidBody)
    requires
        intents.steers(),
        speed.0.x > i32::MIN,
        old(body).scale.x > i32::MIN,
    ensures
        *final(body) == steered(*intents, *speed, *old(body)),
        *final(player) == (Player { facing: faced(*intents, old(player).facing), ..*old(player) }),
{
    let size: i32 = if body.scale.x < 0 { -body.scale.x } else { body.scale.x };
    if intents.right {
        body.speed.x = if body.at_right_tile { 0 } else { speed.0.x };
        body.scale.x = size;
        player.facing = Direction::Right;
    } else {
        body.speed.x = if body.at_left_tile { 0 } else { -speed.0.x };
        body.scale.x = -size;
        player.facing = Direction::Left;
    }
}

/// Computes the vertical velocity of a player in the air after a tick.
fn fall(speed_y: i32, min_jump_speed: i32, at_ceiling: bool, held: bool, dt: TimeStep) -> (r: i32)
    requires
        dt.den > 0,
    ensures
        r == fallen(speed_y as int, min_jump_speed as int, at_ceiling, held, dt),
        r >= MAX_FALLING_SPEED || r == min_jump_speed,
{
    let pull: i128 = travel_of(GRAVITY, dt);
    proof {
        // The pull is at most 1030 times 2^32 downwards, and never upwards.
        let product = GRAVITY * dt.num;
        lemma_product_bound(GRAVITY as int, dt.num as int, 1030, 0x1_0000_0000);
        assert(-(1030 * 0x1_0000_0000) * dt.den <= product <= 0 * dt.den) by (nonlinear_arith)
            requires
                -(1030 * 0x1_0000_0000) <= product,
                product == GRAVITY * dt.num,
                dt.num >= 0,
                dt.den >= 1,
        ;
        lemma_round_div_between(product, dt.den as int, -(1030 * 0x1_0000_0000), 0);
    }
    let pulled: i128 = speed_y as i128 + pull;
    let capped: i128 = if pulled < MAX_FALLING_SPEED as i128 {
        MAX_FALLING_SPEED as i128
    } else {
        pulled
    };
    if (at_ceiling || (!held && capped > 0)) && capped > min_jump_speed as i128 {
        min_jump_speed
    } else {
        capped as i32
    }
}

/// Moves a player that stands.
fn stand(intents: &Intents, player: &mut Player, rigidbody: &mut RigidBody)
    requires
        old(player).state == PlayerState::Stand,
        old(rigidbody).position.y >= i32::MIN + PLATFORM_THRESHOLD,
    ensures
        (*final(player), *final(rigidbody)) == stood(*intents, *old(player), *old(rigidbody)),
{
    rigidbody.speed = Vec3::zero();
    if !rigidbody.on_ground {
        player.state = PlayerState::Jump;
    } else if intents.left != intents.right {
        player.state = PlayerState::Walk;
    } else if intents.jump && !rigidbody.at_ceiling {
        rigidbody.speed.y = player.jump_speed;
        player.state = PlayerState::Jump;
    } else if intents.down && rigidbody.on_platform {
        rigidbody.position.y = rigidbody.position.y - PLATFORM_THRESHOLD;
    }
}

/// Moves a player that walks.
fn walk(intents: &Intents, speed: &Speed, player: &mut Player, rigidbody: &mut RigidBody)
    requires
        old(player).state == PlayerState::Walk,
        speed.0.x > i32::MIN,
        old(rigidbody).scale.x > i32::MIN,
    ensures
        (*final(player), *final(rigidbody)) == walked(
            *intents,
            *speed,
            *old(player),
            *old(rigidbody),
        ),
{
    if intents.left != intents.right {
        steer(intents, speed, player, rigidbody);
    } else {
        player.state = PlayerState::Stand;
        rigidbody.speed = Vec3::zero();
    }
    if intents.jump && !rigidbody.at_ceiling {
        rigidbody.speed.y = player.jump_speed;
        player.state = PlayerState::Jump;
    } else if !rigidbody.on_ground {
        player.state = PlayerState::Jump;
    }
}

/// Moves a player that is in the air.
fn jump(
    intents: &Intents,
    dt: TimeStep,
    speed: &Speed,
    player: &mut Player,
    rigidbody: &mut RigidBody,
)
    requires
        old(player).state == PlayerState::Jump,
        dt.den > 0,
        speed.0.x > i32::MIN,
        old(rigidbody).scale.x > i32::MIN,
    ensures
        (*final(player), *final(rigidbody)) == jumped(
            *intents,
            dt,
            *speed,
            *old(player),
            *old(rigidbody),
        ),
{
    rigidbody.speed.y = fall(
        rigidbody.speed.y,
        player.min_jump_speed,
        rigidbody.at_ceiling,
        intents.jump,
        dt,
    );
    if intents.left != intents.right {
        steer(intents, speed, player, rigidbody);
    } else {
        rigidbody.speed.x = 0;
    }
    if rigidbody.on_ground {
        if intents.left != intents.right {
            player.state = PlayerState::Walk;
            rigidbody.speed.y = 0;
        } else {
            player.state = PlayerState::Stand;
            rigidbody.speed = Vec3::zero();
        }
    }
}

/// Lets the keys move the player for one tick of length `dt`: changes
/// what the player does, which way it faces, and the velocity, the facing
/// and, where it drops through a platform, the position of its body.
pub fn player_movement(
    intents: &Intents,
    dt: TimeStep,
    speed: &Speed,
    player: &mut Player,
    rigidbody: &mut RigidBody,
)
    requires
        movable(dt, *speed, *old(rigidbody)),
    ensures
        (*final(player), *final(rigidbody)) == moved(
            *intents,
            dt,
            *speed,
            *old(player),
            *old(rigidbody),
        ),
{
    match player.state {
        PlayerState::Stand => stand(intents, player, rigidbody),
        PlayerState::Walk => walk(intents, speed, player, rigidbody),
        PlayerState::Jump => jump(intents, dt, speed, player, rigidbody),
    }
}

/// A shot as it leaves the player.
#[derive(Clone, Copy, Debug, PartialEq, Eq, Structural)]
pub struct Shot {
    pub placement: Placement,
    pub projectile: Projectile,
    pub speed: Speed,
}

/// The shot of a player that is drawn at `translation` and faces `facing`:
/// it starts where the player is, on the first layer, flies the way the
/// player faces, and its picture is turned round if that is to the right.
pub open spec fn shot_of(translation: Vec3, facing: Direction) -> Shot {
    Shot {
        placement: Placement {
            translation: Vec3 { x: translation.x, y: translation.y, z: 1 },
            scale: Vec3 {
                x: if facing == Direction::Right {
                    (-SPRITE_SCALE / 2) as i32
                } else {
                    (SPRITE_SCALE / 2) as i32
                },
                y: (SPRITE_SCALE / 2) as i32,
                z: 1,
            },
        },
        projectile: Projectile { direction: facing },
        speed: Speed(Vec3 { x: SHOT_SPEED, y: SHOT_SPEED, z: 1 }),
    }
}

/// Lets the player shoot if it is ready and the keys ask for it. A player
/// that has shot is ready again only if the key was let go at that very
/// moment.
pub fn player_attack(
    intents: &Intents,
    translation: Vec3,
    ready_attack: &mut PlayerReadyAttack,
    player: &Player,
) -> (r: Option<Shot>)
    ensures
        old(ready_attack).0 && intents.attack ==> r == Some(shot_of(translation, player.facing))
            && final(ready_attack).0 == intents.attack_released,
        !(old(ready_attack).0 && intents.attack) ==> r.is_none() && *final(ready_attack) == *old(
            ready_attack,
        ),
{
    if ready_attack.0 && intents.attack {
        let turn: i32 = if player.facing == Direction::Right { -1 } else { 1 };
        let shot = Shot {
            placement: Placement {
                translation: Vec3::new(translation.x, translation.y, 1),
                scale: Vec3::new(turn * SPRITE_SCALE / 2, SPRITE_SCALE / 2, 1),
            },
            projectile: Projectile { direction: player.facing },
            speed: Speed::new(SHOT_SPEED, SHOT_SPEED),
        };
        ready_attack.0 = intents.attack_released;
        Some(shot)
    } else {
        None
    }
}

/// Where a shot that flies in `direction` at `speed` is after a tick of
/// length `dt`, along x and y.
pub open spec fn flown(direction: Direction, speed: Speed, translation: Vec3, dt: TimeStep) -> (
    int,
    int,
) {
    match direction {
        Direction::Right => (translation.x + travel(speed.0.x as int, dt), translation.y as int),
        Direction::Left => (translation.x - travel(speed.0.x as int, dt), translation.y as int),
        Direction::Up => (translation.x as int, translation.y + travel(speed.0.y as int, dt)),
        Direction::Down => (translation.x as int, translation.y - travel(speed.0.y as int, dt)),
    }
}

/// The place `translation` is outside a window of the size `win_size` that
/// is centred on the origin.
pub open spec fn outside(translation: Vec3, win_size: WinSize) -> bool {
    ||| 2 * translation.x > win_size.w
    ||| 2 * translation.x < -win_size.w
    ||| 2 * translation.y > win_size.h
    ||| 2 * translation.y < -win_size.h
}

/// Whether a shot can fly for a tick: the tick has a length, and where
/// the shot gets to is a place.
pub open spec fn flyable(
    direction: Direction,
    speed: Speed,
    translation: Vec3,
    dt: TimeStep,
) -> bool {
    &&& dt.den > 0
    &&& i32::MIN <= flown(direction, speed, translation, dt).0 <= i32::MAX
    &&& i32::MIN <= flown(direction, speed, translation, dt).1 <= i32::MAX
}

/// Whether `projectile_movement` can work on this shot.
pub fn can_fly(
    projectile: &Projectile,
    speed: &Speed,
    translation: Vec3,
    dt: TimeStep,
) -> (r: bool)
    ensures
        r == flyable(projectile.direction, *speed, translation, dt),
{
    if dt.den == 0 {
        return false;
    }
    let from_x: i128 = translation.x as i128;
    let from_y: i128 = translation.y as i128;
    let (x, y): (i128, i128) = match projectile.direction {
        Direction::Right => (from_x + travel_of(speed.0.x, dt), from_y),
        Direction::Left => (from_x - travel_of(speed.0.x, dt), from_y),
        Direction::Up => (from_x, from_y + travel_of(speed.0.y, dt)),
        Direction::Down => (from_x, from_y - travel_of(speed.0.y, dt)),
    };
    i32::MIN as i128 <= x && x <= i32::MAX as i128 && i32::MIN as i128 <= y && y <= i32::MAX as i128
}

/// Lets a shot fly for one tick of length `dt` and reports whether it has
/// left the window and is to be taken out of the world.
pub fn projectile_movement(
    projectile: &Projectile,
    speed: &Speed,
    translation: &mut Vec3,
    win_size: &WinSize,
    dt: TimeStep,
) -> (r: bool)
    requires
        flyable(projectile.direction, *speed, *old(translation), dt),
    ensures
        final(translation).x == flown(projectile.direction, *speed, *old(translation), dt).0,
        final(translation).y == flown(projectile.direction, *speed, *old(translation), dt).1,
        final(translation).z == old(translation).z,
        r == outside(*final(translation), *win_size),
{
    match projectile.direction {
        Direction::Right => {
            translation.x = (translation.x as i128 + travel_of(speed.0.x, dt)) as i32;
        },
        Direction::Left => {
            translation.x = (translation.x as i128 - travel_of(speed.0.x, dt)) as i32;
        },
        Direction::Up => {
            translation.y = (translation.y as i128 + travel_of(speed.0.y, dt)) as i32;
        },
        Direction::Down => {
            translation.y = (translation.y as i128 - travel_of(speed.0.y, dt)) as i32;
        },
    }
    let x: i64 = 2 * (translation.x as i64);
    let y: i64 = 2 * (translation.y as i64);
    x > win_size.w as i64 || x < -(win_size.w as i64) || y > win_size.h as i64 || y < -(win_size.h
        as i64)
}

} // verus!
