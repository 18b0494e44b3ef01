//! Plain falling: things that are pulled down at a steady rate until they
//! would land on something.

use vstd::prelude::*;
use crate::math::{Vec2, Vec3};
use crate::step::{travel, travel_of, TimeStep};

verus! {

/// Nothing falls faster than this.
pub const TERMINAL_VELOCITY: i32 = -1000;

/// The number of ticks in a second.
pub const TICKS_PER_SECOND: u32 = 60;

/// The rectangle of the size `a_size` centred on `a_pos` and the one of the
/// size `b_size` centred on `b_pos` overlap: along both axes each begins
/// before the other ends.
pub open spec fn rectangles_overlap(a_pos: Vec3, a_size: Vec2, b_pos: Vec3, b_size: Vec2) -> bool {
    &&& 2 * a_pos.x - a_size.x < 2 * b_pos.x + b_size.x
    &&& 2 * a_pos.x + a_size.x > 2 * b_pos.x - b_size.x
    &&& 2 * a_pos.y - a_size.y < 2 * b_pos.y + b_size.y
    &&& 2 * a_pos.y + a_size.y > 2 * b_pos.y - b_size.y
}

/// Whether two rectangles, each given by its centre and its size, overlap.
pub fn collide(a_pos: Vec3, a_size: Vec2, b_pos: Vec3, b_size: Vec2) -> (r: bool)
    ensures
        r == rectangles_overlap(a_pos, a_size, b_pos, b_size),
{
    let (ax, ay) = (2 * (a_pos.x as i64), 2 * (a_pos.y as i64));
    let (bx, by) = (2 * (b_pos.x as i64), 2 * (b_pos.y as i64));
    ax - (a_size.x as i64) < bx + b_size.x as i64 && ax + a_size.x as i64 > bx - b_size.x as i64
        && ay - (a_size.y as i64) < by + b_size.y as i64 && ay + a_size.y as i64 > by
        - b_size.y as i64
}

/// What becomes of something that is pulled down for one tick.
#[derive(Clone, Copy, Debug, PartialEq, Eq, Structural)]
pub enum Fall {
    /// It would land on something: it stays where it is and has no
    /// velocity any more.
    Landed,
    /// It is at the height `y` and falls on at `velocity`.
    Falling { y: i32, velocity: i32 },
}

/// The velocity `velocity` after a tick of the pull `gravity`, no faster
/// downwards than `TERMINAL_VELOCITY`.
pub open spec fn pulled(velocity: int, gravity: int) -> int {
    if velocity - gravity < TERMINAL_VELOCITY {
        TERMINAL_VELOCITY as int
    } else {
        velocity - gravity
    }
}

/// The length of a tick.
pub open spec fn tick() -> TimeStep {
    TimeStep { num: 1, den: TICKS_PER_SECOND }
}

/// A rectangle of the size `size` at the height that `velocity` takes it
/// to from `translation` in one tick overlaps one of the first `count` of
/// `others`, each of them a centre and a size.
pub open spec fn lands(
    translation: Vec3,
    size: Vec2,
    velocity: int,
    others: Seq<(Vec3, Vec2)>,
    count: int,
) -> bool {
    exists|i: int|
        0 <= i < count && rectangles_overlap(
            Vec3 { y: (translation.y + travel(velocity, tick())) as i32, ..translation },
            size,
            (#[trigger] others[i]).0,
            others[i].1,
        )
}

/// What becomes of something of the size `size` at `translation` that
/// falls at `velocity` and is pulled by `gravity`, in a window of the
/// height `window_height` that is centred on the origin.
///
/// If at its new velocity it would get into one of `others` in this tick,
/// it has landed. Else it falls on at the new velocity; it moves by what
/// the old velocity covers in the tick, but only if that keeps it strictly
/// inside the window.
pub open spec fn fall_of(
    translation: Vec3,
    size: Vec2,
    velocity: int,
    gravity: int,
    others: Seq<(Vec3, Vec2)>,
    window_height: int,
) -> Fall {
    let new_velocity = pulled(velocity, gravity);
    if lands(translation, size, new_velocity, others, others.len() as int) {
        Fall::Landed
    } else {
        let new_y = translation.y + travel(velocity, tick());
        Fall::Falling {
            y: if 2 * new_y < window_height && 2 * new_y > -window_height {
                new_y as i32
            } else {
                translation.y
            },
            velocity: new_velocity as i32,
        }
    }
}

/// What can fall: a velocity and a pull whose difference is a velocity, at
/// a height from which one tick at the old or the new velocity leads to a
/// height.
pub open spec fn can_fall(translation: Vec3, velocity: int, gravity: int) -> bool {
    &&& i32::MIN <= velocity - gravity <= i32::MAX
    &&& i32::MIN <= translation.y + travel(velocity, tick()) <= i32::MAX
    &&& i32::MIN <= translation.y + travel(pulled(velocity, gravity), tick()) <= i32::MAX
}

/// Whether `gravity` can work on these.
pub fn may_fall(translation: Vec3, velocity: i32, pull: i32) -> (r: bool)
    ensures
        r == can_fall(translation, velocity as int, pull as int),
{
    let step = TimeStep { num: 1, den: TICKS_PER_SECOND };
    let slowed: i64 = velocity as i64 - pull as i64;
    if slowed < i32::MIN as i64 || slowed > i32::MAX as i64 {
        return false;
    }
    let new_velocity: i32 = if slowed < TERMINAL_VELOCITY as i64 {
        TERMINAL_VELOCITY
    } else {
        slowed as i32
    };
    let old_y: i128 = translation.y as i128 + travel_of(velocity, step);
    let new_y: i128 = translation.y as i128 + travel_of(new_velocity, step);
    i32::MIN as i128 <= old_y && old_y <= i32::MAX as i128 && i32::MIN as i128 <= new_y && new_y
        <= i32::MAX as i128
}

/// Pulls something down for one tick and says what becomes of it.
pub fn gravity(
    translation: Vec3,
    size: Vec2,
    velocity: i32,
    pull: i32,
    others: &Vec<(Vec3, Vec2)>,
    window_height: i32,
) -> (r: Fall)
    requires
        can_fall(translation, velocity as int, pull as int),
    ensures
        r == fall_of(
            translation,
            size,
            velocity as int,
            pull as int,
            others@,
            window_height as int,
        ),
{
    let step = TimeStep { num: 1, den: TICKS_PER_SECOND };
    let new_velocity: i32 = if velocity as i64 - (pull as i64) < TERMINAL_VELOCITY as i64 {
        TERMINAL_VELOCITY
    } else {
        velocity - pull
    };
    let target = Vec3 {
        x: translation.x,
        y: (translation.y as i128 + travel_of(new_velocity, step)) as i32,
        z: translation.z,
    };
    let mut i: usize = 0;
    while i < others.len()
        invariant
            i <= others@.len(),
            new_velocity == pulled(velocity as int, pull as int),
            target == (Vec3 {
                y: (translation.y + travel(new_velocity as int, tick())) as i32,
                ..translation
            }),
            !lands(translation, size, new_velocity as int, others@, i as int),
        decreases others@.len() - i,
    {
        if collide(target, size, others[i].0, others[i].1) {
            assert(lands(translation, size, new_velocity as int, others@, others@.len() as int));
            return Fall::Landed;
        }
        i = i + 1;
    }
    let new_y: i128 = translation.y as i128 + travel_of(velocity, step);
    let height: i128 = window_height as i128;
    Fall::Falling {
        y: if 2 * new_y < height && 2 * new_y > -height {
            new_y as i32
        } else {
            translation.y
        },
        velocity: new_velocity,
    }
}

} // verus!
