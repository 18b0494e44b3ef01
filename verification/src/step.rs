//! One tick of a body: move it by its velocity, stop it at what it runs
//! into, and record what it touches. Then publish where it has got to.

use vstd::prelude::*;
use crate::body::{CollisionEvent, Placement, RigidBody};
use crate::collider::Collider;
use crate::hit::{Hit, Sweep};
use crate::math::{
    abs, lemma_product_bound, lemma_round_div_between, lemma_round_div_nearest, round_div,
    wide_product, Fraction, Vec2, Vec3,
};
use crate::sweep::{is_candidate, lemma_nearest_hit_shape, nearest_among, rest_taken_back};

verus! {

/// No coordinate of a body, no half-extent of its box and no movement of one
/// tick may be larger than this, so that everything a tick computes is a
/// representable point: 2^28.
pub const WORLD_LIMIT: i32 = 0x1000_0000;

/// A body counts as standing on a one-way platform while its lower side is
/// no farther than this from the top of the platform.
pub const PLATFORM_THRESHOLD: i32 = 2;

/// The length of a tick in seconds, as the fraction `num / den`.
#[derive(Clone, Copy, Debug, PartialEq, Eq, Structural)]
pub struct TimeStep {
    pub num: u32,
    pub den: u32,
}

/// How far something with velocity `speed` gets along one axis in a tick of
/// length `dt`, rounded to whole units, a tie going away from zero.
pub open spec fn travel(speed: int, dt: TimeStep) -> int {
    round_div(speed * dt.num, dt.den as int)
}

/// The movement of one tick of something with velocity `speed`.
pub open spec fn step_delta(speed: Vec3, dt: TimeStep) -> Vec2 {
    Vec2 { x: travel(speed.x as int, dt) as i32, y: travel(speed.y as int, dt) as i32 }
}

/// A tick can be computed for this body: the tick has a length, the box of
/// the body has no negative half-extent, and position, half-extent and the
/// movement of the tick are within `WORLD_LIMIT`.
pub open spec fn step_ready(body: RigidBody, half: Vec2, dt: TimeStep) -> bool {
    &&& dt.den > 0
    &&& 0 <= half.x <= WORLD_LIMIT
    &&& 0 <= half.y <= WORLD_LIMIT
    &&& abs(body.position.x as int) <= WORLD_LIMIT
    &&& abs(body.position.y as int) <= WORLD_LIMIT
    &&& abs(travel(body.speed.x as int, dt)) <= WORLD_LIMIT
    &&& abs(travel(body.speed.y as int, dt)) <= WORLD_LIMIT
}

/// The position `delta` away from `position`, on the same layer.
pub open spec fn advanced(position: Vec3, delta: Vec2) -> Vec3 {
    Vec3 { x: (position.x + delta.x) as i32, y: (position.y + delta.y) as i32, z: position.z }
}

/// The position `at` is no farther along either axis than a movement by
/// `delta` from `start` leads, is not behind `start`, and is on the same
/// layer.
pub open spec fn lies_between(start: Vec3, delta: Vec2, at: Vec3) -> bool {
    &&& delta.x >= 0 ==> start.x <= at.x <= start.x + delta.x
    &&& delta.x <= 0 ==> start.x + delta.x <= at.x <= start.x
    &&& delta.y >= 0 ==> start.y <= at.y <= start.y + delta.y
    &&& delta.y <= 0 ==> start.y + delta.y <= at.y <= start.y
    &&& at.z == start.z
}

/// The position that the correction of `hit` takes a body at `position` to,
/// rounded to whole units, a tie going away from zero.
pub open spec fn corrected(position: Vec3, hit: Hit) -> Vec3 {
    Vec3 {
        x: round_div(
            position.x * hit.delta.x.den + hit.delta.x.num,
            hit.delta.x.den as int,
        ) as i32,
        y: round_div(
            position.y * hit.delta.y.den + hit.delta.y.num,
            hit.delta.y.den as int,
        ) as i32,
        z: position.z,
    }
}

/// What a body at `position` with half-extent `half` runs into when it is
/// moved by `delta`.
pub open spec fn probe(
    position: Vec3,
    half: Vec2,
    colliders: Seq<Collider>,
    own: Option<usize>,
    delta: Vec2,
) -> Sweep {
    nearest_among(
        Collider::at_corner(position, half),
        colliders,
        own,
        delta,
        colliders.len() as int,
    )
}

/// The body after the contact `hit` has been taken note of.
///
/// A correction to the right means a wall on the left, one to the left a
/// wall on the right. Only a correction that is neither says anything about
/// ground and ceiling: upwards means ground below, downwards a ceiling
/// above. The velocity along the axis of the correction is set to zero where
/// it runs against the correction.
pub open spec fn noted(body: RigidBody, hit: Hit) -> RigidBody {
    let left = hit.delta.x.num > 0;
    let right = hit.delta.x.num < 0;
    let aside = left || right;
    let below = !aside && hit.delta.y.num > 0;
    let above = !aside && hit.delta.y.num < 0;
    RigidBody {
        at_left_tile: left,
        at_right_tile: right,
        on_ground: if aside { body.on_ground } else { below },
        at_ceiling: if aside { body.at_ceiling } else { above },
        speed: Vec3 {
            x: if (left && body.speed.x < 0) || (right && body.speed.x > 0) {
                0
            } else {
                body.speed.x
            },
            y: if below || above { 0 } else { body.speed.y },
            z: body.speed.z,
        },
        ..body
    }
}

/// The box `collider` is a one-way platform, and a body at `position` with
/// half-extent `half` is over it and has its lower side within
/// `PLATFORM_THRESHOLD` of its top.
pub open spec fn rests_on(position: Vec3, half: Vec2, collider: Collider) -> bool {
    &&& collider.top
    &&& !collider.bottom
    &&& !collider.degenerate()
    &&& abs(position.x + half.x - collider.center.x) < half.x + collider.half.x
    &&& abs(position.y - (collider.center.y + collider.half.y)) <= PLATFORM_THRESHOLD
}

/// A body at `position` with half-extent `half` rests on one of the
/// candidates.
pub open spec fn on_some_platform(
    position: Vec3,
    half: Vec2,
    colliders: Seq<Collider>,
    own: Option<usize>,
) -> bool {
    exists|i: int|
        is_candidate(colliders, own, i) && rests_on(position, half, #[trigger] colliders[i])
}

/// A contact flag after it has been tested again: a flag that was set
/// before the tick and is still set stays set only if a short movement
/// by `delta` from where the body is now runs into something.
pub open spec fn retested(
    was: bool,
    is: bool,
    position: Vec3,
    half: Vec2,
    colliders: Seq<Collider>,
    own: Option<usize>,
    delta: Vec2,
) -> bool {
    if was && is {
        probe(position, half, colliders, own, delta).hit.is_some()
    } else {
        is
    }
}

/// The body `settled` after its contact flags have been looked over at the
/// end of a tick that moved it by `delta` and began with the flags of
/// `before`: each of the four flags for ground, ceiling and walls is tested
/// again by a movement of one or two units towards what it stands for, and
/// the body is on a platform if it did not move upwards and rests on one.
pub open spec fn looked_over(
    before: RigidBody,
    settled: RigidBody,
    half: Vec2,
    colliders: Seq<Collider>,
    own: Option<usize>,
    delta: Vec2,
) -> RigidBody {
    let at = settled.position;
    RigidBody {
        at_ceiling: retested(
            before.at_ceiling,
            settled.at_ceiling,
            at,
            half,
            colliders,
            own,
            Vec2 { x: 0, y: 2 },
        ),
        on_ground: retested(
            before.on_ground,
            settled.on_ground,
            at,
            half,
            colliders,
            own,
            Vec2 { x: 0, y: -1i32 },
        ),
        at_right_tile: retested(
            before.at_right_tile,
            settled.at_right_tile,
            at,
            half,
            colliders,
            own,
            Vec2 { x: 2, y: 0 },
        ),
        at_left_tile: retested(
            before.at_left_tile,
            settled.at_left_tile,
            at,
            half,
            colliders,
            own,
            Vec2 { x: -2i32, y: 0 },
        ),
        on_platform: delta.y <= 0 && on_some_platform(at, half, colliders, own),
        ..settled
    }
}

/// The body after a tick that moves it by `delta`, which is not zero.
///
/// The flags that it has are kept as the flags that it had. It is put at
/// the end of the movement, and a box of its size there is moved on by the
/// same movement into the candidates. If that runs into something, the
/// body is corrected by what the contact says and the contact is noted.
/// Then its contact flags are looked over.
pub open spec fn carried(
    body: RigidBody,
    half: Vec2,
    colliders: Seq<Collider>,
    own: Option<usize>,
    delta: Vec2,
) -> RigidBody {
    let target = advanced(body.position, delta);
    let moved = RigidBody {
        position: target,
        was_on_platform: body.on_platform,
        was_on_ground: body.on_ground,
        was_at_ceiling: body.at_ceiling,
        was_at_right_tile: body.at_right_tile,
        was_at_left_tile: body.at_left_tile,
        ..body
    };
    let settled = match probe(target, half, colliders, own, delta).hit {
        Some(hit) => noted(RigidBody { position: corrected(target, hit), ..moved }, hit),
        None => moved,
    };
    looked_over(body, settled, half, colliders, own, delta)
}

/// The body after one tick of length `dt` among `colliders`, of which the
/// one at `own` is its own.
///
/// Position and velocity are kept as the old position and the old
/// velocity. The movement of the tick is the velocity times `dt`, rounded
/// to whole units. A body that does not move keeps its position, its
/// velocity and its contact flags; one that moves is carried along as
/// `carried` says.
pub open spec fn resolved(
    body: RigidBody,
    half: Vec2,
    colliders: Seq<Collider>,
    own: Option<usize>,
    dt: TimeStep,
) -> RigidBody {
    let delta = step_delta(body.speed, dt);
    let begun = RigidBody { old_position: body.position, old_speed: body.speed, ..body };
    if delta.is_zero() {
        begun
    } else {
        carried(begun, half, colliders, own, delta)
    }
}

/// The box that a body runs into in one tick, if it runs into one.
pub open spec fn struck(
    body: RigidBody,
    half: Vec2,
    colliders: Seq<Collider>,
    own: Option<usize>,
    dt: TimeStep,
) -> Option<Collider> {
    let delta = step_delta(body.speed, dt);
    if delta.is_zero() {
        None
    } else {
        match probe(advanced(body.position, delta), half, colliders, own, delta).hit {
            Some(hit) => Some(hit.collider),
            None => None,
        }
    }
}

/// Computes how far something with velocity `speed` gets along one axis in
/// a tick.
pub(crate) fn travel_of(speed: i32, dt: TimeStep) -> (r: i128)
    requires
        dt.den > 0,
    ensures
        r == travel(speed as int, dt),
        -0x8000_0000_0000_0000 <= r <= 0x8000_0000_0000_0000,
{
    proof {
        let covered = speed * dt.num;
        lemma_product_bound(speed as int, dt.num as int, 0x8000_0000, 0x1_0000_0000);
        assert(-0x8000_0000_0000_0000 * dt.den <= covered <= 0x8000_0000_0000_0000 * dt.den)
            by (nonlinear_arith)
            requires
                -0x8000_0000_0000_0000 <= covered <= 0x8000_0000_0000_0000,
                dt.den >= 1,
        ;
        lemma_round_div_between(
            covered,
            dt.den as int,
            -0x8000_0000_0000_0000,
            0x8000_0000_0000_0000,
        );
    }
    let covered = Fraction { num: wide_product(speed as i64, dt.num as i64), den: dt.den as i128 };
    covered.round()
}

/// Computes one coordinate of the position that a correction takes a body
/// to.
fn correct(position: i32, correction: &Fraction) -> (r: i128)
    requires
        0 < correction.den <= 0x8000_0000,
        -0x4000_0000_0000_0000 <= correction.num <= 0x4000_0000_0000_0000,
    ensures
        r == round_div(position * correction.den + correction.num, correction.den as int),
{
    proof {
        lemma_product_bound(position as int, correction.den as int, 0x8000_0000, 0x8000_0000);
    }
    let sum = Fraction {
        num: wide_product(position as i64, correction.den as i64) + correction.num,
        den: correction.den,
    };
    sum.round()
}

/// Whether a body at `position` rests on the one-way platform `collider`.
fn rests_on_platform(position: Vec3, half: Vec2, collider: &Collider) -> (r: bool)
    ensures
        r == rests_on(position, half, *collider),
{
    if !collider.top || collider.bottom || collider.half.x == 0 || collider.half.y == 0 {
        return false;
    }
    let across: i64 = position.x as i64 + half.x as i64 - collider.center.x as i64;
    let above: i64 = position.y as i64 - (collider.center.y as i64 + collider.half.y as i64);
    let apart: i64 = if across < 0 { -across } else { across };
    let off: i64 = if above < 0 { -above } else { above };
    apart < half.x as i64 + collider.half.x as i64 && off <= PLATFORM_THRESHOLD as i64
}

/// Whether a body at `position` rests on one of the candidates.
fn rests_on_any(
    position: Vec3,
    half: Vec2,
    colliders: &Vec<Collider>,
    own: Option<usize>,
) -> (r: bool)
    ensures
        r == on_some_platform(position, half, colliders@, own),
{
    let mut i: usize = 0;
    while i < colliders.len()
        invariant
            i <= colliders@.len(),
            forall|k: int|
                is_candidate(colliders@, own, k) && k < i ==> !rests_on(
                    position,
                    half,
                    #[trigger] colliders@[k],
                ),
        decreases colliders@.len() - i,
    {
        let skipped = match own {
            Some(index) => index == i,
            None => false,
        };
        if !skipped && rests_on_platform(position, half, &colliders[i]) {
            assert(is_candidate(colliders@, own, i as int));
            return true;
        }
        i = i + 1;
    }
    false
}

/// Tests a contact flag again that was set before the tick and still is.
fn retest(
    was: bool,
    is: bool,
    position: Vec3,
    half: Vec2,
    colliders: &Vec<Collider>,
    own: Option<usize>,
    delta: Vec2,
) -> (r: bool)
    requires
        half.x >= 0,
        half.y >= 0,
        Collider::corner_fits(position, half),
        forall|i: int| 0 <= i < colliders@.len() ==> (#[trigger] colliders@[i]).wf(),
    ensures
        r == retested(was, is, position, half, colliders@, own, delta),
{
    if was && is {
        let here = Collider::from_position(position, half);
        here.sweep_into_others(colliders, own, delta).hit.is_some()
    } else {
        is
    }
}

impl TimeStep {
    /// A tick of `num / den` seconds.
    pub fn new(num: u32, den: u32) -> (r: TimeStep)
        requires
            den > 0,
        ensures
            r == (TimeStep { num, den }),
    {
        TimeStep { num, den }
    }
}

/// Whether a tick can be computed for this body.
pub fn can_step(body: &RigidBody, half: Vec2, dt: TimeStep) -> (r: bool)
    ensures
        r == step_ready(*body, half, dt),
{
    if dt.den == 0 || half.x < 0 || half.x > WORLD_LIMIT || half.y < 0 || half.y > WORLD_LIMIT {
        return false;
    }
    if body.position.x < -WORLD_LIMIT || body.position.x > WORLD_LIMIT || body.position.y
        < -WORLD_LIMIT || body.position.y > WORLD_LIMIT {
        return false;
    }
    let dx: i128 = travel_of(body.speed.x, dt);
    let dy: i128 = travel_of(body.speed.y, dt);
    let limit: i128 = WORLD_LIMIT as i128;
    -limit <= dx && dx <= limit && -limit <= dy && dy <= limit
}

/// Takes note of a contact in the flags and the velocity of a body.
fn note(body: &mut RigidBody, hit: &Hit)
    ensures
        *final(body) == noted(*old(body), *hit),
{
    let left = hit.delta.x.num > 0;
    let right = hit.delta.x.num < 0;
    body.at_left_tile = left;
    body.at_right_tile = right;
    if (left && body.speed.x < 0) || (right && body.speed.x > 0) {
        body.speed.x = 0;
    }
    if !left && !right {
        body.on_ground = hit.delta.y.num > 0;
        body.at_ceiling = hit.delta.y.num < 0;
        if hit.delta.y.num != 0 {
            body.speed.y = 0;
        }
    }
}

/// Computes the position that the correction of a contact takes a body to
/// that began the tick at `start` and was moved by `delta`.
fn correct_position(start: Vec3, delta: Vec2, hit: &Hit) -> (r: Vec3)
    requires
        abs(start.x as int) <= WORLD_LIMIT,
        abs(start.y as int) <= WORLD_LIMIT,
        abs(delta.x as int) <= WORLD_LIMIT,
        abs(delta.y as int) <= WORLD_LIMIT,
        0 <= hit.time.num < hit.time.den <= 0x8000_0000,
        hit.delta.x == rest_taken_back(hit.time, delta.x as int),
        hit.delta.y == rest_taken_back(hit.time, delta.y as int),
    ensures
        r == corrected(advanced(start, delta), *hit),
        delta.x >= 0 ==> start.x <= r.x <= start.x + delta.x,
        delta.x <= 0 ==> start.x + delta.x <= r.x <= start.x,
        delta.y >= 0 ==> start.y <= r.y <= start.y + delta.y,
        delta.y <= 0 ==> start.y + delta.y <= r.y <= start.y,
        r.z == start.z,
{
    proof {
        lemma_product_bound(hit.time.num - hit.time.den, delta.x as int, 0x8000_0000, 0x8000_0000);
        lemma_product_bound(hit.time.num - hit.time.den, delta.y as int, 0x8000_0000, 0x8000_0000);
        lemma_corrected_between(start.x as int, delta.x as int, hit.time);
        lemma_corrected_between(start.y as int, delta.y as int, hit.time);
    }
    let x: i128 = correct(start.x + delta.x, &hit.delta.x);
    let y: i128 = correct(start.y + delta.y, &hit.delta.y);
    Vec3 { x: x as i32, y: y as i32, z: start.z }
}

/// Looks over the contact flags of a body at the end of a tick.
fn look_over(
    before: &RigidBody,
    body: &mut RigidBody,
    half: Vec2,
    colliders: &Vec<Collider>,
    own: Option<usize>,
    delta: Vec2,
)
    requires
        half.x >= 0,
        half.y >= 0,
        Collider::corner_fits(old(body).position, half),
        forall|i: int| 0 <= i < colliders@.len() ==> (#[trigger] colliders@[i]).wf(),
    ensures
        *final(body) == looked_over(*before, *old(body), half, colliders@, own, delta),
{
    let at = body.position;
    body.at_ceiling = retest(
        before.at_ceiling,
        body.at_ceiling,
        at,
        half,
        colliders,
        own,
        Vec2 { x: 0, y: 2 },
    );
    body.on_ground = retest(
        before.on_ground,
        body.on_ground,
        at,
        half,
        colliders,
        own,
        Vec2 { x: 0, y: -1 },
    );
    body.at_right_tile = retest(
        before.at_right_tile,
        body.at_right_tile,
        at,
        half,
        colliders,
        own,
        Vec2 { x: 2, y: 0 },
    );
    body.at_left_tile = retest(
        before.at_left_tile,
        body.at_left_tile,
        at,
        half,
        colliders,
        own,
        Vec2 { x: -2, y: 0 },
    );
    body.on_platform = delta.y <= 0 && rests_on_any(at, half, colliders, own);
}

/// Computes the movement of one tick.
fn delta_of(speed: Vec3, dt: TimeStep) -> (r: Vec2)
    requires
        dt.den > 0,
        abs(travel(speed.x as int, dt)) <= WORLD_LIMIT,
        abs(travel(speed.y as int, dt)) <= WORLD_LIMIT,
    ensures
        r == step_delta(speed, dt),
        abs(r.x as int) <= WORLD_LIMIT,
        abs(r.y as int) <= WORLD_LIMIT,
{
    let dx: i128 = travel_of(speed.x, dt);
    let dy: i128 = travel_of(speed.y, dt);
    Vec2 { x: dx as i32, y: dy as i32 }
}

/// Finds what a body at `position` runs into when it is moved by `delta`.
fn probe_from(
    position: Vec3,
    half: Vec2,
    colliders: &Vec<Collider>,
    own: Option<usize>,
    delta: Vec2,
) -> (r: Sweep)
    requires
        half.x >= 0,
        half.y >= 0,
        Collider::corner_fits(position, half),
        forall|i: int| 0 <= i < colliders@.len() ==> (#[trigger] colliders@[i]).wf(),
        !delta.is_zero(),
    ensures
        r == probe(position, half, colliders@, own, delta),
        match r.hit {
            Some(hit) => {
                &&& 0 <= hit.time.num < hit.time.den <= 0x8000_0000
                &&& hit.delta.x == rest_taken_back(hit.time, delta.x as int)
                &&& hit.delta.y == rest_taken_back(hit.time, delta.y as int)
            },
            None => true,
        },
{
    let provisional = Collider::from_position(position, half);
    proof {
        lemma_nearest_hit_shape(provisional, colliders@, own, delta);
    }
    provisional.sweep_into_others(colliders, own, delta)
}

/// Carries a body along by `delta` and reports the box that it ran into.
fn carry(
    body: &mut RigidBody,
    half: Vec2,
    colliders: &Vec<Collider>,
    own: Option<usize>,
    delta: Vec2,
) -> (r: Option<Collider>)
    requires
        0 <= half.x <= WORLD_LIMIT,
        0 <= half.y <= WORLD_LIMIT,
        abs(old(body).position.x as int) <= WORLD_LIMIT,
        abs(old(body).position.y as int) <= WORLD_LIMIT,
        abs(delta.x as int) <= WORLD_LIMIT,
        abs(delta.y as int) <= WORLD_LIMIT,
        !delta.is_zero(),
        forall|i: int| 0 <= i < colliders@.len() ==> (#[trigger] colliders@[i]).wf(),
    ensures
        *final(body) == carried(*old(body), half, colliders@, own, delta),
        r == match probe(advanced(old(body).position, delta), half, colliders@, own, delta).hit {
            Some(hit) => Some(hit.collider),
            None => None,
        },
        lies_between(old(body).position, delta, final(body).position),
{
    let before = *body;
    body.was_on_platform = before.on_platform;
    body.was_on_ground = before.on_ground;
    body.was_at_ceiling = before.at_ceiling;
    body.was_at_right_tile = before.at_right_tile;
    body.was_at_left_tile = before.at_left_tile;
    let target = Vec3 {
        x: before.position.x + delta.x,
        y: before.position.y + delta.y,
        z: before.position.z,
    };
    body.position = target;
    let nearest = probe_from(target, half, colliders, own, delta);
    let struck = match nearest.hit {
        Some(hit) => {
            body.position = correct_position(before.position, delta, &hit);
            note(body, &hit);
            Some(hit.collider)
        },
        None => None,
    };
    look_over(&before, body, half, colliders, own, delta);
    struck
}

/// Moves a body by one tick of length `dt` among `colliders`, of which the
/// one at `own` is its own, and reports the box that it ran into.
///
/// `entity` is the identifier of the body; it is handed on in the event.
pub fn detect_collisions(
    entity: u64,
    body: &mut RigidBody,
    half: Vec2,
    colliders: &Vec<Collider>,
    own: Option<usize>,
    dt: TimeStep,
) -> (event: Option<CollisionEvent>)
    requires
        step_ready(*old(body), half, dt),
        forall|i: int| 0 <= i < colliders@.len() ==> (#[trigger] colliders@[i]).wf(),
    ensures
        *final(body) == resolved(*old(body), half, colliders@, own, dt),
        event == match struck(*old(body), half, colliders@, own, dt) {
            Some(collider) => Some(CollisionEvent { entity, collider }),
            None => None,
        },
        lies_between(
            old(body).position,
            step_delta(old(body).speed, dt),
            final(body).position,
        ),
        step_delta(old(body).speed, dt).is_zero() ==> {
            &&& event.is_none()
            &&& final(body).position == old(body).position
            &&& final(body).speed == old(body).speed
            &&& final(body).same_contacts(*old(body))
        },
{
    let delta = delta_of(body.speed, dt);
    body.old_position = body.position;
    body.old_speed = body.speed;
    if delta.x == 0 && delta.y == 0 {
        return None;
    }
    match carry(body, half, colliders, own, delta) {
        Some(collider) => Some(CollisionEvent { entity, collider }),
        None => None,
    }
}

/// Publishes where a body has got to: its position and scale go to its
/// placement, and its box is moved to its position.
pub fn apply_movements(body: &RigidBody, placement: &mut Placement, collider: &mut Collider)
    requires
        Collider::corner_fits(body.position, old(collider).half),
    ensures
        *final(placement) == (Placement { translation: body.position, scale: body.scale }),
        *final(collider) == (Collider {
            center: Collider::center_of(body.position, old(collider).half),
            ..*old(collider)
        }),
{
    placement.translation = body.position;
    placement.scale = body.scale;
    collider.center_from(body.position);
}

/// The body after as many ticks as `worlds` is long, each tick of length
/// `dt`, the boxes of the tick number `i` being `worlds[i]`.
pub open spec fn after_ticks(
    body: RigidBody,
    half: Vec2,
    worlds: Seq<Seq<Collider>>,
    own: Option<usize>,
    dt: TimeStep,
) -> RigidBody
    decreases worlds.len(),
{
    if worlds.len() == 0 {
        body
    } else {
        resolved(
            after_ticks(body, half, worlds.drop_last(), own, dt),
            half,
            worlds.last(),
            own,
            dt,
        )
    }
}

/// A body without velocity along x and y stays as it is: however many
/// ticks pass and whatever boxes are around it, its position, its velocity
/// and its contact flags are afterwards what they were before.
pub proof fn lemma_rest_is_kept(
    body: RigidBody,
    half: Vec2,
    worlds: Seq<Seq<Collider>>,
    own: Option<usize>,
    dt: TimeStep,
)
    requires
        dt.den > 0,
        body.speed.x == 0,
        body.speed.y == 0,
    ensures
        after_ticks(body, half, worlds, own, dt).position == body.position,
        after_ticks(body, half, worlds, own, dt).speed == body.speed,
        after_ticks(body, half, worlds, own, dt).same_contacts(body),
    decreases worlds.len(),
{
    if worlds.len() > 0 {
        lemma_rest_is_kept(body, half, worlds.drop_last(), own, dt);
        lemma_round_div_nearest(0, dt.den as int);
        assert(0 * dt.num == 0);
        assert(travel(0, dt) == 0);
    }
}

/// A contact stops the body: the correction of a contact runs against the
/// velocity that led to it, so that after a tick in which the body struck
/// something its velocity is zero along x if the correction has a part
/// along x, and else along y if it has a part along y.
pub proof fn lemma_contact_stops(
    body: RigidBody,
    half: Vec2,
    colliders: Seq<Collider>,
    own: Option<usize>,
    dt: TimeStep,
)
    requires
        step_ready(body, half, dt),
        forall|i: int| 0 <= i < colliders.len() ==> (#[trigger] colliders[i]).wf(),
        !step_delta(body.speed, dt).is_zero(),
        probe(
            advanced(body.position, step_delta(body.speed, dt)),
            half,
            colliders,
            own,
            step_delta(body.speed, dt),
        ).hit.is_some(),
    ensures
        ({
            let delta = step_delta(body.speed, dt);
            let target = advanced(body.position, delta);
            let hit = probe(target, half, colliders, own, delta).hit.unwrap();
            let after = resolved(body, half, colliders, own, dt);
            &&& hit.delta.x.num > 0 ==> body.speed.x < 0
            &&& hit.delta.x.num < 0 ==> body.speed.x > 0
            &&& hit.delta.y.num > 0 ==> body.speed.y < 0
            &&& hit.delta.y.num < 0 ==> body.speed.y > 0
            &&& hit.delta.x.num != 0 ==> after.speed.x == 0
            &&& hit.delta.x.num == 0 && hit.delta.y.num != 0 ==> after.speed.y == 0
        }),
{
    let delta = step_delta(body.speed, dt);
    let target = advanced(body.position, delta);
    let hit = probe(target, half, colliders, own, delta).hit.unwrap();
    lemma_nearest_hit_shape(Collider::at_corner(target, half), colliders, own, delta);
    let rest = hit.time.num - hit.time.den;
    lemma_product_bound(rest, delta.x as int, 0x8000_0000, 0x8000_0000);
    lemma_product_bound(rest, delta.y as int, 0x8000_0000, 0x8000_0000);
    assert((rest * delta.x > 0 ==> delta.x < 0) && (rest * delta.x < 0 ==> delta.x > 0) && (rest
        * delta.y > 0 ==> delta.y < 0) && (rest * delta.y < 0 ==> delta.y > 0)) by (nonlinear_arith)
        requires
            rest < 0,
    ;
    lemma_round_div_nearest(body.speed.x * dt.num, dt.den as int);
    lemma_round_div_nearest(body.speed.y * dt.num, dt.den as int);
    assert((body.speed.x * dt.num < 0 ==> body.speed.x < 0) && (body.speed.x * dt.num > 0
        ==> body.speed.x > 0) && (body.speed.y * dt.num < 0 ==> body.speed.y < 0) && (body.speed.y
        * dt.num > 0 ==> body.speed.y > 0)) by (nonlinear_arith)
        requires
            dt.num >= 0,
    ;
}

/// A body that is corrected after a contact ends up between where the tick
/// found it and where the movement would have taken it, along each axis: it
/// is never thrown back behind its start nor carried past its target.
pub proof fn lemma_corrected_between(start: int, delta: int, time: Fraction)
    requires
        0 <= time.num < time.den,
    ensures
        delta >= 0 ==> start <= round_div(
            (start + delta) * time.den + (time.num - time.den) * delta,
            time.den as int,
        ) <= start + delta,
        delta <= 0 ==> start + delta <= round_div(
            (start + delta) * time.den + (time.num - time.den) * delta,
            time.den as int,
        ) <= start,
{
    let tn = time.num as int;
    let td = time.den as int;
    let n = (start + delta) * td + (tn - td) * delta;
    assert(n == start * td + tn * delta) by (nonlinear_arith)
        requires
            n == (start + delta) * td + (tn - td) * delta,
    ;
    assert((start + delta) * td == start * td + delta * td) by (nonlinear_arith);
    if delta >= 0 {
        assert(0 <= tn * delta <= delta * td) by (nonlinear_arith)
            requires
                0 <= tn < td,
                delta >= 0,
        ;
        lemma_round_div_between(n, td, start, start + delta);
    }
    if delta <= 0 {
        assert(delta * td <= tn * delta <= 0) by (nonlinear_arith)
            requires
                0 <= tn < td,
                delta <= 0,
        ;
        lemma_round_div_between(n, td, start + delta, start);
    }
}

} // verus!
