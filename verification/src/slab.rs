//! What the test of a movement against a box says about the points of the
//! movement: a miss means that none of them is inside the box, and a hit
//! is where the movement first touches it.

use vstd::prelude::*;
use crate::collider::Collider;
use crate::intersect::{lemma_segment_hit_shape, slab_far, slab_misses, slab_near};
use crate::math::{abs, lemma_product_bound, Vec2};

verus! {

/// The numerator over `td` of one coordinate of the point that a movement
/// from `origin` by `delta` has got to at the time `tn / td`.
pub open spec fn along(origin: int, delta: int, tn: int, td: int) -> int {
    origin * td + delta * tn
}

/// Along one axis, the place `num / den` is strictly inside the stretch of
/// half-width `reach` around `center`.
pub open spec fn within(center: int, reach: int, num: int, den: int) -> bool {
    abs(num - center * den) < reach * den
}

/// Along one axis, the place `num / den` is inside the stretch of
/// half-width `reach` around `center` or at one of its ends.
pub open spec fn within_or_at(center: int, reach: int, num: int, den: int) -> bool {
    abs(num - center * den) <= reach * den
}

/// The point with the coordinates `x / den` and `y / den` is strictly
/// inside `collider` grown by the padding on every side.
pub open spec fn inside_grown(
    collider: Collider,
    padding_x: int,
    padding_y: int,
    x: int,
    y: int,
    den: int,
) -> bool {
    &&& within(collider.center.x as int, collider.half.x + padding_x, x, den)
    &&& within(collider.center.y as int, collider.half.y + padding_y, y, den)
}

/// Along an axis on which a movement moves, it is strictly inside the
/// stretch exactly between its entry time and its exit time, and inside or
/// at an end exactly from the one to the other.
pub proof fn lemma_inside_slab(center: int, reach: int, origin: int, delta: int, tn: int, td: int)
    requires
        delta != 0,
    ensures
        within(center, reach, along(origin, delta, tn, td), td) <==> slab_near(
            center,
            reach,
            origin,
            delta,
        ) * td < abs(delta) * tn && abs(delta) * tn < slab_far(center, reach, origin, delta) * td,
        within_or_at(center, reach, along(origin, delta, tn, td), td) <==> slab_near(
            center,
            reach,
            origin,
            delta,
        ) * td <= abs(delta) * tn && abs(delta) * tn <= slab_far(center, reach, origin, delta)
            * td,
{
    let gap = (origin - center) * td;
    let run = delta * tn;
    let room = reach * td;
    assert(along(origin, delta, tn, td) - center * td == gap + run) by (nonlinear_arith)
        requires
            gap == (origin - center) * td,
            run == delta * tn,
    ;
    if delta > 0 {
        assert((center - origin - reach) * td == -gap - room && (center - origin + reach) * td
            == -gap + room) by (nonlinear_arith)
            requires
                gap == (origin - center) * td,
                room == reach * td,
        ;
    } else {
        assert((origin - center - reach) * td == gap - room && (origin - center + reach) * td
            == gap + room) by (nonlinear_arith)
            requires
                gap == (origin - center) * td,
                room == reach * td,
        ;
        assert((-delta) * tn == -run) by (nonlinear_arith)
            requires
                run == delta * tn,
        ;
    }
}

/// If a time lies after `n / qn` and before `f / qf`, then `n / qn` is
/// before `f / qf`.
pub proof fn lemma_time_between(n: int, qn: int, f: int, qf: int, tn: int, td: int)
    requires
        qn > 0,
        qf > 0,
        td > 0,
        n * td < qn * tn,
        qf * tn < f * td,
    ensures
        n * qf < f * qn,
{
    assert((n * td) * qf < (qn * tn) * qf) by (nonlinear_arith)
        requires
            n * td < qn * tn,
            qf > 0,
    ;
    assert((qf * tn) * qn < (f * td) * qn) by (nonlinear_arith)
        requires
            qf * tn < f * td,
            qn > 0,
    ;
    assert((qn * tn) * qf == (qf * tn) * qn) by (nonlinear_arith);
    assert((n * td) * qf == (n * qf) * td && (f * td) * qn == (f * qn) * td) by (nonlinear_arith);
    assert(n * qf < f * qn) by (nonlinear_arith)
        requires
            (n * qf) * td < (f * qn) * td,
            td > 0,
    ;
}

/// A movement that the test says misses the box has no point strictly
/// inside the grown box: not at its start, not at its end, and at no time
/// `tn / td` between.
pub proof fn lemma_miss_is_clear(
    collider: Collider,
    pos: Vec2,
    delta: Vec2,
    padding_x: int,
    padding_y: int,
    tn: int,
    td: int,
)
    requires
        collider.wf(),
        !collider.degenerate(),
        padding_x >= 0,
        padding_y >= 0,
        collider.segment_hit(pos, delta, padding_x, padding_y).is_none(),
        td > 0,
        0 <= tn <= td,
    ensures
        !inside_grown(
            collider,
            padding_x,
            padding_y,
            along(pos.x as int, delta.x as int, tn, td),
            along(pos.y as int, delta.y as int, tn, td),
            td,
        ),
{
    let cx = collider.center.x as int;
    let cy = collider.center.y as int;
    let rx = collider.half.x + padding_x;
    let ry = collider.half.y + padding_y;
    let (px, py, dx, dy) = (pos.x as int, pos.y as int, delta.x as int, delta.y as int);
    let nx = slab_near(cx, rx, px, dx);
    let ny = slab_near(cy, ry, py, dy);
    let fx = slab_far(cx, rx, px, dx);
    let fy = slab_far(cy, ry, py, dy);
    let qx = abs(dx);
    let qy = abs(dy);
    let in_x = within(cx, rx, along(px, dx, tn, td), td);
    let in_y = within(cy, ry, along(py, dy, tn, td), td);
    if in_x && in_y {
        if dx == 0 {
            lemma_still_axis(cx, rx, px, tn, td);
        } else {
            lemma_inside_slab(cx, rx, px, dx, tn, td);
        }
        if dy == 0 {
            lemma_still_axis(cy, ry, py, tn, td);
        } else {
            lemma_inside_slab(cy, ry, py, dy, tn, td);
        }
        assert(!slab_misses(cx, rx, px, dx) && !slab_misses(cy, ry, py, dy));
        // Entered along one axis only after it has left along the other?
        if dx != 0 && dy != 0 {
            lemma_time_between(nx, qx, fy, qy, tn, td);
            lemma_time_between(ny, qy, fx, qx, tn, td);
        }
        assert(nx * qy <= fy * qx && ny * qx <= fx * qy) by (nonlinear_arith)
            requires
                dx == 0 ==> nx == -1 && fx == 1 && qx == 0,
                dy == 0 ==> ny == -1 && fy == 1 && qy == 0,
                dx != 0 && dy != 0 ==> nx * qy < fy * qx && ny * qx < fx * qy,
                qx >= 0,
                qy >= 0,
                dx != 0 ==> fx * td > 0,
                dy != 0 ==> fy * td > 0,
                td > 0,
        ;
        let x_last = nx * qy > ny * qx;
        let n = if x_last { nx } else { ny };
        let q = if x_last { qx } else { qy };
        let f = if fx * qy < fy * qx { fx } else { fy };
        // Entered only at the end of the movement or later?
        assert(n < q) by (nonlinear_arith)
            requires
                q == 0 ==> n == -1,
                q > 0 ==> n * td < q * tn,
                0 <= tn <= td,
                td > 0,
                q >= 0,
        ;
        // Left at the start of the movement or before?
        assert(f > 0) by (nonlinear_arith)
            requires
                f == 1 || (f == fx && qx > 0 && qx * tn < fx * td) || (f == fy && qy > 0 && qy
                    * tn < fy * td),
                0 <= tn,
                td > 0,
        ;
    }
}

/// Along an axis on which a movement does not move, it is where it
/// started.
pub proof fn lemma_still_axis(center: int, reach: int, origin: int, tn: int, td: int)
    requires
        td > 0,
    ensures
        within(center, reach, along(origin, 0, tn, td), td) <==> abs(origin - center) < reach,
        within_or_at(center, reach, along(origin, 0, tn, td), td) <==> abs(origin - center)
            <= reach,
{
    assert(along(origin, 0, tn, td) - center * td == (origin - center) * td) by (nonlinear_arith)
        requires
            along(origin, 0, tn, td) == origin * td + 0 * tn,
    ;
    let gap = origin - center;
    assert(abs(gap * td) == abs(gap) * td) by (nonlinear_arith)
        requires
            td > 0,
    ;
    assert((abs(gap) * td < reach * td) == (abs(gap) < reach) && (abs(gap) * td <= reach * td) == (
    abs(gap) <= reach)) by (nonlinear_arith)
        requires
            td > 0,
    ;
}

/// A contact is on the grown box: where the test reports a hit, the
/// movement is inside the grown box or on its boundary; and if the hit is
/// after the start of the movement, it is on the side that the normal
/// names, so that the correction along the normal is what separates.
pub proof fn lemma_hit_touches(
    collider: Collider,
    pos: Vec2,
    delta: Vec2,
    padding_x: int,
    padding_y: int,
)
    requires
        collider.wf(),
        padding_x >= 0,
        padding_y >= 0,
        collider.segment_hit(pos, delta, padding_x, padding_y).is_some(),
    ensures
        ({
            let hit = collider.segment_hit(pos, delta, padding_x, padding_y).unwrap();
            let rx = collider.half.x + padding_x;
            let ry = collider.half.y + padding_y;
            let den = hit.time.den as int;
            &&& within_or_at(collider.center.x as int, rx, hit.pos.x.num as int, den)
            &&& within_or_at(collider.center.y as int, ry, hit.pos.y.num as int, den)
            &&& hit.time.num > 0 && hit.normal.x != 0 ==> hit.pos.x.num - collider.center.x
                * hit.time.den == hit.normal.x * (rx * hit.time.den)
            &&& hit.time.num > 0 && hit.normal.y != 0 ==> hit.pos.y.num - collider.center.y
                * hit.time.den == hit.normal.y * (ry * hit.time.den)
        }),
{
    let hit = collider.segment_hit(pos, delta, padding_x, padding_y).unwrap();
    lemma_segment_hit_shape(collider, pos, delta, padding_x, padding_y);
    let cx = collider.center.x as int;
    let cy = collider.center.y as int;
    let rx = collider.half.x + padding_x;
    let ry = collider.half.y + padding_y;
    let (px, py, dx, dy) = (pos.x as int, pos.y as int, delta.x as int, delta.y as int);
    let nx = slab_near(cx, rx, px, dx);
    let ny = slab_near(cy, ry, py, dy);
    let fx = slab_far(cx, rx, px, dx);
    let fy = slab_far(cy, ry, py, dy);
    let qx = abs(dx);
    let qy = abs(dy);
    let tn = hit.time.num as int;
    let td = hit.time.den as int;
    lemma_product_bound(px, td, 0x8000_0000, 0x8000_0000);
    lemma_product_bound(py, td, 0x8000_0000, 0x8000_0000);
    lemma_product_bound(dx, tn, 0x8000_0000, 0x8000_0000);
    lemma_product_bound(dy, tn, 0x8000_0000, 0x8000_0000);
    assert(hit.pos.x.num == along(px, dx, tn, td));
    assert(hit.pos.y.num == along(py, dy, tn, td));
    let x_last = nx * qy > ny * qx;
    let n = if x_last { nx } else { ny };
    let q = if x_last { qx } else { qy };
    let f = if fx * qy < fy * qx { fx } else { fy };
    assert(tn == (if n < 0 { 0 } else { n }) && td == (if q == 0 { 1 } else { q }));
    assert(nx <= fx && ny <= fy);
    let x_first_out = fx * qy < fy * qx;
    assert(f > 0 && n < q);
    if dx == 0 {
        lemma_still_axis(cx, rx, px, tn, td);
    } else {
        lemma_inside_slab(cx, rx, px, dx, tn, td);
        // The movement leaves along x after its start.
        if !x_first_out {
            assert(fx > 0) by (nonlinear_arith)
                requires
                    fy > 0,
                    qx > 0,
                    qy >= 0,
                    fx * qy >= fy * qx,
            ;
        }
        // It has entered along x by the time of the contact, and not left.
        if x_last {
            assert(nx * td <= qx * tn && qx * tn <= fx * td) by (nonlinear_arith)
                requires
                    td == qx,
                    qx > 0,
                    tn == nx || (tn == 0 && nx < 0),
                    nx <= fx,
                    fx > 0,
            ;
        } else {
            if qy == 0 {
                assert(nx * qy == 0 && ny * qx < 0) by (nonlinear_arith)
                    requires
                        qy == 0,
                        ny == -1,
                        qx > 0,
                ;
            }
            assert(nx * td <= qx * tn && qx * tn <= fx * td) by (nonlinear_arith)
                requires
                    td == qy,
                    qy > 0,
                    qx > 0,
                    tn == ny || (tn == 0 && ny < 0),
                    nx * qy <= ny * qx,
                    ny * qx <= fx * qy,
                    fx > 0,
            ;
        }
    }
    if dy == 0 {
        lemma_still_axis(cy, ry, py, tn, td);
    } else {
        lemma_inside_slab(cy, ry, py, dy, tn, td);
        if x_first_out {
            assert(fy > 0) by (nonlinear_arith)
                requires
                    fx > 0,
                    qy > 0,
                    qx >= 0,
                    fx * qy < fy * qx,
            ;
        }
        if !x_last {
            assert(ny * td <= qy * tn && qy * tn <= fy * td) by (nonlinear_arith)
                requires
                    td == qy,
                    qy > 0,
                    tn == ny || (tn == 0 && ny < 0),
                    ny <= fy,
                    fy > 0,
            ;
        } else {
            assert(qx > 0) by (nonlinear_arith)
                requires
                    nx * qy > ny * qx,
                    qx >= 0,
                    qy > 0,
                    qx == 0 ==> nx == -1,
            ;
            assert(ny * td <= qy * tn && qy * tn <= fy * td) by (nonlinear_arith)
                requires
                    td == qx,
                    qy > 0,
                    qx > 0,
                    tn == nx || (tn == 0 && nx < 0),
                    nx * qy > ny * qx,
                    nx * qy <= fy * qx,
                    fy > 0,
            ;
        }
    }
    if tn > 0 {
        if x_last {
            // The contact is at the entry along x: on the side that faces
            // against the movement.
            assert(along(px, dx, tn, td) - cx * td == hit.normal.x * (rx * td)) by (nonlinear_arith)
                requires
                    tn == nx,
                    td == qx,
                    qx == abs(dx),
                    dx != 0,
                    nx == (if dx < 0 { px - cx - rx } else { cx - px - rx }),
                    hit.normal.x == (if dx < 0 { 1int } else { -1int }),
                    along(px, dx, tn, td) == px * td + dx * tn,
            ;
        } else {
            assert(along(py, dy, tn, td) - cy * td == hit.normal.y * (ry * td)) by (nonlinear_arith)
                requires
                    tn == ny,
                    td == qy,
                    qy == abs(dy),
                    dy != 0,
                    ny == (if dy < 0 { py - cy - ry } else { cy - py - ry }),
                    hit.normal.y == (if dy < 0 { 1int } else { -1int }),
                    along(py, dy, tn, td) == py * td + dy * tn,
            ;
        }
    }
}

/// A contact is the first: before the time of a hit, the movement is not
/// strictly inside the grown box.
pub proof fn lemma_hit_is_first(
    collider: Collider,
    pos: Vec2,
    delta: Vec2,
    padding_x: int,
    padding_y: int,
    tn: int,
    td: int,
)
    requires
        collider.wf(),
        padding_x >= 0,
        padding_y >= 0,
        collider.segment_hit(pos, delta, padding_x, padding_y).is_some(),
        td > 0,
        0 <= tn,
        tn * collider.segment_hit(pos, delta, padding_x, padding_y).unwrap().time.den
            < collider.segment_hit(pos, delta, padding_x, padding_y).unwrap().time.num * td,
    ensures
        !inside_grown(
            collider,
            padding_x,
            padding_y,
            along(pos.x as int, delta.x as int, tn, td),
            along(pos.y as int, delta.y as int, tn, td),
            td,
        ),
{
    let hit = collider.segment_hit(pos, delta, padding_x, padding_y).unwrap();
    lemma_segment_hit_shape(collider, pos, delta, padding_x, padding_y);
    let cx = collider.center.x as int;
    let cy = collider.center.y as int;
    let rx = collider.half.x + padding_x;
    let ry = collider.half.y + padding_y;
    let (px, py, dx, dy) = (pos.x as int, pos.y as int, delta.x as int, delta.y as int);
    let nx = slab_near(cx, rx, px, dx);
    let ny = slab_near(cy, ry, py, dy);
    let qx = abs(dx);
    let qy = abs(dy);
    let hn = hit.time.num as int;
    let hd = hit.time.den as int;
    let x_last = nx * qy > ny * qx;
    assert(hn > 0) by (nonlinear_arith)
        requires
            tn * hd < hn * td,
            tn >= 0,
            hd > 0,
            td > 0,
            hn >= 0,
    ;
    // The time is before the entry along the axis that is entered last.
    if x_last {
        assert(hn == nx && hd == qx && dx != 0);
        lemma_inside_slab(cx, rx, px, dx, tn, td);
        assert(!(nx * td < qx * tn)) by (nonlinear_arith)
            requires
                tn * qx < nx * td,
        ;
    } else {
        assert(hn == ny && hd == qy && dy != 0);
        lemma_inside_slab(cy, ry, py, dy, tn, td);
        assert(!(ny * td < qy * tn)) by (nonlinear_arith)
            requires
                tn * qy < ny * td,
        ;
    }
}

} // verus!
