//! Tests of a box against a point, against another box at rest, and against
//! a straight segment.

use vstd::prelude::*;
use crate::collider::Collider;
use crate::hit::Hit;
use crate::math::{
    abs, directed, lemma_product_bound, sign, wide_product, FracVec2, Fraction, Vec2,
};

verus! {

/// Along one axis, how deep something at `at` with half-extent `extra` lies
/// inside a box at `center` with half-extent `half`: positive when they
/// overlap, zero when they touch.
pub open spec fn penetration(center: int, half: int, at: int, extra: int) -> int {
    half + extra - abs(at - center)
}

/// Along one axis, the numerator of the time at which a point that starts at
/// `origin` and moves by `delta` enters the stretch of half-width `reach`
/// around `center`. The denominator is `abs(delta)`.
///
/// A point that does not move along the axis has no such time: it is given
/// `-1` over a denominator of zero, which compares as earlier than every
/// time.
pub open spec fn slab_near(center: int, reach: int, origin: int, delta: int) -> int {
    if delta == 0 {
        -1
    } else if delta < 0 {
        origin - center - reach
    } else {
        center - origin - reach
    }
}

/// Along one axis, the numerator of the time at which the point leaves the
/// stretch again, over `abs(delta)`; `1` over zero, later than every time,
/// for a point that does not move along the axis.
pub open spec fn slab_far(center: int, reach: int, origin: int, delta: int) -> int {
    if delta == 0 {
        1
    } else if delta < 0 {
        origin - center + reach
    } else {
        center - origin + reach
    }
}

/// Along one axis, the point does not move and is not strictly inside the
/// stretch: it never will be.
pub open spec fn slab_misses(center: int, reach: int, origin: int, delta: int) -> bool {
    delta == 0 && abs(origin - center) >= reach
}

/// The hit of a movement from `origin` by `delta` that meets `collider` at
/// the time `tn / td`: the contact is where the movement has got to by then,
/// and the correction takes back the rest of the movement.
pub open spec fn hit_along(
    collider: Collider,
    origin: Vec2,
    delta: Vec2,
    tn: int,
    td: int,
    normal: Vec2,
) -> Hit {
    Hit {
        collider,
        pos: FracVec2 {
            x: Fraction { num: (origin.x * td + delta.x * tn) as i128, den: td as i128 },
            y: Fraction { num: (origin.y * td + delta.y * tn) as i128, den: td as i128 },
        },
        delta: FracVec2 {
            x: Fraction { num: ((tn - td) * delta.x) as i128, den: td as i128 },
            y: Fraction { num: ((tn - td) * delta.y) as i128, den: td as i128 },
        },
        normal,
        time: Fraction { num: tn as i128, den: td as i128 },
    }
}

impl Collider {
    /// The contact of this box with something at rest at `at` whose
    /// half-extent is `extra`, or `None` if they do not overlap.
    ///
    /// They overlap when the penetration is positive along both axes. The
    /// correction is the shorter of the two ways out, along x if they are
    /// equally short, and points away from the centre of this box; the
    /// contact lies on the side of this box that faces that way.
    pub open spec fn overlap_hit(self, at: Vec2, extra: Vec2) -> Option<Hit> {
        let dx = at.x - self.center.x;
        let dy = at.y - self.center.y;
        let px = penetration(self.center.x as int, self.half.x as int, at.x as int, extra.x as int);
        let py = penetration(self.center.y as int, self.half.y as int, at.y as int, extra.y as int);
        if self.degenerate() || px <= 0 || py <= 0 {
            None
        } else if px <= py {
            Some(
                Hit {
                    collider: self,
                    pos: FracVec2 {
                        x: Fraction::whole(self.center.x + directed(self.half.x as int, dx)),
                        y: Fraction::whole(at.y as int),
                    },
                    delta: FracVec2 { x: Fraction::whole(directed(px, dx)), y: Fraction::whole(0) },
                    normal: Vec2 { x: sign(dx) as i32, y: 0 },
                    time: Fraction { num: 1, den: 1 },
                },
            )
        } else {
            Some(
                Hit {
                    collider: self,
                    pos: FracVec2 {
                        x: Fraction::whole(at.x as int),
                        y: Fraction::whole(self.center.y + directed(self.half.y as int, dy)),
                    },
                    delta: FracVec2 { x: Fraction::whole(0), y: Fraction::whole(directed(py, dy)) },
                    normal: Vec2 { x: 0, y: sign(dy) as i32 },
                    time: Fraction { num: 1, den: 1 },
                },
            )
        }
    }

    /// The contact of this box with the point `pos`.
    pub open spec fn point_hit(self, pos: Vec2) -> Option<Hit> {
        self.overlap_hit(pos, Vec2 { x: 0, y: 0 })
    }

    /// The contact of this box with the box `other`, both at rest.
    pub open spec fn box_hit(self, other: Collider) -> Option<Hit> {
        self.overlap_hit(other.center, other.half)
    }

    /// The first contact of the movement from `pos` by `delta` with this box
    /// grown by the padding on every side, or `None` if the movement does
    /// not get into it.
    ///
    /// Along each axis the movement is inside the grown box between an entry
    /// time and an exit time; along an axis on which it does not move it is
    /// inside throughout or never. It gets into the box if along neither
    /// axis it enters later than it leaves along the other, the later entry
    /// is before its end (a time below one) and the earlier exit after its
    /// start (a time above zero). The contact is at the later of the two
    /// entry times, or at zero if that is before the start; the struck side
    /// is the one entered last, the one along y if both are entered at
    /// once. A box without area is never struck.
    pub open spec fn segment_hit(
        self,
        pos: Vec2,
        delta: Vec2,
        padding_x: int,
        padding_y: int,
    ) -> Option<Hit> {
        let rx = self.half.x + padding_x;
        let ry = self.half.y + padding_y;
        let nx = slab_near(self.center.x as int, rx, pos.x as int, delta.x as int);
        let ny = slab_near(self.center.y as int, ry, pos.y as int, delta.y as int);
        let fx = slab_far(self.center.x as int, rx, pos.x as int, delta.x as int);
        let fy = slab_far(self.center.y as int, ry, pos.y as int, delta.y as int);
        let qx = abs(delta.x as int);
        let qy = abs(delta.y as int);
        if self.degenerate() || slab_misses(self.center.x as int, rx, pos.x as int, delta.x as int)
            || slab_misses(self.center.y as int, ry, pos.y as int, delta.y as int) {
            None
        } else if nx * qy > fy * qx || ny * qx > fx * qy {
            None
        } else {
            let x_last = nx * qy > ny * qx;
            let n = if x_last { nx } else { ny };
            let q = if x_last { qx } else { qy };
            let f = if fx * qy < fy * qx { fx } else { fy };
            if n >= q || f <= 0 {
                None
            } else {
                let tn = if n < 0 { 0 } else { n };
                let td = if q == 0 { 1 } else { q };
                let normal = if x_last {
                    Vec2 { x: (-sign(delta.x as int)) as i32, y: 0 }
                } else {
                    Vec2 { x: 0, y: (-sign(delta.y as int)) as i32 }
                };
                Some(hit_along(self, pos, delta, tn, td, normal))
            }
        }
    }
}

/// The entry numerator, the exit numerator and the denominator of a movement
/// along one axis.
fn slab(center: i32, reach: i64, origin: i32, delta: i32) -> (r: (i64, i64, i64))
    requires
        0 <= reach <= 0x1_0000_0000,
    ensures
        r.0 == slab_near(center as int, reach as int, origin as int, delta as int),
        r.1 == slab_far(center as int, reach as int, origin as int, delta as int),
        r.2 == abs(delta as int),
{
    if delta == 0 {
        (-1, 1, 0)
    } else if delta < 0 {
        let gap: i64 = origin as i64 - center as i64;
        (gap - reach, gap + reach, -(delta as i64))
    } else {
        let gap: i64 = center as i64 - origin as i64;
        (gap - reach, gap + reach, delta as i64)
    }
}

/// Whether a movement along one axis stays outside the stretch for good.
fn slab_stays_out(center: i32, reach: i64, origin: i32, delta: i32) -> (r: bool)
    requires
        0 <= reach <= 0x1_0000_0000,
    ensures
        r == slab_misses(center as int, reach as int, origin as int, delta as int),
{
    let gap: i64 = origin as i64 - center as i64;
    delta == 0 && (if gap < 0 { -gap } else { gap }) >= reach
}

/// Builds the hit of a movement that meets `collider` at the time `tn / td`.
fn make_hit_along(
    collider: &Collider,
    origin: Vec2,
    delta: Vec2,
    tn: i64,
    td: i64,
    normal: Vec2,
) -> (r: Hit)
    requires
        0 <= tn <= td,
        0 < td <= 0x8000_0000,
    ensures
        r == hit_along(*collider, origin, delta, tn as int, td as int, normal),
{
    proof {
        lemma_product_bound(origin.x as int, td as int, 0x8000_0000, 0x8000_0000);
        lemma_product_bound(origin.y as int, td as int, 0x8000_0000, 0x8000_0000);
        lemma_product_bound(delta.x as int, tn as int, 0x8000_0000, 0x8000_0000);
        lemma_product_bound(delta.y as int, tn as int, 0x8000_0000, 0x8000_0000);
    }
    let rest: i64 = tn - td;
    Hit {
        collider: *collider,
        pos: FracVec2 {
            x: Fraction {
                num: wide_product(origin.x as i64, td) + wide_product(delta.x as i64, tn),
                den: td as i128,
            },
            y: Fraction {
                num: wide_product(origin.y as i64, td) + wide_product(delta.y as i64, tn),
                den: td as i128,
            },
        },
        delta: FracVec2 {
            x: Fraction { num: wide_product(rest, delta.x as i64), den: td as i128 },
            y: Fraction { num: wide_product(rest, delta.y as i64), den: td as i128 },
        },
        normal,
        time: Fraction { num: tn as i128, den: td as i128 },
    }
}

impl Collider {
    /// Tests this box against something at rest at `at` with half-extent
    /// `extra`.
    fn overlap(&self, at: Vec2, extra: Vec2) -> (r: Option<Hit>)
        requires
            self.wf(),
            extra.x >= 0,
            extra.y >= 0,
        ensures
            r == self.overlap_hit(at, extra),
    {
        if self.half.x == 0 || self.half.y == 0 {
            return None;
        }
        let dx: i64 = at.x as i64 - self.center.x as i64;
        let px: i64 = self.half.x as i64 + extra.x as i64 - (if dx < 0 { -dx } else { dx });
        if px <= 0 {
            return None;
        }
        let dy: i64 = at.y as i64 - self.center.y as i64;
        let py: i64 = self.half.y as i64 + extra.y as i64 - (if dy < 0 { -dy } else { dy });
        if py <= 0 {
            return None;
        }
        if px <= py {
            let sx: i32 = if dx < 0 { -1 } else { 1 };
            let edge: i64 = if dx < 0 {
                self.center.x as i64 - self.half.x as i64
            } else {
                self.center.x as i64 + self.half.x as i64
            };
            let out: i64 = if dx < 0 { -px } else { px };
            Some(
                Hit {
                    collider: *self,
                    pos: FracVec2 {
                        x: Fraction::from_int(edge),
                        y: Fraction::from_int(at.y as i64),
                    },
                    delta: FracVec2 { x: Fraction::from_int(out), y: Fraction::from_int(0) },
                    normal: Vec2 { x: sx, y: 0 },
                    time: Fraction::one(),
                },
            )
        } else {
            let sy: i32 = if dy < 0 { -1 } else { 1 };
            let edge: i64 = if dy < 0 {
                self.center.y as i64 - self.half.y as i64
            } else {
                self.center.y as i64 + self.half.y as i64
            };
            let out: i64 = if dy < 0 { -py } else { py };
            Some(
                Hit {
                    collider: *self,
                    pos: FracVec2 {
                        x: Fraction::from_int(at.x as i64),
                        y: Fraction::from_int(edge),
                    },
                    delta: FracVec2 { x: Fraction::from_int(0), y: Fraction::from_int(out) },
                    normal: Vec2 { x: 0, y: sy },
                    time: Fraction::one(),
                },
            )
        }
    }

    /// Tests whether the point `pos` lies inside this box, and if so finds
    /// the shortest way out.
    pub fn intersect_point(&self, pos: Vec2) -> (r: Option<Hit>)
        requires
            self.wf(),
        ensures
            r == self.point_hit(pos),
            r.is_some() <==> abs(pos.x - self.center.x) < self.half.x && abs(pos.y - self.center.y)
                < self.half.y,
    {
        self.overlap(pos, Vec2::zero())
    }

    /// Tests whether the box `other` overlaps this box, and if so finds the
    /// shortest way to move `other` out.
    pub fn intersect(&self, other: &Collider) -> (r: Option<Hit>)
        requires
            self.wf(),
            other.wf(),
        ensures
            r == self.box_hit(*other),
            r.is_some() <==> !self.degenerate() && abs(other.center.x - self.center.x)
                < self.half.x + other.half.x && abs(other.center.y - self.center.y) < self.half.y
                + other.half.y,
    {
        self.overlap(other.center, other.half)
    }

    /// Tests the movement from `pos` by `delta` against this box grown by the
    /// padding on every side, and finds where it first gets in.
    pub fn intersect_segment(
        &self,
        pos: Vec2,
        delta: Vec2,
        padding_x: i32,
        padding_y: i32,
    ) -> (r: Option<Hit>)
        requires
            self.wf(),
            padding_x >= 0,
            padding_y >= 0,
        ensures
            r == self.segment_hit(pos, delta, padding_x as int, padding_y as int),
            r matches Some(hit) ==> {
                &&& hit.collider == *self
                &&& !self.degenerate()
                &&& 0 <= hit.time.num < hit.time.den
                &&& hit.normal.x == 0 || hit.normal.y == 0
            },
    {
        proof {
            lemma_segment_hit_shape(*self, pos, delta, padding_x as int, padding_y as int);
        }
        if self.half.x == 0 || self.half.y == 0 {
            return None;
        }
        let rx: i64 = self.half.x as i64 + padding_x as i64;
        let ry: i64 = self.half.y as i64 + padding_y as i64;
        if slab_stays_out(self.center.x, rx, pos.x, delta.x) || slab_stays_out(
            self.center.y,
            ry,
            pos.y,
            delta.y,
        ) {
            return None;
        }
        let (nx, fx, qx) = slab(self.center.x, rx, pos.x, delta.x);
        let (ny, fy, qy) = slab(self.center.y, ry, pos.y, delta.y);
        if wide_product(nx, qy) > wide_product(fy, qx) || wide_product(ny, qx) > wide_product(
            fx,
            qy,
        ) {
            return None;
        }
        let x_last: bool = wide_product(nx, qy) > wide_product(ny, qx);
        let n: i64 = if x_last { nx } else { ny };
        let q: i64 = if x_last { qx } else { qy };
        let f: i64 = if wide_product(fx, qy) < wide_product(fy, qx) { fx } else { fy };
        if n >= q || f <= 0 {
            return None;
        }
        let tn: i64 = if n < 0 { 0 } else { n };
        let td: i64 = if q == 0 { 1 } else { q };
        let normal = if x_last {
            Vec2 { x: if delta.x < 0 { 1 } else { -1 }, y: 0 }
        } else {
            Vec2 { x: 0, y: if delta.y < 0 { 1 } else { -1 } }
        };
        Some(make_hit_along(self, pos, delta, tn, td, normal))
    }
}

/// What every contact of a movement with a box looks like: it is a hit on
/// that box at a time from zero up to, but not including, one, whose
/// denominator is the length of the movement along one axis (or one), and
/// its normal is a unit vector along an axis that faces against the
/// movement.
pub proof fn lemma_segment_hit_shape(
    collider: Collider,
    pos: Vec2,
    delta: Vec2,
    padding_x: int,
    padding_y: int,
)
    requires
        collider.wf(),
        padding_x >= 0,
        padding_y >= 0,
    ensures
        match collider.segment_hit(pos, delta, padding_x, padding_y) {
            Some(hit) => {
                &&& hit == hit_along(
                    collider,
                    pos,
                    delta,
                    hit.time.num as int,
                    hit.time.den as int,
                    hit.normal,
                )
                &&& 0 <= hit.time.num < hit.time.den <= 0x8000_0000
                &&& hit.time.num > 0 ==> !delta.is_zero()
                &&& hit.normal.x == 0 || hit.normal.y == 0
                &&& hit.normal.x == 0 ==> hit.normal.y == -sign(delta.y as int)
                &&& hit.normal.y == 0 ==> hit.normal.x == -sign(delta.x as int)
                &&& -0x8000_0000_0000_0000 <= hit.pos.x.num <= 0x8000_0000_0000_0000
                &&& -0x8000_0000_0000_0000 <= hit.pos.y.num <= 0x8000_0000_0000_0000
                &&& -0x4000_0000_0000_0000 <= hit.delta.x.num <= 0x4000_0000_0000_0000
                &&& -0x4000_0000_0000_0000 <= hit.delta.y.num <= 0x4000_0000_0000_0000
            },
            None => true,
        },
{
    match collider.segment_hit(pos, delta, padding_x, padding_y) {
        Some(hit) => {
            let tn = hit.time.num as int;
            let td = hit.time.den as int;
            lemma_product_bound(pos.x as int, td, 0x8000_0000, 0x8000_0000);
            lemma_product_bound(pos.y as int, td, 0x8000_0000, 0x8000_0000);
            lemma_product_bound(delta.x as int, tn, 0x8000_0000, 0x8000_0000);
            lemma_product_bound(delta.y as int, tn, 0x8000_0000, 0x8000_0000);
            lemma_product_bound(tn - td, delta.x as int, 0x8000_0000, 0x8000_0000);
            lemma_product_bound(tn - td, delta.y as int, 0x8000_0000, 0x8000_0000);
        },
        None => {},
    }
}

/// The correction of an overlap is the shortest way out: it is along the
/// normal, it takes the thing that overlaps the box to where the two just
/// touch, the contact is on the side of the box that the normal names, and
/// no way of moving the thing by `a` along x and `b` along y that ends the
/// overlap is shorter.
pub proof fn lemma_overlap_shortest_way_out(
    collider: Collider,
    at: Vec2,
    extra: Vec2,
    a: int,
    b: int,
)
    requires
        collider.wf(),
        extra.x >= 0,
        extra.y >= 0,
        collider.overlap_hit(at, extra).is_some(),
    ensures
        ({
            let hit = collider.overlap_hit(at, extra).unwrap();
            let (cx, cy) = (collider.center.x as int, collider.center.y as int);
            let (hx, hy) = (collider.half.x as int, collider.half.y as int);
            let (ex, ey) = (extra.x as int, extra.y as int);
            &&& hit.collider == collider
            &&& hit.pos.x.den == 1 && hit.pos.y.den == 1 && hit.delta.x.den == 1 && hit.delta.y.den
                == 1
            &&& (hit.normal.x == 0) != (hit.normal.y == 0)
            &&& hit.normal.x == 0 ==> hit.delta.x.num == 0 && penetration(
                cy,
                hy,
                at.y + hit.delta.y.num,
                ey,
            ) == 0 && hit.pos.y.num == cy + directed(hy, hit.normal.y as int) && hit.delta.y.num
                == directed(penetration(cy, hy, at.y as int, ey), hit.normal.y as int)
            &&& hit.normal.y == 0 ==> hit.delta.y.num == 0 && penetration(
                cx,
                hx,
                at.x + hit.delta.x.num,
                ex,
            ) == 0 && hit.pos.x.num == cx + directed(hx, hit.normal.x as int) && hit.delta.x.num
                == directed(penetration(cx, hx, at.x as int, ex), hit.normal.x as int)
            &&& penetration(cx, hx, at.x + a, ex) <= 0 || penetration(cy, hy, at.y + b, ey) <= 0
                ==> abs(a) + abs(b) >= abs(hit.delta.x.num as int) + abs(hit.delta.y.num as int)
        }),
{
}

/// A movement that starts strictly inside the grown box is in contact from
/// the start: the hit is at time zero, at the place where the movement
/// starts, and its correction takes back the whole movement.
pub proof fn lemma_segment_from_inside(
    collider: Collider,
    pos: Vec2,
    delta: Vec2,
    padding_x: int,
    padding_y: int,
)
    requires
        collider.wf(),
        !collider.degenerate(),
        padding_x >= 0,
        padding_y >= 0,
        abs(pos.x - collider.center.x) < collider.half.x + padding_x,
        abs(pos.y - collider.center.y) < collider.half.y + padding_y,
    ensures
        collider.segment_hit(pos, delta, padding_x, padding_y).is_some(),
        ({
            let hit = collider.segment_hit(pos, delta, padding_x, padding_y).unwrap();
            &&& hit.collider == collider
            &&& hit.time.num == 0
            &&& hit.time.den > 0
            &&& hit.pos.x.num == pos.x * hit.pos.x.den
            &&& hit.pos.y.num == pos.y * hit.pos.y.den
            &&& hit.delta.x.num == -delta.x * hit.delta.x.den
            &&& hit.delta.y.num == -delta.y * hit.delta.y.den
            &&& hit.pos.x.den == hit.time.den
            &&& hit.pos.y.den == hit.time.den
            &&& hit.delta.x.den == hit.time.den
            &&& hit.delta.y.den == hit.time.den
        }),
{
    let rx = collider.half.x + padding_x;
    let ry = collider.half.y + padding_y;
    let nx = slab_near(collider.center.x as int, rx, pos.x as int, delta.x as int);
    let ny = slab_near(collider.center.y as int, ry, pos.y as int, delta.y as int);
    let fx = slab_far(collider.center.x as int, rx, pos.x as int, delta.x as int);
    let fy = slab_far(collider.center.y as int, ry, pos.y as int, delta.y as int);
    let qx = abs(delta.x as int);
    let qy = abs(delta.y as int);
    assert(nx < 0 && ny < 0 && fx > 0 && fy > 0);
    assert(nx * qy <= 0 && ny * qx <= 0 && fy * qx >= 0 && fx * qy >= 0) by (nonlinear_arith)
        requires
            nx < 0,
            ny < 0,
            fx > 0,
            fy > 0,
            qx >= 0,
            qy >= 0,
    ;
    let x_last = nx * qy > ny * qx;
    let q = if x_last { qx } else { qy };
    let td = if q == 0 { 1 } else { q };
    assert(td <= 0x8000_0000);
    lemma_product_bound(pos.x as int, td, 0x8000_0000, 0x8000_0000);
    lemma_product_bound(pos.y as int, td, 0x8000_0000, 0x8000_0000);
    lemma_product_bound(-td, delta.x as int, 0x8000_0000, 0x8000_0000);
    lemma_product_bound(-td, delta.y as int, 0x8000_0000, 0x8000_0000);
    assert(delta.x * 0 == 0 && delta.y * 0 == 0);
    assert((0 - td) * delta.x == -delta.x * td && (0 - td) * delta.y == -delta.y * td)
        by (nonlinear_arith);
}

} // verus!
