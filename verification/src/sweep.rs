//! Moving one box along a straight path into others.

use vstd::prelude::*;
use crate::collider::Collider;
use crate::hit::{Hit, Sweep};
use crate::intersect::lemma_segment_hit_shape;
use crate::math::{
    clamp, directed, lemma_le_transitive, lemma_lt_le_transitive, lemma_product_bound,
    wide_product, FracVec2, Fraction, Vec2,
};
use crate::slab::{
    along, inside_grown, lemma_hit_is_first, lemma_hit_touches, lemma_miss_is_clear,
    lemma_still_axis,
};

verus! {

/// A moving box stops this small part of its path short of a contact, so
/// that it rests just off the box it ran into and not on it: one part in
/// `EPSILON_INVERSE`.
pub const EPSILON_INVERSE: i64 = 100_000_000;

/// The time `t` less the epsilon, and not below zero. The denominator grows
/// by the factor `EPSILON_INVERSE`.
pub open spec fn backed_off(t: Fraction) -> Fraction {
    let num = t.num * EPSILON_INVERSE - t.den;
    Fraction {
        num: (if num < 0 { 0 } else { num }) as i128,
        den: (t.den * EPSILON_INVERSE) as i128,
    }
}

/// One coordinate of the point reached from `start` after the part `t` of a
/// movement by `delta`.
pub open spec fn reached(start: int, delta: int, t: Fraction) -> Fraction {
    Fraction { num: (start * t.den + delta * t.num) as i128, den: t.den }
}

/// One coordinate of a contact, limited to the stretch from `lo` to `hi`.
/// The denominator stays.
pub open spec fn limited(at: Fraction, lo: int, hi: int) -> Fraction {
    Fraction { num: clamp(at.num as int, lo * at.den, hi * at.den) as i128, den: at.den }
}

/// The correction of a contact takes back the rest of the movement: of a hit
/// at the time `time`, the part `1 - time` of `delta`, along one axis.
pub open spec fn rest_taken_back(time: Fraction, delta: int) -> Fraction {
    Fraction { num: ((time.num - time.den) * delta) as i128, den: time.den }
}

impl Collider {
    /// A movement by `delta` heads into a side of this box that is not
    /// solid: to the left into the right side, to the right into the left
    /// side, up into the bottom or down into the top. Such a movement is not
    /// stopped by this box, whichever side it would strike first.
    pub open spec fn passes_through(self, delta: Vec2) -> bool {
        ||| delta.x < 0 && !self.right
        ||| delta.x > 0 && !self.left
        ||| delta.y > 0 && !self.bottom
        ||| delta.y < 0 && !self.top
    }

    /// The outcome for `other` of a movement by `delta` on which nothing is
    /// in its way.
    pub open spec fn unhindered(other: Collider, delta: Vec2) -> Sweep {
        Sweep::free(
            FracVec2 {
                x: Fraction::whole(other.center.x + delta.x),
                y: Fraction::whole(other.center.y + delta.y),
            },
        )
    }

    /// The outcome of moving the box `other` by `delta` towards this box,
    /// which stays where it is.
    ///
    /// Without movement, `other` is tested where it stands: an overlap is a
    /// contact at time zero. With movement, the centre of `other` is traced
    /// against this box grown by the half-extent of `other`. A contact counts
    /// unless the movement passes through this box; the path is then free up
    /// to the epsilon before the contact, and the contact is reported on
    /// this box itself: where the centre of `other` is at the contact,
    /// limited to the extent of this box.
    pub open spec fn sweep_of(self, other: Collider, delta: Vec2) -> Sweep {
        if delta.is_zero() {
            match self.box_hit(other) {
                Some(hit) => Sweep {
                    hit: Some(Hit { time: Fraction { num: 0, den: 1 }, ..hit }),
                    pos: FracVec2::whole(other.center),
                    time: Fraction { num: 0, den: 1 },
                },
                None => Sweep::free(FracVec2::whole(other.center)),
            }
        } else {
            match self.segment_hit(other.center, delta, other.half.x as int, other.half.y as int) {
                Some(hit) => if self.passes_through(delta) {
                    Collider::unhindered(other, delta)
                } else {
                    let time = backed_off(hit.time);
                    Sweep {
                        hit: Some(
                            Hit {
                                pos: FracVec2 {
                                    x: limited(
                                        hit.pos.x,
                                        self.center.x - self.half.x,
                                        self.center.x + self.half.x,
                                    ),
                                    y: limited(
                                        hit.pos.y,
                                        self.center.y - self.half.y,
                                        self.center.y + self.half.y,
                                    ),
                                },
                                ..hit
                            },
                        ),
                        pos: FracVec2 {
                            x: reached(other.center.x as int, delta.x as int, time),
                            y: reached(other.center.y as int, delta.y as int, time),
                        },
                        time,
                    }
                },
                None => Collider::unhindered(other, delta),
            }
        }
    }
}

/// Whether the box at `index` is one that a mover is tested against: it is
/// one of `colliders`, and not the one at `own`, which is the mover itself.
pub open spec fn is_candidate(colliders: Seq<Collider>, own: Option<usize>, index: int) -> bool {
    0 <= index < colliders.len() && own != Some(index as usize)
}

/// The outcome of moving `mover` by `delta` into the first `count` of
/// `colliders`, the one at `own` left out: the outcome against the box that
/// leaves it the least free path, the earlier box if two leave the same, and
/// a free path if no box is in the way.
pub open spec fn nearest_among(
    mover: Collider,
    colliders: Seq<Collider>,
    own: Option<usize>,
    delta: Vec2,
    count: int,
) -> Sweep
    decreases count,
{
    if count <= 0 {
        Collider::unhindered(mover, delta)
    } else {
        let before = nearest_among(mover, colliders, own, delta, count - 1);
        let this = colliders[count - 1].sweep_of(mover, delta);
        if is_candidate(colliders, own, count - 1) && this.time.lt(before.time) {
            this
        } else {
            before
        }
    }
}

/// The box at `index` is the one that stops the mover: it is in the way, no
/// candidate before it leaves the mover as little free path, and no
/// candidate after it leaves less.
pub open spec fn stops_first(
    mover: Collider,
    colliders: Seq<Collider>,
    own: Option<usize>,
    delta: Vec2,
    index: int,
) -> bool {
    let time = colliders[index].sweep_of(mover, delta).time;
    &&& is_candidate(colliders, own, index)
    &&& colliders[index].sweep_of(mover, delta).hit.is_some()
    &&& forall|j: int|
        is_candidate(colliders, own, j) && j < index ==> time.lt(
            (#[trigger] colliders[j]).sweep_of(mover, delta).time,
        )
    &&& forall|j: int|
        is_candidate(colliders, own, j) ==> time.le(
            (#[trigger] colliders[j]).sweep_of(mover, delta).time,
        )
}

/// Computes the time `t` less the epsilon, and not below zero.
fn back_off(t: &Fraction) -> (r: Fraction)
    requires
        0 <= t.num <= t.den,
        0 < t.den <= 0x8000_0000,
    ensures
        r == backed_off(*t),
        0 <= r.num <= r.den,
        0 < r.den <= 0x8000_0000 * EPSILON_INVERSE,
        r.num < r.den,
{
    let scale: i128 = EPSILON_INVERSE as i128;
    assert(scale == 100_000_000);
    let num: i128 = t.num * scale - t.den;
    Fraction { num: if num < 0 { 0 } else { num }, den: t.den * scale }
}

/// Computes one coordinate of the point reached after the part `t` of a
/// movement.
fn reach(start: i32, delta: i32, t: &Fraction) -> (r: Fraction)
    requires
        0 <= t.num <= t.den,
        0 < t.den <= 0x8000_0000 * EPSILON_INVERSE,
    ensures
        r == reached(start as int, delta as int, *t),
{
    proof {
        lemma_product_bound(
            start as int,
            t.den as int,
            0x8000_0000,
            0x8000_0000 * EPSILON_INVERSE,
        );
        lemma_product_bound(
            delta as int,
            t.num as int,
            0x8000_0000,
            0x8000_0000 * EPSILON_INVERSE,
        );
    }
    Fraction {
        num: wide_product(start as i64, t.den as i64) + wide_product(delta as i64, t.num as i64),
        den: t.den,
    }
}

/// Limits one coordinate of a contact to the stretch from `lo` to `hi`.
fn limit(at: &Fraction, lo: i64, hi: i64) -> (r: Fraction)
    requires
        0 < at.den <= 0x8000_0000,
        -0x1_0000_0000 <= lo <= hi <= 0x1_0000_0000,
    ensures
        r == limited(*at, lo as int, hi as int),
{
    let low: i128 = wide_product(lo, at.den as i64);
    let high: i128 = wide_product(hi, at.den as i64);
    Fraction {
        num: if at.num < low {
            low
        } else if at.num > high {
            high
        } else {
            at.num
        },
        den: at.den,
    }
}

impl Collider {
    /// Whether a movement by `delta` heads into a side of this box that is
    /// not solid.
    pub fn lets_through(&self, delta: Vec2) -> (r: bool)
        ensures
            r == self.passes_through(delta),
    {
        (delta.x < 0 && !self.right) || (delta.x > 0 && !self.left) || (delta.y > 0
            && !self.bottom) || (delta.y < 0 && !self.top)
    }

    /// Moves the box `other` by `delta` towards this box and reports how far
    /// it gets.
    pub fn sweep(&self, other: &Collider, delta: Vec2) -> (r: Sweep)
        requires
            self.wf(),
            other.wf(),
        ensures
            r == self.sweep_of(*other, delta),
            r.hit.is_none() <==> r.time == (Fraction { num: 1, den: 1 }),
            r.hit matches Some(hit) ==> {
                &&& hit.collider == *self
                &&& !self.degenerate()
                &&& 0 <= r.time.num < r.time.den
                &&& r.time.le(hit.time)
            },
            r.time.small(),
    {
        if delta.x == 0 && delta.y == 0 {
            return match self.intersect(other) {
                Some(hit) => Sweep {
                    hit: Some(
                        Hit {
                            collider: hit.collider,
                            pos: hit.pos,
                            delta: hit.delta,
                            normal: hit.normal,
                            time: Fraction::zero(),
                        },
                    ),
                    pos: FracVec2::from_vec2(other.center),
                    time: Fraction::zero(),
                },
                None => Sweep {
                    hit: None,
                    pos: FracVec2::from_vec2(other.center),
                    time: Fraction::one(),
                },
            };
        }
        let free = Sweep {
            hit: None,
            pos: FracVec2 {
                x: Fraction::from_int(other.center.x as i64 + delta.x as i64),
                y: Fraction::from_int(other.center.y as i64 + delta.y as i64),
            },
            time: Fraction::one(),
        };
        match self.intersect_segment(other.center, delta, other.half.x, other.half.y) {
            Some(hit) => {
                if self.lets_through(delta) {
                    return free;
                }
                proof {
                    lemma_segment_hit_shape(
                        *self,
                        other.center,
                        delta,
                        other.half.x as int,
                        other.half.y as int,
                    );
                    lemma_backed_off_is_earlier(hit.time);
                }
                let time = back_off(&hit.time);
                let pos = FracVec2 {
                    x: reach(other.center.x, delta.x, &time),
                    y: reach(other.center.y, delta.y, &time),
                };
                let contact = FracVec2 {
                    x: limit(
                        &hit.pos.x,
                        self.center.x as i64 - self.half.x as i64,
                        self.center.x as i64 + self.half.x as i64,
                    ),
                    y: limit(
                        &hit.pos.y,
                        self.center.y as i64 - self.half.y as i64,
                        self.center.y as i64 + self.half.y as i64,
                    ),
                };
                Sweep {
                    hit: Some(
                        Hit {
                            collider: hit.collider,
                            pos: contact,
                            delta: hit.delta,
                            normal: hit.normal,
                            time: hit.time,
                        },
                    ),
                    pos,
                    time,
                }
            },
            None => free,
        }
    }

    /// Moves this box by `delta` into every one of `colliders` but the one
    /// at `own`, which is this box itself as it stood before, and reports
    /// how far it gets.
    pub fn sweep_into_others(
        &self,
        colliders: &Vec<Collider>,
        own: Option<usize>,
        delta: Vec2,
    ) -> (r: Sweep)
        requires
            self.wf(),
            forall|i: int| 0 <= i < colliders@.len() ==> (#[trigger] colliders@[i]).wf(),
        ensures
            r == nearest_among(*self, colliders@, own, delta, colliders@.len() as int),
            forall|j: int|
                is_candidate(colliders@, own, j) ==> r.time.le(
                    (#[trigger] colliders@[j]).sweep_of(*self, delta).time,
                ),
            r.hit.is_none() ==> r == Collider::unhindered(*self, delta),
            r.hit.is_some() ==> exists|i: int|
                #![trigger colliders@[i]]
                stops_first(*self, colliders@, own, delta, i) && r == colliders@[i].sweep_of(
                    *self,
                    delta,
                ),
    {
        let mut nearest = Sweep {
            hit: None,
            pos: FracVec2 {
                x: Fraction::from_int(self.center.x as i64 + delta.x as i64),
                y: Fraction::from_int(self.center.y as i64 + delta.y as i64),
            },
            time: Fraction::one(),
        };
        let mut i: usize = 0;
        while i < colliders.len()
            invariant
                self.wf(),
                forall|k: int| 0 <= k < colliders@.len() ==> (#[trigger] colliders@[k]).wf(),
                i <= colliders@.len(),
                nearest == nearest_among(*self, colliders@, own, delta, i as int),
            decreases colliders@.len() - i,
        {
            proof {
                lemma_nearest_is_least(*self, colliders@, own, delta, i as int);
            }
            let skipped = match own {
                Some(index) => index == i,
                None => false,
            };
            if !skipped {
                let sweep = colliders[i].sweep(self, delta);
                if sweep.time.less_than(&nearest.time) {
                    nearest = sweep;
                }
            }
            i = i + 1;
        }
        proof {
            lemma_nearest_is_least(*self, colliders@, own, delta, colliders@.len() as int);
            assert(colliders@.take(colliders@.len() as int) == colliders@);
        }
        nearest
    }

    /// Moves this box by `delta` into every one of `colliders` and reports
    /// how far it gets: the outcome against the box that stops it first, the
    /// earlier one in `colliders` if two stop it at once.
    pub fn sweep_into(&self, colliders: &Vec<Collider>, delta: Vec2) -> (r: Sweep)
        requires
            self.wf(),
            forall|i: int| 0 <= i < colliders@.len() ==> (#[trigger] colliders@[i]).wf(),
        ensures
            r == nearest_among(*self, colliders@, None, delta, colliders@.len() as int),
            forall|j: int|
                0 <= j < colliders@.len() ==> r.time.le(
                    (#[trigger] colliders@[j]).sweep_of(*self, delta).time,
                ),
            r.hit.is_none() ==> r == Collider::unhindered(*self, delta),
            r.hit.is_some() ==> exists|i: int|
                #![trigger colliders@[i]]
                stops_first(*self, colliders@, None, delta, i) && r == colliders@[i].sweep_of(
                    *self,
                    delta,
                ),
    {
        self.sweep_into_others(colliders, None, delta)
    }
}

/// Backing off leads to an earlier time, or to the same if the time is
/// zero.
pub proof fn lemma_backed_off_is_earlier(t: Fraction)
    requires
        0 <= t.num,
        0 < t.den <= 0x8000_0000,
        t.num <= t.den,
    ensures
        backed_off(t).le(t),
        t.num > 0 ==> backed_off(t).lt(t),
        backed_off(t).num >= 0,
        backed_off(t).den > 0,
{
    let scale = EPSILON_INVERSE as int;
    let num = t.num * scale - t.den;
    let back = if num < 0 { 0 } else { num };
    let (tn, td) = (t.num as int, t.den as int);
    assert(back * td <= tn * (td * scale) && (tn > 0 ==> back * td < tn * (td * scale)))
        by (nonlinear_arith)
        requires
            scale == 100_000_000,
            back == (if tn * scale - td < 0 { 0 } else { tn * scale - td }),
            0 <= tn <= td,
            td > 0,
    ;
}

/// Every outcome of `sweep_of` has a time from zero to one that is small
/// enough to be compared, and the time is one exactly if nothing was hit.
pub proof fn lemma_sweep_time(collider: Collider, other: Collider, delta: Vec2)
    requires
        collider.wf(),
        other.wf(),
    ensures
        collider.sweep_of(other, delta).time.small(),
        collider.sweep_of(other, delta).time.is_unit(),
        collider.sweep_of(other, delta).hit.is_none() <==> collider.sweep_of(other, delta).time
            == (Fraction { num: 1, den: 1 }),
        collider.sweep_of(other, delta).hit.is_some() ==> collider.sweep_of(other, delta).time.num
            < collider.sweep_of(other, delta).time.den,
{
    lemma_segment_hit_shape(
        collider,
        other.center,
        delta,
        other.half.x as int,
        other.half.y as int,
    );
}

/// What the contact of a box that moves looks like: it is a contact with a
/// box that is not degenerate and does not let the movement through, at a
/// time from zero up to, but not including, one; and its correction takes
/// back the rest of the movement.
pub proof fn lemma_sweep_hit_shape(collider: Collider, other: Collider, delta: Vec2)
    requires
        collider.wf(),
        other.wf(),
        !delta.is_zero(),
    ensures
        match collider.sweep_of(other, delta).hit {
            Some(hit) => {
                &&& hit.collider == collider
                &&& !collider.degenerate()
                &&& !collider.passes_through(delta)
                &&& 0 <= hit.time.num < hit.time.den <= 0x8000_0000
                &&& hit.delta.x == rest_taken_back(hit.time, delta.x as int)
                &&& hit.delta.y == rest_taken_back(hit.time, delta.y as int)
            },
            None => true,
        },
{
    lemma_segment_hit_shape(
        collider,
        other.center,
        delta,
        other.half.x as int,
        other.half.y as int,
    );
}

/// The outcome of a sweep into many boxes leaves the mover no more free path
/// than any single one of them does, and it is the outcome against the first
/// box that leaves the least, or a free path if no box is in the way.
pub proof fn lemma_nearest_is_least(
    mover: Collider,
    colliders: Seq<Collider>,
    own: Option<usize>,
    delta: Vec2,
    count: int,
)
    requires
        mover.wf(),
        forall|i: int| 0 <= i < colliders.len() ==> (#[trigger] colliders[i]).wf(),
        0 <= count <= colliders.len(),
    ensures
        nearest_among(mover, colliders, own, delta, count).time.small(),
        nearest_among(mover, colliders, own, delta, count).time.is_unit(),
        forall|j: int|
            is_candidate(colliders, own, j) && j < count ==> nearest_among(
                mover,
                colliders,
                own,
                delta,
                count,
            ).time.le((#[trigger] colliders[j]).sweep_of(mover, delta).time),
        nearest_among(mover, colliders, own, delta, count).hit.is_none() ==> nearest_among(
            mover,
            colliders,
            own,
            delta,
            count,
        ) == Collider::unhindered(mover, delta),
        nearest_among(mover, colliders, own, delta, count).hit.is_some() ==> exists|i: int|
            #![trigger colliders[i]]
            {
                &&& i < count
                &&& stops_first(mover, colliders.take(count), own, delta, i)
                &&& nearest_among(mover, colliders, own, delta, count) == colliders[i].sweep_of(
                    mover,
                    delta,
                )
            },
    decreases count,
{
    if count > 0 {
        lemma_nearest_is_least(mover, colliders, own, delta, count - 1);
        let before = nearest_among(mover, colliders, own, delta, count - 1);
        let this = colliders[count - 1].sweep_of(mover, delta);
        let now = nearest_among(mover, colliders, own, delta, count);
        lemma_sweep_time(colliders[count - 1], mover, delta);
        let shorter = colliders.take(count - 1);
        let longer = colliders.take(count);
        assert forall|j: int| is_candidate(colliders, own, j) && j < count implies now.time.le(
            (#[trigger] colliders[j]).sweep_of(mover, delta).time,
        ) by {
            let other = colliders[j].sweep_of(mover, delta);
            lemma_sweep_time(colliders[j], mover, delta);
            if is_candidate(colliders, own, count - 1) && this.time.lt(before.time) {
                if j < count - 1 {
                    lemma_le_transitive(this.time, before.time, other.time);
                }
            }
        }
        if now.hit.is_some() {
            if is_candidate(colliders, own, count - 1) && this.time.lt(before.time) {
                let i = count - 1;
                assert forall|j: int| is_candidate(longer, own, j) && j < i implies this.time.lt(
                    (#[trigger] longer[j]).sweep_of(mover, delta).time,
                ) by {
                    lemma_sweep_time(colliders[j], mover, delta);
                    lemma_lt_le_transitive(
                        this.time,
                        before.time,
                        colliders[j].sweep_of(mover, delta).time,
                    );
                }
                assert forall|j: int| is_candidate(longer, own, j) implies this.time.le(
                    (#[trigger] longer[j]).sweep_of(mover, delta).time,
                ) by {
                    lemma_sweep_time(colliders[j], mover, delta);
                    if j < i {
                        lemma_lt_le_transitive(
                            this.time,
                            before.time,
                            colliders[j].sweep_of(mover, delta).time,
                        );
                    }
                }
                assert(longer[i] == colliders[i]);
                assert(stops_first(mover, longer, own, delta, i));
            } else {
                let i = choose|i: int|
                    #![trigger colliders[i]]
                    {
                        &&& i < count - 1
                        &&& stops_first(mover, shorter, own, delta, i)
                        &&& before == colliders[i].sweep_of(mover, delta)
                    };
                assert(shorter[i] == colliders[i]);
                assert(longer[i] == colliders[i]);
                assert forall|j: int| is_candidate(longer, own, j) && j < i implies before.time.lt(
                    (#[trigger] longer[j]).sweep_of(mover, delta).time,
                ) by {
                    assert(shorter[j] == longer[j]);
                }
                assert forall|j: int| is_candidate(longer, own, j) implies before.time.le(
                    (#[trigger] longer[j]).sweep_of(mover, delta).time,
                ) by {
                    if j < count - 1 {
                        assert(shorter[j] == longer[j]);
                    }
                }
                assert(stops_first(mover, longer, own, delta, i));
            }
        }
    }
}

/// What the contact of a box that moves into many boxes looks like: it is a
/// contact with one of the candidates, of the shape that
/// `lemma_sweep_hit_shape` describes.
pub proof fn lemma_nearest_hit_shape(
    mover: Collider,
    colliders: Seq<Collider>,
    own: Option<usize>,
    delta: Vec2,
)
    requires
        mover.wf(),
        forall|i: int| 0 <= i < colliders.len() ==> (#[trigger] colliders[i]).wf(),
        !delta.is_zero(),
    ensures
        match nearest_among(mover, colliders, own, delta, colliders.len() as int).hit {
            Some(hit) => {
                &&& exists|i: int|
                    is_candidate(colliders, own, i) && hit.collider == #[trigger] colliders[i]
                &&& !hit.collider.degenerate()
                &&& !hit.collider.passes_through(delta)
                &&& 0 <= hit.time.num < hit.time.den <= 0x8000_0000
                &&& hit.delta.x == rest_taken_back(hit.time, delta.x as int)
                &&& hit.delta.y == rest_taken_back(hit.time, delta.y as int)
            },
            None => true,
        },
{
    let count = colliders.len() as int;
    lemma_nearest_is_least(mover, colliders, own, delta, count);
    assert(colliders.take(count) == colliders);
    let nearest = nearest_among(mover, colliders, own, delta, count);
    if nearest.hit.is_some() {
        let i = choose|i: int|
            #![trigger colliders[i]]
            {
                &&& i < count
                &&& stops_first(mover, colliders.take(count), own, delta, i)
                &&& nearest == colliders[i].sweep_of(mover, delta)
            };
        lemma_sweep_hit_shape(colliders[i], mover, delta);
    }
}

/// A moving box stops short of what it runs into: where its path ends
/// because of a contact that is after its start, it does not overlap the
/// box that it struck, that is, its centre is not strictly inside that box
/// grown by its half-extent.
pub proof fn lemma_stops_short(collider: Collider, other: Collider, delta: Vec2)
    requires
        collider.wf(),
        other.wf(),
        !delta.is_zero(),
        collider.sweep_of(other, delta).hit.is_some(),
        collider.sweep_of(other, delta).hit.unwrap().time.num > 0,
    ensures
        ({
            let sweep = collider.sweep_of(other, delta);
            &&& sweep.pos.x.den == sweep.time.den
            &&& sweep.pos.y.den == sweep.time.den
            &&& sweep.time.lt(sweep.hit.unwrap().time)
            &&& !inside_grown(
                collider,
                other.half.x as int,
                other.half.y as int,
                sweep.pos.x.num as int,
                sweep.pos.y.num as int,
                sweep.time.den as int,
            )
        }),
{
    let px = other.half.x as int;
    let py = other.half.y as int;
    let sweep = collider.sweep_of(other, delta);
    let hit = sweep.hit.unwrap();
    lemma_segment_hit_shape(collider, other.center, delta, px, py);
    lemma_backed_off_is_earlier(hit.time);
    let tn = sweep.time.num as int;
    let td = sweep.time.den as int;
    assert(td == hit.time.den * EPSILON_INVERSE);
    lemma_product_bound(other.center.x as int, td, 0x8000_0000, 0x8000_0000 * EPSILON_INVERSE);
    lemma_product_bound(other.center.y as int, td, 0x8000_0000, 0x8000_0000 * EPSILON_INVERSE);
    lemma_product_bound(delta.x as int, tn, 0x8000_0000, 0x8000_0000 * EPSILON_INVERSE);
    lemma_product_bound(delta.y as int, tn, 0x8000_0000, 0x8000_0000 * EPSILON_INVERSE);
    assert(tn * hit.time.den == hit.time.den * tn && hit.time.num * td == td * hit.time.num)
        by (nonlinear_arith);
    lemma_hit_is_first(collider, other.center, delta, px, py, tn, td);
}

/// A path that is reported free is free: unless the box lets the movement
/// through or has no area, the moving box overlaps it at no time `tn / td`
/// of the movement, that is, its centre is never strictly inside the box
/// grown by its half-extent.
pub proof fn lemma_free_path_is_clear(
    collider: Collider,
    other: Collider,
    delta: Vec2,
    tn: int,
    td: int,
)
    requires
        collider.wf(),
        other.wf(),
        !collider.degenerate(),
        !collider.passes_through(delta),
        collider.sweep_of(other, delta).hit.is_none(),
        td > 0,
        0 <= tn <= td,
    ensures
        !inside_grown(
            collider,
            other.half.x as int,
            other.half.y as int,
            along(other.center.x as int, delta.x as int, tn, td),
            along(other.center.y as int, delta.y as int, tn, td),
            td,
        ),
{
    if delta.is_zero() {
        lemma_still_axis(
            collider.center.x as int,
            collider.half.x + other.half.x,
            other.center.x as int,
            tn,
            td,
        );
        lemma_still_axis(
            collider.center.y as int,
            collider.half.y + other.half.y,
            other.center.y as int,
            tn,
            td,
        );
    } else {
        lemma_miss_is_clear(
            collider,
            other.center,
            delta,
            other.half.x as int,
            other.half.y as int,
            tn,
            td,
        );
    }
}

/// The contact of a box that moves is reported on the box that it struck:
/// within its extent, and, if the contact is after the start of the
/// movement, on the side that the normal names.
pub proof fn lemma_contact_on_box(collider: Collider, other: Collider, delta: Vec2)
    requires
        collider.wf(),
        other.wf(),
        !delta.is_zero(),
        collider.sweep_of(other, delta).hit.is_some(),
    ensures
        ({
            let hit = collider.sweep_of(other, delta).hit.unwrap();
            let den = hit.time.den as int;
            let (cx, cy) = (collider.center.x as int, collider.center.y as int);
            let (hx, hy) = (collider.half.x as int, collider.half.y as int);
            &&& hit.pos.x.den == den && hit.pos.y.den == den
            &&& (cx - hx) * den <= hit.pos.x.num <= (cx + hx) * den
            &&& (cy - hy) * den <= hit.pos.y.num <= (cy + hy) * den
            &&& hit.time.num > 0 && hit.normal.x != 0 ==> hit.pos.x.num == (cx + directed(
                hx,
                hit.normal.x as int,
            )) * den
            &&& hit.time.num > 0 && hit.normal.y != 0 ==> hit.pos.y.num == (cy + directed(
                hy,
                hit.normal.y as int,
            )) * den
        }),
{
    let px = other.half.x as int;
    let py = other.half.y as int;
    lemma_segment_hit_shape(collider, other.center, delta, px, py);
    lemma_hit_touches(collider, other.center, delta, px, py);
    let first = collider.segment_hit(other.center, delta, px, py).unwrap();
    let den = first.time.den as int;
    let (cx, cy) = (collider.center.x as int, collider.center.y as int);
    let (hx, hy) = (collider.half.x as int, collider.half.y as int);
    lemma_product_bound(cx - hx, den, 0x1_0000_0000, 0x8000_0000);
    lemma_product_bound(cx + hx, den, 0x1_0000_0000, 0x8000_0000);
    lemma_product_bound(cy - hy, den, 0x1_0000_0000, 0x8000_0000);
    lemma_product_bound(cy + hy, den, 0x1_0000_0000, 0x8000_0000);
    assert((cx - hx) * den <= (cx + hx) * den && (cy - hy) * den <= (cy + hy) * den
        && (cx - hx) * den == cx * den - hx * den && (cx + hx) * den == cx * den + hx * den
        && (cy - hy) * den == cy * den - hy * den && (cy + hy) * den == cy * den + hy * den
        && (hx + px) * den == hx * den + px * den && (hy + py) * den == hy * den + py * den
        && px * den >= 0 && py * den >= 0) by (nonlinear_arith)
        requires
            den > 0,
            hx >= 0,
            hy >= 0,
            px >= 0,
            py >= 0,
    ;
    if first.normal.x != 0 {
        assert(first.normal.x * ((hx + px) * den) == directed(
            (hx + px) * den,
            first.normal.x as int,
        )) by (nonlinear_arith)
            requires
                first.normal.x == 1 || first.normal.x == -1,
        ;
    }
    if first.normal.y != 0 {
        assert(first.normal.y * ((hy + py) * den) == directed(
            (hy + py) * den,
            first.normal.y as int,
        )) by (nonlinear_arith)
            requires
                first.normal.y == 1 || first.normal.y == -1,
        ;
    }
}

} // verus!
