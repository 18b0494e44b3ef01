//! What an intersection test reports.

use vstd::prelude::*;
use crate::collider::Collider;
use crate::math::{FracVec2, Fraction, Vec2};

verus! {

/// One contact with a box.
#[derive(Clone, Copy, Debug, PartialEq, Eq)]
pub struct Hit {
    /// The box that was struck, as it was when it was tested.
    pub collider: Collider,
    /// Where the contact happens.
    pub pos: FracVec2,
    /// What to add to the position of the thing that struck the box to take
    /// it out of the box again.
    pub delta: FracVec2,
    /// The direction in which the struck side faces: one component is zero,
    /// the other is `1` or `-1`.
    pub normal: Vec2,
    /// How far along the tested movement the contact happens, from zero (at
    /// its start) to one (at its end).
    pub time: Fraction,
}

impl Hit {
    /// The hit on `collider` about which nothing is known yet.
    pub open spec fn blank(collider: Collider) -> Hit {
        Hit {
            collider,
            pos: FracVec2::whole(Vec2 { x: 0, y: 0 }),
            delta: FracVec2::whole(Vec2 { x: 0, y: 0 }),
            normal: Vec2 { x: 0, y: 0 },
            time: Fraction { num: 1, den: 1 },
        }
    }

    /// A hit on `collider` at the origin, at the end of the movement, with no
    /// correction and no normal.
    pub fn new(collider: &Collider) -> (r: Hit)
        ensures
            r == Hit::blank(*collider),
    {
        Hit {
            collider: *collider,
            pos: FracVec2::from_vec2(Vec2::zero()),
            delta: FracVec2::from_vec2(Vec2::zero()),
            normal: Vec2::zero(),
            time: Fraction::one(),
        }
    }
}

/// The outcome of moving a box along a straight path.
#[derive(Clone, Copy, Debug, PartialEq, Eq)]
pub struct Sweep {
    /// The first contact on the path, if there is one.
    pub hit: Option<Hit>,
    /// The centre of the moving box where it can go no further, or at the
    /// end of the path if nothing is in the way.
    pub pos: FracVec2,
    /// The part of the path that is free: just short of the time of the
    /// contact, or one if nothing is in the way.
    pub time: Fraction,
}

impl Sweep {
    /// The outcome of a path on which nothing is in the way, ending at `pos`.
    pub open spec fn free(pos: FracVec2) -> Sweep {
        Sweep { hit: None, pos, time: Fraction { num: 1, den: 1 } }
    }
}

impl Default for Sweep {
    /// A free path that ends at the origin.
    fn default() -> (r: Sweep)
        ensures
            r == Sweep::free(FracVec2::whole(Vec2 { x: 0, y: 0 })),
    {
        Sweep { hit: None, pos: FracVec2::from_vec2(Vec2::zero()), time: Fraction::one() }
    }
}

} // verus!
