//! The axis-aligned box that everything collides with.

use vstd::prelude::*;
use crate::math::{Vec2, Vec3};

verus! {

/// An axis-aligned box: a centre, the distance from the centre to each side,
/// and for each of the four sides whether it is solid.
///
/// A side that is not solid lets a mover through that would strike it: a
/// one-way platform is solid on top only.
#[derive(Clone, Copy, Debug, PartialEq, Eq, Structural)]
pub struct Collider {
    pub center: Vec2,
    pub half: Vec2,
    pub top: bool,
    pub bottom: bool,
    pub left: bool,
    pub right: bool,
}

impl Collider {
    /// No half-extent is negative.
    pub open spec fn wf(self) -> bool {
        self.half.x >= 0 && self.half.y >= 0
    }

    /// The box has no area. Nothing ever hits such a box.
    pub open spec fn degenerate(self) -> bool {
        self.half.x == 0 || self.half.y == 0
    }

    /// Whether the grid position `pos` can be the lower left corner of a box
    /// with half-extent `half`: the centre must be a representable point.
    pub open spec fn corner_fits(pos: Vec3, half: Vec2) -> bool {
        &&& i32::MIN <= pos.x + half.x <= i32::MAX
        &&& i32::MIN <= pos.y + half.y <= i32::MAX
    }

    /// The centre of the box with lower left corner `pos`.
    pub open spec fn center_of(pos: Vec3, half: Vec2) -> Vec2 {
        Vec2 { x: (pos.x + half.x) as i32, y: (pos.y + half.y) as i32 }
    }

    /// The solid box with half-extent `half` whose lower left corner is at
    /// `pos`.
    pub open spec fn at_corner(pos: Vec3, half: Vec2) -> Collider {
        Collider {
            center: Collider::center_of(pos, half),
            half,
            top: true,
            bottom: true,
            left: true,
            right: true,
        }
    }

    /// Whether no half-extent is negative.
    pub fn is_wf(&self) -> (r: bool)
        ensures
            r == self.wf(),
    {
        self.half.x >= 0 && self.half.y >= 0
    }

    /// Whether `pos` can be the lower left corner of a box with half-extent
    /// `half`.
    pub fn fits_corner(pos: Vec3, half: Vec2) -> (r: bool)
        ensures
            r == Collider::corner_fits(pos, half),
    {
        let x: i64 = pos.x as i64 + half.x as i64;
        let y: i64 = pos.y as i64 + half.y as i64;
        i32::MIN as i64 <= x && x <= i32::MAX as i64 && i32::MIN as i64 <= y && y <= i32::MAX as i64
    }

    /// A box that is solid on all four sides.
    pub fn new(center: Vec2, half: Vec2) -> (r: Collider)
        requires
            half.x >= 0,
            half.y >= 0,
        ensures
            r == (Collider { center, half, top: true, bottom: true, left: true, right: true }),
            r.wf(),
    {
        Collider { center, half, top: true, bottom: true, left: true, right: true }
    }

    /// The solid box whose lower left corner is at `pos`.
    pub fn from_position(pos: Vec3, half: Vec2) -> (r: Collider)
        requires
            half.x >= 0,
            half.y >= 0,
            Collider::corner_fits(pos, half),
        ensures
            r == Collider::at_corner(pos, half),
            r.wf(),
    {
        Collider::new(Vec2::new(pos.x + half.x, pos.y + half.y), half)
    }

    /// The same box with the given sides solid.
    pub fn edges(self, top: bool, right: bool, bottom: bool, left: bool) -> (r: Collider)
        ensures
            r == (Collider { center: self.center, half: self.half, top, bottom, left, right }),
    {
        Collider { center: self.center, half: self.half, top, bottom, left, right }
    }

    /// Moves the box so that its lower left corner is at `pos`.
    pub fn center_from(&mut self, pos: Vec3)
        requires
            Collider::corner_fits(pos, old(self).half),
        ensures
            *final(self) == (Collider {
                center: Collider::center_of(pos, old(self).half),
                ..*old(self)
            }),
    {
        self.center = Vec2::new(pos.x + self.half.x, pos.y + self.half.y);
    }
}

impl Default for Collider {
    /// A box without area at the origin, solid on all sides.
    fn default() -> (r: Collider)
        ensures
            r == (Collider {
                center: Vec2 { x: 0, y: 0 },
                half: Vec2 { x: 0, y: 0 },
                top: true,
                bottom: true,
                left: true,
                right: true,
            }),
    {
        Collider {
            center: Vec2::zero(),
            half: Vec2::zero(),
            top: true,
            bottom: true,
            left: true,
            right: true,
        }
    }
}

} // verus!
