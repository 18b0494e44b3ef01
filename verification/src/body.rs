//! The moving body and what a tick records about it.

use vstd::prelude::*;
use crate::collider::Collider;
use crate::math::Vec3;

verus! {

/// Where something is drawn and how large: what a renderer needs to know of
/// a body.
#[derive(Clone, Copy, Debug, PartialEq, Eq, Structural)]
pub struct Placement {
    pub translation: Vec3,
    pub scale: Vec3,
}

/// A body that moves under its own velocity and is stopped by boxes.
///
/// `position` is the lower left corner of the body's box. Each contact flag
/// has a shadow, `was_..`, that holds what the flag was when the last tick
/// that moved the body began.
#[derive(Clone, Copy, Debug, PartialEq, Eq, Structural)]
pub struct RigidBody {
    pub old_position: Vec3,
    pub position: Vec3,
    pub old_speed: Vec3,
    pub speed: Vec3,
    pub scale: Vec3,
    pub on_platform: bool,
    pub on_ground: bool,
    pub at_ceiling: bool,
    pub at_right_tile: bool,
    pub at_left_tile: bool,
    pub was_on_platform: bool,
    pub was_on_ground: bool,
    pub was_at_ceiling: bool,
    pub was_at_right_tile: bool,
    pub was_at_left_tile: bool,
}

impl RigidBody {
    /// The body at rest at the origin, standing on the ground.
    pub open spec fn at_rest() -> RigidBody {
        RigidBody {
            old_position: Vec3 { x: 0, y: 0, z: 0 },
            position: Vec3 { x: 0, y: 0, z: 0 },
            old_speed: Vec3 { x: 0, y: 0, z: 0 },
            speed: Vec3 { x: 0, y: 0, z: 0 },
            scale: Vec3 { x: 0, y: 0, z: 0 },
            on_platform: false,
            on_ground: true,
            at_ceiling: false,
            at_right_tile: false,
            at_left_tile: false,
            was_on_platform: false,
            was_on_ground: true,
            was_at_ceiling: false,
            was_at_right_tile: false,
            was_at_left_tile: false,
        }
    }

    /// The same contact flags are set in both bodies.
    pub open spec fn same_contacts(self, other: RigidBody) -> bool {
        &&& self.on_platform == other.on_platform
        &&& self.on_ground == other.on_ground
        &&& self.at_ceiling == other.at_ceiling
        &&& self.at_right_tile == other.at_right_tile
        &&& self.at_left_tile == other.at_left_tile
    }

    /// A body at rest where `placement` draws it, at that scale.
    pub fn from_transform(placement: Placement) -> (r: RigidBody)
        ensures
            r == (RigidBody {
                old_position: placement.translation,
                position: placement.translation,
                scale: placement.scale,
                ..RigidBody::at_rest()
            }),
    {
        RigidBody {
            old_position: placement.translation,
            position: placement.translation,
            old_speed: Vec3::zero(),
            speed: Vec3::zero(),
            scale: placement.scale,
            on_platform: false,
            on_ground: true,
            at_ceiling: false,
            at_right_tile: false,
            at_left_tile: false,
            was_on_platform: false,
            was_on_ground: true,
            was_at_ceiling: false,
            was_at_right_tile: false,
            was_at_left_tile: false,
        }
    }
}

impl Default for RigidBody {
    fn default() -> (r: RigidBody)
        ensures
            r == RigidBody::at_rest(),
    {
        RigidBody {
            old_position: Vec3::zero(),
            position: Vec3::zero(),
            old_speed: Vec3::zero(),
            speed: Vec3::zero(),
            scale: Vec3::zero(),
            on_platform: false,
            on_ground: true,
            at_ceiling: false,
            at_right_tile: false,
            at_left_tile: false,
            was_on_platform: false,
            was_on_ground: true,
            was_at_ceiling: false,
            was_at_right_tile: false,
            was_at_left_tile: false,
        }
    }
}

/// Word that a body ran into a box.
#[derive(Clone, Copy, Debug, PartialEq, Eq, Structural)]
pub struct CollisionEvent {
    /// The identifier of the body that moved.
    pub entity: u64,
    /// The box it struck, as it was when it was struck.
    pub collider: Collider,
}

} // verus!
