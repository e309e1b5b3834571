//! Physics component kinds.

use vstd::prelude::*;

verus! {

/// Rigid body type.
#[derive(Debug, Clone, Copy, PartialEq, Eq, Structural)]
pub enum RigidBodyType {
    Static,
    Dynamic,
    KinematicPositionBased,
    KinematicVelocityBased,
}

} // verus!
