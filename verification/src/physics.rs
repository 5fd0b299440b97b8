//! What the library tells a physics engine about a body.

use vstd::prelude::*;

verus! {

/// How the physics engine moves a body.
#[derive(Clone, Copy, Debug, PartialEq, Eq, Structural)]
pub enum RigidBody {
    /// Moved by forces and contacts.
    Dynamic,
    /// Never moves.
    Fixed,
    /// Moved only by setting its position.
    KinematicPositionBased,
}

/// Collision-group mask of a body: the groups it belongs to and the groups
/// it reports contacts with.
#[derive(Clone, Copy, Debug, PartialEq, Eq)]
pub struct CollisionGroups {
    pub memberships: u32,
    pub filters: u32,
}

impl CollisionGroups {
    pub fn new(memberships: u32, filters: u32) -> (groups: CollisionGroups)
        ensures
            groups == (CollisionGroups { memberships, filters }),
    {
        CollisionGroups { memberships, filters }
    }
}

} // verus!
