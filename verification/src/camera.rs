//! The camera entity.

use vstd::prelude::*;
use crate::world::{Entity, World, WorldView};

verus! {

/// The one camera that looks at the playing field.
#[derive(Clone, Copy, Debug, PartialEq, Eq)]
pub struct MainCamera {
    pub entity: Entity,
}

/// `world` with the main camera in it: a new one, unless it has one already.
pub open spec fn with_camera(world: WorldView) -> WorldView {
    if world.camera is Some {
        world
    } else {
        WorldView {
            next_entity: (world.next_entity + 1) as Entity,
            camera: Some(MainCamera { entity: world.next_entity }),
            ..world
        }
    }
}

/// Places the main camera in the world, unless one is there already.
pub fn spawn_camera(world: &mut World)
    requires
        old(world)@.wf(),
        old(world)@.spare_entities(1),
    ensures
        final(world)@.wf(),
        final(world)@ == with_camera(old(world)@),
{
    if world.camera.is_none() {
        let entity = world.allocate();
        world.camera = Some(MainCamera { entity });
    }
}

} // verus!
