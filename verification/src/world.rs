//! The entity store and the fixed scenery.

use vstd::prelude::*;
use crate::camera::MainCamera;
use crate::consts::{COLLISION_GROUP_GAME_OVER, COLLISION_GROUP_PLAYER, GAME_HEIGHT, GAME_WIDTH, UNIT};
use crate::game::HorizontalMove;
use crate::obstacles::{Obstacle, ObstacleBody};
use crate::physics::{CollisionGroups, RigidBody};
use crate::player::Player;
use crate::ui::UiText;
use crate::units::Vec2;

verus! {

/// Identifier of an entity. Identifiers are handed out in increasing order
/// and never used twice.
pub type Entity = u64;

/// Height of each of the two fixed colliders that close the field.
pub const BOUNDARY_COLLIDER_HEIGHT: u32 = 200_000;

/// Height of the ground tiles that the lower collider is raised by.
pub const GROUND_TILES_HEIGHT: u32 = 36_000;

/// One of the two ground tiles that scroll under the player.
#[derive(Clone, Copy, Debug, PartialEq, Eq)]
pub struct Ground {
    pub entity: Entity,
    /// Position of the tile's right edge.
    pub translation: Vec2,
    pub horizontal_move: HorizontalMove,
}

/// Everything that lives in the game, keyed by entity identifier.
pub struct World {
    /// The identifier that the next spawned entity gets.
    pub next_entity: Entity,
    pub camera: Option<MainCamera>,
    pub player: Option<Player>,
    pub grounds: Vec<Ground>,
    /// The fixed colliders that close the field. They belong to the scenery
    /// and stay for the whole session.
    pub boundaries: Vec<ObstacleBody>,
    /// The live obstacles: those that the generator has spawned and that
    /// have not been despawned, in the order in which they were spawned.
    pub obstacles: Vec<ObstacleBody>,
    pub ui_elements: Vec<UiText>,
}

/// Mathematical model of a [`World`].
#[verifier::ext_equal]
pub struct WorldView {
    pub next_entity: Entity,
    pub camera: Option<MainCamera>,
    pub player: Option<Player>,
    pub grounds: Seq<Ground>,
    pub boundaries: Seq<ObstacleBody>,
    pub obstacles: Seq<ObstacleBody>,
    pub ui_elements: Seq<UiText>,
}

impl View for World {
    type V = WorldView;

    open spec fn view(&self) -> WorldView {
        WorldView {
            next_entity: self.next_entity,
            camera: self.camera,
            player: self.player,
            grounds: self.grounds@,
            boundaries: self.boundaries@,
            obstacles: self.obstacles@,
            ui_elements: self.ui_elements@,
        }
    }
}

impl WorldView {
    /// The world without any entity, before any identifier was handed out.
    pub open spec fn empty() -> WorldView {
        WorldView {
            next_entity: 0,
            camera: None,
            player: None,
            grounds: Seq::empty(),
            boundaries: Seq::empty(),
            obstacles: Seq::empty(),
            ui_elements: Seq::empty(),
        }
    }

    /// `count` more entities can be spawned before the identifiers run out.
    pub open spec fn spare_entities(self, count: nat) -> bool {
        self.next_entity + count <= u64::MAX
    }

    /// Every entity carries an identifier that was already handed out, and
    /// the obstacles are held in the order in which they were spawned.
    pub open spec fn wf(self) -> bool {
        &&& self.camera matches Some(camera) ==> camera.entity < self.next_entity
        &&& self.player matches Some(player) ==> player.entity < self.next_entity
        &&& forall|i: int|
            0 <= i < self.grounds.len() ==> (#[trigger] self.grounds[i]).entity < self.next_entity
        &&& forall|i: int|
            0 <= i < self.boundaries.len() ==> (#[trigger] self.boundaries[i]).entity
                < self.next_entity
        &&& forall|i: int|
            0 <= i < self.obstacles.len() ==> (#[trigger] self.obstacles[i]).entity
                < self.next_entity
        &&& forall|i: int|
            0 <= i < self.ui_elements.len() ==> (#[trigger] self.ui_elements[i]).entity
                < self.next_entity
        &&& forall|i: int, j: int|
            0 <= i < j < self.obstacles.len() ==> (#[trigger] self.obstacles[i]).entity < (
            #[trigger] self.obstacles[j]).entity
    }

    /// `entity` is the player.
    pub open spec fn is_player(self, entity: Entity) -> bool {
        self.player matches Some(player) && player.entity == entity
    }

    /// The kind of the obstacle that carries `entity`, be it a live obstacle
    /// or a boundary of the field.
    pub open spec fn obstacle_kind(self, entity: Entity) -> Option<Obstacle> {
        match kind_among(self.obstacles, entity) {
            Some(kind) => Some(kind),
            None => kind_among(self.boundaries, entity),
        }
    }

    /// `entity` is one of the live obstacles.
    pub open spec fn is_obstacle(self, entity: Entity) -> bool {
        exists|i: int| 0 <= i < self.obstacles.len() && (#[trigger] self.obstacles[i]).entity == entity
    }

    /// `entity` was an obstacle once and is gone: its identifier was handed
    /// out, and no live obstacle carries it.
    pub open spec fn is_despawned_obstacle(self, entity: Entity) -> bool {
        entity < self.next_entity && !self.is_obstacle(entity)
    }
}

/// The kind of the first of `obstacles` that carries `entity`.
pub open spec fn kind_among(obstacles: Seq<ObstacleBody>, entity: Entity) -> Option<Obstacle>
    decreases obstacles.len(),
{
    if obstacles.len() == 0 {
        None
    } else if obstacles.first().entity == entity {
        Some(obstacles.first().kind)
    } else {
        kind_among(obstacles.drop_first(), entity)
    }
}

/// The ground tile with the given identifier: tile `0` covers the field,
/// tile `1` waits to its right.
pub open spec fn ground_tile(entity: Entity, index: nat) -> Ground {
    Ground {
        entity,
        translation: Vec2 { x: (GAME_WIDTH / 2 + index * GAME_WIDTH) as i64, y: 0 },
        horizontal_move: HorizontalMove { factor: UNIT },
    }
}

/// The fixed collider above the field (`top`) or below it.
pub open spec fn boundary_collider(entity: Entity, top: bool) -> ObstacleBody {
    let offset = BOUNDARY_COLLIDER_HEIGHT / 2 + GAME_HEIGHT / 2;
    ObstacleBody {
        entity,
        kind: Obstacle::GameOverStatic,
        translation: Vec2 {
            x: 0,
            y: if top {
                offset as i64
            } else {
                (GROUND_TILES_HEIGHT - offset) as i64
            },
        },
        half_width: (GAME_WIDTH / 2) as u32,
        half_height: (BOUNDARY_COLLIDER_HEIGHT / 2) as u32,
        horizontal_move: None,
        flip_y: false,
        body: RigidBody::Fixed,
        collision_groups: CollisionGroups {
            memberships: COLLISION_GROUP_GAME_OVER,
            filters: COLLISION_GROUP_PLAYER,
        },
    }
}

impl World {
    /// A world without entities.
    pub fn new() -> (world: World)
        ensures
            world@ == WorldView::empty(),
            world@.wf(),
    {
        World {
            next_entity: 0,
            camera: None,
            player: None,
            grounds: Vec::new(),
            boundaries: Vec::new(),
            obstacles: Vec::new(),
            ui_elements: Vec::new(),
        }
    }

    /// Looks up the kind of the obstacle that carries `entity`.
    pub fn find_obstacle(&self, entity: Entity) -> (kind: Option<Obstacle>)
        ensures
            kind == self@.obstacle_kind(entity),
    {
        match find_among(&self.obstacles, entity) {
            Some(kind) => Some(kind),
            None => find_among(&self.boundaries, entity),
        }
    }

    /// Hands out the next entity identifier.
    pub fn allocate(&mut self) -> (entity: Entity)
        requires
            old(self)@.spare_entities(1),
        ensures
            entity == old(self)@.next_entity,
            final(self)@ == (WorldView { next_entity: (entity + 1) as Entity, ..old(self)@ }),
    {
        let entity = self.next_entity;
        self.next_entity = entity + 1;
        entity
    }
}

/// `world` with the scenery in it: two ground tiles side by side, and a
/// fixed collider above the field and one below it.
pub open spec fn with_ground(world: WorldView) -> WorldView {
    let first = world.next_entity;
    WorldView {
        next_entity: (first + 4) as Entity,
        grounds: world.grounds.push(ground_tile(first, 0)).push(
            ground_tile((first + 1) as Entity, 1),
        ),
        boundaries: world.boundaries.push(boundary_collider((first + 2) as Entity, true)).push(
            boundary_collider((first + 3) as Entity, false),
        ),
        ..world
    }
}

/// Lays the two ground tiles side by side and closes the field with a fixed
/// collider above it and one below it.
pub fn spawn_world_ground(world: &mut World)
    requires
        old(world)@.wf(),
        old(world)@.spare_entities(4),
    ensures
        final(world)@.wf(),
        final(world)@ == with_ground(old(world)@),
{
    let half_width: u32 = GAME_WIDTH / 2;
    let first = world.allocate();
    world.grounds.push(
        Ground {
            entity: first,
            translation: Vec2::new(half_width as i64, 0),
            horizontal_move: HorizontalMove { factor: UNIT },
        },
    );
    let second = world.allocate();
    world.grounds.push(
        Ground {
            entity: second,
            translation: Vec2::new((GAME_WIDTH + half_width) as i64, 0),
            horizontal_move: HorizontalMove { factor: UNIT },
        },
    );

    let y_collider_offset: u32 = BOUNDARY_COLLIDER_HEIGHT / 2 + GAME_HEIGHT / 2;
    let groups = CollisionGroups::new(COLLISION_GROUP_GAME_OVER, COLLISION_GROUP_PLAYER);
    let top = world.allocate();
    world.boundaries.push(
        ObstacleBody {
            entity: top,
            kind: Obstacle::GameOverStatic,
            translation: Vec2::new(0, y_collider_offset as i64),
            half_width,
            half_height: BOUNDARY_COLLIDER_HEIGHT / 2,
            horizontal_move: None,
            flip_y: false,
            body: RigidBody::Fixed,
            collision_groups: groups,
        },
    );
    let bottom = world.allocate();
    world.boundaries.push(
        ObstacleBody {
            entity: bottom,
            kind: Obstacle::GameOverStatic,
            translation: Vec2::new(0, GROUND_TILES_HEIGHT as i64 - y_collider_offset as i64),
            half_width,
            half_height: BOUNDARY_COLLIDER_HEIGHT / 2,
            horizontal_move: None,
            flip_y: false,
            body: RigidBody::Fixed,
            collision_groups: groups,
        },
    );
}

/// Looks up the kind of the first of `obstacles` that carries `entity`.
pub fn find_among(obstacles: &Vec<ObstacleBody>, entity: Entity) -> (kind: Option<Obstacle>)
    ensures
        kind == kind_among(obstacles@, entity),
{
    let mut i: usize = 0;
    proof {
        assert(obstacles@.skip(0) =~= obstacles@);
    }
    while i < obstacles.len()
        invariant
            0 <= i <= obstacles@.len(),
            kind_among(obstacles@, entity) == kind_among(obstacles@.skip(i as int), entity),
        decreases obstacles@.len() - i,
    {
        let obstacle = obstacles[i];
        proof {
            let rest = obstacles@.skip(i as int);
            assert(rest.first() == obstacle);
            assert(rest.drop_first() =~= obstacles@.skip(i as int + 1));
        }
        if obstacle.entity == entity {
            return Some(obstacle.kind);
        }
        i += 1;
    }
    None
}

} // verus!
