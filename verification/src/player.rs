//! The player and the score.

use vstd::prelude::*;
use crate::consts::{
    COLLISION_GROUP_GAME_OVER, COLLISION_GROUP_OPENING, COLLISION_GROUP_PLAYER, JUMP_IMPULSE_VALUE,
    UNIT,
};
use crate::events::{count_of, lemma_count_of_grows, GameEvent};
use crate::physics::{CollisionGroups, RigidBody};
use crate::units::Vec2;
use crate::world::{Entity, World, WorldView};

verus! {

/// Radius of the ball that stands for the player in the physics engine.
pub const PLAYER_COLLIDER_RADIUS: u32 = 10_000;

/// The player: a ball that the physics engine moves.
#[derive(Clone, Copy, Debug, PartialEq, Eq)]
pub struct Player {
    pub entity: Entity,
    pub translation: Vec2,
    /// Rotation, in thousandths of a radian.
    pub rotation: i64,
    pub linvel: Vec2,
    pub angvel: i64,
    /// How strongly gravity pulls, in thousandths: `0` while the player
    /// hangs in the air, `UNIT` during play.
    pub gravity_scale: u32,
    pub collider_radius: u32,
    pub body: RigidBody,
    pub collision_groups: CollisionGroups,
}

/// The number of openings that the player has passed in this attempt.
#[derive(Clone, Copy, Debug, PartialEq, Eq)]
pub struct PlayerScore {
    pub value: u64,
}

impl Default for PlayerScore {
    fn default() -> (score: PlayerScore)
        ensures
            score.value == 0,
    {
        PlayerScore { value: 0 }
    }
}

/// The player as it is spawned: at rest at the origin, with gravity off.
pub open spec fn spawned_player(entity: Entity) -> Player {
    Player {
        entity,
        translation: Vec2::zero(),
        rotation: 0,
        linvel: Vec2::zero(),
        angvel: 0,
        gravity_scale: 0,
        collider_radius: PLAYER_COLLIDER_RADIUS,
        body: RigidBody::Dynamic,
        collision_groups: CollisionGroups {
            memberships: COLLISION_GROUP_PLAYER,
            filters: COLLISION_GROUP_GAME_OVER | COLLISION_GROUP_OPENING,
        },
    }
}

/// `player` brought back to rest at the origin, with gravity off.
pub open spec fn player_at_rest(player: Player) -> Player {
    Player {
        translation: Vec2::zero(),
        rotation: 0,
        linvel: Vec2::zero(),
        angvel: 0,
        gravity_scale: 0,
        ..player
    }
}

/// `world` with a player in it: a new one, unless it has one already.
pub open spec fn with_player(world: WorldView) -> WorldView {
    if world.player is Some {
        world
    } else {
        WorldView {
            next_entity: (world.next_entity + 1) as Entity,
            player: Some(spawned_player(world.next_entity)),
            ..world
        }
    }
}

/// `world` after the player was thrown upwards, if it was.
pub open spec fn with_jump(world: WorldView, pressed: bool) -> WorldView {
    WorldView {
        player: match world.player {
            Some(player) if pressed => Some(
                Player { linvel: Vec2 { x: 0, y: JUMP_IMPULSE_VALUE }, ..player },
            ),
            _ => world.player,
        },
        ..world
    }
}

/// `world` with gravity pulling on the player at full strength.
pub open spec fn with_gravity(world: WorldView) -> WorldView {
    WorldView {
        player: match world.player {
            Some(player) => Some(Player { gravity_scale: UNIT, ..player }),
            None => None,
        },
        ..world
    }
}

/// `world` with the player at rest at the origin and gravity off.
pub open spec fn with_player_at_rest(world: WorldView) -> WorldView {
    WorldView {
        player: match world.player {
            Some(player) => Some(player_at_rest(player)),
            None => None,
        },
        ..world
    }
}

/// Spawns the player, unless the world has one already.
pub fn spawn_player(world: &mut World)
    requires
        old(world)@.wf(),
        old(world)@.spare_entities(1),
    ensures
        final(world)@.wf(),
        final(world)@ == with_player(old(world)@),
{
    if world.player.is_none() {
        let entity = world.allocate();
        world.player = Some(
            Player {
                entity,
                translation: Vec2::zero(),
                rotation: 0,
                linvel: Vec2::zero(),
                angvel: 0,
                gravity_scale: 0,
                collider_radius: PLAYER_COLLIDER_RADIUS,
                body: RigidBody::Dynamic,
                collision_groups: CollisionGroups::new(
                    COLLISION_GROUP_PLAYER,
                    COLLISION_GROUP_GAME_OVER | COLLISION_GROUP_OPENING,
                ),
            },
        );
    }
}

/// Throws the player upwards when the jump key or the pointer button was
/// just pressed. Without a player, or without input, nothing changes.
pub fn player_jump(world: &mut World, jump_key_just_pressed: bool, pointer_just_pressed: bool)
    ensures
        final(world)@ == with_jump(old(world)@, jump_key_just_pressed || pointer_just_pressed),
        old(world)@.wf() ==> final(world)@.wf(),
{
    if jump_key_just_pressed || pointer_just_pressed {
        if let Some(player) = world.player {
            world.player = Some(Player { linvel: Vec2::new(0, JUMP_IMPULSE_VALUE), ..player });
        }
    }
}

/// Lets gravity pull on the player at full strength, at once. Without a
/// player nothing changes.
pub fn enable_player_gravity(world: &mut World)
    ensures
        final(world)@ == with_gravity(old(world)@),
        old(world)@.wf() ==> final(world)@.wf(),
{
    if let Some(player) = world.player {
        world.player = Some(Player { gravity_scale: UNIT, ..player });
    }
}

/// Brings the player back to rest at the origin and switches gravity off.
/// Without a player nothing changes.
pub fn reset_player_state(world: &mut World)
    ensures
        final(world)@ == with_player_at_rest(old(world)@),
        old(world)@.wf() ==> final(world)@.wf(),
{
    if let Some(player) = world.player {
        world.player = Some(
            Player {
                translation: Vec2::zero(),
                rotation: 0,
                linvel: Vec2::zero(),
                angvel: 0,
                gravity_scale: 0,
                ..player
            },
        );
    }
}

/// Sets the score back to zero.
pub fn reset_player_score(player_score: &mut PlayerScore)
    ensures
        final(player_score).value == 0,
{
    player_score.value = 0;
}

/// Adds one to the score for every opening that the player passed in this
/// tick.
pub fn handle_game_event_player_passed_opening(
    events: &Vec<GameEvent>,
    player_score: &mut PlayerScore,
)
    requires
        old(player_score).value + count_of(events@, GameEvent::PlayerPassedAnOpening) <= u64::MAX,
    ensures
        final(player_score).value == old(player_score).value + count_of(
            events@,
            GameEvent::PlayerPassedAnOpening,
        ),
{
    let mut i: usize = 0;
    while i < events.len()
        invariant
            0 <= i <= events@.len(),
            old(player_score).value + count_of(events@, GameEvent::PlayerPassedAnOpening)
                <= u64::MAX,
            player_score.value == old(player_score).value + count_of(
                events@.take(i as int),
                GameEvent::PlayerPassedAnOpening,
            ),
        decreases events@.len() - i,
    {
        proof {
            let prefix = events@.take(i as int + 1);
            assert(prefix.drop_last() =~= events@.take(i as int));
            assert(prefix.last() == events@[i as int]);
            lemma_count_of_grows(events@, GameEvent::PlayerPassedAnOpening, i as int + 1);
        }
        if events[i] == GameEvent::PlayerPassedAnOpening {
            player_score.value += 1;
        }
        i += 1;
    }
    proof {
        assert(events@.take(events@.len() as int) =~= events@);
    }
}

} // verus!
