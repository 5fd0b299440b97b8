//! From contacts between bodies to what they mean for the game.

use vstd::prelude::*;
use crate::app_states::Trigger;
use crate::obstacles::Obstacle;
use crate::world::{Entity, World, WorldView};

verus! {

/// A notification of the physics engine about two bodies.
#[derive(Clone, Copy, Debug, PartialEq, Eq)]
pub enum CollisionEvent {
    /// The two bodies have begun to touch.
    Started(Entity, Entity),
    /// The two bodies have ceased to touch.
    Stopped(Entity, Entity),
}

/// What a contact means for the game.
#[derive(Clone, Copy, Debug, PartialEq, Eq, Structural)]
pub enum GameEvent {
    PlayerHitGameOverCollider,
    PlayerPassedAnOpening,
}

/// What touching an obstacle of the given kind means.
pub open spec fn event_for(kind: Obstacle) -> GameEvent {
    match kind {
        Obstacle::GameOverStatic | Obstacle::GameOver => GameEvent::PlayerHitGameOverCollider,
        Obstacle::Opening => GameEvent::PlayerPassedAnOpening,
    }
}

/// What one notification means: a contact that begins between the player
/// and an obstacle, in either order, gives the event of that obstacle's kind;
/// anything else gives none.
pub open spec fn classified(world: WorldView, collision: CollisionEvent) -> Option<GameEvent> {
    match collision {
        CollisionEvent::Started(a, b) => {
            if world.is_player(a) && world.obstacle_kind(b) is Some {
                Some(event_for(world.obstacle_kind(b)->0))
            } else if world.is_player(b) && world.obstacle_kind(a) is Some {
                Some(event_for(world.obstacle_kind(a)->0))
            } else {
                None
            }
        },
        CollisionEvent::Stopped(_, _) => None,
    }
}

/// The events of a sequence of notifications, in their order: at most one
/// for each notification.
pub open spec fn dispatched(world: WorldView, collisions: Seq<CollisionEvent>) -> Seq<GameEvent>
    decreases collisions.len(),
{
    if collisions.len() == 0 {
        Seq::empty()
    } else {
        let earlier = dispatched(world, collisions.drop_last());
        match classified(world, collisions.last()) {
            Some(event) => earlier.push(event),
            None => earlier,
        }
    }
}

/// How often `event` occurs in `events`.
pub open spec fn count_of(events: Seq<GameEvent>, event: GameEvent) -> nat
    decreases events.len(),
{
    if events.len() == 0 {
        0
    } else if events.last() == event {
        count_of(events.drop_last(), event) + 1
    } else {
        count_of(events.drop_last(), event)
    }
}

/// Says what touching an obstacle of the given kind means.
pub fn handle_player_obstacle_collision(obstacle: Obstacle) -> (event: GameEvent)
    ensures
        event == event_for(obstacle),
{
    match obstacle {
        Obstacle::GameOverStatic | Obstacle::GameOver => GameEvent::PlayerHitGameOverCollider,
        Obstacle::Opening => GameEvent::PlayerPassedAnOpening,
    }
}

/// Says what one notification means.
pub fn classify_collision(world: &World, collision: &CollisionEvent) -> (event: Option<GameEvent>)
    ensures
        event == classified(world@, *collision),
{
    match collision {
        CollisionEvent::Started(a, b) => {
            let is_player_a = match world.player {
                Some(player) => player.entity == *a,
                None => false,
            };
            let is_player_b = match world.player {
                Some(player) => player.entity == *b,
                None => false,
            };
            if is_player_a {
                if let Some(kind) = world.find_obstacle(*b) {
                    return Some(handle_player_obstacle_collision(kind));
                }
            }
            if is_player_b {
                if let Some(kind) = world.find_obstacle(*a) {
                    return Some(handle_player_obstacle_collision(kind));
                }
            }
            None
        },
        CollisionEvent::Stopped(_, _) => None,
    }
}

/// Turns the notifications of one tick into the events of that tick: one
/// event for every contact that begins between the player and an obstacle,
/// none for any other notification.
pub fn dispatch_collision_events(collisions: &Vec<CollisionEvent>, world: &World) -> (events: Vec<
    GameEvent,
>)
    ensures
        events@ == dispatched(world@, collisions@),
        events@.len() <= collisions@.len(),
{
    let mut events: Vec<GameEvent> = Vec::new();
    let mut i: usize = 0;
    while i < collisions.len()
        invariant
            0 <= i <= collisions@.len(),
            events@ == dispatched(world@, collisions@.take(i as int)),
            events@.len() <= i,
        decreases collisions@.len() - i,
    {
        proof {
            let prefix = collisions@.take(i as int + 1);
            assert(prefix.drop_last() =~= collisions@.take(i as int));
            assert(prefix.last() == collisions@[i as int]);
        }
        if let Some(event) = classify_collision(world, &collisions[i]) {
            events.push(event);
        }
        i += 1;
    }
    proof {
        assert(collisions@.take(collisions@.len() as int) =~= collisions@);
    }
    events
}

/// Asks for the attempt to end if the player hit anything that ends it.
pub fn handle_game_event_player_hit_game_over_collider(events: &Vec<GameEvent>) -> (trigger: Option<
    Trigger,
>)
    ensures
        trigger == if count_of(events@, GameEvent::PlayerHitGameOverCollider) > 0 {
            Some(Trigger::LethalCollision)
        } else {
            None
        },
{
    let mut i: usize = 0;
    while i < events.len()
        invariant
            0 <= i <= events@.len(),
            count_of(events@.take(i as int), GameEvent::PlayerHitGameOverCollider) == 0,
        decreases events@.len() - i,
    {
        proof {
            let prefix = events@.take(i as int + 1);
            assert(prefix.drop_last() =~= events@.take(i as int));
            assert(prefix.last() == events@[i as int]);
            lemma_count_of_grows(events@, GameEvent::PlayerHitGameOverCollider, i as int + 1);
        }
        if events[i] == GameEvent::PlayerHitGameOverCollider {
            return Some(Trigger::LethalCollision);
        }
        i += 1;
    }
    proof {
        assert(events@.take(events@.len() as int) =~= events@);
    }
    None
}

/// A longer stretch of events holds at least as many of a kind as a shorter
/// one.
pub proof fn lemma_count_of_grows(events: Seq<GameEvent>, event: GameEvent, n: int)
    requires
        0 <= n <= events.len(),
    ensures
        count_of(events.take(n), event) <= count_of(events, event),
    decreases events.len() - n,
{
    if n < events.len() {
        let longer = events.take(n + 1);
        assert(longer.drop_last() =~= events.take(n));
        lemma_count_of_grows(events, event, n + 1);
    } else {
        assert(events.take(n) =~= events);
    }
}

/// No kind of event occurs more often than there are events.
pub proof fn lemma_count_of_at_most_len(events: Seq<GameEvent>, event: GameEvent)
    ensures
        count_of(events, event) <= events.len(),
    decreases events.len(),
{
    if events.len() > 0 {
        lemma_count_of_at_most_len(events.drop_last(), event);
    }
}

/// A sequence of notifications gives at most one event for each of them.
pub proof fn lemma_dispatched_at_most_len(world: WorldView, collisions: Seq<CollisionEvent>)
    ensures
        dispatched(world, collisions).len() <= collisions.len(),
    decreases collisions.len(),
{
    if collisions.len() > 0 {
        lemma_dispatched_at_most_len(world, collisions.drop_last());
    }
}

} // verus!
