use flappy_bevy::consts::{
    COLLISION_GROUP_GAME_OVER, COLLISION_GROUP_OPENING, COLLISION_GROUP_PLAYER, JUMP_IMPULSE_VALUE,
    UNIT,
};
use flappy_bevy::events::GameEvent;
use flappy_bevy::physics::RigidBody;
use flappy_bevy::player::{
    enable_player_gravity, handle_game_event_player_passed_opening, player_jump,
    reset_player_score, reset_player_state, spawn_player, PlayerScore, PLAYER_COLLIDER_RADIUS,
};
use flappy_bevy::units::Vec2;
use flappy_bevy::world::World;

#[test]
fn player_is_spawned_at_rest_with_gravity_off() {
    let mut world = World::new();
    world.next_entity = 3;
    spawn_player(&mut world);
    let player = world.player.unwrap();
    assert_eq!(player.entity, 3);
    assert_eq!(player.translation, Vec2::zero());
    assert_eq!(player.linvel, Vec2::zero());
    assert_eq!((player.rotation, player.angvel), (0, 0));
    assert_eq!(player.gravity_scale, 0);
    assert_eq!(player.collider_radius, PLAYER_COLLIDER_RADIUS);
    assert_eq!(player.body, RigidBody::Dynamic);
    assert_eq!(player.collision_groups.memberships, COLLISION_GROUP_PLAYER);
    assert_eq!(
        player.collision_groups.filters,
        COLLISION_GROUP_GAME_OVER | COLLISION_GROUP_OPENING
    );
    assert_eq!(world.next_entity, 4);
}

#[test]
fn there_is_only_one_player() {
    let mut world = World::new();
    spawn_player(&mut world);
    player_jump(&mut world, true, false);
    spawn_player(&mut world);
    assert_eq!(world.player.unwrap().entity, 0);
    assert_eq!(world.player.unwrap().linvel.y, JUMP_IMPULSE_VALUE);
    assert_eq!(world.next_entity, 1);
}

#[test]
fn jump_sets_the_upward_velocity() {
    let mut world = World::new();
    spawn_player(&mut world);
    player_jump(&mut world, false, false);
    assert_eq!(world.player.unwrap().linvel, Vec2::zero());
    player_jump(&mut world, false, true);
    assert_eq!(world.player.unwrap().linvel, Vec2::new(0, 300_000));
    world.player.as_mut().unwrap().linvel = Vec2::new(5, -700_000);
    player_jump(&mut world, true, false);
    assert_eq!(world.player.unwrap().linvel, Vec2::new(0, 300_000));
}

#[test]
fn without_a_player_nothing_happens() {
    let mut world = World::new();
    player_jump(&mut world, true, true);
    enable_player_gravity(&mut world);
    reset_player_state(&mut world);
    assert!(world.player.is_none());
    assert_eq!(world.next_entity, 0);
}

#[test]
fn gravity_is_at_full_strength_once_enabled() {
    let mut world = World::new();
    spawn_player(&mut world);
    assert_eq!(world.player.unwrap().gravity_scale, 0);
    enable_player_gravity(&mut world);
    assert_eq!(world.player.unwrap().gravity_scale, UNIT);
    assert_eq!(world.player.unwrap().gravity_scale as f64 / UNIT as f64, 1.0);
}

#[test]
fn reset_brings_the_player_back_to_rest() {
    let mut world = World::new();
    spawn_player(&mut world);
    {
        let player = world.player.as_mut().unwrap();
        player.translation = Vec2::new(0, -120_000);
        player.rotation = 314;
        player.linvel = Vec2::new(0, -900_000);
        player.angvel = 12;
        player.gravity_scale = UNIT;
    }
    reset_player_state(&mut world);
    let player = world.player.unwrap();
    assert_eq!(player.translation, Vec2::zero());
    assert_eq!(player.rotation, 0);
    assert_eq!(player.linvel, Vec2::zero());
    assert_eq!(player.angvel, 0);
    assert_eq!(player.gravity_scale, 0);
    assert_eq!(player.entity, 0);
    assert_eq!(player.collider_radius, PLAYER_COLLIDER_RADIUS);
}

#[test]
fn score_grows_by_the_number_of_passed_openings() {
    let mut score = PlayerScore::default();
    assert_eq!(score.value, 0);
    handle_game_event_player_passed_opening(&Vec::new(), &mut score);
    assert_eq!(score.value, 0);
    handle_game_event_player_passed_opening(&vec![GameEvent::PlayerPassedAnOpening], &mut score);
    assert_eq!(score.value, 1);
    let events = vec![
        GameEvent::PlayerPassedAnOpening,
        GameEvent::PlayerHitGameOverCollider,
        GameEvent::PlayerPassedAnOpening,
    ];
    handle_game_event_player_passed_opening(&events, &mut score);
    assert_eq!(score.value, 3);
    handle_game_event_player_passed_opening(
        &vec![GameEvent::PlayerHitGameOverCollider],
        &mut score,
    );
    assert_eq!(score.value, 3);
}

#[test]
fn score_can_reach_the_largest_value() {
    let mut score = PlayerScore { value: u64::MAX - 1 };
    handle_game_event_player_passed_opening(&vec![GameEvent::PlayerPassedAnOpening], &mut score);
    assert_eq!(score.value, u64::MAX);
}

#[test]
fn score_is_reset_to_zero() {
    let mut score = PlayerScore { value: 41 };
    reset_player_score(&mut score);
    assert_eq!(score.value, 0);
}
