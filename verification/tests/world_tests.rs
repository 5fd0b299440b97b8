use flappy_bevy::camera::{spawn_camera, MainCamera};
use flappy_bevy::consts::{COLLISION_GROUP_GAME_OVER, COLLISION_GROUP_PLAYER, UNIT};
use flappy_bevy::game::HorizontalMove;
use flappy_bevy::obstacles::Obstacle;
use flappy_bevy::physics::{CollisionGroups, RigidBody};
use flappy_bevy::ui::{
    despawn_game_ready_label, despawn_game_score, despawn_ui_element_entities,
    spawn_game_ready_label, spawn_game_score, spawn_ui_text, update_player_score_label,
    SpawnUiTextArgs, UiElement, UiLabel,
};
use flappy_bevy::player::PlayerScore;
use flappy_bevy::units::Vec2;
use flappy_bevy::world::World;
use flappy_bevy::world::spawn_world_ground;

#[test]
fn new_world_is_empty() {
    let world = World::new();
    assert_eq!(world.next_entity, 0);
    assert!(world.camera.is_none() && world.player.is_none());
    assert!(world.grounds.is_empty() && world.boundaries.is_empty());
    assert!(world.obstacles.is_empty() && world.ui_elements.is_empty());
}

#[test]
fn identifiers_are_handed_out_in_order() {
    let mut world = World::new();
    assert_eq!(world.allocate(), 0);
    assert_eq!(world.allocate(), 1);
    assert_eq!(world.allocate(), 2);
    assert_eq!(world.next_entity, 3);
}

#[test]
fn ground_is_two_tiles_and_two_boundaries() {
    let mut world = World::new();
    spawn_world_ground(&mut world);
    assert_eq!(world.next_entity, 4);
    assert_eq!(world.grounds.len(), 2);
    assert_eq!(world.grounds[0].entity, 0);
    assert_eq!(world.grounds[0].translation, Vec2::new(288_000, 0));
    assert_eq!(world.grounds[1].entity, 1);
    assert_eq!(world.grounds[1].translation, Vec2::new(864_000, 0));
    assert_eq!(world.grounds[0].horizontal_move, HorizontalMove { factor: UNIT });
    assert_eq!(world.boundaries.len(), 2);
    let top = world.boundaries[0];
    let bottom = world.boundaries[1];
    assert_eq!((top.entity, bottom.entity), (2, 3));
    assert_eq!(top.translation, Vec2::new(0, 262_000));
    assert_eq!(bottom.translation, Vec2::new(0, -226_000));
    for boundary in [top, bottom] {
        assert_eq!(boundary.kind, Obstacle::GameOverStatic);
        assert_eq!((boundary.half_width, boundary.half_height), (288_000, 100_000));
        assert_eq!(boundary.horizontal_move, None);
        assert_eq!(boundary.body, RigidBody::Fixed);
        assert_eq!(
            boundary.collision_groups,
            CollisionGroups::new(COLLISION_GROUP_GAME_OVER, COLLISION_GROUP_PLAYER)
        );
    }
    assert!(world.obstacles.is_empty());
}

#[test]
fn there_is_only_one_camera() {
    let mut world = World::new();
    world.next_entity = 9;
    spawn_camera(&mut world);
    assert_eq!(world.camera, Some(MainCamera { entity: 9 }));
    spawn_camera(&mut world);
    assert_eq!(world.camera, Some(MainCamera { entity: 9 }));
    assert_eq!(world.next_entity, 10);
}

#[test]
fn labels_are_spawned_where_they_belong() {
    let mut world = World::new();
    spawn_game_ready_label(&mut world);
    spawn_game_score(&mut world, &PlayerScore { value: 12 });
    assert_eq!(world.ui_elements.len(), 2);
    let ready = world.ui_elements[0];
    assert_eq!(ready.entity, 0);
    assert_eq!(ready.ui_element, UiElement::GameReadyLabel);
    assert_eq!(ready.text, UiLabel::ReadyToPlay);
    assert_eq!(ready.position, Vec2::new(0, 40_000));
    let score = world.ui_elements[1];
    assert_eq!(score.entity, 1);
    assert_eq!(score.ui_element, UiElement::GameScore);
    assert_eq!(score.text, UiLabel::Score(12));
    assert_eq!(score.position, Vec2::new(0, 151_000));
}

#[test]
fn any_label_can_be_spawned() {
    let mut world = World::new();
    world.next_entity = 4;
    let args = SpawnUiTextArgs {
        ui_element: UiElement::GameScore,
        text: UiLabel::Score(3),
        position: Vec2::new(-1, 2),
    };
    spawn_ui_text(&mut world, args);
    assert_eq!(world.ui_elements[0].entity, 4);
    assert_eq!(world.ui_elements[0].text, UiLabel::Score(3));
    assert_eq!(world.ui_elements[0].position, Vec2::new(-1, 2));
    assert_eq!(world.next_entity, 5);
}

#[test]
fn despawn_removes_the_labels_of_one_kind() {
    let mut world = World::new();
    spawn_game_ready_label(&mut world);
    spawn_game_score(&mut world, &PlayerScore { value: 0 });
    spawn_game_ready_label(&mut world);
    spawn_game_score(&mut world, &PlayerScore { value: 1 });
    despawn_game_ready_label(&mut world);
    let left: Vec<u64> = world.ui_elements.iter().map(|e| e.entity).collect();
    assert_eq!(left, vec![1, 3]);
    despawn_game_ready_label(&mut world);
    assert_eq!(world.ui_elements.len(), 2);
    despawn_game_score(&mut world);
    assert!(world.ui_elements.is_empty());
    despawn_ui_element_entities(&mut world, UiElement::GameScore);
    assert!(world.ui_elements.is_empty());
    assert_eq!(world.next_entity, 4);
}

#[test]
fn score_labels_follow_the_score() {
    let mut world = World::new();
    spawn_game_ready_label(&mut world);
    spawn_game_score(&mut world, &PlayerScore { value: 0 });
    spawn_game_score(&mut world, &PlayerScore { value: 0 });
    update_player_score_label(&mut world, &PlayerScore { value: 7 });
    assert_eq!(world.ui_elements[0].text, UiLabel::ReadyToPlay);
    assert_eq!(world.ui_elements[1].text, UiLabel::Score(7));
    assert_eq!(world.ui_elements[2].text, UiLabel::Score(7));
    assert_eq!(world.ui_elements[1].position, Vec2::new(0, 151_000));
}
