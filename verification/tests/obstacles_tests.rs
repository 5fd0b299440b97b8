use bevy_turborand::GlobalRng;
use flappy_bevy::consts::{
    COLLISION_GROUP_GAME_OVER, COLLISION_GROUP_OPENING, COLLISION_GROUP_PLAYER, GAME_HEIGHT,
    GAME_WIDTH, UNIT,
};
use flappy_bevy::game::{move_game_elements_horizontal, GameSpeed, HorizontalMove};
use flappy_bevy::obstacles::{
    despawn_passed_obstacles, gap_from_fraction, map_range, opening_bottom_from_fraction,
    random_gap, random_opening_position_bottom_y, reset_obstacles_state, spawn_obstacle_entities,
    spawn_obstacle_entity, spawn_obstacles, spawn_obstacles_at, spawn_opening_entity,
    update_obstacles_data, ConfigError, Obstacle, ObstaclesConfig, ObstaclesData, FRACTION_ONE,
};
use flappy_bevy::physics::{CollisionGroups, RigidBody};
use flappy_bevy::units::Vec2;
use flappy_bevy::world::{spawn_world_ground, World};

fn narrow_config() -> ObstaclesConfig {
    ObstaclesConfig { min_gap_extra: 0, max_gap_extra: 40_000, ..ObstaclesConfig::default() }
}

#[test]
fn default_config_holds_the_standard_measures() {
    let config = ObstaclesConfig::default();
    assert_eq!(config.sprite_width, 18_000);
    assert_eq!(config.sprite_height, 252_000);
    assert_eq!(config.opening_bottom_margin, 54_000);
    assert_eq!(config.opening_top_margin, 36_000);
    assert_eq!(config.opening_height, 80_000);
    assert_eq!(config.min_gap_threshold, 90_000);
    assert_eq!(config.min_gap_extra, 90_000);
    assert_eq!(config.max_gap_extra, 130_000);
    assert_eq!(config.validate(), Ok(()));
}

#[test]
fn config_with_inverted_gap_range_is_refused() {
    let config =
        ObstaclesConfig { min_gap_extra: 130_001, ..ObstaclesConfig::default() };
    assert_eq!(config.validate(), Err(ConfigError::InvertedGapRange));
    assert_eq!(ObstaclesConfig::new(config), Err(ConfigError::InvertedGapRange));
}

#[test]
fn config_whose_opening_does_not_fit_is_refused() {
    let config = ObstaclesConfig {
        opening_bottom_margin: 200_000,
        opening_top_margin: 100_000,
        ..ObstaclesConfig::default()
    };
    assert_eq!(config.validate(), Err(ConfigError::OpeningDoesNotFit));
    assert_eq!(ObstaclesConfig::new(config), Err(ConfigError::OpeningDoesNotFit));
    let huge = ObstaclesConfig {
        opening_bottom_margin: u32::MAX,
        opening_top_margin: u32::MAX,
        opening_height: u32::MAX,
        ..ObstaclesConfig::default()
    };
    assert_eq!(huge.validate(), Err(ConfigError::OpeningDoesNotFit));
}

#[test]
fn config_that_just_fits_is_accepted() {
    let config = ObstaclesConfig {
        opening_bottom_margin: 100_000,
        opening_top_margin: 100_000,
        opening_height: GAME_HEIGHT - 200_000,
        min_gap_extra: 7,
        max_gap_extra: 7,
        ..ObstaclesConfig::default()
    };
    assert_eq!(ObstaclesConfig::new(config), Ok(config));
    assert_eq!(opening_bottom_from_fraction(&config, 0), -62_000);
    assert_eq!(opening_bottom_from_fraction(&config, FRACTION_ONE), -62_000);
    assert_eq!(gap_from_fraction(&config, 12_345), 7);
}

#[test]
fn inverted_gap_range_is_reported_first() {
    let config = ObstaclesConfig {
        min_gap_extra: 2,
        max_gap_extra: 1,
        opening_height: u32::MAX,
        ..ObstaclesConfig::default()
    };
    assert_eq!(config.validate(), Err(ConfigError::InvertedGapRange));
}

#[test]
fn map_range_interpolates_and_rounds_down() {
    assert_eq!(map_range(0, 0, 10, -100, 100), -100);
    assert_eq!(map_range(10, 0, 10, -100, 100), 100);
    assert_eq!(map_range(5, 0, 10, -100, 100), 0);
    assert_eq!(map_range(1, 0, 3, 0, 10), 3);
    assert_eq!(map_range(2, 0, 3, 0, 10), 6);
    assert_eq!(map_range(7, 5, 9, 10, 20), 15);
    assert_eq!(map_range(u32::MAX, 0, u32::MAX, i64::MIN, i64::MAX), i64::MAX);
    assert_eq!(map_range(0, 0, u32::MAX, i64::MIN, i64::MAX), i64::MIN);
}

#[test]
fn gap_follows_the_fraction() {
    let config = ObstaclesConfig::default();
    assert_eq!(gap_from_fraction(&config, 0), 90_000);
    assert_eq!(gap_from_fraction(&config, FRACTION_ONE), 130_000);
    assert_eq!(gap_from_fraction(&config, FRACTION_ONE / 2), 110_000);
    assert_eq!(gap_from_fraction(&config, FRACTION_ONE / 4), 100_000);
}

#[test]
fn opening_height_follows_the_fraction() {
    let config = ObstaclesConfig::default();
    // from -162 + 54 = -108 up to 162 - 36 - 80 = 46
    assert_eq!(opening_bottom_from_fraction(&config, 0), -108_000);
    assert_eq!(opening_bottom_from_fraction(&config, FRACTION_ONE), 46_000);
    assert_eq!(opening_bottom_from_fraction(&config, FRACTION_ONE / 2), -31_000);
}

#[test]
fn random_gap_stays_in_range_and_varies() {
    let config = ObstaclesConfig::default();
    let mut rng = GlobalRng::with_seed(1);
    let mut seen = Vec::new();
    for _ in 0..200 {
        let gap = random_gap(&mut rng, &config);
        assert!(gap >= config.min_gap_extra && gap <= config.max_gap_extra);
        if !seen.contains(&gap) {
            seen.push(gap);
        }
    }
    assert!(seen.len() > 100);
    assert!(seen.iter().any(|gap| *gap > 90_000 && *gap < 130_000));
}

#[test]
fn random_opening_stays_in_range_and_varies() {
    let config = ObstaclesConfig::default();
    let mut rng = GlobalRng::with_seed(2);
    let mut lowest = i64::MAX;
    let mut highest = i64::MIN;
    for _ in 0..500 {
        let bottom = random_opening_position_bottom_y(&mut rng, &config);
        assert!(bottom >= -108_000 && bottom <= 46_000);
        lowest = lowest.min(bottom);
        highest = highest.max(bottom);
    }
    assert!(lowest < -80_000);
    assert!(highest > 20_000);
}

#[test]
fn same_seed_gives_the_same_obstacles() {
    let config = ObstaclesConfig::default();
    let mut first = GlobalRng::with_seed(99);
    let mut second = GlobalRng::with_seed(99);
    for _ in 0..50 {
        assert_eq!(random_gap(&mut first, &config), random_gap(&mut second, &config));
        assert_eq!(
            random_opening_position_bottom_y(&mut first, &config),
            random_opening_position_bottom_y(&mut second, &config)
        );
    }
}

#[test]
fn distances_grow_by_the_scrolled_distance() {
    let mut data = ObstaclesData::default();
    assert_eq!(data, ObstaclesData { traveled_distance: 0, last_obstacle_distance: 0 });
    update_obstacles_data(&mut data, &GameSpeed { factor: 1_100 }, 1_000_000);
    assert_eq!(data.traveled_distance, 103_400);
    assert_eq!(data.last_obstacle_distance, 103_400);
    data.last_obstacle_distance = -15_000;
    update_obstacles_data(&mut data, &GameSpeed { factor: 1_100 }, 16_667);
    assert_eq!(data.traveled_distance, 105_123);
    assert_eq!(data.last_obstacle_distance, -13_277);
}

#[test]
fn distances_saturate() {
    let mut data =
        ObstaclesData { traveled_distance: i64::MAX - 1, last_obstacle_distance: -5 };
    update_obstacles_data(&mut data, &GameSpeed { factor: 1_000 }, 1_000_000);
    assert_eq!(data.traveled_distance, i64::MAX);
    assert_eq!(data.last_obstacle_distance, 93_995);
}

#[test]
fn spawn_keeps_the_overshoot_as_debt() {
    // 95 since the last obstacle, threshold 90, extra gap 20: 95 - 90 - 20 = -15
    let config = narrow_config();
    let mut world = World::new();
    let mut data = ObstaclesData { traveled_distance: 500_000, last_obstacle_distance: 95_000 };
    spawn_obstacles_at(&mut world, &mut data, &config, 20_000, 0);
    assert_eq!(data.last_obstacle_distance, -15_000);
    assert_eq!(data.traveled_distance, 500_000);
    assert_eq!(world.obstacles.len(), 3);
    for obstacle in world.obstacles.iter() {
        assert_eq!(obstacle.translation.x, (GAME_WIDTH / 2 + 20_000) as i64);
    }
}

#[test]
fn no_spawn_at_or_below_the_threshold() {
    let config = narrow_config();
    let mut world = World::new();
    let mut data = ObstaclesData { traveled_distance: 90_000, last_obstacle_distance: 90_000 };
    spawn_obstacles_at(&mut world, &mut data, &config, 20_000, 0);
    assert_eq!(data.last_obstacle_distance, 90_000);
    assert!(world.obstacles.is_empty());
    assert_eq!(world.next_entity, 0);
    let mut rng = GlobalRng::with_seed(5);
    spawn_obstacles(&mut world, &mut rng, &mut data, &config);
    assert!(world.obstacles.is_empty());
    data.last_obstacle_distance = 90_001;
    spawn_obstacles(&mut world, &mut rng, &mut data, &config);
    assert_eq!(world.obstacles.len(), 3);
}

#[test]
fn spawned_group_is_two_barriers_around_an_opening() {
    let config = ObstaclesConfig::default();
    let mut world = World::new();
    world.next_entity = 10;
    spawn_obstacle_entities(&mut world, &config, 400_000, -20_000);
    assert_eq!(world.next_entity, 13);
    let lower = world.obstacles[0];
    let upper = world.obstacles[1];
    let opening = world.obstacles[2];
    assert_eq!((lower.entity, upper.entity, opening.entity), (10, 11, 12));
    assert_eq!(lower.kind, Obstacle::GameOver);
    assert_eq!(upper.kind, Obstacle::GameOver);
    assert_eq!(opening.kind, Obstacle::Opening);
    assert_eq!(lower.translation, Vec2::new(400_000, -20_000 - 126_000));
    assert_eq!(upper.translation, Vec2::new(400_000, -20_000 + 126_000 + 80_000));
    assert_eq!(opening.translation, Vec2::new(400_000, -20_000 + 40_000));
    assert_eq!((lower.half_width, lower.half_height), (9_000, 126_000));
    assert_eq!((opening.half_width, opening.half_height), (9_000, 40_000));
    assert!(!lower.flip_y);
    assert!(upper.flip_y);
    assert_eq!(lower.horizontal_move, Some(HorizontalMove { factor: UNIT }));
    assert_eq!(opening.horizontal_move, Some(HorizontalMove { factor: UNIT }));
    assert_eq!(lower.body, RigidBody::KinematicPositionBased);
    assert_eq!(
        lower.collision_groups,
        CollisionGroups::new(COLLISION_GROUP_GAME_OVER, COLLISION_GROUP_PLAYER)
    );
    assert_eq!(
        opening.collision_groups,
        CollisionGroups::new(COLLISION_GROUP_OPENING, COLLISION_GROUP_PLAYER)
    );
}

#[test]
fn single_entities_get_the_next_identifier() {
    let config = ObstaclesConfig::default();
    let mut world = World::new();
    spawn_obstacle_entity(&mut world, &config, Vec2::new(1, 2), true);
    spawn_opening_entity(&mut world, &config, Vec2::new(3, 4));
    assert_eq!(world.obstacles[0].entity, 0);
    assert_eq!(world.obstacles[0].translation, Vec2::new(1, 2));
    assert!(world.obstacles[0].flip_y);
    assert_eq!(world.obstacles[1].entity, 1);
    assert_eq!(world.obstacles[1].kind, Obstacle::Opening);
    assert_eq!(world.next_entity, 2);
}

#[test]
fn every_spawned_opening_keeps_clear_of_the_margins() {
    let config = ObstaclesConfig::default();
    let half_height = (GAME_HEIGHT / 2) as i64;
    for seed in 0..200u64 {
        let mut rng = GlobalRng::with_seed(seed);
        let mut world = World::new();
        let mut data = ObstaclesData { traveled_distance: 0, last_obstacle_distance: 90_001 };
        spawn_obstacles(&mut world, &mut rng, &mut data, &config);
        assert_eq!(world.obstacles.len(), 3);
        let opening = world.obstacles[2];
        assert_eq!(opening.kind, Obstacle::Opening);
        let lower_edge = opening.translation.y - opening.half_height as i64 + half_height;
        let upper_edge = opening.translation.y + opening.half_height as i64 + half_height;
        assert!(lower_edge >= config.opening_bottom_margin as i64);
        assert!(upper_edge <= (GAME_HEIGHT - config.opening_top_margin) as i64);
        assert_eq!(upper_edge - lower_edge, config.opening_height as i64);
        let x = opening.translation.x;
        assert!(x >= 288_000 + 90_000 && x <= 288_000 + 130_000);
        assert_eq!(data.last_obstacle_distance, 90_001 - 90_000 - (x - 288_000));
    }
}

#[test]
fn consecutive_spawns_are_at_least_a_threshold_apart() {
    let config = ObstaclesConfig::default();
    let mut rng = GlobalRng::with_seed(3);
    let mut world = World::new();
    let mut data = ObstaclesData::default();
    let speed = GameSpeed { factor: 1_100 };
    let mut spawns = Vec::new();
    for _ in 0..20_000 {
        update_obstacles_data(&mut data, &speed, 16_667);
        let before = world.obstacles.len();
        spawn_obstacles(&mut world, &mut rng, &mut data, &config);
        if world.obstacles.len() > before {
            spawns.push(data.traveled_distance);
        }
    }
    assert!(spawns.len() > 50);
    for pair in spawns.windows(2) {
        assert!(pair[1] - pair[0] >= config.min_gap_threshold as i64);
    }
}

#[test]
fn long_frame_spawns_again_in_the_next_tick() {
    let config = narrow_config();
    let mut world = World::new();
    let mut data = ObstaclesData { traveled_distance: 0, last_obstacle_distance: 1_000_000 };
    spawn_obstacles_at(&mut world, &mut data, &config, 0, 0);
    assert_eq!(data.last_obstacle_distance, 910_000);
    spawn_obstacles_at(&mut world, &mut data, &config, 40_000, 0);
    assert_eq!(data.last_obstacle_distance, 780_000);
    assert_eq!(world.obstacles.len(), 6);
}

#[test]
fn despawn_removes_what_has_left_the_field() {
    let config = ObstaclesConfig::default();
    let mut world = World::new();
    // the line lies at -18 - 288 = -306
    spawn_obstacle_entity(&mut world, &config, Vec2::new(-306_001, 0), false);
    spawn_obstacle_entity(&mut world, &config, Vec2::new(-306_000, 0), false);
    spawn_opening_entity(&mut world, &config, Vec2::new(-400_000, 0));
    spawn_obstacle_entity(&mut world, &config, Vec2::new(100_000, 0), true);
    despawn_passed_obstacles(&mut world, &config);
    let left: Vec<u64> = world.obstacles.iter().map(|o| o.entity).collect();
    assert_eq!(left, vec![1, 3]);
    assert_eq!(world.next_entity, 4);
}

#[test]
fn despawn_twice_is_despawn_once() {
    let config = ObstaclesConfig::default();
    let mut world = World::new();
    spawn_obstacle_entities(&mut world, &config, -500_000, 0);
    spawn_obstacle_entities(&mut world, &config, 0, 0);
    despawn_passed_obstacles(&mut world, &config);
    let once = world.obstacles.clone();
    assert_eq!(once.len(), 3);
    despawn_passed_obstacles(&mut world, &config);
    assert_eq!(world.obstacles, once);
}

#[test]
fn despawned_identifier_is_never_used_again() {
    let config = ObstaclesConfig::default();
    let mut rng = GlobalRng::with_seed(11);
    let mut world = World::new();
    let mut data = ObstaclesData::default();
    let speed = GameSpeed { factor: 5_000 };
    let mut gone: Vec<u64> = Vec::new();
    for _ in 0..5_000 {
        move_game_elements_horizontal(&mut world, &speed, 16_667);
        update_obstacles_data(&mut data, &speed, 16_667);
        spawn_obstacles(&mut world, &mut rng, &mut data, &config);
        let before: Vec<u64> = world.obstacles.iter().map(|o| o.entity).collect();
        despawn_passed_obstacles(&mut world, &config);
        let after: Vec<u64> = world.obstacles.iter().map(|o| o.entity).collect();
        for entity in before {
            if !after.contains(&entity) {
                assert!(!gone.contains(&entity));
                gone.push(entity);
            }
        }
        for entity in after.iter() {
            assert!(!gone.contains(entity));
        }
        for obstacle in world.obstacles.iter() {
            assert!(obstacle.translation.x >= -306_000);
        }
    }
    assert!(gone.len() > 30);
}

#[test]
fn reset_removes_every_obstacle_and_zeroes_the_distances() {
    let config = ObstaclesConfig::default();
    let mut world = World::new();
    spawn_world_ground(&mut world);
    spawn_obstacle_entities(&mut world, &config, 100_000, 0);
    let mut data = ObstaclesData { traveled_distance: 77, last_obstacle_distance: -5 };
    reset_obstacles_state(&mut world, &mut data);
    assert!(world.obstacles.is_empty());
    assert_eq!(data, ObstaclesData { traveled_distance: 0, last_obstacle_distance: 0 });
    assert_eq!(world.boundaries.len(), 2);
    assert_eq!(world.grounds.len(), 2);
    assert_eq!(world.next_entity, 7);
}
