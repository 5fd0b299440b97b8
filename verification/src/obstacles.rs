//! The obstacle generator.
//!
//! Obstacles come in groups of three: a barrier below, a barrier above, and
//! the opening between them. A new group enters the field whenever the world
//! has scrolled far enough since the last one.

use vstd::prelude::*;
use bevy_turborand::{DelegatedRng, GlobalRng};
use crate::consts::{
    COLLISION_GROUP_GAME_OVER, COLLISION_GROUP_OPENING, COLLISION_GROUP_PLAYER, GAME_HEIGHT,
    GAME_WIDTH, UNIT,
};
use crate::game::{moved_obstacles, scroll_distance, scrolled_distance, GameSpeed, HorizontalMove};
use crate::physics::{CollisionGroups, RigidBody};
use crate::units::{clamp_i64, saturate, Vec2};
use crate::world::{Entity, World, WorldView};

verus! {

/// The random fraction that stands for one: samples lie in `0..=FRACTION_ONE`.
pub const FRACTION_ONE: u32 = 16_777_216;

/// What touching an obstacle means for the player.
#[derive(Clone, Copy, Debug, PartialEq, Eq, Structural)]
pub enum Obstacle {
    /// A fixed boundary of the field; touching it ends the attempt.
    GameOverStatic,
    /// A barrier that scrolls with the world; touching it ends the attempt.
    GameOver,
    /// The gap between two barriers; passing through it scores a point.
    Opening,
}

/// An obstacle in the world: a box around `translation`.
#[derive(Clone, Copy, Debug, PartialEq, Eq)]
pub struct ObstacleBody {
    pub entity: Entity,
    pub kind: Obstacle,
    /// Centre of the box.
    pub translation: Vec2,
    pub half_width: u32,
    pub half_height: u32,
    /// Present on the obstacles that scroll with the world.
    pub horizontal_move: Option<HorizontalMove>,
    /// Whether the barrier is drawn upside down.
    pub flip_y: bool,
    pub body: RigidBody,
    pub collision_groups: CollisionGroups,
}

impl ObstacleBody {
    /// Height of the box's lower edge.
    pub open spec fn lower_edge(self) -> int {
        self.translation.y - self.half_height
    }

    /// Height of the box's upper edge.
    pub open spec fn upper_edge(self) -> int {
        self.translation.y + self.half_height
    }
}

/// Why a set of obstacle measures cannot be used.
#[derive(Clone, Copy, Debug, PartialEq, Eq, Structural)]
pub enum ConfigError {
    /// The smallest extra gap is larger than the largest.
    InvertedGapRange,
    /// The two margins and the opening together are higher than the field.
    OpeningDoesNotFit,
}

/// The measures of the obstacles, in thousandths of a pixel.
#[derive(Clone, Copy, Debug, PartialEq, Eq)]
pub struct ObstaclesConfig {
    /// Width of a barrier.
    pub sprite_width: u32,
    /// Height of a barrier.
    pub sprite_height: u32,
    /// Least distance between the bottom of the field and an opening.
    pub opening_bottom_margin: u32,
    /// Least distance between an opening and the top of the field.
    pub opening_top_margin: u32,
    /// Height of an opening.
    pub opening_height: u32,
    /// Distance that the world must have scrolled since the last obstacle
    /// before the next one appears.
    pub min_gap_threshold: u32,
    /// Least distance beyond the right edge at which an obstacle appears.
    pub min_gap_extra: u32,
    /// Largest distance beyond the right edge at which an obstacle appears.
    pub max_gap_extra: u32,
}

impl ObstaclesConfig {
    /// The measures leave room for an opening and for a gap.
    pub open spec fn valid(self) -> bool {
        &&& self.min_gap_extra <= self.max_gap_extra
        &&& self.opening_bottom_margin + self.opening_height + self.opening_top_margin
            <= GAME_HEIGHT
    }

    /// Lowest height at which an opening may begin.
    pub open spec fn opening_bottom_min(self) -> int {
        self.opening_bottom_margin - GAME_HEIGHT / 2
    }

    /// Highest height at which an opening may begin.
    pub open spec fn opening_bottom_max(self) -> int {
        GAME_HEIGHT / 2 - self.opening_top_margin - self.opening_height
    }

    /// Obstacles whose centre lies left of this line are out of sight.
    pub open spec fn despawn_line(self) -> int {
        -(self.sprite_width + GAME_WIDTH / 2)
    }

    /// `obstacle` has scrolled out of the field on the left.
    pub open spec fn passed(self, obstacle: ObstacleBody) -> bool {
        obstacle.translation.x < self.despawn_line()
    }

    /// The measures that the game ships with.
    pub open spec fn standard() -> ObstaclesConfig {
        ObstaclesConfig {
            sprite_width: 18_000,
            sprite_height: 252_000,
            opening_bottom_margin: 54_000,
            opening_top_margin: 36_000,
            opening_height: 80_000,
            min_gap_threshold: 90_000,
            min_gap_extra: 90_000,
            max_gap_extra: 130_000,
        }
    }

    /// Says what is wrong with the measures, if anything is.
    pub fn validate(&self) -> (result: Result<(), ConfigError>)
        ensures
            result is Ok <==> self.valid(),
            result == Err::<(), ConfigError>(ConfigError::InvertedGapRange) <==> self.min_gap_extra
                > self.max_gap_extra,
            result == Err::<(), ConfigError>(ConfigError::OpeningDoesNotFit) <==> self.min_gap_extra
                <= self.max_gap_extra && !self.valid(),
    {
        if self.min_gap_extra > self.max_gap_extra {
            Err(ConfigError::InvertedGapRange)
        } else if self.opening_bottom_margin as u64 + self.opening_height as u64
            + self.opening_top_margin as u64 > GAME_HEIGHT as u64 {
            Err(ConfigError::OpeningDoesNotFit)
        } else {
            Ok(())
        }
    }

    /// Accepts the measures if they are valid, and says what is wrong with
    /// them otherwise.
    pub fn new(measures: ObstaclesConfig) -> (result: Result<ObstaclesConfig, ConfigError>)
        ensures
            measures.valid() ==> result == Ok::<ObstaclesConfig, ConfigError>(measures),
            measures.min_gap_extra > measures.max_gap_extra ==> result == Err::<
                ObstaclesConfig,
                ConfigError,
            >(ConfigError::InvertedGapRange),
            measures.min_gap_extra <= measures.max_gap_extra && !measures.valid() ==> result
                == Err::<ObstaclesConfig, ConfigError>(ConfigError::OpeningDoesNotFit),
    {
        match measures.validate() {
            Ok(()) => Ok(measures),
            Err(error) => Err(error),
        }
    }
}

impl Default for ObstaclesConfig {
    fn default() -> (config: ObstaclesConfig)
        ensures
            config == ObstaclesConfig::standard(),
            config.valid(),
    {
        ObstaclesConfig {
            sprite_width: 18_000,
            sprite_height: 252_000,
            opening_bottom_margin: 54_000,
            opening_top_margin: 36_000,
            opening_height: 80_000,
            min_gap_threshold: 90_000,
            min_gap_extra: 90_000,
            max_gap_extra: 130_000,
        }
    }
}

/// How far the world has scrolled, in thousandths of a pixel.
#[derive(Clone, Copy, Debug, PartialEq, Eq)]
pub struct ObstaclesData {
    /// Distance scrolled since the attempt began.
    pub traveled_distance: i64,
    /// Distance scrolled since the last obstacle appeared, less what that
    /// obstacle was placed ahead: negative while the obstacle is still on its
    /// way to the right edge.
    pub last_obstacle_distance: i64,
}

impl ObstaclesData {
    /// The state at the start of an attempt.
    pub open spec fn start() -> ObstaclesData {
        ObstaclesData { traveled_distance: 0, last_obstacle_distance: 0 }
    }

    /// The state after the world scrolled on by `distance`.
    pub open spec fn advanced(self, distance: int) -> ObstaclesData {
        ObstaclesData {
            traveled_distance: clamp_i64(self.traveled_distance + distance),
            last_obstacle_distance: clamp_i64(self.last_obstacle_distance + distance),
        }
    }

    /// The world has scrolled far enough for the next obstacle.
    pub open spec fn spawn_due(self, config: ObstaclesConfig) -> bool {
        self.last_obstacle_distance > config.min_gap_threshold
    }

    /// The state after an obstacle appeared `gap_offset_x` beyond the right
    /// edge: the threshold and the offset are taken off, and what the world
    /// scrolled beyond the threshold is kept.
    pub open spec fn after_spawn(self, config: ObstaclesConfig, gap_offset_x: u32) -> ObstaclesData {
        ObstaclesData {
            traveled_distance: self.traveled_distance,
            last_obstacle_distance: (self.last_obstacle_distance - config.min_gap_threshold
                - gap_offset_x) as i64,
        }
    }
}

impl Default for ObstaclesData {
    fn default() -> (data: ObstaclesData)
        ensures
            data == ObstaclesData::start(),
    {
        ObstaclesData { traveled_distance: 0, last_obstacle_distance: 0 }
    }
}

/// Adds the distance that the world scrolled in `delta_micros` microseconds
/// to both distances.
pub fn update_obstacles_data(
    obstacles_data: &mut ObstaclesData,
    game_speed: &GameSpeed,
    delta_micros: u32,
)
    ensures
        *final(obstacles_data) == old(obstacles_data).advanced(
            scrolled_distance(UNIT, game_speed.factor, delta_micros),
        ),
{
    let frame_traveled_distance = scroll_distance(UNIT, game_speed.factor, delta_micros);
    obstacles_data.traveled_distance = saturate(
        obstacles_data.traveled_distance as i128 + frame_traveled_distance as i128,
    );
    obstacles_data.last_obstacle_distance = saturate(
        obstacles_data.last_obstacle_distance as i128 + frame_traveled_distance as i128,
    );
}

/// The point of `out_min..=out_max` that lies as far along as `value` lies
/// along `in_min..=in_max`, rounded down.
pub open spec fn mapped(value: u32, in_min: u32, in_max: u32, out_min: i64, out_max: i64) -> int {
    (value - in_min) * (out_max - out_min) / (in_max - in_min) + out_min
}

/// Computes [`mapped`].
pub fn map_range(value: u32, in_min: u32, in_max: u32, out_min: i64, out_max: i64) -> (out: i64)
    requires
        in_min <= value <= in_max,
        in_min < in_max,
        out_min <= out_max,
    ensures
        out == mapped(value, in_min, in_max, out_min, out_max),
        out_min <= out <= out_max,
{
    let along: u128 = (value - in_min) as u128;
    let width: u128 = (in_max - in_min) as u128;
    let span: u128 = (out_max as i128 - out_min as i128) as u128;
    assert(0 <= along as int * span as int <= width as int * span as int && width as int
        * span as int <= 0xffff_ffff * 0xffff_ffff_ffff_ffff) by (nonlinear_arith)
        requires
            0 <= along <= width <= 0xffff_ffff,
            0 <= span <= 0xffff_ffff_ffff_ffff,
    ;
    let scaled: u128 = along * span / width;
    assert(0 <= scaled <= span) by (nonlinear_arith)
        requires
            scaled == (along as int * span as int) / (width as int),
            0 <= along as int * span as int <= width as int * span as int,
            0 < width,
            0 <= span,
    ;
    (out_min as i128 + scaled as i128) as i64
}

/// The extra gap that the random fraction `fraction` selects.
pub open spec fn gap_for(config: ObstaclesConfig, fraction: u32) -> int {
    mapped(fraction, 0, FRACTION_ONE, config.min_gap_extra as i64, config.max_gap_extra as i64)
}

/// The height of the opening's lower edge that the random fraction
/// `fraction` selects.
pub open spec fn opening_bottom_for(config: ObstaclesConfig, fraction: u32) -> int {
    mapped(
        fraction,
        0,
        FRACTION_ONE,
        config.opening_bottom_min() as i64,
        config.opening_bottom_max() as i64,
    )
}

/// Computes [`gap_for`]: a distance between the smallest and the largest
/// extra gap.
pub fn gap_from_fraction(config: &ObstaclesConfig, fraction: u32) -> (gap: u32)
    requires
        config.valid(),
        fraction <= FRACTION_ONE,
    ensures
        gap == gap_for(*config, fraction),
        config.min_gap_extra <= gap <= config.max_gap_extra,
{
    map_range(fraction, 0, FRACTION_ONE, config.min_gap_extra as i64, config.max_gap_extra as i64)
        as u32
}

/// Computes [`opening_bottom_for`]: a height that keeps the opening clear of
/// both margins.
pub fn opening_bottom_from_fraction(config: &ObstaclesConfig, fraction: u32) -> (bottom: i64)
    requires
        config.valid(),
        fraction <= FRACTION_ONE,
    ensures
        bottom == opening_bottom_for(*config, fraction),
        config.opening_bottom_min() <= bottom <= config.opening_bottom_max(),
{
    let half_height: i64 = (GAME_HEIGHT / 2) as i64;
    map_range(
        fraction,
        0,
        FRACTION_ONE,
        config.opening_bottom_margin as i64 - half_height,
        half_height - config.opening_top_margin as i64 - config.opening_height as i64,
    )
}

/// The generator of random numbers that the host keeps for the whole game:
/// `GlobalRng` of `bevy_turborand`. Nothing is known of its state.
#[verifier::external_type_specification]
#[verifier::external_body]
pub struct ExGlobalRng(GlobalRng);

/// Draws a number between `lower` and `upper`, both included, from the
/// generator: `DelegatedRng::u32` of `bevy_turborand` on an inclusive range.
/// The generator promises a value of the range and nothing about which one;
/// it panics on an empty range, which the precondition leaves out.
#[verifier::external_body]
fn sample_u32(rng: &mut GlobalRng, lower: u32, upper: u32) -> (value: u32)
    requires
        lower <= upper,
    ensures
        lower <= value <= upper,
{
    rng.u32(lower..=upper)
}

/// Draws the extra gap of the next obstacle.
pub fn random_gap(rng: &mut GlobalRng, config: &ObstaclesConfig) -> (gap: u32)
    requires
        config.valid(),
    ensures
        exists|fraction: u32| fraction <= FRACTION_ONE && gap == #[trigger] gap_for(*config, fraction),
        config.min_gap_extra <= gap <= config.max_gap_extra,
{
    let fraction = sample_u32(rng, 0, FRACTION_ONE);
    gap_from_fraction(config, fraction)
}

/// Draws the height of the next opening's lower edge.
pub fn random_opening_position_bottom_y(rng: &mut GlobalRng, config: &ObstaclesConfig) -> (bottom:
    i64)
    requires
        config.valid(),
    ensures
        exists|fraction: u32|
            fraction <= FRACTION_ONE && bottom == #[trigger] opening_bottom_for(*config, fraction),
        config.opening_bottom_min() <= bottom <= config.opening_bottom_max(),
{
    let fraction = sample_u32(rng, 0, FRACTION_ONE);
    opening_bottom_from_fraction(config, fraction)
}

/// A barrier of the given identifier around `position`.
pub open spec fn barrier(entity: Entity, config: ObstaclesConfig, position: Vec2, flip_y: bool) -> ObstacleBody {
    ObstacleBody {
        entity,
        kind: Obstacle::GameOver,
        translation: position,
        half_width: config.sprite_width / 2,
        half_height: config.sprite_height / 2,
        horizontal_move: Some(HorizontalMove { factor: UNIT }),
        flip_y,
        body: RigidBody::KinematicPositionBased,
        collision_groups: CollisionGroups {
            memberships: COLLISION_GROUP_GAME_OVER,
            filters: COLLISION_GROUP_PLAYER,
        },
    }
}

/// An opening of the given identifier around `position`.
pub open spec fn opening(entity: Entity, config: ObstaclesConfig, position: Vec2) -> ObstacleBody {
    ObstacleBody {
        entity,
        kind: Obstacle::Opening,
        translation: position,
        half_width: config.sprite_width / 2,
        half_height: config.opening_height / 2,
        horizontal_move: Some(HorizontalMove { factor: UNIT }),
        flip_y: false,
        body: RigidBody::KinematicPositionBased,
        collision_groups: CollisionGroups {
            memberships: COLLISION_GROUP_OPENING,
            filters: COLLISION_GROUP_PLAYER,
        },
    }
}

/// `world` with one more obstacle.
pub open spec fn with_obstacle(world: WorldView, obstacle: ObstacleBody) -> WorldView {
    WorldView {
        next_entity: (world.next_entity + 1) as Entity,
        obstacles: world.obstacles.push(obstacle),
        ..world
    }
}

/// `world` with a new group of obstacles at `obstacle_pos_x`: the lower
/// barrier ends at `opening_bottom_y`, the upper barrier begins one opening
/// height above it, and the opening lies between the two.
pub open spec fn with_obstacles(
    world: WorldView,
    config: ObstaclesConfig,
    obstacle_pos_x: i64,
    opening_bottom_y: i64,
) -> WorldView {
    let first = world.next_entity;
    let half = config.sprite_height / 2;
    let lower = barrier(
        first,
        config,
        Vec2 { x: obstacle_pos_x, y: (opening_bottom_y - half) as i64 },
        false,
    );
    let upper = barrier(
        (first + 1) as Entity,
        config,
        Vec2 { x: obstacle_pos_x, y: (opening_bottom_y + half + config.opening_height) as i64 },
        true,
    );
    let gap = opening(
        (first + 2) as Entity,
        config,
        Vec2 { x: obstacle_pos_x, y: (opening_bottom_y + config.opening_height / 2) as i64 },
    );
    with_obstacle(with_obstacle(with_obstacle(world, lower), upper), gap)
}

/// Spawns one barrier around `obstacle_pos`.
pub fn spawn_obstacle_entity(
    world: &mut World,
    config: &ObstaclesConfig,
    obstacle_pos: Vec2,
    flip_y: bool,
)
    requires
        old(world)@.wf(),
        old(world)@.spare_entities(1),
    ensures
        final(world)@.wf(),
        final(world)@ == with_obstacle(
            old(world)@,
            barrier(old(world)@.next_entity, *config, obstacle_pos, flip_y),
        ),
{
    let entity = world.allocate();
    world.obstacles.push(
        ObstacleBody {
            entity,
            kind: Obstacle::GameOver,
            translation: obstacle_pos,
            half_width: config.sprite_width / 2,
            half_height: config.sprite_height / 2,
            horizontal_move: Some(HorizontalMove { factor: UNIT }),
            flip_y,
            body: RigidBody::KinematicPositionBased,
            collision_groups: CollisionGroups::new(COLLISION_GROUP_GAME_OVER, COLLISION_GROUP_PLAYER),
        },
    );
}

/// Spawns one opening around `opening_pos`.
pub fn spawn_opening_entity(world: &mut World, config: &ObstaclesConfig, opening_pos: Vec2)
    requires
        old(world)@.wf(),
        old(world)@.spare_entities(1),
    ensures
        final(world)@.wf(),
        final(world)@ == with_obstacle(
            old(world)@,
            opening(old(world)@.next_entity, *config, opening_pos),
        ),
{
    let entity = world.allocate();
    world.obstacles.push(
        ObstacleBody {
            entity,
            kind: Obstacle::Opening,
            translation: opening_pos,
            half_width: config.sprite_width / 2,
            half_height: config.opening_height / 2,
            horizontal_move: Some(HorizontalMove { factor: UNIT }),
            flip_y: false,
            body: RigidBody::KinematicPositionBased,
            collision_groups: CollisionGroups::new(COLLISION_GROUP_OPENING, COLLISION_GROUP_PLAYER),
        },
    );
}

/// Spawns a group of obstacles at `obstacle_pos_x` whose opening begins at
/// `opening_bottom_y`.
pub fn spawn_obstacle_entities(
    world: &mut World,
    config: &ObstaclesConfig,
    obstacle_pos_x: i64,
    opening_bottom_y: i64,
)
    requires
        old(world)@.wf(),
        old(world)@.spare_entities(3),
        config.valid(),
        config.opening_bottom_min() <= opening_bottom_y <= config.opening_bottom_max(),
    ensures
        final(world)@.wf(),
        final(world)@ == with_obstacles(old(world)@, *config, obstacle_pos_x, opening_bottom_y),
{
    let sprite_height_offset_y: i64 = (config.sprite_height / 2) as i64;
    spawn_obstacle_entity(
        world,
        config,
        Vec2::new(obstacle_pos_x, opening_bottom_y - sprite_height_offset_y),
        false,
    );
    spawn_obstacle_entity(
        world,
        config,
        Vec2::new(
            obstacle_pos_x,
            opening_bottom_y + sprite_height_offset_y + config.opening_height as i64,
        ),
        true,
    );
    spawn_opening_entity(
        world,
        config,
        Vec2::new(obstacle_pos_x, opening_bottom_y + (config.opening_height / 2) as i64),
    );
}

/// What [`spawn_obstacles`] makes of the world and of the distances when it
/// draws `gap_offset_x` and `opening_bottom_y`: if an obstacle is due, it
/// appears `gap_offset_x` beyond the right edge of the field; if none is
/// due, nothing changes.
pub open spec fn spawned(
    world: WorldView,
    data: ObstaclesData,
    config: ObstaclesConfig,
    gap_offset_x: u32,
    opening_bottom_y: i64,
) -> (WorldView, ObstaclesData) {
    if data.spawn_due(config) {
        (
            with_obstacles(world, config, (GAME_WIDTH / 2 + gap_offset_x) as i64, opening_bottom_y),
            data.after_spawn(config, gap_offset_x),
        )
    } else {
        (world, data)
    }
}

/// Spawns the next group of obstacles if one is due, with the gap and the
/// opening that were drawn for it.
pub fn spawn_obstacles_at(
    world: &mut World,
    obstacles_data: &mut ObstaclesData,
    config: &ObstaclesConfig,
    gap_offset_x: u32,
    opening_bottom_y: i64,
)
    requires
        old(world)@.wf(),
        old(world)@.spare_entities(3),
        config.valid(),
        config.min_gap_extra <= gap_offset_x <= config.max_gap_extra,
        config.opening_bottom_min() <= opening_bottom_y <= config.opening_bottom_max(),
    ensures
        final(world)@.wf(),
        (final(world)@, *final(obstacles_data)) == spawned(
            old(world)@,
            *old(obstacles_data),
            *config,
            gap_offset_x,
            opening_bottom_y,
        ),
{
    if obstacles_data.last_obstacle_distance > config.min_gap_threshold as i64 {
        let screen_offset_x: i64 = (GAME_WIDTH / 2) as i64;
        let obstacle_pos_x = screen_offset_x + gap_offset_x as i64;
        spawn_obstacle_entities(world, config, obstacle_pos_x, opening_bottom_y);
        obstacles_data.last_obstacle_distance = obstacles_data.last_obstacle_distance
            - config.min_gap_threshold as i64 - gap_offset_x as i64;
    }
}

/// Spawns the next group of obstacles if the world has scrolled beyond the
/// threshold since the last one, at a gap and a height drawn from `rng`.
/// Whatever is drawn, the outcome is that of [`spawn_obstacles_at`] for a gap
/// and a height of the configured ranges.
pub fn spawn_obstacles(
    world: &mut World,
    rng: &mut GlobalRng,
    obstacles_data: &mut ObstaclesData,
    config: &ObstaclesConfig,
)
    requires
        old(world)@.wf(),
        old(world)@.spare_entities(3),
        config.valid(),
    ensures
        final(world)@.wf(),
        exists|gap_fraction: u32, opening_fraction: u32|
            gap_fraction <= FRACTION_ONE && opening_fraction <= FRACTION_ONE && (
                final(world)@,
                *final(obstacles_data),
            ) == spawned(
                old(world)@,
                *old(obstacles_data),
                *config,
                #[trigger] gap_for(*config, gap_fraction) as u32,
                #[trigger] opening_bottom_for(*config, opening_fraction) as i64,
            ),
{
    if obstacles_data.last_obstacle_distance > config.min_gap_threshold as i64 {
        let gap_offset_x = random_gap(rng, config);
        let opening_bottom_y = random_opening_position_bottom_y(rng, config);
        spawn_obstacles_at(world, obstacles_data, config, gap_offset_x, opening_bottom_y);
    } else {
        proof {
            lemma_mapped_within(0, 0, FRACTION_ONE, config.min_gap_extra as i64, config.max_gap_extra as i64);
            assert((world@, *obstacles_data) == spawned(
                old(world)@,
                *old(obstacles_data),
                *config,
                gap_for(*config, 0) as u32,
                opening_bottom_for(*config, 0) as i64,
            ));
        }
    }
}

/// The obstacles of `obstacles` that have not scrolled out of the field, in
/// their order.
pub open spec fn remaining(obstacles: Seq<ObstacleBody>, config: ObstaclesConfig) -> Seq<ObstacleBody>
    decreases obstacles.len(),
{
    if obstacles.len() == 0 {
        Seq::empty()
    } else if config.passed(obstacles.last()) {
        remaining(obstacles.drop_last(), config)
    } else {
        remaining(obstacles.drop_last(), config).push(obstacles.last())
    }
}

/// Removes every obstacle that has scrolled fully out of the field on the
/// left, and keeps the others as they are.
pub fn despawn_passed_obstacles(world: &mut World, config: &ObstaclesConfig)
    requires
        old(world)@.wf(),
    ensures
        final(world)@.wf(),
        final(world)@ == (WorldView {
            obstacles: remaining(old(world)@.obstacles, *config),
            ..old(world)@
        }),
{
    let ghost before = world@;
    let despawn_line: i64 = -(config.sprite_width as i64) - (GAME_WIDTH / 2) as i64;
    let mut kept: Vec<ObstacleBody> = Vec::new();
    let mut i: usize = 0;
    while i < world.obstacles.len()
        invariant
            0 <= i <= before.obstacles.len(),
            world@ == before,
            before.wf(),
            despawn_line == config.despawn_line(),
            kept@ == remaining(before.obstacles.take(i as int), *config),
            forall|k: int| 0 <= k < kept@.len() ==> (#[trigger] kept@[k]).entity < before.next_entity,
            forall|k: int, l: int|
                0 <= k < l < kept@.len() ==> (#[trigger] kept@[k]).entity < (#[trigger] kept@[l]).entity,
            forall|k: int, j: int|
                0 <= k < kept@.len() && i <= j < before.obstacles.len() ==> (#[trigger] kept@[k]).entity
                    < (#[trigger] before.obstacles[j]).entity,
        decreases before.obstacles.len() - i,
    {
        let obstacle = world.obstacles[i];
        proof {
            let prefix = before.obstacles.take(i as int + 1);
            assert(prefix.drop_last() =~= before.obstacles.take(i as int));
            assert(prefix.last() == obstacle);
        }
        if !(obstacle.translation.x < despawn_line) {
            kept.push(obstacle);
        }
        i += 1;
    }
    proof {
        assert(before.obstacles.take(before.obstacles.len() as int) =~= before.obstacles);
    }
    world.obstacles = kept;
}

/// Removes every obstacle, whatever it is and wherever it stands, and sets
/// both distances back to zero.
pub fn reset_obstacles_state(world: &mut World, obstacles_data: &mut ObstaclesData)
    requires
        old(world)@.wf(),
    ensures
        final(world)@.wf(),
        final(world)@ == (WorldView { obstacles: Seq::empty(), ..old(world)@ }),
        *final(obstacles_data) == ObstaclesData::start(),
{
    world.obstacles = Vec::new();
    *obstacles_data = ObstaclesData::default();
}

/// A value mapped from one range to another stays within the other.
pub proof fn lemma_mapped_within(value: u32, in_min: u32, in_max: u32, out_min: i64, out_max: i64)
    requires
        in_min <= value <= in_max,
        in_min < in_max,
        out_min <= out_max,
    ensures
        out_min <= mapped(value, in_min, in_max, out_min, out_max) <= out_max,
{
    let along = value - in_min;
    let width = in_max - in_min;
    let span = out_max - out_min;
    assert(0 <= (along * span) / width <= span) by (nonlinear_arith)
        requires
            0 <= along <= width,
            0 < width,
            0 <= span,
    ;
}

/// Every height that the generator can draw for an opening lies within the
/// configured range.
pub proof fn lemma_drawn_opening_in_range(config: ObstaclesConfig, fraction: u32)
    requires
        config.valid(),
        fraction <= FRACTION_ONE,
    ensures
        config.opening_bottom_min() <= opening_bottom_for(config, fraction)
            <= config.opening_bottom_max(),
{
    lemma_mapped_within(
        fraction,
        0,
        FRACTION_ONE,
        config.opening_bottom_min() as i64,
        config.opening_bottom_max() as i64,
    );
}

/// Every opening that is spawned can be flown through: measured from the
/// bottom of the field, its lower edge lies at or above the bottom margin and
/// its upper edge at or below the field's height less the top margin. The
/// lower barrier ends where the opening begins, and the upper barrier begins
/// no lower than the opening ends.
pub proof fn lemma_opening_within_margins(
    world: WorldView,
    config: ObstaclesConfig,
    obstacle_pos_x: i64,
    opening_bottom_y: i64,
)
    requires
        config.valid(),
        config.opening_bottom_min() <= opening_bottom_y <= config.opening_bottom_max(),
    ensures
        ({
            let after = with_obstacles(world, config, obstacle_pos_x, opening_bottom_y);
            let count = world.obstacles.len() as int;
            let lower = after.obstacles[count];
            let upper = after.obstacles[count + 1];
            let gap = after.obstacles[count + 2];
            &&& after.obstacles.len() == count + 3
            &&& after.obstacles.take(count) == world.obstacles
            &&& lower.kind == Obstacle::GameOver
            &&& upper.kind == Obstacle::GameOver
            &&& gap.kind == Obstacle::Opening
            &&& gap.lower_edge() + GAME_HEIGHT / 2 >= config.opening_bottom_margin
            &&& gap.upper_edge() + GAME_HEIGHT / 2 <= GAME_HEIGHT - config.opening_top_margin
            &&& gap.lower_edge() == opening_bottom_y
            &&& lower.upper_edge() == gap.lower_edge()
            &&& upper.lower_edge() >= gap.upper_edge()
        }),
{
    let after = with_obstacles(world, config, obstacle_pos_x, opening_bottom_y);
    assert(after.obstacles.take(world.obstacles.len() as int) =~= world.obstacles);
}

/// The sum of a sequence of distances.
pub open spec fn total(distances: Seq<nat>) -> nat
    decreases distances.len(),
{
    if distances.len() == 0 {
        0
    } else {
        total(distances.drop_last()) + distances.last()
    }
}

/// The distances after the world scrolled on by each of `distances` in turn.
pub open spec fn advanced_by(data: ObstaclesData, distances: Seq<nat>) -> ObstaclesData
    decreases distances.len(),
{
    if distances.len() == 0 {
        data
    } else {
        advanced_by(data, distances.drop_last()).advanced(distances.last() as int)
    }
}

/// Between two obstacles that are spawned one after the other the world
/// scrolls by more than the threshold and the first obstacle's extra gap,
/// less what it had scrolled beyond the threshold when the first one was
/// spawned. So where that excess was no larger than the extra gap, the world
/// scrolls by more than the threshold between the two: the extra gap only
/// adds to the distance.
pub proof fn lemma_spawns_keep_their_distance(
    at_first: ObstaclesData,
    gap_offset_x: u32,
    distances: Seq<nat>,
    config: ObstaclesConfig,
)
    requires
        at_first.spawn_due(config),
        advanced_by(at_first.after_spawn(config, gap_offset_x), distances).spawn_due(config),
    ensures
        total(distances) > config.min_gap_threshold + gap_offset_x - (
        at_first.last_obstacle_distance - config.min_gap_threshold),
        at_first.last_obstacle_distance - config.min_gap_threshold <= gap_offset_x ==> total(
            distances,
        ) > config.min_gap_threshold,
{
    lemma_advanced_by_at_most(at_first.after_spawn(config, gap_offset_x), distances);
}

/// Scrolling on never adds more to the distance since the last obstacle than
/// the world has scrolled.
pub proof fn lemma_advanced_by_at_most(data: ObstaclesData, distances: Seq<nat>)
    ensures
        advanced_by(data, distances).last_obstacle_distance <= data.last_obstacle_distance + total(
            distances,
        ),
        advanced_by(data, distances).last_obstacle_distance >= data.last_obstacle_distance,
    decreases distances.len(),
{
    if distances.len() > 0 {
        lemma_advanced_by_at_most(data, distances.drop_last());
    }
}

/// What stays after a despawn was there before, and has not scrolled out of
/// the field.
pub proof fn lemma_remaining_members(obstacles: Seq<ObstacleBody>, config: ObstaclesConfig)
    ensures
        forall|k: int|
            0 <= k < remaining(obstacles, config).len() ==> obstacles.contains(
                #[trigger] remaining(obstacles, config)[k],
            ) && !config.passed(remaining(obstacles, config)[k]),
    decreases obstacles.len(),
{
    if obstacles.len() > 0 {
        let front = obstacles.drop_last();
        lemma_remaining_members(front, config);
        assert forall|k: int| 0 <= k < remaining(obstacles, config).len() implies obstacles.contains(
            #[trigger] remaining(obstacles, config)[k],
        ) && !config.passed(remaining(obstacles, config)[k]) by {
            if k < remaining(front, config).len() {
                let kept = remaining(front, config)[k];
                assert(front.contains(kept));
                let j = choose|j: int| 0 <= j < front.len() && front[j] == kept;
                assert(obstacles[j] == kept);
            } else {
                assert(obstacles[obstacles.len() - 1] == obstacles.last());
            }
        }
    }
}

/// Despawning twice removes no more than despawning once.
pub proof fn lemma_despawn_is_idempotent(obstacles: Seq<ObstacleBody>, config: ObstaclesConfig)
    ensures
        remaining(remaining(obstacles, config), config) == remaining(obstacles, config),
    decreases obstacles.len(),
{
    if obstacles.len() > 0 {
        let front = obstacles.drop_last();
        lemma_despawn_is_idempotent(front, config);
        if !config.passed(obstacles.last()) {
            let kept = remaining(front, config).push(obstacles.last());
            assert(kept.drop_last() =~= remaining(front, config));
            assert(kept.last() == obstacles.last());
        }
    }
}

/// An obstacle that has scrolled out of the field is gone after the despawn:
/// no live obstacle carries its identifier any more.
pub proof fn lemma_passed_obstacle_is_gone(world: WorldView, config: ObstaclesConfig, i: int)
    requires
        world.wf(),
        0 <= i < world.obstacles.len(),
        config.passed(world.obstacles[i]),
    ensures
        (WorldView { obstacles: remaining(world.obstacles, config), ..world }).is_despawned_obstacle(
            world.obstacles[i].entity,
        ),
{
    let after = WorldView { obstacles: remaining(world.obstacles, config), ..world };
    lemma_remaining_members(world.obstacles, config);
    if after.is_obstacle(world.obstacles[i].entity) {
        let k = choose|k: int|
            0 <= k < after.obstacles.len() && (#[trigger] after.obstacles[k]).entity
                == world.obstacles[i].entity;
        let kept = after.obstacles[k];
        assert(world.obstacles.contains(kept));
        let j = choose|j: int| 0 <= j < world.obstacles.len() && world.obstacles[j] == kept;
        assert(world.obstacles[j].entity == world.obstacles[i].entity);
        assert(j == i) by {
            if j < i {
                assert(world.obstacles[j].entity < world.obstacles[i].entity);
            } else if i < j {
                assert(world.obstacles[i].entity < world.obstacles[j].entity);
            }
        }
        assert(false);
    }
}

/// An obstacle that is gone stays gone: neither scrolling, nor a despawn, nor
/// a reset, nor a spawn brings its identifier back.
pub proof fn lemma_despawned_obstacle_stays_away(
    before: WorldView,
    after: WorldView,
    config: ObstaclesConfig,
    entity: Entity,
)
    requires
        before.wf(),
        before.spare_entities(3),
        before.is_despawned_obstacle(entity),
        ({
            ||| after == (WorldView { obstacles: remaining(before.obstacles, config), ..before })
            ||| after == (WorldView { obstacles: Seq::empty(), ..before })
            ||| exists|speed_factor: u32, delta_micros: u32|
                after == (WorldView {
                    obstacles: #[trigger] moved_obstacles(
                        before.obstacles,
                        speed_factor,
                        delta_micros,
                    ),
                    ..before
                })
            ||| exists|obstacle_pos_x: i64, opening_bottom_y: i64|
                after == #[trigger] with_obstacles(before, config, obstacle_pos_x, opening_bottom_y)
        }),
    ensures
        after.is_despawned_obstacle(entity),
{
    lemma_remaining_members(before.obstacles, config);
    if after.is_obstacle(entity) {
        let k = choose|k: int|
            0 <= k < after.obstacles.len() && (#[trigger] after.obstacles[k]).entity == entity;
        if after == (WorldView { obstacles: remaining(before.obstacles, config), ..before }) {
            let kept = after.obstacles[k];
            assert(before.obstacles.contains(kept));
            let j = choose|j: int| 0 <= j < before.obstacles.len() && before.obstacles[j] == kept;
            assert(before.obstacles[j].entity == entity);
        } else if after == (WorldView { obstacles: Seq::empty(), ..before }) {
        } else if exists|obstacle_pos_x: i64, opening_bottom_y: i64|
            after == #[trigger] with_obstacles(before, config, obstacle_pos_x, opening_bottom_y) {
            if k < before.obstacles.len() {
                assert(before.obstacles[k].entity == entity);
            }
        } else {
            assert(before.obstacles[k].entity == entity);
        }
        assert(false);
    }
}

} // verus!
