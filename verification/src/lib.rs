//! The core of a side-scrolling arcade game: the player flies through the
//! openings of obstacles that scroll towards it ever faster.
//!
//! The library holds the rules of the game and nothing of an engine: a host
//! feeds it elapsed time, input and contact notifications, one
//! [`FrameInput`] per tick, and draws what the [`world::World`] holds.

use vstd::prelude::*;
use bevy_turborand::GlobalRng;
use crate::app_states::{
    change_state_to_playing_on_input, next_state, AppState, InGameState, LaunchingState, Trigger,
};
use crate::assets::{change_state_to_ingame_when_assets_loaded, GameAssets};
use crate::camera::{spawn_camera, with_camera};
use crate::consts::{BASE_GAME_SPEED, GAME_HEIGHT, GAME_WIDTH, MICROS_BETWEEN_ACCELERATION_TICK, UNIT};
use crate::events::{
    count_of, dispatch_collision_events, dispatched, handle_game_event_player_hit_game_over_collider,
    lemma_count_of_at_most_len, lemma_dispatched_at_most_len, CollisionEvent, GameEvent,
};
use crate::game::{
    accelerated_by, ground_buffer_swap, lemma_accelerated_by_grows, move_game_elements_horizontal, moved_grounds, moved_obstacles,
    scrolled_distance, swapped_grounds, update_game_speed, GameSpeed, UpdateGameSpeedData,
};
use crate::obstacles::{
    despawn_passed_obstacles, gap_for, lemma_mapped_within, opening_bottom_for, remaining,
    reset_obstacles_state, spawn_obstacles, spawned, update_obstacles_data, ObstaclesConfig,
    ObstaclesData, FRACTION_ONE,
};
use crate::player::{
    enable_player_gravity, handle_game_event_player_passed_opening, player_jump,
    reset_player_score, reset_player_state, spawn_player, with_gravity, with_jump, with_player,
    with_player_at_rest, PlayerScore,
};
use crate::ui::{
    despawn_game_ready_label, despawn_game_score, ready_label_args, score_args, showing_scores,
    spawn_game_ready_label, spawn_game_score, update_player_score_label, with_ui_text,
    without_element, UiElement,
};
use crate::units::Vec2;
use crate::world::{spawn_world_ground, with_ground, World, WorldView};

pub mod app_states;
pub mod assets;
pub mod camera;
pub mod consts;
pub mod events;
pub mod game;
pub mod obstacles;
pub mod physics;
pub mod player;
pub mod ui;
pub mod units;
pub mod world;

verus! {

/// The most entities that one tick can spawn.
pub const ENTITIES_PER_TICK: u64 = 6;

/// What a launcher chooses about the window.
pub struct BuildGameAppData {
    /// Selector of the canvas that the game is drawn on, in a browser.
    pub canvas: Option<String>,
    pub window_title: Option<String>,
}

/// The window that the host opens for the game.
pub struct WindowDescriptor {
    pub title: String,
    pub width: u32,
    pub height: u32,
    pub canvas: Option<String>,
}

/// What the host hands to the game for one tick.
pub struct FrameInput {
    /// Time since the last tick, in microseconds.
    pub delta_micros: u32,
    pub jump_key_just_pressed: bool,
    pub pointer_just_pressed: bool,
    /// How far the loading of the assets has come.
    pub game_assets: GameAssets,
    /// The notifications of the physics engine since the last tick.
    pub collisions: Vec<CollisionEvent>,
}

/// The whole state of a session.
pub struct GameApp {
    pub window: WindowDescriptor,
    pub state: AppState,
    pub world: World,
    pub game_speed: GameSpeed,
    pub update_game_speed_data: UpdateGameSpeedData,
    pub obstacles_data: ObstaclesData,
    pub obstacles_config: ObstaclesConfig,
    pub player_score: PlayerScore,
    pub rng: GlobalRng,
}

/// Mathematical model of a [`GameApp`]: everything that the rules read and
/// write. The generator of random numbers has no part in it.
#[verifier::ext_equal]
pub struct GameAppView {
    pub state: AppState,
    pub world: WorldView,
    pub game_speed: GameSpeed,
    /// Time since the last acceleration tick, in nanoseconds.
    pub acceleration_elapsed: nat,
    /// Time between two acceleration ticks, in nanoseconds.
    pub acceleration_period: nat,
    pub obstacles_data: ObstaclesData,
    pub obstacles_config: ObstaclesConfig,
    pub player_score: PlayerScore,
}

impl View for GameApp {
    type V = GameAppView;

    open spec fn view(&self) -> GameAppView {
        GameAppView {
            state: self.state,
            world: self.world@,
            game_speed: self.game_speed,
            acceleration_elapsed: self.update_game_speed_data.elapsed(),
            acceleration_period: self.update_game_speed_data.period(),
            obstacles_data: self.obstacles_data,
            obstacles_config: self.obstacles_config,
            player_score: self.player_score,
        }
    }
}

impl GameAppView {
    /// The session as it begins: loading, with an empty world.
    pub open spec fn launched() -> GameAppView {
        GameAppView {
            state: AppState::Launching(LaunchingState::Loading),
            world: WorldView::empty(),
            game_speed: GameSpeed { factor: BASE_GAME_SPEED },
            acceleration_elapsed: 0,
            acceleration_period: (MICROS_BETWEEN_ACCELERATION_TICK * 1000) as nat,
            obstacles_data: ObstaclesData::start(),
            obstacles_config: ObstaclesConfig::standard(),
            player_score: PlayerScore { value: 0 },
        }
    }

    /// The session after it left the phase `state`: the label of that phase
    /// is gone.
    pub open spec fn exited(self, state: AppState) -> GameAppView {
        match state {
            AppState::InGame(InGameState::ReadyToStart) => GameAppView {
                world: WorldView {
                    ui_elements: without_element(
                        self.world.ui_elements,
                        UiElement::GameReadyLabel,
                    ),
                    ..self.world
                },
                ..self
            },
            AppState::InGame(InGameState::Playing) => GameAppView {
                world: WorldView {
                    ui_elements: without_element(self.world.ui_elements, UiElement::GameScore),
                    ..self.world
                },
                ..self
            },
            _ => self,
        }
    }

    /// The session after it entered the phase `state`.
    ///
    /// Entering the initialization builds the world: ground, player, camera.
    /// Entering the wait for the player puts the player to rest, sets the
    /// score, the distances and the speed back, removes every live obstacle
    /// and shows the prompt. Entering play switches gravity on and shows the
    /// score.
    pub open spec fn entered(self, state: AppState) -> GameAppView {
        match state {
            AppState::InGame(InGameState::Initialization) => GameAppView {
                state,
                world: with_camera(with_player(with_ground(self.world))),
                ..self
            },
            AppState::InGame(InGameState::ReadyToStart) => GameAppView {
                state,
                world: with_ui_text(
                    WorldView { obstacles: Seq::empty(), ..with_player_at_rest(self.world) },
                    ready_label_args(),
                ),
                game_speed: GameSpeed { factor: BASE_GAME_SPEED },
                obstacles_data: ObstaclesData::start(),
                player_score: PlayerScore { value: 0 },
                ..self
            },
            AppState::InGame(InGameState::Playing) => GameAppView {
                state,
                world: with_ui_text(with_gravity(self.world), score_args(self.player_score.value)),
                ..self
            },
            _ => GameAppView { state, ..self },
        }
    }

    /// The session after `trigger` arrived: if the trigger leads to another
    /// phase, the session leaves the one it is in and enters the other.
    pub open spec fn transitioned(self, trigger: Option<Trigger>) -> GameAppView {
        match trigger {
            Some(trigger) if next_state(self.state, trigger) != self.state => self.exited(
                self.state,
            ).entered(next_state(self.state, trigger)),
            _ => self,
        }
    }

    /// One tick of play, and the trigger that it raises.
    ///
    /// The world scrolls by what the speed factor and the elapsed time give
    /// and the distances grow by the same; the acceleration timer runs on and
    /// the speed factor grows once for each period that it completes;
    /// the player jumps on input; an obstacle that is due appears, with the
    /// gap and the opening given; obstacles that are out of sight go. The
    /// contacts of the tick become events: each passed opening adds one to the
    /// score, and a lethal one raises the trigger that ends the attempt.
    pub open spec fn played(self, input: FrameInput, gap_offset_x: u32, opening_bottom_y: i64) -> (
        GameAppView,
        Option<Trigger>,
    ) {
        let factor = self.game_speed.factor;
        let delta = input.delta_micros;
        let scrolled = WorldView {
            grounds: swapped_grounds(moved_grounds(self.world.grounds, factor, delta)),
            obstacles: moved_obstacles(self.world.obstacles, factor, delta),
            ..self.world
        };
        let advanced = self.obstacles_data.advanced(scrolled_distance(UNIT, factor, delta));
        let time = self.acceleration_elapsed + delta * 1000;
        let jumped = with_jump(scrolled, input.jump_key_just_pressed || input.pointer_just_pressed);
        let (grown, data) = spawned(
            jumped,
            advanced,
            self.obstacles_config,
            gap_offset_x,
            opening_bottom_y,
        );
        let cleared = WorldView {
            obstacles: remaining(grown.obstacles, self.obstacles_config),
            ..grown
        };
        let events = dispatched(cleared, input.collisions@);
        let score = (self.player_score.value + count_of(events, GameEvent::PlayerPassedAnOpening)) as u64;
        (
            GameAppView {
                world: WorldView {
                    ui_elements: showing_scores(cleared.ui_elements, score),
                    ..cleared
                },
                game_speed: GameSpeed {
                    factor: accelerated_by(
                        factor,
                        (time / (self.acceleration_period as int)) as nat,
                    ),
                },
                acceleration_elapsed: (time % (self.acceleration_period as int)) as nat,
                obstacles_data: data,
                player_score: PlayerScore { value: score },
                ..self
            },
            if count_of(events, GameEvent::PlayerHitGameOverCollider) > 0 {
                Some(Trigger::LethalCollision)
            } else {
                None
            },
        )
    }

    /// What the phase that the session is in does in one tick, and the
    /// trigger that it raises.
    pub open spec fn stepped(self, input: FrameInput, gap_offset_x: u32, opening_bottom_y: i64) -> (
        GameAppView,
        Option<Trigger>,
    ) {
        match self.state {
            AppState::Launching(LaunchingState::Loading) => (
                self,
                if input.game_assets.all_loaded() {
                    Some(Trigger::AssetsLoaded)
                } else {
                    None
                },
            ),
            AppState::Launching(LaunchingState::ReadyToLaunch) => (self, None),
            AppState::InGame(InGameState::Initialization) => (self, Some(Trigger::WorldSpawned)),
            AppState::InGame(InGameState::ReadyToStart) => (
                self,
                if input.jump_key_just_pressed || input.pointer_just_pressed {
                    Some(Trigger::StartInput)
                } else {
                    None
                },
            ),
            AppState::InGame(InGameState::Playing) => self.played(
                input,
                gap_offset_x,
                opening_bottom_y,
            ),
        }
    }

    /// The session after one tick: the phase does its work, and the trigger
    /// that it raises takes the session on.
    pub open spec fn updated(self, input: FrameInput, gap_offset_x: u32, opening_bottom_y: i64) -> GameAppView {
        self.stepped(input, gap_offset_x, opening_bottom_y).0.transitioned(
            self.stepped(input, gap_offset_x, opening_bottom_y).1,
        )
    }
}

impl GameApp {
    /// The world and the acceleration timer are well formed and the obstacle
    /// measures are valid.
    pub open spec fn wf(&self) -> bool {
        &&& self.world@.wf()
        &&& self.update_game_speed_data.wf()
        &&& self.obstacles_config.valid()
    }

    /// The counters have room for one more tick with this input: for the
    /// entities that it may spawn and for the points that it may score.
    pub open spec fn has_room_for(&self, input: &FrameInput) -> bool {
        &&& self.world@.spare_entities(ENTITIES_PER_TICK as nat)
        &&& self.player_score.value + input.collisions@.len() <= u64::MAX
    }
}

/// The number of entities that entering the phase `state` spawns at most.
pub open spec fn entities_to_enter(state: AppState) -> nat {
    match state {
        AppState::InGame(InGameState::Initialization) => 6,
        AppState::InGame(InGameState::ReadyToStart) => 1,
        AppState::InGame(InGameState::Playing) => 1,
        _ => 0,
    }
}

/// Asks for the wait for the player to begin: the world is built within the
/// tick in which the initialization is entered.
pub fn change_state_to_ready_to_start() -> (trigger: Option<Trigger>)
    ensures
        trigger == Some(Trigger::WorldSpawned),
{
    Some(Trigger::WorldSpawned)
}

/// Sets up a session: loading, at the base speed, with an empty world, the
/// standard obstacle measures and a generator of random numbers with a seed
/// of its own. The window gets the launcher's title, or the game's name if
/// the launcher gives none.
pub fn build_game_app(data: BuildGameAppData) -> (app: GameApp)
    ensures
        app.wf(),
        app@ == GameAppView::launched(),
        app.window.title@ == (match data.window_title {
            Some(title) => title@,
            None => "Flappy Bevy"@,
        }),
        app.window.canvas == data.canvas,
        app.window.width == GAME_WIDTH,
        app.window.height == GAME_HEIGHT,
{
    let title = match data.window_title {
        Some(title) => title,
        None => "Flappy Bevy".to_owned(),
    };
    GameApp {
        window: WindowDescriptor {
            title,
            width: GAME_WIDTH,
            height: GAME_HEIGHT,
            canvas: data.canvas,
        },
        state: AppState::Launching(LaunchingState::Loading),
        world: World::new(),
        game_speed: GameSpeed { factor: BASE_GAME_SPEED },
        update_game_speed_data: UpdateGameSpeedData::default(),
        obstacles_data: ObstaclesData::default(),
        obstacles_config: ObstaclesConfig::default(),
        player_score: PlayerScore::default(),
        rng: GlobalRng::new(),
    }
}

/// A generator with a seed drawn from the machine: `GlobalRng::new` of
/// `bevy_turborand`. Nothing is known of what it will give.
pub assume_specification[ GlobalRng::new ]() -> (rng: GlobalRng);

impl GameApp {
    /// Does what leaving the phase `state` asks for.
    pub fn exit_state(&mut self, state: AppState)
        requires
            old(self).wf(),
        ensures
            final(self).wf(),
            final(self)@ == old(self)@.exited(state),
            final(self).window == old(self).window,
    {
        match state {
            AppState::InGame(InGameState::ReadyToStart) => {
                despawn_game_ready_label(&mut self.world);
            },
            AppState::InGame(InGameState::Playing) => {
                despawn_game_score(&mut self.world);
            },
            _ => {},
        }
    }

    /// Makes `state` the phase of the session and does what entering it asks
    /// for.
    pub fn enter_state(&mut self, state: AppState)
        requires
            old(self).wf(),
            old(self).world@.spare_entities(entities_to_enter(state)),
        ensures
            final(self).wf(),
            final(self)@ == old(self)@.entered(state),
            final(self).window == old(self).window,
    {
        self.state = state;
        match state {
            AppState::InGame(InGameState::Initialization) => {
                spawn_world_ground(&mut self.world);
                spawn_player(&mut self.world);
                spawn_camera(&mut self.world);
            },
            AppState::InGame(InGameState::ReadyToStart) => {
                reset_player_state(&mut self.world);
                reset_player_score(&mut self.player_score);
                reset_obstacles_state(&mut self.world, &mut self.obstacles_data);
                self.game_speed.factor = BASE_GAME_SPEED;
                spawn_game_ready_label(&mut self.world);
            },
            AppState::InGame(InGameState::Playing) => {
                enable_player_gravity(&mut self.world);
                spawn_game_score(&mut self.world, &self.player_score);
            },
            _ => {},
        }
    }

    /// Takes the session to the phase that `trigger` leads to, if it leads
    /// to another one.
    pub fn apply_trigger(&mut self, trigger: Option<Trigger>)
        requires
            old(self).wf(),
            trigger matches Some(trigger) ==> old(self).world@.spare_entities(
                entities_to_enter(next_state(old(self).state, trigger)),
            ),
        ensures
            final(self).wf(),
            final(self)@ == old(self)@.transitioned(trigger),
            final(self).window == old(self).window,
    {
        if let Some(trigger) = trigger {
            let current = self.state;
            let next = current.next(trigger);
            if next != current {
                self.exit_state(current);
                self.enter_state(next);
            }
        }
    }

    /// Runs one tick of play and returns the trigger that it raises.
    /// Whatever the generator of random numbers gives, the outcome is that of
    /// [`GameAppView::played`] for a gap and an opening of the configured
    /// ranges.
    pub fn run_playing(&mut self, input: &FrameInput) -> (trigger: Option<Trigger>)
        requires
            old(self).wf(),
            old(self).world@.spare_entities(3),
            old(self).player_score.value + input.collisions@.len() <= u64::MAX,
        ensures
            final(self).wf(),
            final(self).window == old(self).window,
            final(self).world@.next_entity <= old(self).world@.next_entity + 3,
            exists|gap_offset_x: u32, opening_bottom_y: i64|
                {
                    &&& old(self).obstacles_config.min_gap_extra <= gap_offset_x
                        <= old(self).obstacles_config.max_gap_extra
                    &&& old(self).obstacles_config.opening_bottom_min() <= opening_bottom_y
                        <= old(self).obstacles_config.opening_bottom_max()
                    &&& (final(self)@, trigger) == #[trigger] old(self)@.played(
                        *input,
                        gap_offset_x,
                        opening_bottom_y,
                    )
                },
    {
        let delta_micros = input.delta_micros;
        move_game_elements_horizontal(&mut self.world, &self.game_speed, delta_micros);
        ground_buffer_swap(&mut self.world);
        update_obstacles_data(&mut self.obstacles_data, &self.game_speed, delta_micros);
        update_game_speed(&mut self.update_game_speed_data, &mut self.game_speed, delta_micros);
        player_jump(&mut self.world, input.jump_key_just_pressed, input.pointer_just_pressed);
        let ghost jumped = self.world@;
        let ghost advanced = self.obstacles_data;
        spawn_obstacles(
            &mut self.world,
            &mut self.rng,
            &mut self.obstacles_data,
            &self.obstacles_config,
        );
        let ghost config = self.obstacles_config;
        let ghost fractions = choose|gap_fraction: u32, opening_fraction: u32|
            gap_fraction <= FRACTION_ONE && opening_fraction <= FRACTION_ONE && (
                self.world@,
                self.obstacles_data,
            ) == spawned(
                jumped,
                advanced,
                config,
                #[trigger] gap_for(config, gap_fraction) as u32,
                #[trigger] opening_bottom_for(config, opening_fraction) as i64,
            );
        let ghost gap_offset_x = gap_for(config, fractions.0) as u32;
        let ghost opening_bottom_y = opening_bottom_for(config, fractions.1) as i64;
        despawn_passed_obstacles(&mut self.world, &self.obstacles_config);
        let events = dispatch_collision_events(&input.collisions, &self.world);
        proof {
            lemma_count_of_at_most_len(events@, GameEvent::PlayerPassedAnOpening);
        }
        handle_game_event_player_passed_opening(&events, &mut self.player_score);
        update_player_score_label(&mut self.world, &self.player_score);
        let trigger = handle_game_event_player_hit_game_over_collider(&events);
        proof {
            lemma_mapped_within(
                fractions.0,
                0,
                FRACTION_ONE,
                config.min_gap_extra as i64,
                config.max_gap_extra as i64,
            );
            lemma_mapped_within(
                fractions.1,
                0,
                FRACTION_ONE,
                config.opening_bottom_min() as i64,
                config.opening_bottom_max() as i64,
            );
            assert((self@, trigger) == old(self)@.played(*input, gap_offset_x, opening_bottom_y));
        }
        trigger
    }

    /// Does the work of the phase that the session is in and returns the
    /// trigger that it raises.
    pub fn run_state(&mut self, input: &FrameInput) -> (trigger: Option<Trigger>)
        requires
            old(self).wf(),
            old(self).has_room_for(input),
        ensures
            final(self).wf(),
            final(self).window == old(self).window,
            final(self).world@.next_entity <= old(self).world@.next_entity + 3,
            old(self).state != AppState::InGame(InGameState::Playing)
                ==> final(self).world@.next_entity == old(self).world@.next_entity,
            exists|gap_offset_x: u32, opening_bottom_y: i64|
                {
                    &&& old(self).obstacles_config.min_gap_extra <= gap_offset_x
                        <= old(self).obstacles_config.max_gap_extra
                    &&& old(self).obstacles_config.opening_bottom_min() <= opening_bottom_y
                        <= old(self).obstacles_config.opening_bottom_max()
                    &&& (final(self)@, trigger) == #[trigger] old(self)@.stepped(
                        *input,
                        gap_offset_x,
                        opening_bottom_y,
                    )
                },
    {
        let ghost config = self.obstacles_config;
        let ghost gap = config.min_gap_extra;
        let ghost bottom = config.opening_bottom_min() as i64;
        match self.state {
            AppState::Launching(LaunchingState::Loading) => {
                let trigger = change_state_to_ingame_when_assets_loaded(&input.game_assets);
                assert((self@, trigger) == old(self)@.stepped(*input, gap, bottom));
                trigger
            },
            AppState::Launching(LaunchingState::ReadyToLaunch) => {
                assert((self@, None::<Trigger>) == old(self)@.stepped(*input, gap, bottom));
                None
            },
            AppState::InGame(InGameState::Initialization) => {
                let trigger = change_state_to_ready_to_start();
                assert((self@, trigger) == old(self)@.stepped(*input, gap, bottom));
                trigger
            },
            AppState::InGame(InGameState::ReadyToStart) => {
                let trigger = change_state_to_playing_on_input(
                    input.jump_key_just_pressed,
                    input.pointer_just_pressed,
                );
                assert((self@, trigger) == old(self)@.stepped(*input, gap, bottom));
                trigger
            },
            AppState::InGame(InGameState::Playing) => {
                let trigger = self.run_playing(input);
                proof {
                    let pair = choose|gap_offset_x: u32, opening_bottom_y: i64|
                        {
                            &&& config.min_gap_extra <= gap_offset_x <= config.max_gap_extra
                            &&& config.opening_bottom_min() <= opening_bottom_y
                                <= config.opening_bottom_max()
                            &&& (self@, trigger) == #[trigger] old(self)@.played(
                                *input,
                                gap_offset_x,
                                opening_bottom_y,
                            )
                        };
                    assert((self@, trigger) == old(self)@.stepped(*input, pair.0, pair.1));
                }
                trigger
            },
        }
    }

    /// Advances the session by one tick: the phase that the session is in
    /// does its work, and the trigger that it raises takes the session on.
    /// Whatever the generator of random numbers gives, the outcome is that of
    /// [`GameAppView::updated`] for a gap and an opening of the configured
    /// ranges.
    pub fn update(&mut self, input: &FrameInput)
        requires
            old(self).wf(),
            old(self).has_room_for(input),
        ensures
            final(self).wf(),
            final(self).window == old(self).window,
            exists|gap_offset_x: u32, opening_bottom_y: i64|
                {
                    &&& old(self).obstacles_config.min_gap_extra <= gap_offset_x
                        <= old(self).obstacles_config.max_gap_extra
                    &&& old(self).obstacles_config.opening_bottom_min() <= opening_bottom_y
                        <= old(self).obstacles_config.opening_bottom_max()
                    &&& final(self)@ == #[trigger] old(self)@.updated(
                        *input,
                        gap_offset_x,
                        opening_bottom_y,
                    )
                },
    {
        let ghost config = self.obstacles_config;
        let trigger = self.run_state(input);
        let ghost stepped = self@;
        self.apply_trigger(trigger);
        proof {
            let pair = choose|gap_offset_x: u32, opening_bottom_y: i64|
                {
                    &&& config.min_gap_extra <= gap_offset_x <= config.max_gap_extra
                    &&& config.opening_bottom_min() <= opening_bottom_y
                        <= config.opening_bottom_max()
                    &&& (stepped, trigger) == #[trigger] old(self)@.stepped(
                        *input,
                        gap_offset_x,
                        opening_bottom_y,
                    )
                };
            assert(self@ == old(self)@.updated(*input, pair.0, pair.1));
        }
    }
}

/// Whenever the session enters the wait for the player, the score is zero,
/// the speed factor is the base speed, both distances are zero and no live
/// obstacle is left.
pub proof fn lemma_ready_to_start_entry_resets(app: GameAppView, trigger: Trigger)
    requires
        app.state != AppState::InGame(InGameState::ReadyToStart),
        next_state(app.state, trigger) == AppState::InGame(InGameState::ReadyToStart),
    ensures
        ({
            let after = app.transitioned(Some(trigger));
            &&& after.state == AppState::InGame(InGameState::ReadyToStart)
            &&& after.player_score.value == 0
            &&& after.game_speed.factor == BASE_GAME_SPEED
            &&& after.obstacles_data.last_obstacle_distance == 0
            &&& after.obstacles_data.traveled_distance == 0
            &&& after.world.obstacles.len() == 0
            &&& after.world.player matches Some(player) ==> player.gravity_scale == 0
                && player.translation == Vec2::zero() && player.linvel == Vec2::zero()
        }),
{
}

/// Whenever the session enters play, gravity pulls on the player at full
/// strength from that tick on.
pub proof fn lemma_playing_entry_enables_gravity(app: GameAppView, trigger: Trigger)
    requires
        app.state != AppState::InGame(InGameState::Playing),
        next_state(app.state, trigger) == AppState::InGame(InGameState::Playing),
        app.world.player is Some,
    ensures
        ({
            let after = app.transitioned(Some(trigger));
            &&& after.state == AppState::InGame(InGameState::Playing)
            &&& after.world.player matches Some(player) && player.gravity_scale == UNIT
        }),
{
}

/// A tick of play never lowers the score nor the speed factor, whatever
/// happens in it, as long as the score has room to grow.
pub proof fn lemma_play_never_lowers_score_or_speed(
    app: GameAppView,
    input: FrameInput,
    gap_offset_x: u32,
    opening_bottom_y: i64,
)
    requires
        app.player_score.value + input.collisions@.len() <= u64::MAX,
    ensures
        app.played(input, gap_offset_x, opening_bottom_y).0.player_score.value
            >= app.player_score.value,
        app.played(input, gap_offset_x, opening_bottom_y).0.player_score.value
            <= app.player_score.value + input.collisions@.len(),
        app.played(input, gap_offset_x, opening_bottom_y).0.game_speed.factor
            >= app.game_speed.factor,
{
    let factor = app.game_speed.factor;
    let delta = input.delta_micros;
    let scrolled = WorldView {
        grounds: swapped_grounds(moved_grounds(app.world.grounds, factor, delta)),
        obstacles: moved_obstacles(app.world.obstacles, factor, delta),
        ..app.world
    };
    let advanced = app.obstacles_data.advanced(scrolled_distance(UNIT, factor, delta));
    let jumped = with_jump(scrolled, input.jump_key_just_pressed || input.pointer_just_pressed);
    let (grown, data) = spawned(jumped, advanced, app.obstacles_config, gap_offset_x, opening_bottom_y);
    let cleared = WorldView { obstacles: remaining(grown.obstacles, app.obstacles_config), ..grown };
    let events = dispatched(cleared, input.collisions@);
    lemma_dispatched_at_most_len(cleared, input.collisions@);
    lemma_count_of_at_most_len(events, GameEvent::PlayerPassedAnOpening);
    lemma_accelerated_by_grows(
        factor,
        ((app.acceleration_elapsed + delta * 1000) / (app.acceleration_period as int)) as nat,
    );
}

} // verus!
