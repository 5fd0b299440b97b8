//! The phases of a session and the transitions between them.

use vstd::prelude::*;

verus! {

/// The phase that the session is in.
#[derive(Clone, Copy, Debug, Hash, PartialEq, Eq, Structural)]
pub enum AppState {
    Launching(LaunchingState),
    InGame(InGameState),
}

/// The phases before the game itself is set up.
#[derive(Clone, Copy, Debug, Hash, PartialEq, Eq, Structural)]
pub enum LaunchingState {
    /// The assets are on their way.
    Loading,
    /// The assets are there and nothing has been started.
    ReadyToLaunch,
}

/// The phases of the game itself.
#[derive(Clone, Copy, Debug, Hash, PartialEq, Eq, Structural)]
pub enum InGameState {
    /// The world is being built; lasts one tick.
    Initialization,
    /// Everything is in place and waits for the player.
    ReadyToStart,
    /// The game runs.
    Playing,
}

/// What makes the session leave a phase.
#[derive(Clone, Copy, Debug, Hash, PartialEq, Eq, Structural)]
pub enum Trigger {
    /// Every asset has finished loading.
    AssetsLoaded,
    /// Ground, player and camera have been spawned.
    WorldSpawned,
    /// The player pressed the jump key or the pointer button.
    StartInput,
    /// The player touched something that ends the attempt.
    LethalCollision,
}

/// The phase that follows `current` when `trigger` arrives. A trigger that
/// means nothing in the current phase leaves the phase as it is.
pub open spec fn next_state(current: AppState, trigger: Trigger) -> AppState {
    match (current, trigger) {
        (AppState::Launching(LaunchingState::Loading), Trigger::AssetsLoaded) => AppState::InGame(
            InGameState::Initialization,
        ),
        (AppState::InGame(InGameState::Initialization), Trigger::WorldSpawned) => AppState::InGame(
            InGameState::ReadyToStart,
        ),
        (AppState::InGame(InGameState::ReadyToStart), Trigger::StartInput) => AppState::InGame(
            InGameState::Playing,
        ),
        (AppState::InGame(InGameState::Playing), Trigger::LethalCollision) => AppState::InGame(
            InGameState::ReadyToStart,
        ),
        _ => current,
    }
}

/// How far along the session a phase lies.
pub open spec fn progress(state: AppState) -> nat {
    match state {
        AppState::Launching(LaunchingState::Loading) => 0,
        AppState::Launching(LaunchingState::ReadyToLaunch) => 1,
        AppState::InGame(InGameState::Initialization) => 2,
        AppState::InGame(InGameState::ReadyToStart) => 3,
        AppState::InGame(InGameState::Playing) => 4,
    }
}

impl AppState {
    /// Computes [`next_state`].
    pub fn next(self, trigger: Trigger) -> (next: AppState)
        ensures
            next == next_state(self, trigger),
    {
        match (self, trigger) {
            (AppState::Launching(LaunchingState::Loading), Trigger::AssetsLoaded) => AppState::InGame(
                InGameState::Initialization,
            ),
            (AppState::InGame(InGameState::Initialization), Trigger::WorldSpawned) => AppState::InGame(
                InGameState::ReadyToStart,
            ),
            (AppState::InGame(InGameState::ReadyToStart), Trigger::StartInput) => AppState::InGame(
                InGameState::Playing,
            ),
            (AppState::InGame(InGameState::Playing), Trigger::LethalCollision) => AppState::InGame(
                InGameState::ReadyToStart,
            ),
            _ => self,
        }
    }
}

/// Asks for the game to begin when the jump key or the pointer button was
/// just pressed.
pub fn change_state_to_playing_on_input(
    jump_key_just_pressed: bool,
    pointer_just_pressed: bool,
) -> (trigger: Option<Trigger>)
    ensures
        trigger == if jump_key_just_pressed || pointer_just_pressed {
            Some(Trigger::StartInput)
        } else {
            None
        },
{
    if jump_key_just_pressed || pointer_just_pressed {
        Some(Trigger::StartInput)
    } else {
        None
    }
}

/// The session only moves forward, but for the one step back from play to
/// the wait for the player.
pub proof fn lemma_transitions_move_forward(current: AppState, trigger: Trigger)
    ensures
        next_state(current, trigger) == current || progress(next_state(current, trigger)) > progress(
            current,
        ) || (current == AppState::InGame(InGameState::Playing) && next_state(current, trigger)
            == AppState::InGame(InGameState::ReadyToStart)),
{
}

} // verus!
