//! The assets that the game waits for before it starts.

use vstd::prelude::*;
use crate::app_states::Trigger;

verus! {

/// How far the loading of one asset has come.
#[derive(Clone, Copy, Debug, PartialEq, Eq, Structural)]
pub enum LoadState {
    Pending,
    Loaded,
    Failed,
}

/// The load state of every asset that the game needs.
#[derive(Clone, Copy, Debug, PartialEq, Eq)]
pub struct GameAssets {
    pub background_image: LoadState,
    pub obstacle_image: LoadState,
    pub ground_image: LoadState,
    pub characters_image: LoadState,
    pub font: LoadState,
}

impl GameAssets {
    /// Every asset has finished loading.
    pub open spec fn all_loaded(self) -> bool {
        &&& self.background_image == LoadState::Loaded
        &&& self.ground_image == LoadState::Loaded
        &&& self.obstacle_image == LoadState::Loaded
        &&& self.characters_image == LoadState::Loaded
        &&& self.font == LoadState::Loaded
    }
}

/// The assets as they stand when loading begins: all pending.
pub fn load_game_assets() -> (assets: GameAssets)
    ensures
        assets == (GameAssets {
            background_image: LoadState::Pending,
            obstacle_image: LoadState::Pending,
            ground_image: LoadState::Pending,
            characters_image: LoadState::Pending,
            font: LoadState::Pending,
        }),
{
    GameAssets {
        background_image: LoadState::Pending,
        obstacle_image: LoadState::Pending,
        ground_image: LoadState::Pending,
        characters_image: LoadState::Pending,
        font: LoadState::Pending,
    }
}

/// Asks for the game to be set up once every asset has finished loading. An
/// asset that is pending or has failed keeps the session waiting.
pub fn change_state_to_ingame_when_assets_loaded(game_assets: &GameAssets) -> (trigger: Option<Trigger>)
    ensures
        trigger == if game_assets.all_loaded() {
            Some(Trigger::AssetsLoaded)
        } else {
            None
        },
{
    if game_assets.background_image == LoadState::Loaded && game_assets.ground_image
        == LoadState::Loaded && game_assets.obstacle_image == LoadState::Loaded
        && game_assets.characters_image == LoadState::Loaded && game_assets.font
        == LoadState::Loaded {
        Some(Trigger::AssetsLoaded)
    } else {
        None
    }
}

} // verus!
