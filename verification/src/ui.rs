//! Labels shown over the playing field.

use vstd::prelude::*;
use crate::consts::GAME_HEIGHT;
use crate::player::PlayerScore;
use crate::units::Vec2;
use crate::world::{Entity, World, WorldView};

verus! {

/// Distance between the top of the field and the score.
pub const SCORE_TOP_OFFSET: u32 = 11_000;

/// Height at which the prompt is shown.
pub const READY_LABEL_HEIGHT: i64 = 40_000;

/// The labels that the game shows.
#[derive(Clone, Copy, Debug, PartialEq, Eq, Structural)]
pub enum UiElement {
    GameReadyLabel,
    GameScore,
}

/// What a label says.
#[derive(Clone, Copy, Debug, PartialEq, Eq)]
pub enum UiLabel {
    /// The prompt shown while the game waits for the player.
    ReadyToPlay,
    /// A score, shown as a decimal number.
    Score(u64),
}

/// A label in the world.
#[derive(Clone, Copy, Debug, PartialEq, Eq)]
pub struct UiText {
    pub entity: Entity,
    pub ui_element: UiElement,
    pub text: UiLabel,
    pub position: Vec2,
}

/// What is needed to spawn a label.
#[derive(Clone, Copy, Debug, PartialEq, Eq)]
pub struct SpawnUiTextArgs {
    pub ui_element: UiElement,
    pub text: UiLabel,
    pub position: Vec2,
}

/// The prompt, as it is spawned.
pub open spec fn ready_label_args() -> SpawnUiTextArgs {
    SpawnUiTextArgs {
        ui_element: UiElement::GameReadyLabel,
        text: UiLabel::ReadyToPlay,
        position: Vec2 { x: 0, y: READY_LABEL_HEIGHT },
    }
}

/// The label of the score `value`, as it is spawned.
pub open spec fn score_args(value: u64) -> SpawnUiTextArgs {
    SpawnUiTextArgs {
        ui_element: UiElement::GameScore,
        text: UiLabel::Score(value),
        position: Vec2 { x: 0, y: (GAME_HEIGHT / 2 - SCORE_TOP_OFFSET) as i64 },
    }
}

/// `world` with one more label.
pub open spec fn with_ui_text(world: WorldView, args: SpawnUiTextArgs) -> WorldView {
    WorldView {
        next_entity: (world.next_entity + 1) as Entity,
        ui_elements: world.ui_elements.push(
            UiText {
                entity: world.next_entity,
                ui_element: args.ui_element,
                text: args.text,
                position: args.position,
            },
        ),
        ..world
    }
}

/// The labels of `elements` that are not a `ui_element`, in their order.
pub open spec fn without_element(elements: Seq<UiText>, ui_element: UiElement) -> Seq<UiText>
    decreases elements.len(),
{
    if elements.len() == 0 {
        Seq::empty()
    } else if elements.last().ui_element == ui_element {
        without_element(elements.drop_last(), ui_element)
    } else {
        without_element(elements.drop_last(), ui_element).push(elements.last())
    }
}

/// `element` saying `value` if it is a score, and as it is otherwise.
pub open spec fn showing_score(element: UiText, value: u64) -> UiText {
    match element.ui_element {
        UiElement::GameScore => UiText { text: UiLabel::Score(value), ..element },
        _ => element,
    }
}

/// The labels `elements` with every score saying `value`.
pub open spec fn showing_scores(elements: Seq<UiText>, value: u64) -> Seq<UiText> {
    Seq::new(elements.len(), |i: int| showing_score(elements[i], value))
}

/// Spawns a label.
pub fn spawn_ui_text(world: &mut World, args: SpawnUiTextArgs)
    requires
        old(world)@.wf(),
        old(world)@.spare_entities(1),
    ensures
        final(world)@.wf(),
        final(world)@ == with_ui_text(old(world)@, args),
{
    let entity = world.allocate();
    world.ui_elements.push(
        UiText { entity, ui_element: args.ui_element, text: args.text, position: args.position },
    );
}

/// Shows the prompt that asks the player to start.
pub fn spawn_game_ready_label(world: &mut World)
    requires
        old(world)@.wf(),
        old(world)@.spare_entities(1),
    ensures
        final(world)@.wf(),
        final(world)@ == with_ui_text(old(world)@, ready_label_args()),
{
    spawn_ui_text(
        world,
        SpawnUiTextArgs {
            ui_element: UiElement::GameReadyLabel,
            text: UiLabel::ReadyToPlay,
            position: Vec2::new(0, READY_LABEL_HEIGHT),
        },
    );
}

/// Shows the score at the top of the field.
pub fn spawn_game_score(world: &mut World, player_score: &PlayerScore)
    requires
        old(world)@.wf(),
        old(world)@.spare_entities(1),
    ensures
        final(world)@.wf(),
        final(world)@ == with_ui_text(old(world)@, score_args(player_score.value)),
{
    spawn_ui_text(
        world,
        SpawnUiTextArgs {
            ui_element: UiElement::GameScore,
            text: UiLabel::Score(player_score.value),
            position: Vec2::new(0, (GAME_HEIGHT / 2 - SCORE_TOP_OFFSET) as i64),
        },
    );
}

/// Removes every label that is a `ui_element`.
pub fn despawn_ui_element_entities(world: &mut World, ui_element: UiElement)
    requires
        old(world)@.wf(),
    ensures
        final(world)@.wf(),
        final(world)@ == (WorldView {
            ui_elements: without_element(old(world)@.ui_elements, ui_element),
            ..old(world)@
        }),
{
    let ghost before = world@;
    let mut kept: Vec<UiText> = Vec::new();
    let mut i: usize = 0;
    while i < world.ui_elements.len()
        invariant
            0 <= i <= before.ui_elements.len(),
            world@ == before,
            before.wf(),
            kept@ == without_element(before.ui_elements.take(i as int), ui_element),
            forall|k: int| 0 <= k < kept@.len() ==> (#[trigger] kept@[k]).entity < before.next_entity,
        decreases before.ui_elements.len() - i,
    {
        let element = world.ui_elements[i];
        proof {
            let prefix = before.ui_elements.take(i as int + 1);
            assert(prefix.drop_last() =~= before.ui_elements.take(i as int));
            assert(prefix.last() == element);
        }
        if !(element.ui_element == ui_element) {
            kept.push(element);
        }
        i += 1;
    }
    proof {
        assert(before.ui_elements.take(before.ui_elements.len() as int) =~= before.ui_elements);
    }
    world.ui_elements = kept;
}

/// Hides the prompt.
pub fn despawn_game_ready_label(world: &mut World)
    requires
        old(world)@.wf(),
    ensures
        final(world)@.wf(),
        final(world)@ == (WorldView {
            ui_elements: without_element(old(world)@.ui_elements, UiElement::GameReadyLabel),
            ..old(world)@
        }),
{
    despawn_ui_element_entities(world, UiElement::GameReadyLabel);
}

/// Hides the score.
pub fn despawn_game_score(world: &mut World)
    requires
        old(world)@.wf(),
    ensures
        final(world)@.wf(),
        final(world)@ == (WorldView {
            ui_elements: without_element(old(world)@.ui_elements, UiElement::GameScore),
            ..old(world)@
        }),
{
    despawn_ui_element_entities(world, UiElement::GameScore);
}

/// Makes every score label say the current score.
pub fn update_player_score_label(world: &mut World, player_score: &PlayerScore)
    requires
        old(world)@.wf(),
    ensures
        final(world)@.wf(),
        final(world)@ == (WorldView {
            ui_elements: showing_scores(old(world)@.ui_elements, player_score.value),
            ..old(world)@
        }),
{
    let ghost before = world@;
    let mut i: usize = 0;
    while i < world.ui_elements.len()
        invariant
            0 <= i <= before.ui_elements.len(),
            world.ui_elements@.len() == before.ui_elements.len(),
            forall|k: int|
                0 <= k < i ==> world.ui_elements@[k] == showing_score(
                    #[trigger] before.ui_elements[k],
                    player_score.value,
                ),
            forall|k: int|
                i <= k < before.ui_elements.len() ==> world.ui_elements@[k] == before.ui_elements[k],
            world@ == (WorldView { ui_elements: world.ui_elements@, ..before }),
        decreases before.ui_elements.len() - i,
    {
        let element = world.ui_elements[i];
        match element.ui_element {
            UiElement::GameScore => {
                world.ui_elements.set(
                    i,
                    UiText { text: UiLabel::Score(player_score.value), ..element },
                );
            },
            _ => {},
        }
        i += 1;
    }
    assert(world.ui_elements@ =~= showing_scores(before.ui_elements, player_score.value));
}

} // verus!
