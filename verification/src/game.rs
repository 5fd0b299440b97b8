//! Scrolling and the speed of the game.

use vstd::prelude::*;
use vstd::arithmetic::div_mod::{lemma_fundamental_div_mod, lemma_mod_bound};
use bevy::time::{Timer, TimerMode};
use std::time::Duration;
use crate::consts::{
    ACCELERATION_FACTOR, BASE_MOVE_SPEED, GAME_WIDTH, MICROS_BETWEEN_ACCELERATION_TICK, UNIT,
};
use crate::obstacles::ObstacleBody;
use crate::units::{clamp_i64, saturate, Vec2};
use crate::world::{Ground, World, WorldView};

verus! {

/// The factor by which the whole game is sped up, in thousandths.
#[derive(Clone, Copy, Debug, PartialEq, Eq)]
pub struct GameSpeed {
    pub factor: u32,
}

/// Marks an entity that scrolls to the left with the world; `factor`, in
/// thousandths, scales its speed.
#[derive(Clone, Copy, Debug, PartialEq, Eq)]
pub struct HorizontalMove {
    pub factor: u32,
}

/// The distance, in thousandths of a pixel, that an entity with the given
/// move factor scrolls in `delta_micros` microseconds at the given speed
/// factor: `BASE_MOVE_SPEED * entity_factor * speed_factor * elapsed time`,
/// rounded down.
pub open spec fn scrolled_distance(entity_factor: u32, speed_factor: u32, delta_micros: u32) -> int {
    (BASE_MOVE_SPEED as int * entity_factor as int * speed_factor as int * delta_micros as int)
        / 1_000_000_000_000int
}

/// Where an entity at `x` stands after it scrolled to the left.
pub open spec fn scrolled_x(x: i64, entity_factor: u32, speed_factor: u32, delta_micros: u32) -> i64 {
    clamp_i64(x - scrolled_distance(entity_factor, speed_factor, delta_micros))
}

/// Computes [`scrolled_distance`].
pub fn scroll_distance(entity_factor: u32, speed_factor: u32, delta_micros: u32) -> (distance: u128)
    ensures
        distance == scrolled_distance(entity_factor, speed_factor, delta_micros),
        distance <= 0xffff_ffff_ffff_ffff_ffff_ffff,
{
    assert(BASE_MOVE_SPEED as int * entity_factor as int <= 94_000 * 0xffff_ffff)
        by (nonlinear_arith)
        requires
            BASE_MOVE_SPEED == 94_000,
            0 <= entity_factor <= 0xffff_ffff,
    ;
    let by_entity: u64 = BASE_MOVE_SPEED as u64 * entity_factor as u64;
    assert(speed_factor as int * delta_micros as int <= 0xffff_ffff * 0xffff_ffff)
        by (nonlinear_arith)
        requires
            0 <= speed_factor <= 0xffff_ffff,
            0 <= delta_micros <= 0xffff_ffff,
    ;
    let by_time: u64 = speed_factor as u64 * delta_micros as u64;
    assert(by_entity as int * by_time as int <= 94_000 * 0xffff_ffff * (0xffff_ffff * 0xffff_ffff))
        by (nonlinear_arith)
        requires
            0 <= by_entity <= 94_000 * 0xffff_ffff,
            0 <= by_time <= 0xffff_ffff * 0xffff_ffff,
    ;
    let product: u128 = by_entity as u128 * by_time as u128;
    assert(product == BASE_MOVE_SPEED as int * entity_factor as int * speed_factor as int
        * delta_micros as int) by (nonlinear_arith)
        requires
            product == by_entity as int * by_time as int,
            by_entity == BASE_MOVE_SPEED as int * entity_factor as int,
            by_time == speed_factor as int * delta_micros as int,
    ;
    product / 1_000_000_000_000
}

/// Computes [`scrolled_x`].
pub fn scroll_x(x: i64, entity_factor: u32, speed_factor: u32, delta_micros: u32) -> (moved: i64)
    ensures
        moved == scrolled_x(x, entity_factor, speed_factor, delta_micros),
        moved <= x,
{
    let distance = scroll_distance(entity_factor, speed_factor, delta_micros);
    saturate(x as i128 - distance as i128)
}

/// `ground` after it scrolled.
pub open spec fn moved_ground(ground: Ground, speed_factor: u32, delta_micros: u32) -> Ground {
    Ground {
        translation: Vec2 {
            x: scrolled_x(
                ground.translation.x,
                ground.horizontal_move.factor,
                speed_factor,
                delta_micros,
            ),
            y: ground.translation.y,
        },
        ..ground
    }
}

/// `obstacle` after it scrolled; one without a move factor stays.
pub open spec fn moved_obstacle(
    obstacle: ObstacleBody,
    speed_factor: u32,
    delta_micros: u32,
) -> ObstacleBody {
    match obstacle.horizontal_move {
        Some(horizontal_move) => ObstacleBody {
            translation: Vec2 {
                x: scrolled_x(
                    obstacle.translation.x,
                    horizontal_move.factor,
                    speed_factor,
                    delta_micros,
                ),
                y: obstacle.translation.y,
            },
            ..obstacle
        },
        None => obstacle,
    }
}

/// Every ground tile of `grounds` after it scrolled.
pub open spec fn moved_grounds(grounds: Seq<Ground>, speed_factor: u32, delta_micros: u32) -> Seq<
    Ground,
> {
    Seq::new(grounds.len(), |i: int| moved_ground(grounds[i], speed_factor, delta_micros))
}

/// Every obstacle of `obstacles` after it scrolled.
pub open spec fn moved_obstacles(
    obstacles: Seq<ObstacleBody>,
    speed_factor: u32,
    delta_micros: u32,
) -> Seq<ObstacleBody> {
    Seq::new(obstacles.len(), |i: int| moved_obstacle(obstacles[i], speed_factor, delta_micros))
}

/// Scrolls every entity that carries a [`HorizontalMove`] to the left by the
/// distance that its factor, the speed of the game and the elapsed time give.
pub fn move_game_elements_horizontal(world: &mut World, game_speed: &GameSpeed, delta_micros: u32)
    requires
        old(world)@.wf(),
    ensures
        final(world)@.wf(),
        final(world)@ == (WorldView {
            grounds: moved_grounds(old(world)@.grounds, game_speed.factor, delta_micros),
            obstacles: moved_obstacles(old(world)@.obstacles, game_speed.factor, delta_micros),
            ..old(world)@
        }),
{
    let ghost before = world@;
    let mut i: usize = 0;
    while i < world.grounds.len()
        invariant
            0 <= i <= before.grounds.len(),
            world.grounds@.len() == before.grounds.len(),
            forall|k: int|
                0 <= k < i ==> world.grounds@[k] == moved_ground(
                    #[trigger] before.grounds[k],
                    game_speed.factor,
                    delta_micros,
                ),
            forall|k: int| i <= k < before.grounds.len() ==> world.grounds@[k] == before.grounds[k],
            world@ == (WorldView { grounds: world.grounds@, ..before }),
        decreases before.grounds.len() - i,
    {
        let ground = world.grounds[i];
        let x = scroll_x(
            ground.translation.x,
            ground.horizontal_move.factor,
            game_speed.factor,
            delta_micros,
        );
        world.grounds.set(i, Ground { translation: Vec2::new(x, ground.translation.y), ..ground });
        i += 1;
    }
    let ghost midway = world@;
    let mut j: usize = 0;
    while j < world.obstacles.len()
        invariant
            0 <= j <= before.obstacles.len(),
            world.obstacles@.len() == before.obstacles.len(),
            forall|k: int|
                0 <= k < j ==> world.obstacles@[k] == moved_obstacle(
                    #[trigger] before.obstacles[k],
                    game_speed.factor,
                    delta_micros,
                ),
            forall|k: int|
                j <= k < before.obstacles.len() ==> world.obstacles@[k] == before.obstacles[k],
            world@ == (WorldView { obstacles: world.obstacles@, ..midway }),
        decreases before.obstacles.len() - j,
    {
        let obstacle = world.obstacles[j];
        if let Some(horizontal_move) = obstacle.horizontal_move {
            let x = scroll_x(
                obstacle.translation.x,
                horizontal_move.factor,
                game_speed.factor,
                delta_micros,
            );
            world.obstacles.set(
                j,
                ObstacleBody { translation: Vec2::new(x, obstacle.translation.y), ..obstacle },
            );
        }
        j += 1;
    }
    assert(world.grounds@ =~= moved_grounds(before.grounds, game_speed.factor, delta_micros));
    assert(world.obstacles@ =~= moved_obstacles(before.obstacles, game_speed.factor, delta_micros));
}

/// `ground` carried two field widths to the right if it has left the field
/// on the left.
pub open spec fn swapped_ground(ground: Ground) -> Ground {
    if ground.translation.x < -((GAME_WIDTH / 2) as int) {
        Ground {
            translation: Vec2 {
                x: (ground.translation.x + 2 * GAME_WIDTH) as i64,
                y: ground.translation.y,
            },
            ..ground
        }
    } else {
        ground
    }
}

/// Every ground tile of `grounds` after the swap.
pub open spec fn swapped_grounds(grounds: Seq<Ground>) -> Seq<Ground> {
    Seq::new(grounds.len(), |i: int| swapped_ground(grounds[i]))
}

/// Carries every ground tile that has scrolled out of the field on the left
/// over to the right, by exactly twice the width of the field, so that the
/// two tiles scroll past without end.
pub fn ground_buffer_swap(world: &mut World)
    requires
        old(world)@.wf(),
    ensures
        final(world)@.wf(),
        final(world)@ == (WorldView {
            grounds: swapped_grounds(old(world)@.grounds),
            ..old(world)@
        }),
{
    let ghost before = world@;
    let mut i: usize = 0;
    while i < world.grounds.len()
        invariant
            0 <= i <= before.grounds.len(),
            world.grounds@.len() == before.grounds.len(),
            forall|k: int|
                0 <= k < i ==> world.grounds@[k] == swapped_ground(#[trigger] before.grounds[k]),
            forall|k: int| i <= k < before.grounds.len() ==> world.grounds@[k] == before.grounds[k],
            world@ == (WorldView { grounds: world.grounds@, ..before }),
        decreases before.grounds.len() - i,
    {
        let ground = world.grounds[i];
        if ground.translation.x < -((GAME_WIDTH / 2) as i64) {
            let x = ground.translation.x + 2 * (GAME_WIDTH as i64);
            world.grounds.set(i, Ground { translation: Vec2::new(x, ground.translation.y), ..ground });
        }
        i += 1;
    }
    assert(world.grounds@ =~= swapped_grounds(before.grounds));
}

/// The timer of the host engine: `Timer` of `bevy`. Its fields are private;
/// the four names below stand for what it holds.
#[verifier::external_type_specification]
#[verifier::external_body]
pub struct ExTimer(Timer);

/// The time on the timer's stopwatch, in nanoseconds.
pub uninterp spec fn timer_elapsed(timer: Timer) -> nat;

/// The timer's duration, in nanoseconds.
pub uninterp spec fn timer_duration(timer: Timer) -> nat;

/// How often the timer finished during its last tick.
pub uninterp spec fn timer_times_finished(timer: Timer) -> nat;

/// The timer repeats and is not paused.
pub uninterp spec fn timer_running(timer: Timer) -> bool;

/// Makes a repeating timer of the given duration: `Timer::new` of `bevy`
/// with `TimerMode::Repeating`. A new timer is not paused, has no time on it
/// and has not finished.
#[verifier::external_body]
fn repeating_timer(duration_micros: u32) -> (timer: Timer)
    ensures
        timer_running(timer),
        timer_elapsed(timer) == 0,
        timer_duration(timer) == duration_micros * 1000,
        timer_times_finished(timer) == 0,
{
    Timer::new(Duration::from_micros(duration_micros.into()), TimerMode::Repeating)
}

/// Advances a running timer: `Timer::tick` of `bevy`. The timer adds the
/// elapsed time to its stopwatch, counts how often its duration fits into the
/// sum (as a 32-bit number) and takes that many durations off again. It
/// divides by its duration and adds two times, so the precondition leaves out
/// a duration of zero and a sum beyond 64 bits of nanoseconds.
#[verifier::external_body]
fn tick_timer(timer: &mut Timer, delta_micros: u32)
    requires
        timer_running(*old(timer)),
        timer_duration(*old(timer)) > 0,
        timer_elapsed(*old(timer)) + delta_micros * 1000 <= u64::MAX,
    ensures
        timer_running(*final(timer)),
        timer_duration(*final(timer)) == timer_duration(*old(timer)),
        timer_times_finished(*final(timer)) == ((timer_elapsed(*old(timer)) + delta_micros * 1000)
            / timer_duration(*old(timer)) as int) % 0x1_0000_0000,
        timer_elapsed(*final(timer)) == timer_elapsed(*old(timer)) + delta_micros * 1000
            - timer_duration(*old(timer)) * timer_times_finished(*final(timer)),
{
    timer.tick(Duration::from_micros(delta_micros.into()));
}

/// How often the timer finished during its last tick:
/// `Timer::times_finished_this_tick` of `bevy`, which hands out the count
/// that the last tick left.
#[verifier::external_body]
fn times_finished_this_tick(timer: &Timer) -> (count: u32)
    ensures
        count == timer_times_finished(*timer),
{
    timer.times_finished_this_tick()
}

/// What [`update_game_speed`] keeps from tick to tick.
#[derive(Debug)]
pub struct UpdateGameSpeedData {
    pub acceleration_tick_timer: Timer,
}

impl UpdateGameSpeedData {
    /// Time since the last acceleration tick, in nanoseconds.
    pub open spec fn elapsed(self) -> nat {
        timer_elapsed(self.acceleration_tick_timer)
    }

    /// Time between two acceleration ticks, in nanoseconds.
    pub open spec fn period(self) -> nat {
        timer_duration(self.acceleration_tick_timer)
    }

    /// The timer runs, its period is a microsecond at least and an hour and
    /// a bit at most, and less than a period has passed since it last
    /// finished.
    pub open spec fn wf(self) -> bool {
        &&& timer_running(self.acceleration_tick_timer)
        &&& 1000 <= self.period() <= 0xffff_ffff * 1000
        &&& self.elapsed() < self.period()
    }
}

impl Default for UpdateGameSpeedData {
    fn default() -> (data: UpdateGameSpeedData)
        ensures
            data.wf(),
            data.elapsed() == 0,
            data.period() == MICROS_BETWEEN_ACCELERATION_TICK * 1000,
    {
        UpdateGameSpeedData {
            acceleration_tick_timer: repeating_timer(MICROS_BETWEEN_ACCELERATION_TICK),
        }
    }
}

/// The speed factor after one acceleration tick: `ACCELERATION_FACTOR` times
/// as large, rounded down, and no larger than the type holds.
pub open spec fn accelerated(factor: u32) -> u32 {
    if factor * ACCELERATION_FACTOR / (UNIT as int) > u32::MAX {
        u32::MAX
    } else {
        (factor * ACCELERATION_FACTOR / (UNIT as int)) as u32
    }
}

/// Computes [`accelerated`].
pub fn accelerate(factor: u32) -> (faster: u32)
    ensures
        faster == accelerated(factor),
        faster >= factor,
{
    let scaled: u64 = factor as u64 * ACCELERATION_FACTOR as u64 / UNIT as u64;
    if scaled > u32::MAX as u64 {
        u32::MAX
    } else {
        scaled as u32
    }
}

/// The speed factor after `times` acceleration ticks.
pub open spec fn accelerated_by(factor: u32, times: nat) -> u32
    decreases times,
{
    if times == 0 {
        factor
    } else {
        accelerated_by(accelerated(factor), (times - 1) as nat)
    }
}

/// A speed factor that one acceleration tick leaves as it is stays as it is
/// however many follow: zero, the factors too small to grow by a
/// thousandth, and the largest factor.
pub proof fn lemma_accelerated_by_fixed(factor: u32, times: nat)
    requires
        accelerated(factor) == factor,
    ensures
        accelerated_by(factor, times) == factor,
    decreases times,
{
    if times > 0 {
        lemma_accelerated_by_fixed(factor, (times - 1) as nat);
    }
}

/// Acceleration never lowers the speed factor.
pub proof fn lemma_accelerated_by_grows(factor: u32, times: nat)
    ensures
        accelerated_by(factor, times) >= factor,
    decreases times,
{
    if times > 0 {
        assert(factor * 1_028 / 1_000 >= factor) by (nonlinear_arith)
            requires
                factor >= 0,
        ;
        lemma_accelerated_by_grows(accelerated(factor), (times - 1) as nat);
    }
}

/// Computes [`accelerated_by`].
pub fn accelerate_by(factor: u32, times: u32) -> (faster: u32)
    ensures
        faster == accelerated_by(factor, times as nat),
        faster >= factor,
{
    let mut current = factor;
    let mut left = times;
    while left > 0
        invariant
            accelerated_by(current, left as nat) == accelerated_by(factor, times as nat),
        decreases left,
    {
        let next = accelerate(current);
        if next == current {
            proof {
                lemma_accelerated_by_fixed(current, left as nat);
            }
            left = 0;
        } else {
            current = next;
            left -= 1;
        }
    }
    proof {
        lemma_accelerated_by_grows(factor, times as nat);
    }
    current
}

/// Lets `delta_micros` microseconds pass on the acceleration timer. Each
/// time the timer completes a period in this tick, the speed factor grows by
/// the acceleration factor; the time beyond the last period stays on the
/// timer.
pub fn update_game_speed(
    data: &mut UpdateGameSpeedData,
    game_speed: &mut GameSpeed,
    delta_micros: u32,
)
    requires
        old(data).wf(),
    ensures
        final(data).wf(),
        final(data).period() == old(data).period(),
        final(data).elapsed() == (old(data).elapsed() + delta_micros * 1000) % (
        old(data).period() as int),
        final(game_speed).factor == accelerated_by(
            old(game_speed).factor,
            ((old(data).elapsed() + delta_micros * 1000) / (old(data).period() as int)) as nat,
        ),
        final(game_speed).factor >= old(game_speed).factor,
{
    proof {
        let sum = (old(data).elapsed() + delta_micros * 1000) as int;
        let period = old(data).period() as int;
        assert(0 <= sum / period < 0x1_0000_0000) by (nonlinear_arith)
            requires
                0 <= sum < period + 0xffff_ffff * 1000,
                1000 <= period,
        ;
        lemma_fundamental_div_mod(sum, period);
        lemma_mod_bound(sum, period);
    }
    tick_timer(&mut data.acceleration_tick_timer, delta_micros);
    let times = times_finished_this_tick(&data.acceleration_tick_timer);
    game_speed.factor = accelerate_by(game_speed.factor, times);
}

} // verus!
