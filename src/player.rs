use vstd::prelude::*;

use crate::geometry::{Point2, UNITS_PER_PIXEL};
use crate::input_actions::{is_pressed, InputAction};
use crate::shoot::Shootable;

verus! {

/// Largest acceleration (pixels per second squared) and speed (pixels per
/// second) of the player (2^20).
pub const MAX_PLAYER_RATE: i64 = 1_048_576;

/// Longest tick, in microseconds, that player movement takes (2^32).
pub const MAX_TICK_MICROS: u64 = 4_294_967_296;

/// The player's plane: it gains `movement_speed` pixels per second of speed
/// each second a direction is held, loses as much when none is, and never
/// goes faster than `max_speed` pixels per second on an axis.
/// `movement_direction` is its velocity, in position units per second.
#[derive(Clone, Copy, Debug, PartialEq, Eq, Structural)]
pub struct Player {
    pub movement_speed: i64,
    pub max_speed: i64,
    pub target_animation_frame: usize,
    pub movement_direction: Point2,
}

/// The player stage: movement and the shoot trigger.
#[derive(Clone, Copy, Debug, PartialEq, Eq, Structural)]
pub struct PlayerPlugin;

impl Player {
    /// Rates in bounds and a velocity within the speed limit.
    pub open spec fn well_formed(&self) -> bool {
        &&& 0 <= self.movement_speed <= MAX_PLAYER_RATE
        &&& 0 <= self.max_speed <= MAX_PLAYER_RATE
        &&& -self.speed_limit() <= self.movement_direction.x <= self.speed_limit()
        &&& -self.speed_limit() <= self.movement_direction.y <= self.speed_limit()
    }

    /// Whether the rates are in bounds and the velocity within the speed limit.
    pub fn is_well_formed(&self) -> (r: bool)
        ensures
            r == self.well_formed(),
    {
        if self.movement_speed < 0 || self.movement_speed > MAX_PLAYER_RATE || self.max_speed < 0
            || self.max_speed > MAX_PLAYER_RATE {
            return false;
        }
        let limit = self.max_speed * UNITS_PER_PIXEL;
        -limit <= self.movement_direction.x && self.movement_direction.x <= limit && -limit
            <= self.movement_direction.y && self.movement_direction.y <= limit
    }

    /// The speed limit in position units per second.
    pub open spec fn speed_limit(&self) -> int {
        self.max_speed * UNITS_PER_PIXEL
    }
}

/// One axis of the velocity after a tick that changes speed by `step`:
/// pushed up or down while a direction is held, else slowed toward zero
/// without passing it.
pub open spec fn axis_velocity(v: int, up: bool, down: bool, step: int) -> int {
    if up {
        v + step
    } else if down {
        v - step
    } else if v < 0 {
        if v + step < 0 { v + step } else { 0 }
    } else {
        if v - step > 0 { v - step } else { 0 }
    }
}

pub open spec fn clamp(v: int, limit: int) -> int {
    if v < -limit {
        -limit
    } else if v > limit {
        limit
    } else {
        v
    }
}

/// The distance, in position units, covered at `v` units per second for
/// `dt_micros` microseconds, rounded toward zero.
pub open spec fn distance_in(v: int, dt_micros: int) -> int {
    if v >= 0 {
        (v * dt_micros) / 1_000_000
    } else {
        -((-v * dt_micros) / 1_000_000)
    }
}

fn axis_step(v: i64, up: bool, down: bool, step: i64, limit: i64) -> (r: i64)
    requires
        0 <= step <= MAX_PLAYER_RATE * (MAX_TICK_MICROS as int),
        0 <= limit <= MAX_PLAYER_RATE * UNITS_PER_PIXEL,
        -limit <= v <= limit,
    ensures
        r == clamp(axis_velocity(v as int, up, down, step as int), limit as int),
{
    let w: i64 = if up {
        v + step
    } else if down {
        v - step
    } else if v < 0 {
        if v + step < 0 { v + step } else { 0 }
    } else {
        if v - step > 0 { v - step } else { 0 }
    };
    if w < -limit {
        -limit
    } else if w > limit {
        limit
    } else {
        w
    }
}

fn distance(v: i64, dt_micros: u64) -> (r: i64)
    requires
        -MAX_PLAYER_RATE * UNITS_PER_PIXEL <= v <= MAX_PLAYER_RATE * UNITS_PER_PIXEL,
        dt_micros <= MAX_TICK_MICROS,
    ensures
        r == distance_in(v as int, dt_micros as int),
{
    let t = dt_micros as i128;
    if v >= 0 {
        assert(0 <= v * t <= 0x1_0000_0000_0000_0000_0000int) by (nonlinear_arith)
            requires
                0 <= v <= 0x100_0000_0000i128,
                0 <= t <= 0x1_0000_0000i128,
        ;
        let p = (v as i128) * t;
        (p / 1_000_000) as i64
    } else {
        assert(0 <= -v * t <= 0x1_0000_0000_0000_0000_0000int) by (nonlinear_arith)
            requires
                0 < -v <= 0x100_0000_0000i128,
                0 <= t <= 0x1_0000_0000i128,
        ;
        let p = (-(v as i128)) * t;
        -((p / 1_000_000) as i64)
    }
}

/// One tick of player movement with the `pressed` actions, `dt_micros` after
/// the last: up or down, then left or right, change the velocity (up over
/// down, left over right), which is then held to the speed limit. Returns
/// the distance covered on each axis in position units.
pub fn movement(player: &mut Player, pressed: &Vec<InputAction>, dt_micros: u64) -> (r: Point2)
    requires
        old(player).well_formed(),
        dt_micros <= MAX_TICK_MICROS,
    ensures
        final(player).well_formed(),
        final(player).movement_speed == old(player).movement_speed,
        final(player).max_speed == old(player).max_speed,
        final(player).target_animation_frame == old(player).target_animation_frame,
        ({
            let step = old(player).movement_speed * dt_micros;
            let limit = old(player).speed_limit();
            let v = old(player).movement_direction;
            &&& final(player).movement_direction.y == clamp(
                axis_velocity(
                    v.y as int,
                    pressed@.contains(InputAction::Move_Up),
                    pressed@.contains(InputAction::Move_Down),
                    step,
                ),
                limit,
            )
            &&& final(player).movement_direction.x == clamp(
                axis_velocity(
                    v.x as int,
                    pressed@.contains(InputAction::Move_Right),
                    pressed@.contains(InputAction::Move_Left),
                    step,
                ),
                limit,
            )
        }),
        r.x == distance_in(final(player).movement_direction.x as int, dt_micros as int),
        r.y == distance_in(final(player).movement_direction.y as int, dt_micros as int),
{
    let up = is_pressed(pressed, InputAction::Move_Up);
    let down = is_pressed(pressed, InputAction::Move_Down);
    let left = is_pressed(pressed, InputAction::Move_Left);
    let right = is_pressed(pressed, InputAction::Move_Right);
    assert(player.movement_speed * dt_micros <= MAX_PLAYER_RATE * (MAX_TICK_MICROS as int))
        by (nonlinear_arith)
        requires
            0 <= player.movement_speed <= MAX_PLAYER_RATE,
            dt_micros <= MAX_TICK_MICROS,
    ;
    let step = player.movement_speed * (dt_micros as i64);
    let limit = player.max_speed * UNITS_PER_PIXEL;
    let vy = axis_step(player.movement_direction.y, up, down, step, limit);
    let vx = axis_step(player.movement_direction.x, right, left, step, limit);
    player.movement_direction = Point2 { x: vx, y: vy };
    Point2 { x: distance(vx, dt_micros), y: distance(vy, dt_micros) }
}

/// The player shoots exactly while the shoot action is held.
pub fn shooting_system(shootable: &mut Shootable, pressed: &Vec<InputAction>)
    ensures
        *final(shootable) == (Shootable {
            is_shooting: pressed@.contains(InputAction::Shoot),
            ..*old(shootable)
        }),
{
    shootable.is_shooting = is_pressed(pressed, InputAction::Shoot);
}

} // verus!
