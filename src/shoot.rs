use vstd::prelude::*;

use crate::geometry::{Point3, UNITS_PER_PIXEL};
use crate::moveable::Moveable;

verus! {

/// Speed, in pixels per second, of a projectile.
pub const PROJECTILE_SPEED: i64 = 450;

/// Height at which projectiles fly.
pub const PROJECTILE_Z: i64 = 100 * UNITS_PER_PIXEL;

/// Microseconds in a millisecond.
pub const MICROS_PER_MILLI: u64 = 1000;

/// Time measured while it runs, in microseconds.
#[derive(Clone, Copy, Debug, PartialEq, Eq, Structural)]
pub struct Stopwatch {
    pub elapsed_micros: u64,
}

impl Stopwatch {
    /// A stopwatch at zero.
    pub fn new() -> (r: Stopwatch)
        ensures
            r.elapsed_micros == 0,
    {
        Stopwatch { elapsed_micros: 0 }
    }

    /// Adds `delta_micros` to the measured time.
    pub fn tick(&mut self, delta_micros: u64)
        requires
            old(self).elapsed_micros + delta_micros <= u64::MAX,
        ensures
            final(self).elapsed_micros == old(self).elapsed_micros + delta_micros,
    {
        self.elapsed_micros = self.elapsed_micros + delta_micros;
    }

    /// The measured time in whole milliseconds.
    pub fn elapsed_millis(&self) -> (r: u64)
        ensures
            r == self.elapsed_micros as int / MICROS_PER_MILLI as int,
    {
        self.elapsed_micros / MICROS_PER_MILLI
    }

    /// Sets the measured time back to zero.
    pub fn reset(&mut self)
        ensures
            final(self).elapsed_micros == 0,
    {
        self.elapsed_micros = 0;
    }
}

/// Fires projectiles in `direction`, on behalf of `source`, while
/// `is_shooting`, one each time more than `shoot_speed_per_ms` milliseconds
/// have gone by.
#[derive(Clone, Copy, Debug, PartialEq, Eq, Structural)]
pub struct Shootable {
    pub direction: Point3,
    pub source: u64,
    pub is_shooting: bool,
    pub shoot_speed_per_ms: u64,
    pub time: Stopwatch,
}

/// The shooting stage.
#[derive(Clone, Copy, Debug, PartialEq, Eq, Structural)]
pub struct ShootPlugin;

/// A projectile to spawn: where, who fired it, and how it moves.
#[derive(Clone, Copy, Debug, PartialEq, Eq, Structural)]
pub struct ProjectileSpawn {
    pub position: Point3,
    pub source: u64,
    pub moveable: Moveable,
}

/// One tick of a shooter at `shooter_position`, `delta_micros` after the
/// last. While it shoots its stopwatch runs; once more than
/// `shoot_speed_per_ms` milliseconds have run it starts over and a projectile
/// leaves the shooter's position at projectile height.
pub fn shooting_system(shootable: &mut Shootable, shooter_position: Point3, delta_micros: u64) -> (r:
    Option<ProjectileSpawn>)
    requires
        old(shootable).time.elapsed_micros + delta_micros <= u64::MAX,
    ensures
        final(shootable).direction == old(shootable).direction,
        final(shootable).source == old(shootable).source,
        final(shootable).is_shooting == old(shootable).is_shooting,
        final(shootable).shoot_speed_per_ms == old(shootable).shoot_speed_per_ms,
        !old(shootable).is_shooting ==> r is None && final(shootable).time == old(shootable).time,
        old(shootable).is_shooting ==> {
            let run = old(shootable).time.elapsed_micros + delta_micros;
            if run / (MICROS_PER_MILLI as int) > old(shootable).shoot_speed_per_ms {
                &&& final(shootable).time.elapsed_micros == 0
                &&& r == Some(
                    ProjectileSpawn {
                        position: Point3 {
                            x: shooter_position.x,
                            y: shooter_position.y,
                            z: PROJECTILE_Z,
                        },
                        source: old(shootable).source,
                        moveable: Moveable {
                            direction: old(shootable).direction,
                            speed: PROJECTILE_SPEED,
                            auto_destroy: false,
                        },
                    },
                )
            } else {
                &&& final(shootable).time.elapsed_micros == run
                &&& r is None
            }
        },
{
    if !shootable.is_shooting {
        return None;
    }
    shootable.time.tick(delta_micros);
    if shootable.time.elapsed_millis() > shootable.shoot_speed_per_ms {
        shootable.time.reset();
        Some(
            ProjectileSpawn {
                position: Point3 { x: shooter_position.x, y: shooter_position.y, z: PROJECTILE_Z },
                source: shootable.source,
                moveable: Moveable {
                    direction: shootable.direction,
                    speed: PROJECTILE_SPEED,
                    auto_destroy: false,
                },
            },
        )
    } else {
        None
    }
}

} // verus!
