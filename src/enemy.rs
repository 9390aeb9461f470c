use vstd::prelude::*;

use crate::components::Health;
use crate::geometry::{Point2, Point3, UNITS_PER_PIXEL};
use crate::path_movement::PathMoveable;

verus! {

/// Height at which enemies fly.
pub const ENEMY_Z: i64 = 100 * UNITS_PER_PIXEL;

/// Health of a freshly spawned enemy.
pub const ENEMY_HEALTH: i32 = 1;

/// Marks an enemy.
#[derive(Clone, Copy, Debug, PartialEq, Eq, Structural)]
pub struct Enemy;

/// A new enemy: where it appears, its health, and the path it follows.
pub struct EnemySpawn {
    pub position: Point3,
    pub health: Health,
    pub path: PathMoveable,
}

/// An enemy that appears on the first waypoint of `move_positions_array`,
/// with `ENEMY_HEALTH`, and follows the waypoints at `movement_speed`.
pub fn spawn_enemy(move_positions_array: Vec<Point2>, movement_speed: i64) -> (r: EnemySpawn)
    requires
        move_positions_array@.len() > 0,
    ensures
        r.position == move_positions_array@[0].extend_spec(ENEMY_Z),
        r.health == (Health { amount: ENEMY_HEALTH }),
        r.path.next_path_index == 0,
        r.path.move_positions@ == move_positions_array@,
        r.path.movement_speed == movement_speed,
{
    let position = move_positions_array[0].extend(ENEMY_Z);
    EnemySpawn {
        position,
        health: Health { amount: ENEMY_HEALTH },
        path: PathMoveable {
            next_path_index: 0,
            move_positions: move_positions_array,
            movement_speed,
        },
    }
}

} // verus!
