use vstd::prelude::*;

use crate::enemy::{spawn_enemy, EnemySpawn, ENEMY_HEALTH, ENEMY_Z};
use crate::components::Health;
use crate::geometry::{Point2, UNITS_PER_PIXEL};

verus! {

/// A wave of enemies: how many it holds, how many have appeared, the camera
/// height that triggers it, and the path its enemies follow.
pub struct Wave {
    enemies_to_spawn: usize,
    enemies_spawned: usize,
    wave_position_y: i64,
    enemy_move_positions: Vec<Point2>,
}

impl Wave {
    /// A wave never spawns more enemies than it holds, and its path has a
    /// first waypoint.
    #[verifier::type_invariant]
    spec fn counts_in_bounds(self) -> bool {
        &&& self.enemies_spawned <= self.enemies_to_spawn
        &&& self.enemy_move_positions@.len() > 0
    }

    pub closed spec fn to_spawn(self) -> nat {
        self.enemies_to_spawn as nat
    }

    pub closed spec fn spawned(self) -> nat {
        self.enemies_spawned as nat
    }

    pub closed spec fn trigger_y(self) -> int {
        self.wave_position_y as int
    }

    pub closed spec fn path(self) -> Seq<Point2> {
        self.enemy_move_positions@
    }

    /// A wave of `enemies_to_spawn` enemies, none spawned yet, triggered once
    /// the camera reaches `wave_position_y`.
    pub fn new(enemies_to_spawn: usize, wave_position_y: i64, enemy_move_positions: Vec<Point2>) -> (r:
        Wave)
        requires
            enemy_move_positions@.len() > 0,
        ensures
            r.to_spawn() == enemies_to_spawn,
            r.spawned() == 0,
            r.trigger_y() == wave_position_y,
            r.path() == enemy_move_positions@,
    {
        Wave { enemies_to_spawn, enemies_spawned: 0, wave_position_y, enemy_move_positions }
    }

    /// How many enemies the wave holds.
    pub fn enemies_to_spawn(&self) -> (r: usize)
        ensures
            r == self.to_spawn(),
    {
        self.enemies_to_spawn
    }

    /// How many enemies of the wave have appeared; never more than it holds.
    pub fn enemies_spawned(&self) -> (r: usize)
        ensures
            r == self.spawned(),
            r <= self.to_spawn(),
    {
        proof {
            use_type_invariant(self);
        }
        self.enemies_spawned
    }

    /// The camera height that triggers the wave.
    pub fn wave_position_y(&self) -> (r: i64)
        ensures
            r == self.trigger_y(),
    {
        self.wave_position_y
    }

    /// The waypoints that the wave's enemies follow.
    pub fn enemy_move_positions(&self) -> (r: &Vec<Point2>)
        ensures
            r@ == self.path(),
            r@.len() > 0,
    {
        proof {
            use_type_invariant(self);
        }
        &self.enemy_move_positions
    }
}

/// The wave has enemies left to spawn.
pub open spec fn has_capacity(w: Wave) -> bool {
    w.spawned() < w.to_spawn()
}

/// The wave is triggered at camera height `y` and has enemies left.
pub open spec fn is_ready(w: Wave, y: int) -> bool {
    y >= w.trigger_y() && has_capacity(w)
}

/// `i` is the first wave that is ready at camera height `y`.
pub open spec fn first_ready(waves: Seq<Wave>, y: int, i: int) -> bool {
    &&& 0 <= i < waves.len()
    &&& is_ready(waves[i], y)
    &&& forall|j: int| 0 <= j < i ==> !is_ready(#[trigger] waves[j], y)
}

/// `v` is the wave `w` with one more enemy spawned.
pub open spec fn spawned_one(w: Wave, v: Wave) -> bool {
    &&& v.to_spawn() == w.to_spawn()
    &&& v.spawned() == w.spawned() + 1
    &&& v.trigger_y() == w.trigger_y()
    &&& v.path() == w.path()
}

/// The spawner stage, run every `SPAWN_INTERVAL_MILLIS`.
#[derive(Clone, Copy, Debug, PartialEq, Eq, Structural)]
pub struct EnemyWaveSpawnerPlugin;

/// Milliseconds between two ticks of the spawner.
pub const SPAWN_INTERVAL_MILLIS: u64 = 500;

/// Enemies in each wave of the built-in level.
pub const ENEMIES_PER_WAVE: usize = 5;

/// The waves of a level, in order of priority.
pub struct WaveData {
    pub waves: Vec<Wave>,
}

pub open spec fn waves_left(waves: Seq<Wave>) -> bool {
    exists|i: int| 0 <= i < waves.len() && has_capacity(#[trigger] waves[i])
}

/// What the spawner asks for on one tick.
pub enum WaveAction {
    /// Spawn `enemy`, taken from wave `wave`.
    Spawn { wave: usize, enemy: EnemySpawn },
    /// Every wave is spent and no path follower is left: the level is over.
    LevelCompleted,
    /// Nothing to do on this tick.
    Wait,
}

impl WaveData {
    /// Whether some wave has enemies left to spawn.
    pub fn has_waves(&self) -> (r: bool)
        ensures
            r == waves_left(self.waves@),
    {
        let mut i: usize = 0;
        while i < self.waves.len()
            invariant
                0 <= i <= self.waves.len(),
                forall|j: int| 0 <= j < i ==> !has_capacity(#[trigger] self.waves@[j]),
            decreases self.waves.len() - i,
        {
            let w = &self.waves[i];
            if w.enemies_spawned() < w.enemies_to_spawn() {
                return true;
            }
            i = i + 1;
        }
        false
    }
}

/// One tick of the spawner at camera height `camera_y`, with
/// `path_followers_alive` enemies still on their paths. While some wave has
/// enemies left, the first wave (in list order) that the camera has reached
/// and that has enemies left spawns one, at most one per tick. Once every
/// wave is spent and no path follower is left, the level is complete.
pub fn spawn_wave(
    wave_data: &mut WaveData,
    camera_y: i64,
    path_followers_alive: usize,
    movement_speed: i64,
) -> (r: WaveAction)
    ensures
        match r {
            WaveAction::Spawn { wave, enemy } => {
                &&& first_ready(old(wave_data).waves@, camera_y as int, wave as int)
                &&& final(wave_data).waves@.len() == old(wave_data).waves@.len()
                &&& spawned_one(old(wave_data).waves@[wave as int], final(wave_data).waves@[wave as int])
                &&& forall|j: int|
                    0 <= j < old(wave_data).waves@.len() && j != wave ==> #[trigger] final(wave_data).waves@[j]
                        == old(wave_data).waves@[j]
                &&& enemy.position == old(wave_data).waves@[wave as int].path()[0].extend_spec(ENEMY_Z)
                &&& enemy.health == (Health { amount: ENEMY_HEALTH })
                &&& enemy.path.next_path_index == 0
                &&& enemy.path.move_positions@ == old(wave_data).waves@[wave as int].path()
                &&& enemy.path.movement_speed == movement_speed
            },
            WaveAction::LevelCompleted => {
                &&& !waves_left(old(wave_data).waves@)
                &&& path_followers_alive == 0
                &&& final(wave_data).waves@ == old(wave_data).waves@
            },
            WaveAction::Wait => {
                &&& !(waves_left(old(wave_data).waves@) && exists|i: int|
                    first_ready(old(wave_data).waves@, camera_y as int, i))
                &&& (waves_left(old(wave_data).waves@) || path_followers_alive > 0)
                &&& final(wave_data).waves@ == old(wave_data).waves@
            },
        },
{
    if wave_data.has_waves() {
        let mut i: usize = 0;
        while i < wave_data.waves.len()
            invariant
                0 <= i <= wave_data.waves.len(),
                wave_data.waves@ == old(wave_data).waves@,
                forall|j: int| 0 <= j < i ==> !is_ready(#[trigger] wave_data.waves@[j], camera_y as int),
            decreases wave_data.waves.len() - i,
        {
            let ready = {
                let w = &wave_data.waves[i];
                camera_y >= w.wave_position_y() && w.enemies_spawned() < w.enemies_to_spawn()
            };
            if ready {
                let path = wave_data.waves[i].enemy_move_positions().clone();
                proof {
                    assert(path@ =~= old(wave_data).waves@[i as int].path());
                }
                wave_data.waves[i].record_spawn();
                let enemy = spawn_enemy(path, movement_speed);
                return WaveAction::Spawn { wave: i, enemy };
            }
            i = i + 1;
        }
        proof {
            assert forall|k: int| first_ready(old(wave_data).waves@, camera_y as int, k) implies false by {
                assert(!is_ready(wave_data.waves@[k], camera_y as int));
            }
        }
        WaveAction::Wait
    } else if path_followers_alive == 0 {
        WaveAction::LevelCompleted
    } else {
        WaveAction::Wait
    }
}

pub open spec fn pixel_point(x: int, y: int) -> Point2 {
    Point2 { x: (x * UNITS_PER_PIXEL) as i64, y: (y * UNITS_PER_PIXEL) as i64 }
}

/// The built-in level: two waves of `ENEMIES_PER_WAVE` enemies, the first
/// from the start, the second once the camera is 15 pixels up.
pub fn default_waves() -> (r: WaveData)
    ensures
        r.waves@.len() == 2,
        r.waves@[0].to_spawn() == ENEMIES_PER_WAVE,
        r.waves@[0].spawned() == 0,
        r.waves@[0].trigger_y() == 0,
        r.waves@[0].path() == seq![pixel_point(300, 200), pixel_point(-230, -60)],
        r.waves@[1].to_spawn() == ENEMIES_PER_WAVE,
        r.waves@[1].spawned() == 0,
        r.waves@[1].trigger_y() == 15 * UNITS_PER_PIXEL,
        r.waves@[1].path() == seq![pixel_point(300, 400), pixel_point(-430, -120)],
{
    let px = UNITS_PER_PIXEL;
    let first = Wave::new(
        ENEMIES_PER_WAVE,
        0,
        vec![Point2 { x: 300 * px, y: 200 * px }, Point2 { x: -230 * px, y: -60 * px }],
    );
    let second = Wave::new(
        ENEMIES_PER_WAVE,
        15 * px,
        vec![Point2 { x: 300 * px, y: 400 * px }, Point2 { x: -430 * px, y: -120 * px }],
    );
    let r = WaveData { waves: vec![first, second] };
    proof {
        assert(r.waves@[0].path() =~= seq![pixel_point(300, 200), pixel_point(-230, -60)]);
        assert(r.waves@[1].path() =~= seq![pixel_point(300, 400), pixel_point(-430, -120)]);
    }
    r
}

/// Waves whose trigger heights do not decrease along the list are spent in
/// list order: when the spawner takes an enemy from wave `i`, at any camera
/// height, every earlier wave has already spawned all of its enemies.
pub proof fn lemma_waves_exhaust_in_order(waves: Seq<Wave>, camera_y: int, i: int)
    requires
        forall|a: int, b: int|
            0 <= a < b < waves.len() ==> #[trigger] waves[a].trigger_y() <= #[trigger] waves[b].trigger_y(),
        first_ready(waves, camera_y, i),
    ensures
        forall|j: int| 0 <= j < i ==> !has_capacity(#[trigger] waves[j]),
{
    assert forall|j: int| 0 <= j < i implies !has_capacity(#[trigger] waves[j]) by {
        assert(waves[j].trigger_y() <= waves[i].trigger_y());
        assert(!is_ready(waves[j], camera_y));
    }
}

impl Wave {
    /// Counts one more enemy of the wave as spawned.
    fn record_spawn(&mut self)
        requires
            has_capacity(*old(self)),
        ensures
            spawned_one(*old(self), *final(self)),
    {
        proof {
            use_type_invariant(&*self);
        }
        self.enemies_spawned = self.enemies_spawned + 1;
    }
}

} // verus!
