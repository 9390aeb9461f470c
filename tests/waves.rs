use planes::enemy::{spawn_enemy, ENEMY_HEALTH, ENEMY_Z};
use planes::enemy_wave_spawner::{default_waves, spawn_wave, Wave, WaveAction, WaveData, ENEMIES_PER_WAVE};
use planes::geometry::{Point2, Point3, UNITS_PER_PIXEL};

fn p(x: i64, y: i64) -> Point2 {
    Point2 { x: x * UNITS_PER_PIXEL, y: y * UNITS_PER_PIXEL }
}

#[test]
fn default_level_has_two_waves() {
    let d = default_waves();
    assert_eq!(d.waves.len(), 2);
    assert_eq!(d.waves[0].enemies_to_spawn(), 5);
    assert_eq!(d.waves[0].enemies_spawned(), 0);
    assert_eq!(d.waves[0].wave_position_y(), 0);
    assert_eq!(d.waves[1].wave_position_y(), 15 * UNITS_PER_PIXEL);
    assert_eq!(d.waves[0].enemy_move_positions(), &vec![p(300, 200), p(-230, -60)]);
    assert_eq!(d.waves[1].enemy_move_positions(), &vec![p(300, 400), p(-430, -120)]);
    assert!(d.has_waves());
}

#[test]
fn first_wave_is_spent_before_second_begins() {
    let mut d = default_waves();
    let mut camera_y: i64 = 0;
    let mut order: Vec<usize> = Vec::new();
    for _ in 0..40 {
        match spawn_wave(&mut d, camera_y, 1, 3 * UNITS_PER_PIXEL) {
            WaveAction::Spawn { wave, .. } => {
                if wave == 1 {
                    assert_eq!(d.waves[0].enemies_spawned(), ENEMIES_PER_WAVE);
                }
                order.push(wave);
            }
            WaveAction::LevelCompleted => panic!("followers are still alive"),
            WaveAction::Wait => {}
        }
        for w in &d.waves {
            assert!(w.enemies_spawned() <= w.enemies_to_spawn());
        }
        camera_y += 2 * UNITS_PER_PIXEL;
    }
    assert_eq!(order, vec![0, 0, 0, 0, 0, 1, 1, 1, 1, 1]);
    assert!(!d.has_waves());
}

#[test]
fn second_wave_waits_for_its_height() {
    let mut d = WaveData {
        waves: vec![Wave::new(0, 0, vec![p(0, 0)]), Wave::new(2, 15 * UNITS_PER_PIXEL, vec![p(1, 1)])],
    };
    assert!(matches!(spawn_wave(&mut d, 14 * UNITS_PER_PIXEL, 0, 1), WaveAction::Wait));
    assert_eq!(d.waves[1].enemies_spawned(), 0);
    match spawn_wave(&mut d, 15 * UNITS_PER_PIXEL, 0, 1) {
        WaveAction::Spawn { wave, enemy } => {
            assert_eq!(wave, 1);
            assert_eq!(enemy.position, Point3 { x: UNITS_PER_PIXEL, y: UNITS_PER_PIXEL, z: ENEMY_Z });
            assert_eq!(enemy.path.move_positions, vec![p(1, 1)]);
            assert_eq!(enemy.path.movement_speed, 1);
        }
        _ => panic!("the second wave is ready"),
    }
}

#[test]
fn level_completes_when_waves_and_followers_are_gone() {
    let mut d = WaveData { waves: vec![Wave::new(1, 0, vec![p(0, 0)])] };
    assert!(matches!(spawn_wave(&mut d, 0, 0, 1), WaveAction::Spawn { wave: 0, .. }));
    assert!(matches!(spawn_wave(&mut d, 0, 1, 1), WaveAction::Wait));
    assert!(matches!(spawn_wave(&mut d, 0, 0, 1), WaveAction::LevelCompleted));
    assert_eq!(d.waves[0].enemies_spawned(), 1);
}

#[test]
fn empty_wave_list_completes_at_once() {
    let mut d = WaveData { waves: vec![] };
    assert!(!d.has_waves());
    assert!(matches!(spawn_wave(&mut d, 0, 0, 1), WaveAction::LevelCompleted));
}

#[test]
fn spawned_enemy_starts_on_first_waypoint() {
    let e = spawn_enemy(vec![p(5, 6), p(7, 8)], 42);
    assert_eq!(e.position, Point3 { x: 5 * UNITS_PER_PIXEL, y: 6 * UNITS_PER_PIXEL, z: ENEMY_Z });
    assert_eq!(e.health.amount, ENEMY_HEALTH);
    assert_eq!(e.health.amount, 1);
    assert_eq!(e.path.next_path_index, 0);
    assert_eq!(e.path.move_positions, vec![p(5, 6), p(7, 8)]);
    assert_eq!(e.path.movement_speed, 42);
}
