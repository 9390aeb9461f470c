use planes::animation::{animate_player, loop_animated_frames, FrameAnimation, FrameTimer};
use planes::geometry::{Point2, Point3, UNITS_PER_PIXEL};
use planes::input_actions::{is_pressed, InputAction};
use planes::moveable::Moveable;
use planes::path_movement::{movement, PathFollower, PathMoveable, PATH_Z};
use planes::player::{self, Player};
use planes::shoot::{shooting_system, Shootable, Stopwatch, PROJECTILE_SPEED, PROJECTILE_Z};

const PX: i64 = UNITS_PER_PIXEL;

fn follower(entity: u64, x: i64, path: Vec<Point2>, speed: i64) -> PathFollower {
    PathFollower {
        entity,
        position: Point3 { x: x * PX, y: 0, z: PATH_Z },
        path: PathMoveable { next_path_index: 0, move_positions: path, movement_speed: speed },
    }
}

#[test]
fn path_follower_walks_and_leaves_at_the_end() {
    let path = vec![Point2 { x: 0, y: 0 }, Point2 { x: 10 * PX, y: 0 }];
    let mut followers = vec![follower(7, 0, path, 2 * PX)];
    assert!(movement(&mut followers).is_empty());
    assert_eq!(followers[0].path.next_path_index, 1);
    assert_eq!(followers[0].position.x, 0);
    let mut xs = Vec::new();
    let mut gone = Vec::new();
    for _ in 0..10 {
        gone = movement(&mut followers);
        if !gone.is_empty() {
            break;
        }
        xs.push(followers[0].position.x / PX);
    }
    assert_eq!(xs, vec![2, 4, 6, 8, 10]);
    assert_eq!(gone, vec![7]);
    assert!(followers.is_empty());
    assert!(movement(&mut followers).is_empty());
}

#[test]
fn path_step_rounds_toward_zero() {
    let mut m = PathMoveable {
        next_path_index: 0,
        move_positions: vec![Point2 { x: -30 * PX, y: 40 * PX }],
        movement_speed: 10 * PX,
    };
    let mut pos = Point3 { x: 0, y: 0, z: PATH_Z };
    assert!(!m.step(&mut pos));
    assert_eq!(pos, Point3 { x: -6 * PX, y: 8 * PX, z: PATH_Z });
    assert_eq!(m.next_path_index, 0);
}

#[test]
fn only_finished_followers_leave() {
    let mut followers = vec![
        follower(1, 0, vec![Point2 { x: 0, y: 0 }], PX),
        follower(2, 0, vec![Point2 { x: 100 * PX, y: 0 }], PX),
    ];
    assert_eq!(movement(&mut followers), vec![1]);
    assert_eq!(followers.len(), 1);
    assert_eq!(followers[0].entity, 2);
    assert_eq!(followers[0].position.x, PX);
}

#[test]
fn moveable_moves_and_leaves_the_top() {
    let m = Moveable { direction: Point3 { x: 0, y: 1, z: 0 }, speed: 450, auto_destroy: true };
    let mut pos = Point3 { x: 5, y: 0, z: 9 };
    assert!(m.advance_fits(pos, 1_000_000));
    assert!(!m.advance(&mut pos, 1_000_000, 500 * PX));
    assert_eq!(pos, Point3 { x: 5, y: 450 * PX, z: 9 });
    assert!(m.advance(&mut pos, 1_000_000, 500 * PX));
    assert_eq!(pos.y, 900 * PX);
    let keep = Moveable { auto_destroy: false, ..m };
    assert!(!keep.advance(&mut pos, 1_000_000, 500 * PX));
}

#[test]
fn moveable_range_check() {
    let m = Moveable { direction: Point3 { x: 1, y: -1, z: 0 }, speed: i64::MAX, auto_destroy: false };
    let pos = Point3 { x: 0, y: 0, z: 0 };
    assert!(m.advance_fits(pos, 0));
    assert!(m.advance_fits(pos, 1));
    assert!(!m.advance_fits(pos, 2));
    assert!(!m.advance_fits(Point3 { x: 1, y: 0, z: 0 }, 1));
}

#[test]
fn shooter_fires_after_its_period() {
    let mut s = Shootable {
        direction: Point3 { x: 0, y: 1, z: 0 },
        source: 4,
        is_shooting: true,
        shoot_speed_per_ms: 500,
        time: Stopwatch::new(),
    };
    let at = Point3 { x: 3 * PX, y: 7 * PX, z: 1 };
    assert!(shooting_system(&mut s, at, 500_000).is_none());
    assert!(shooting_system(&mut s, at, 999).is_none());
    assert_eq!(s.time.elapsed_millis(), 500);
    let shot = shooting_system(&mut s, at, 1000).expect("a projectile");
    assert_eq!(shot.position, Point3 { x: 3 * PX, y: 7 * PX, z: PROJECTILE_Z });
    assert_eq!(shot.source, 4);
    assert_eq!(shot.moveable.speed, PROJECTILE_SPEED);
    assert_eq!(shot.moveable.speed, 450);
    assert_eq!(shot.moveable.direction, Point3 { x: 0, y: 1, z: 0 });
    assert!(!shot.moveable.auto_destroy);
    assert_eq!(s.time.elapsed_micros, 0);
}

#[test]
fn idle_shooter_keeps_its_time() {
    let mut s = Shootable {
        direction: Point3 { x: 0, y: 1, z: 0 },
        source: 4,
        is_shooting: false,
        shoot_speed_per_ms: 0,
        time: Stopwatch { elapsed_micros: 77 },
    };
    assert!(shooting_system(&mut s, Point3 { x: 0, y: 0, z: 0 }, 10_000).is_none());
    assert_eq!(s.time.elapsed_micros, 77);
}

#[test]
fn player_trigger_follows_the_shoot_key() {
    let mut s = Shootable {
        direction: Point3 { x: 0, y: 1, z: 0 },
        source: 4,
        is_shooting: false,
        shoot_speed_per_ms: 500,
        time: Stopwatch::new(),
    };
    player::shooting_system(&mut s, &vec![InputAction::Move_Up, InputAction::Shoot]);
    assert!(s.is_shooting);
    player::shooting_system(&mut s, &vec![InputAction::Move_Up]);
    assert!(!s.is_shooting);
}

#[test]
fn pressed_actions() {
    let keys = vec![InputAction::Move_Left, InputAction::Shoot];
    assert!(is_pressed(&keys, InputAction::Shoot));
    assert!(!is_pressed(&keys, InputAction::Move_Right));
    assert!(!is_pressed(&vec![], InputAction::Shoot));
}

#[test]
fn player_accelerates_clamps_and_slows() {
    let mut p = Player {
        movement_speed: 100,
        max_speed: 150,
        target_animation_frame: 0,
        movement_direction: Point2 { x: 0, y: 0 },
    };
    let d = player::movement(&mut p, &vec![InputAction::Move_Up, InputAction::Move_Left], 1_000_000);
    assert_eq!(p.movement_direction, Point2 { x: -100 * PX, y: 100 * PX });
    assert_eq!(d, Point2 { x: -100 * PX, y: 100 * PX });
    player::movement(&mut p, &vec![InputAction::Move_Up], 1_000_000);
    assert_eq!(p.movement_direction, Point2 { x: 0, y: 150 * PX });
    let d = player::movement(&mut p, &vec![], 500_000);
    assert_eq!(p.movement_direction, Point2 { x: 0, y: 100 * PX });
    assert_eq!(d, Point2 { x: 0, y: 50 * PX });
    player::movement(&mut p, &vec![InputAction::Move_Down], 3_000_000);
    assert_eq!(p.movement_direction.y, -150 * PX);
}

#[test]
fn player_distance_rounds_toward_zero() {
    let mut p = Player {
        movement_speed: 0,
        max_speed: 10,
        target_animation_frame: 0,
        movement_direction: Point2 { x: -3, y: 3 },
    };
    let d = player::movement(&mut p, &vec![InputAction::Move_Up, InputAction::Move_Right], 1);
    assert_eq!(d, Point2 { x: 0, y: 0 });
    let d = player::movement(&mut p, &vec![InputAction::Move_Up, InputAction::Move_Right], 500_000);
    assert_eq!(d, Point2 { x: -1, y: 1 });
}

#[test]
fn one_shot_animation_ends_on_its_last_frame() {
    let mut a = FrameAnimation::new(vec![4, 8, 9], 100_000, false);
    let u = loop_animated_frames(&mut a, 50_000);
    assert_eq!((u.index, u.despawn), (None, false));
    let u = loop_animated_frames(&mut a, 50_000);
    assert_eq!((u.index, u.despawn), (Some(8), false));
    let u = loop_animated_frames(&mut a, 100_000);
    assert_eq!((u.index, u.despawn), (Some(9), true));
}

#[test]
fn looping_animation_wraps() {
    let mut a = FrameAnimation::new(vec![0, 1], 10, true);
    assert_eq!(loop_animated_frames(&mut a, 10).index, Some(1));
    let u = loop_animated_frames(&mut a, 25);
    assert_eq!((u.index, u.despawn), (Some(0), false));
    assert_eq!(a.current_frame, 0);
}

#[test]
fn timer_repeats_or_stops() {
    let mut t = FrameTimer::new(10, true);
    assert!(t.tick(25));
    assert_eq!(t.elapsed_micros, 5);
    let mut once = FrameTimer::new(10, false);
    assert!(once.tick(25));
    assert_eq!(once.elapsed_micros, 10);
    assert!(!once.tick(25));
    once.reset();
    assert!(!once.tick(3));
    assert_eq!(once.elapsed_micros, 3);
}

#[test]
fn player_animation_steps_toward_target() {
    let mut a = FrameAnimation::new(vec![0, 1, 2], 10, true);
    assert_eq!(animate_player(&mut a, 2, 10), Some(1));
    assert_eq!(animate_player(&mut a, 2, 5), None);
    assert_eq!(animate_player(&mut a, 2, 5), Some(2));
    assert_eq!(animate_player(&mut a, 2, 10), None);
    assert_eq!(animate_player(&mut a, 0, 10), Some(1));
}
