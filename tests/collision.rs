use planes::collision::{
    collide, collision_check_collectables, collision_check_projectile, has_collision,
    ProjectileBody, COLLIDER_SIZE, PROJECTILE_DAMAGE,
};
use planes::components::{Body, Health, Target};
use planes::geometry::{Point3, UNITS_PER_PIXEL};

fn px(x: i64, y: i64) -> Point3 {
    Point3 { x: x * UNITS_PER_PIXEL, y: y * UNITS_PER_PIXEL, z: 0 }
}

fn target(entity: u64, position: Point3) -> Target {
    Target { entity, position, health: Health { amount: 10 } }
}

#[test]
fn boxes_overlap_below_sixteen_pixels() {
    let a = px(0, 0);
    assert!(collide(a, COLLIDER_SIZE, px(15, 15), COLLIDER_SIZE));
    assert!(collide(a, COLLIDER_SIZE, px(-15, 3), COLLIDER_SIZE));
    assert!(!collide(a, COLLIDER_SIZE, px(16, 0), COLLIDER_SIZE));
    assert!(!collide(a, COLLIDER_SIZE, px(0, -16), COLLIDER_SIZE));
    let almost = Point3 { x: 16 * UNITS_PER_PIXEL - 1, y: 0, z: 0 };
    assert!(collide(a, COLLIDER_SIZE, almost, COLLIDER_SIZE));
}

#[test]
fn collide_ignores_height() {
    let a = Point3 { x: 0, y: 0, z: 0 };
    let b = Point3 { x: 0, y: 0, z: 500 * UNITS_PER_PIXEL };
    assert!(collide(a, COLLIDER_SIZE, b, COLLIDER_SIZE));
}

#[test]
fn collide_extreme_coordinates() {
    let a = Point3 { x: i64::MAX, y: i64::MIN, z: 0 };
    let b = Point3 { x: i64::MIN, y: i64::MAX, z: 0 };
    assert!(!collide(a, i64::MAX, b, i64::MAX));
    assert!(collide(a, i64::MAX, a, i64::MAX));
}

#[test]
fn projectile_hits_enemy_it_overlaps() {
    let targets = vec![target(1, px(0, 0)), target(2, px(100, 0))];
    let projectiles = vec![ProjectileBody { entity: 10, source: 99, position: px(4, 4) }];
    let hits = collision_check_projectile(&targets, &projectiles);
    assert_eq!(hits.len(), 1);
    assert_eq!(hits[0].projectile, 10);
    assert_eq!(hits[0].source, 99);
    assert_eq!(hits[0].event.target, 1);
    assert_eq!(hits[0].event.damage, PROJECTILE_DAMAGE);
    assert_eq!(hits[0].event.damage, 15);
    assert_eq!(hits[0].event.translation, px(4, 4));
}

#[test]
fn projectile_spares_its_source() {
    let targets = vec![target(1, px(0, 0)), target(2, px(3, 0))];
    let projectiles = vec![ProjectileBody { entity: 10, source: 1, position: px(1, 0) }];
    let hits = collision_check_projectile(&targets, &projectiles);
    assert_eq!(hits.len(), 1);
    assert_eq!(hits[0].event.target, 2);
    for h in &hits {
        assert_ne!(h.event.target, h.source);
    }
}

#[test]
fn projectile_never_hits_itself() {
    let targets = vec![target(10, px(0, 0))];
    let projectiles = vec![ProjectileBody { entity: 10, source: 3, position: px(0, 0) }];
    assert!(collision_check_projectile(&targets, &projectiles).is_empty());
}

#[test]
fn hits_are_listed_target_by_target() {
    let targets = vec![target(1, px(0, 0)), target(2, px(10, 0))];
    let projectiles = vec![
        ProjectileBody { entity: 20, source: 0, position: px(5, 0) },
        ProjectileBody { entity: 21, source: 0, position: px(-7, 0) },
    ];
    let hits = collision_check_projectile(&targets, &projectiles);
    let order: Vec<(u64, u64)> = hits.iter().map(|h| (h.event.target, h.projectile)).collect();
    assert_eq!(order, vec![(1, 20), (1, 21), (2, 20)]);
}

#[test]
fn empty_inputs_give_no_hits() {
    assert!(collision_check_projectile(&vec![], &vec![]).is_empty());
    assert!(collision_check_collectables(&vec![], &vec![]).is_empty());
}

#[test]
fn collectable_picked_up_by_player() {
    let collectables = vec![
        Body { entity: 5, position: px(0, 0) },
        Body { entity: 6, position: px(50, 50) },
    ];
    let players = vec![Body { entity: 1, position: px(2, -2) }];
    assert_eq!(collision_check_collectables(&collectables, &players), vec![5]);
}

#[test]
fn collectable_is_not_its_own_player() {
    let collectables = vec![Body { entity: 5, position: px(0, 0) }];
    let players = vec![Body { entity: 5, position: px(0, 0) }];
    assert!(collision_check_collectables(&collectables, &players).is_empty());
}

#[test]
fn has_collision_tests_first_distinct_pair() {
    let colliders = vec![
        Body { entity: 1, position: px(0, 0) },
        Body { entity: 1, position: px(100, 0) },
        Body { entity: 2, position: px(5, 0) },
    ];
    assert_eq!(has_collision(&colliders), (true, Some(1), Some(px(0, 0))));
    let apart = vec![Body { entity: 1, position: px(0, 0) }, Body { entity: 2, position: px(40, 0) }];
    assert_eq!(has_collision(&apart), (false, Some(1), Some(px(0, 0))));
}

#[test]
fn has_collision_without_pairs() {
    assert_eq!(has_collision(&vec![]), (false, None, None));
    let same = vec![Body { entity: 3, position: px(0, 0) }, Body { entity: 3, position: px(1, 1) }];
    assert_eq!(has_collision(&same), (false, None, None));
}
