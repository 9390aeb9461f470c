use planes::components::{Health, Target};
use planes::event_system::{
    apply_damage, drop_positions, process_damage_events, DamageEvent, DamageOutcome, Score,
    DROP_COUNT_BOUND, DROP_SCATTER, SCORE_PER_HIT,
};
use planes::collision::{collision_check_projectile, ProjectileBody};
use planes::geometry::{Point3, UNITS_PER_PIXEL};

fn at(x: i64, y: i64) -> Point3 {
    Point3 { x: x * UNITS_PER_PIXEL, y: y * UNITS_PER_PIXEL, z: 0 }
}

fn target(entity: u64, amount: i32) -> Target {
    Target { entity, position: at(0, 0), health: Health { amount } }
}

fn hit(target: u64, damage: i32) -> DamageEvent {
    DamageEvent { damage, target, translation: at(10, 20) }
}

#[test]
fn take_damage_subtracts() {
    let mut h = Health { amount: 30 };
    h.take_damage(15);
    assert_eq!(h.amount, 15);
    assert!(!h.is_depleted());
    h.take_damage(15);
    assert_eq!(h.amount, 0);
    assert!(h.is_depleted());
    h.take_damage(-4);
    assert_eq!(h.amount, 4);
}

#[test]
fn damage_wounds_then_destroys() {
    let mut store = vec![target(1, 20), target(2, 5)];
    assert_eq!(apply_damage(&mut store, &hit(1, 15)), DamageOutcome::Wounded);
    assert_eq!(store[0].health.amount, 5);
    assert_eq!(apply_damage(&mut store, &hit(1, 15)), DamageOutcome::Destroyed);
    assert_eq!(store.len(), 1);
    assert_eq!(store[0].entity, 2);
}

#[test]
fn damage_to_exactly_zero_destroys() {
    let mut store = vec![target(1, 15)];
    assert_eq!(apply_damage(&mut store, &hit(1, 15)), DamageOutcome::Destroyed);
    assert!(store.is_empty());
}

#[test]
fn damage_to_missing_target_is_dropped() {
    let mut store = vec![target(1, 20)];
    assert_eq!(apply_damage(&mut store, &hit(9, 15)), DamageOutcome::Ignored);
    assert_eq!(store, vec![target(1, 20)]);
}

#[test]
fn batch_scores_and_reports() {
    let mut store = vec![target(1, 20), target(2, 1)];
    let events = vec![hit(1, 15), hit(2, 15), hit(3, 15)];
    let mut score = Score { amount: 0 };
    let report = process_damage_events(&mut store, &events, &mut score);
    assert_eq!(score.amount, 2 * SCORE_PER_HIT);
    assert_eq!(score.amount, 200);
    assert_eq!(report.explosions, vec![at(10, 20), at(10, 20)]);
    assert_eq!(report.kills.len(), 1);
    assert_eq!(report.kills[0].target, 2);
    assert_eq!(store, vec![Target { entity: 1, position: at(0, 0), health: Health { amount: 5 } }]);
}

#[test]
fn destroyed_target_is_out_of_play() {
    let mut store = vec![target(1, 1), target(2, 50)];
    let events = vec![hit(1, 15), hit(1, 15)];
    let mut score = Score { amount: 7 };
    let report = process_damage_events(&mut store, &events, &mut score);
    assert_eq!(report.kills.len(), 1);
    assert_eq!(report.explosions.len(), 1);
    assert_eq!(score.amount, 107);
    assert!(store.iter().all(|t| t.entity != 1));
    let projectiles = vec![ProjectileBody { entity: 30, source: 0, position: at(0, 0) }];
    let hits = collision_check_projectile(&store, &projectiles);
    assert!(hits.iter().all(|h| h.event.target != 1));
    assert_eq!(apply_damage(&mut store, &hit(1, 15)), DamageOutcome::Ignored);
}

#[test]
fn drops_lie_near_the_kill() {
    for _ in 0..200 {
        let mut store = vec![target(1, 1)];
        let mut score = Score { amount: 0 };
        let report = process_damage_events(&mut store, &vec![hit(1, 15)], &mut score);
        assert!(report.drops.len() < DROP_COUNT_BOUND as usize);
        for d in &report.drops {
            let k = (d.x - at(10, 20).x) / UNITS_PER_PIXEL;
            assert!(k >= 0 && k < DROP_SCATTER as i64);
            assert_eq!(d.x, at(10, 20).x + k * UNITS_PER_PIXEL);
            assert_eq!(d.y, at(10, 20).y + k * UNITS_PER_PIXEL);
            assert_eq!(d.z, 0);
        }
    }
}

#[test]
fn drop_count_varies() {
    let mut seen = [false; 5];
    for _ in 0..500 {
        let mut store = vec![target(1, 1)];
        let mut score = Score { amount: 0 };
        let report = process_damage_events(&mut store, &vec![hit(1, 15)], &mut score);
        seen[report.drops.len()] = true;
    }
    assert!(seen[0] && seen[1] && seen[4]);
}

#[test]
fn wounds_drop_nothing() {
    let mut store = vec![target(1, 100)];
    let mut score = Score { amount: 0 };
    let report = process_damage_events(&mut store, &vec![hit(1, 15)], &mut score);
    assert!(report.drops.is_empty());
    assert!(report.kills.is_empty());
}

#[test]
fn drop_positions_offsets_each_axis() {
    let r = drop_positions(at(1, 2), &vec![0, 3, 49]);
    assert_eq!(r, vec![at(1, 2), at(4, 5), at(50, 51)]);
}
