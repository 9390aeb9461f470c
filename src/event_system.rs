use vstd::prelude::*;

use crate::collision::{lemma_hit_origin, projectile_hits, ProjectileBody};
use crate::components::{has_entity, unique_entities, Health, Target};
use crate::geometry::{Point3, UNITS_PER_PIXEL};
use crate::random::random_below;

verus! {

/// Score gained for each damage event that reaches a target.
pub const SCORE_PER_HIT: i64 = 100;

/// A destroyed target drops a number of collectables drawn from
/// `0..DROP_COUNT_BOUND`.
pub const DROP_COUNT_BOUND: u32 = 5;

/// Each dropped collectable lies `k` pixels right of and above the impact,
/// with `k` drawn from `0..DROP_SCATTER`.
pub const DROP_SCATTER: u32 = 50;

/// Damage dealt to `target`, struck at `translation`.
#[derive(Clone, Copy, Debug, PartialEq, Eq, Structural)]
pub struct DamageEvent {
    pub damage: i32,
    pub target: u64,
    pub translation: Point3,
}

/// The player picked up a collectable.
#[derive(Clone, Copy, Debug, PartialEq, Eq, Structural)]
pub struct CollectionEvent;

/// The event stage: damage events, then collection events, once per tick.
#[derive(Clone, Copy, Debug, PartialEq, Eq, Structural)]
pub struct EventSystemPlugin;

/// The player's score.
#[derive(Clone, Copy, Debug, PartialEq, Eq, Structural)]
pub struct Score {
    pub amount: i64,
}

/// What one damage event did.
#[derive(Clone, Copy, Debug, PartialEq, Eq, Structural)]
pub enum DamageOutcome {
    /// The target is not in play: the event is dropped.
    Ignored,
    /// The target lost health and has some left.
    Wounded,
    /// The target's health fell to zero or below: it is removed.
    Destroyed,
}

/// A target destroyed by the event that struck it at `translation`.
#[derive(Clone, Copy, Debug, PartialEq, Eq, Structural)]
pub struct Kill {
    pub target: u64,
    pub translation: Point3,
}

/// What a batch of damage events asks the engine to show: the destroyed
/// targets to despawn, an explosion at each impact, the collectables to spawn.
pub struct DamageReport {
    pub kills: Vec<Kill>,
    pub explosions: Vec<Point3>,
    pub drops: Vec<Point3>,
}

/// Health is never negative in a store of targets, and each entity is there once.
pub open spec fn healthy_store(store: Seq<Target>) -> bool {
    &&& unique_entities(store)
    &&& forall|i: int| 0 <= i < store.len() ==> #[trigger] store[i].health.amount >= 0
}

/// Damage is never negative and strikes a point of the world.
pub open spec fn valid_events(events: Seq<DamageEvent>) -> bool {
    forall|i: int|
        0 <= i < events.len() ==> (#[trigger] events[i]).damage >= 0
            && events[i].translation.in_world()
}

/// Where the entity `id` stands in the store, when it is there.
pub open spec fn target_index(store: Seq<Target>, id: u64) -> int {
    choose|i: int| 0 <= i < store.len() && #[trigger] store[i].entity == id
}

pub open spec fn damage_outcome(store: Seq<Target>, e: DamageEvent) -> DamageOutcome {
    if !has_entity(store, e.target) {
        DamageOutcome::Ignored
    } else if store[target_index(store, e.target)].health.amount - e.damage <= 0 {
        DamageOutcome::Destroyed
    } else {
        DamageOutcome::Wounded
    }
}

/// The store after one damage event: the target loses `e.damage`, and leaves
/// the store once it has nothing left.
pub open spec fn damage_store(store: Seq<Target>, e: DamageEvent) -> Seq<Target> {
    let i = target_index(store, e.target);
    match damage_outcome(store, e) {
        DamageOutcome::Ignored => store,
        DamageOutcome::Destroyed => store.remove(i),
        DamageOutcome::Wounded => store.update(
            i,
            Target {
                entity: store[i].entity,
                position: store[i].position,
                health: Health { amount: (store[i].health.amount - e.damage) as i32 },
            },
        ),
    }
}

/// The store after a batch of damage events, taken in order.
pub open spec fn store_after(store: Seq<Target>, events: Seq<DamageEvent>) -> Seq<Target>
    decreases events.len(),
{
    if events.len() == 0 {
        store
    } else {
        damage_store(store_after(store, events.drop_last()), events.last())
    }
}

/// The targets that a batch destroys, in order.
pub open spec fn kills_after(store: Seq<Target>, events: Seq<DamageEvent>) -> Seq<Kill>
    decreases events.len(),
{
    if events.len() == 0 {
        seq![]
    } else {
        let e = events.last();
        let before = kills_after(store, events.drop_last());
        if damage_outcome(store_after(store, events.drop_last()), e) is Destroyed {
            before.push(Kill { target: e.target, translation: e.translation })
        } else {
            before
        }
    }
}

/// The impact point of each event of a batch that reaches its target.
pub open spec fn explosions_after(store: Seq<Target>, events: Seq<DamageEvent>) -> Seq<Point3>
    decreases events.len(),
{
    if events.len() == 0 {
        seq![]
    } else {
        let e = events.last();
        let before = explosions_after(store, events.drop_last());
        if damage_outcome(store_after(store, events.drop_last()), e) is Ignored {
            before
        } else {
            before.push(e.translation)
        }
    }
}

/// The point `k` pixels right of and above `at`.
pub open spec fn drop_at(at: Point3, k: int) -> Point3 {
    Point3 {
        x: (at.x + k * UNITS_PER_PIXEL) as i64,
        y: (at.y + k * UNITS_PER_PIXEL) as i64,
        z: at.z,
    }
}

/// `d` is where a collectable may drop from an impact at `at`.
pub open spec fn is_drop_of(d: Point3, at: Point3) -> bool {
    exists|k: int| 0 <= k < DROP_SCATTER && d == #[trigger] drop_at(at, k)
}

/// `d` is where a collectable may drop from the impact of one of `kills`.
pub open spec fn dropped_by(d: Point3, kills: Seq<Kill>) -> bool {
    exists|k: int| 0 <= k < kills.len() && is_drop_of(d, #[trigger] kills[k].translation)
}

proof fn lemma_index_of_unique(store: Seq<Target>, i: int)
    requires
        unique_entities(store),
        0 <= i < store.len(),
    ensures
        has_entity(store, store[i].entity),
        target_index(store, store[i].entity) == i,
{
    assert(store[i].entity == store[i].entity);
    let j = target_index(store, store[i].entity);
    assert(store[j].entity == store[i].entity);
}

proof fn lemma_remove_keeps_unique(store: Seq<Target>, i: int)
    requires
        unique_entities(store),
        0 <= i < store.len(),
    ensures
        unique_entities(store.remove(i)),
        forall|id: u64| has_entity(store.remove(i), id) ==> has_entity(store, id),
        !has_entity(store.remove(i), store[i].entity),
{
    let r = store.remove(i);
    assert forall|a: int, b: int|
        0 <= a < r.len() && 0 <= b < r.len() && a != b implies #[trigger] r[a].entity
        != #[trigger] r[b].entity by {
        let sa = if a < i { a } else { a + 1 };
        let sb = if b < i { b } else { b + 1 };
        assert(r[a] == store[sa]);
        assert(r[b] == store[sb]);
    }
    assert forall|id: u64| has_entity(r, id) implies has_entity(store, id) by {
        let a = choose|a: int| 0 <= a < r.len() && #[trigger] r[a].entity == id;
        let sa = if a < i { a } else { a + 1 };
        assert(r[a] == store[sa]);
    }
    if has_entity(r, store[i].entity) {
        let a = choose|a: int| 0 <= a < r.len() && #[trigger] r[a].entity == store[i].entity;
        let sa = if a < i { a } else { a + 1 };
        assert(r[a] == store[sa]);
    }
}

/// Applies one damage event to the store of targets.
pub fn apply_damage(targets: &mut Vec<Target>, event: &DamageEvent) -> (r: DamageOutcome)
    requires
        healthy_store(old(targets)@),
        event.damage >= 0,
    ensures
        r == damage_outcome(old(targets)@, *event),
        final(targets)@ == damage_store(old(targets)@, *event),
        healthy_store(final(targets)@),
{
    let mut i: usize = 0;
    while i < targets.len()
        invariant
            0 <= i <= targets.len(),
            targets@ == old(targets)@,
            healthy_store(targets@),
            event.damage >= 0,
            forall|k: int| 0 <= k < i ==> #[trigger] targets@[k].entity != event.target,
        decreases targets.len() - i,
    {
        if targets[i].entity == event.target {
            proof {
                lemma_index_of_unique(targets@, i as int);
            }
            let mut t = targets[i];
            if t.health.amount - event.damage <= 0 {
                proof {
                    lemma_remove_keeps_unique(targets@, i as int);
                }
                targets.remove(i);
                return DamageOutcome::Destroyed;
            } else {
                t.health.take_damage(event.damage);
                targets.set(i, t);
                proof {
                    let s = targets@;
                    assert forall|a: int, b: int|
                        0 <= a < s.len() && 0 <= b < s.len() && a != b implies #[trigger] s[a].entity
                        != #[trigger] s[b].entity by {
                        assert(s[a].entity == old(targets)@[a].entity);
                        assert(s[b].entity == old(targets)@[b].entity);
                    }
                    assert forall|a: int| 0 <= a < s.len() implies #[trigger] s[a].health.amount
                        >= 0 by {
                        assert(a == i || s[a] == old(targets)@[a]);
                    }
                }
                return DamageOutcome::Wounded;
            }
        }
        i = i + 1;
    }
    DamageOutcome::Ignored
}

/// The collectables dropped from an impact at `origin`, one for each offset.
pub fn drop_positions(origin: Point3, offsets: &Vec<u32>) -> (r: Vec<Point3>)
    requires
        origin.in_world(),
        forall|i: int| 0 <= i < offsets.len() ==> #[trigger] offsets@[i] < DROP_SCATTER,
    ensures
        r@.len() == offsets@.len(),
        forall|i: int| 0 <= i < r@.len() ==> #[trigger] r@[i] == drop_at(origin, offsets@[i] as int),
{
    let mut out: Vec<Point3> = Vec::new();
    let mut i: usize = 0;
    while i < offsets.len()
        invariant
            0 <= i <= offsets.len(),
            origin.in_world(),
            forall|k: int| 0 <= k < offsets.len() ==> #[trigger] offsets@[k] < DROP_SCATTER,
            out@.len() == i,
            forall|k: int| 0 <= k < i ==> #[trigger] out@[k] == drop_at(origin, offsets@[k] as int),
        decreases offsets.len() - i,
    {
        let shift = (offsets[i] as i64) * UNITS_PER_PIXEL;
        out.push(Point3 { x: origin.x + shift, y: origin.y + shift, z: origin.z });
        i = i + 1;
    }
    out
}

/// Draws how many collectables a destroyed target drops, and where.
fn roll_drops(origin: Point3) -> (r: Vec<Point3>)
    requires
        origin.in_world(),
    ensures
        r@.len() < DROP_COUNT_BOUND,
        forall|i: int| 0 <= i < r@.len() ==> is_drop_of(#[trigger] r@[i], origin),
{
    let count = random_below(DROP_COUNT_BOUND);
    let mut offsets: Vec<u32> = Vec::new();
    let mut i: u32 = 0;
    while i < count
        invariant
            0 <= i <= count,
            offsets@.len() == i,
            forall|k: int| 0 <= k < offsets.len() ==> #[trigger] offsets@[k] < DROP_SCATTER,
        decreases count - i,
    {
        offsets.push(random_below(DROP_SCATTER));
        i = i + 1;
    }
    let r = drop_positions(origin, &offsets);
    assert forall|i: int| 0 <= i < r@.len() implies is_drop_of(#[trigger] r@[i], origin) by {
        assert(r@[i] == drop_at(origin, offsets@[i] as int));
    }
    r
}

/// Drains one tick's damage events, in order. Each event that reaches a target
/// costs it `damage` hit points, adds `SCORE_PER_HIT` to the score and shows
/// an explosion at the impact; a target left with nothing is removed from
/// play and drops fewer than `DROP_COUNT_BOUND` collectables near the impact.
/// An event whose target is not in play is dropped.
pub fn process_damage_events(
    targets: &mut Vec<Target>,
    events: &Vec<DamageEvent>,
    score: &mut Score,
) -> (r: DamageReport)
    requires
        healthy_store(old(targets)@),
        valid_events(events@),
        old(score).amount <= i64::MAX - SCORE_PER_HIT * events@.len(),
    ensures
        final(targets)@ == store_after(old(targets)@, events@),
        healthy_store(final(targets)@),
        r.kills@ == kills_after(old(targets)@, events@),
        r.explosions@ == explosions_after(old(targets)@, events@),
        final(score).amount == old(score).amount + SCORE_PER_HIT * r.explosions@.len(),
        r.drops@.len() <= (DROP_COUNT_BOUND - 1) * r.kills@.len(),
        forall|d: int| 0 <= d < r.drops@.len() ==> dropped_by(#[trigger] r.drops@[d], r.kills@),
{
    let mut kills: Vec<Kill> = Vec::new();
    let mut explosions: Vec<Point3> = Vec::new();
    let mut drops: Vec<Point3> = Vec::new();
    let mut i: usize = 0;
    while i < events.len()
        invariant
            0 <= i <= events.len(),
            valid_events(events@),
            old(score).amount <= i64::MAX - SCORE_PER_HIT * events@.len(),
            healthy_store(targets@),
            targets@ == store_after(old(targets)@, events@.take(i as int)),
            kills@ == kills_after(old(targets)@, events@.take(i as int)),
            explosions@ == explosions_after(old(targets)@, events@.take(i as int)),
            explosions@.len() <= i,
            score.amount == old(score).amount + SCORE_PER_HIT * explosions@.len(),
            drops@.len() <= (DROP_COUNT_BOUND - 1) * kills@.len(),
            forall|d: int| 0 <= d < drops@.len() ==> dropped_by(#[trigger] drops@[d], kills@),
        decreases events.len() - i,
    {
        let e = events[i];
        proof {
            assert(events@.take(i + 1).drop_last() =~= events@.take(i as int));
            assert(events@.take(i + 1).last() == e);
        }
        let outcome = apply_damage(targets, &e);
        if outcome != DamageOutcome::Ignored {
            explosions.push(e.translation);
            score.amount = score.amount + SCORE_PER_HIT;
        }
        if outcome == DamageOutcome::Destroyed {
            let ghost old_drops = drops@;
            let ghost old_kills = kills@;
            kills.push(Kill { target: e.target, translation: e.translation });
            let mut fresh = roll_drops(e.translation);
            let ghost fresh_drops = fresh@;
            drops.append(&mut fresh);
            proof {
                let n = old_kills.len() as int;
                assert(kills@[n].translation == e.translation);
                assert(drops@ == old_drops + fresh_drops);
                assert(kills@.len() == n + 1);
                assert(drops@.len() <= (DROP_COUNT_BOUND - 1) * kills@.len()) by (nonlinear_arith)
                    requires
                        drops@.len() == old_drops.len() + fresh_drops.len(),
                        fresh_drops.len() < DROP_COUNT_BOUND,
                        old_drops.len() <= (DROP_COUNT_BOUND - 1) * n,
                        kills@.len() == n + 1,
                ;
                assert forall|d: int| 0 <= d < drops@.len() implies dropped_by(
                    #[trigger] drops@[d],
                    kills@,
                ) by {
                    if d < old_drops.len() {
                        assert(drops@[d] == old_drops[d]);
                        assert(dropped_by(old_drops[d], old_kills));
                        let k = choose|k: int|
                            0 <= k < old_kills.len() && is_drop_of(
                                old_drops[d],
                                #[trigger] old_kills[k].translation,
                            );
                        assert(kills@[k] == old_kills[k]);
                    } else {
                        assert(drops@[d] == fresh_drops[d - old_drops.len()]);
                        assert(is_drop_of(fresh_drops[d - old_drops.len()], e.translation));
                    }
                }
            }
        }
        i = i + 1;
    }
    proof {
        assert(events@.take(events.len() as int) =~= events@);
    }
    DamageReport { kills, explosions, drops }
}

/// One damage event keeps entities unique, brings no entity into play, and
/// takes a destroyed target out of it.
proof fn lemma_damage_store_shrinks(store: Seq<Target>, e: DamageEvent)
    requires
        unique_entities(store),
    ensures
        unique_entities(damage_store(store, e)),
        forall|id: u64| has_entity(damage_store(store, e), id) ==> has_entity(store, id),
        damage_outcome(store, e) is Destroyed ==> !has_entity(damage_store(store, e), e.target),
{
    let r = damage_store(store, e);
    match damage_outcome(store, e) {
        DamageOutcome::Ignored => {},
        DamageOutcome::Destroyed => {
            let i = target_index(store, e.target);
            lemma_remove_keeps_unique(store, i);
        },
        DamageOutcome::Wounded => {
            let i = target_index(store, e.target);
            assert forall|a: int, b: int|
                0 <= a < r.len() && 0 <= b < r.len() && a != b implies #[trigger] r[a].entity
                != #[trigger] r[b].entity by {
                assert(r[a].entity == store[a].entity);
                assert(r[b].entity == store[b].entity);
            }
            assert forall|id: u64| has_entity(r, id) implies has_entity(store, id) by {
                let a = choose|a: int| 0 <= a < r.len() && #[trigger] r[a].entity == id;
                assert(r[a].entity == store[a].entity);
            }
        },
    }
}

/// Over a batch: entities stay unique, none enters play, and every target
/// that the batch destroys is absent from the store that it leaves.
proof fn lemma_batch_removes_kills(store: Seq<Target>, events: Seq<DamageEvent>)
    requires
        unique_entities(store),
    ensures
        unique_entities(store_after(store, events)),
        forall|id: u64| has_entity(store_after(store, events), id) ==> has_entity(store, id),
        forall|k: int|
            0 <= k < kills_after(store, events).len() ==> !has_entity(
                store_after(store, events),
                (#[trigger] kills_after(store, events)[k]).target,
            ),
    decreases events.len(),
{
    if events.len() > 0 {
        let prefix = events.drop_last();
        let e = events.last();
        let mid = store_after(store, prefix);
        lemma_batch_removes_kills(store, prefix);
        lemma_damage_store_shrinks(mid, e);
        let kills = kills_after(store, events);
        let before = kills_after(store, prefix);
        assert forall|k: int| 0 <= k < kills.len() implies !has_entity(
            store_after(store, events),
            (#[trigger] kills[k]).target,
        ) by {
            if k < before.len() {
                assert(kills[k] == before[k]);
            }
        }
    }
}

/// A target destroyed by a damage event is out of play from then on: it is
/// absent from the store that the batch leaves, a later damage event aimed at
/// it is dropped, and a projectile check on that store reports no hit on it.
pub proof fn lemma_destroyed_target_leaves_play(
    store: Seq<Target>,
    events: Seq<DamageEvent>,
    k: int,
    projectiles: Seq<ProjectileBody>,
)
    requires
        unique_entities(store),
        0 <= k < kills_after(store, events).len(),
    ensures
        ({
            let gone = kills_after(store, events)[k].target;
            let after = store_after(store, events);
            &&& !has_entity(after, gone)
            &&& forall|later: DamageEvent|
                later.target == gone ==> #[trigger] damage_outcome(after, later) is Ignored
            &&& forall|i: int|
                0 <= i < projectile_hits(after, projectiles).len() ==> (#[trigger] projectile_hits(
                    after,
                    projectiles,
                )[i]).event.target != gone
        }),
{
    let gone = kills_after(store, events)[k].target;
    let after = store_after(store, events);
    lemma_batch_removes_kills(store, events);
    assert forall|i: int| 0 <= i < projectile_hits(after, projectiles).len() implies (
    #[trigger] projectile_hits(after, projectiles)[i]).event.target != gone by {
        lemma_hit_origin(after, projectiles, i);
    }
}

} // verus!
