use vstd::prelude::*;

use crate::components::{Body, Target};
use crate::event_system::DamageEvent;
use crate::geometry::{Point3, UNITS_PER_PIXEL};

verus! {

/// Edge length, in position units, of the square box of every collider.
pub const COLLIDER_SIZE: i64 = 16 * UNITS_PER_PIXEL;

/// Damage that one projectile deals.
pub const PROJECTILE_DAMAGE: i32 = 15;

/// Marks an entity that takes part in collisions.
#[derive(Clone, Copy, Debug, PartialEq, Eq, Structural)]
pub struct Collider;

/// The collision stage: projectiles against enemies, collectables against the player.
#[derive(Clone, Copy, Debug, PartialEq, Eq, Structural)]
pub struct CollisionPlugin;

/// A projectile in flight: its id, the entity that fired it, and its position.
#[derive(Clone, Copy, Debug, PartialEq, Eq, Structural)]
pub struct ProjectileBody {
    pub entity: u64,
    pub source: u64,
    pub position: Point3,
}

/// A projectile that struck a target: it is despawned and `event` is raised.
#[derive(Clone, Copy, Debug, PartialEq, Eq, Structural)]
pub struct ProjectileHit {
    pub projectile: u64,
    pub source: u64,
    pub event: DamageEvent,
}

/// Axis-aligned boxes of edge `a_size` centred on `a` and of edge `b_size`
/// centred on `b` overlap in the plane (`z` is ignored); touching edges do not
/// count. Coordinates are doubled so that half sizes stay whole.
pub open spec fn boxes_overlap(a: Point3, a_size: int, b: Point3, b_size: int) -> bool {
    &&& 2 * a.x - a_size < 2 * b.x + b_size
    &&& 2 * a.x + a_size > 2 * b.x - b_size
    &&& 2 * a.y - a_size < 2 * b.y + b_size
    &&& 2 * a.y + a_size > 2 * b.y - b_size
}

pub open spec fn colliders_overlap(a: Point3, b: Point3) -> bool {
    boxes_overlap(a, COLLIDER_SIZE as int, b, COLLIDER_SIZE as int)
}

/// Whether the box of edge `a_size` around `a` overlaps the box of edge
/// `b_size` around `b`.
pub fn collide(a: Point3, a_size: i64, b: Point3, b_size: i64) -> (r: bool)
    ensures
        r == boxes_overlap(a, a_size as int, b, b_size as int),
{
    let ax = 2 * (a.x as i128);
    let ay = 2 * (a.y as i128);
    let bx = 2 * (b.x as i128);
    let by = 2 * (b.y as i128);
    let sa = a_size as i128;
    let sb = b_size as i128;
    ax - sa < bx + sb && ax + sa > bx - sb && ay - sa < by + sb && ay + sa > by - sb
}

/// A projectile strikes a target when it is neither the target itself nor
/// fired by it, and their boxes overlap.
pub open spec fn strikes(t: Target, p: ProjectileBody) -> bool {
    &&& p.entity != t.entity
    &&& p.source != t.entity
    &&& colliders_overlap(t.position, p.position)
}

pub open spec fn hit_of(t: Target, p: ProjectileBody) -> ProjectileHit {
    ProjectileHit {
        projectile: p.entity,
        source: p.source,
        event: DamageEvent { damage: PROJECTILE_DAMAGE, target: t.entity, translation: p.position },
    }
}

/// The hits on one target, in the order of the projectiles.
pub open spec fn hits_on(t: Target, ps: Seq<ProjectileBody>) -> Seq<ProjectileHit>
    decreases ps.len(),
{
    if ps.len() == 0 {
        seq![]
    } else {
        let rest = hits_on(t, ps.drop_last());
        if strikes(t, ps.last()) {
            rest.push(hit_of(t, ps.last()))
        } else {
            rest
        }
    }
}

/// Every hit of every projectile on every target, target by target.
pub open spec fn projectile_hits(ts: Seq<Target>, ps: Seq<ProjectileBody>) -> Seq<ProjectileHit>
    decreases ts.len(),
{
    if ts.len() == 0 {
        seq![]
    } else {
        projectile_hits(ts.drop_last(), ps) + hits_on(ts.last(), ps)
    }
}

/// Tests every target against every projectile and reports each hit.
pub fn collision_check_projectile(targets: &Vec<Target>, projectiles: &Vec<ProjectileBody>) -> (r:
    Vec<ProjectileHit>)
    ensures
        r@ == projectile_hits(targets@, projectiles@),
{
    let mut hits: Vec<ProjectileHit> = Vec::new();
    let mut i: usize = 0;
    while i < targets.len()
        invariant
            0 <= i <= targets.len(),
            hits@ == projectile_hits(targets@.take(i as int), projectiles@),
        decreases targets.len() - i,
    {
        let t = targets[i];
        let mut j: usize = 0;
        while j < projectiles.len()
            invariant
                0 <= i < targets.len(),
                0 <= j <= projectiles.len(),
                t == targets@[i as int],
                hits@ == projectile_hits(targets@.take(i as int), projectiles@) + hits_on(
                    t,
                    projectiles@.take(j as int),
                ),
            decreases projectiles.len() - j,
        {
            let p = projectiles[j];
            proof {
                assert(projectiles@.take(j + 1).drop_last() =~= projectiles@.take(j as int));
            }
            if p.entity != t.entity && p.source != t.entity && collide(
                t.position,
                COLLIDER_SIZE,
                p.position,
                COLLIDER_SIZE,
            ) {
                let hit = ProjectileHit {
                    projectile: p.entity,
                    source: p.source,
                    event: DamageEvent {
                        damage: PROJECTILE_DAMAGE,
                        target: t.entity,
                        translation: p.position,
                    },
                };
                hits.push(hit);
                proof {
                    let a = projectile_hits(targets@.take(i as int), projectiles@);
                    let b = hits_on(t, projectiles@.take(j as int));
                    assert((a + b).push(hit) =~= a + b.push(hit));
                }
            }
            j = j + 1;
        }
        proof {
            assert(projectiles@.take(projectiles.len() as int) =~= projectiles@);
            assert(targets@.take(i + 1).drop_last() =~= targets@.take(i as int));
        }
        i = i + 1;
    }
    proof {
        assert(targets@.take(targets.len() as int) =~= targets@);
    }
    hits
}

/// A collectable is picked up by a player that is another entity and overlaps it.
pub open spec fn picks_up(c: Body, p: Body) -> bool {
    c.entity != p.entity && colliders_overlap(c.position, p.position)
}

/// The collectable `c` once for each player that picks it up.
pub open spec fn pickups_of(c: Body, players: Seq<Body>) -> Seq<u64>
    decreases players.len(),
{
    if players.len() == 0 {
        seq![]
    } else {
        let rest = pickups_of(c, players.drop_last());
        if picks_up(c, players.last()) {
            rest.push(c.entity)
        } else {
            rest
        }
    }
}

/// Every pick-up, collectable by collectable.
pub open spec fn pickups(cs: Seq<Body>, players: Seq<Body>) -> Seq<u64>
    decreases cs.len(),
{
    if cs.len() == 0 {
        seq![]
    } else {
        pickups(cs.drop_last(), players) + pickups_of(cs.last(), players)
    }
}

/// Tests every collectable against every player. Each entry of the result is a
/// collectable to despawn, and stands for one collection event.
pub fn collision_check_collectables(collectables: &Vec<Body>, players: &Vec<Body>) -> (r: Vec<u64>)
    ensures
        r@ == pickups(collectables@, players@),
{
    let mut out: Vec<u64> = Vec::new();
    let mut i: usize = 0;
    while i < collectables.len()
        invariant
            0 <= i <= collectables.len(),
            out@ == pickups(collectables@.take(i as int), players@),
        decreases collectables.len() - i,
    {
        let c = collectables[i];
        let mut j: usize = 0;
        while j < players.len()
            invariant
                0 <= i < collectables.len(),
                0 <= j <= players.len(),
                c == collectables@[i as int],
                out@ == pickups(collectables@.take(i as int), players@) + pickups_of(
                    c,
                    players@.take(j as int),
                ),
            decreases players.len() - j,
        {
            let p = players[j];
            proof {
                assert(players@.take(j + 1).drop_last() =~= players@.take(j as int));
            }
            if c.entity != p.entity && collide(c.position, COLLIDER_SIZE, p.position, COLLIDER_SIZE) {
                out.push(c.entity);
                proof {
                    let a = pickups(collectables@.take(i as int), players@);
                    let b = pickups_of(c, players@.take(j as int));
                    assert((a + b).push(c.entity) =~= a + b.push(c.entity));
                }
            }
            j = j + 1;
        }
        proof {
            assert(players@.take(players.len() as int) =~= players@);
            assert(collectables@.take(i + 1).drop_last() =~= collectables@.take(i as int));
        }
        i = i + 1;
    }
    proof {
        assert(collectables@.take(collectables.len() as int) =~= collectables@);
    }
    out
}

/// Base pairwise test over one set of colliders: takes the first collider and
/// the first collider after it that is another entity, and reports whether the
/// two overlap, with the first collider's id and position. With no two
/// distinct entities there is nothing to test. Every entity differs from the
/// first one as soon as any two differ, so the first collider is always the
/// one reported.
pub fn has_collision(colliders: &Vec<Body>) -> (r: (bool, Option<u64>, Option<Point3>))
    ensures
        r.1 is None <==> (forall|j: int|
            0 <= j < colliders.len() ==> #[trigger] colliders@[j].entity == colliders@[0].entity),
        r.1 is None ==> r == (false, None::<u64>, None::<Point3>),
        r.1 is Some ==> exists|j: int|
            #![trigger colliders@[j]]
            0 <= j < colliders.len() && colliders@[j].entity != colliders@[0].entity && (forall|
                k: int,
            |
                0 <= k < j ==> #[trigger] colliders@[k].entity == colliders@[0].entity) && r == (
                colliders_overlap(colliders@[0].position, colliders@[j].position),
                Some(colliders@[0].entity),
                Some(colliders@[0].position),
            ),
{
    if colliders.len() == 0 {
        return (false, None, None);
    }
    let a = colliders[0];
    let mut j: usize = 0;
    while j < colliders.len()
        invariant
            0 <= j <= colliders.len(),
            a == colliders@[0],
            forall|k: int| 0 <= k < j ==> #[trigger] colliders@[k].entity == a.entity,
        decreases colliders.len() - j,
    {
        let b = colliders[j];
        if b.entity != a.entity {
            let overlap = collide(a.position, COLLIDER_SIZE, b.position, COLLIDER_SIZE);
            assert(b == colliders@[j as int]);
            assert(forall|k: int| 0 <= k < j ==> #[trigger] colliders@[k].entity == colliders@[0].entity);
            return (overlap, Some(a.entity), Some(a.position));
        }
        j = j + 1;
    }
    (false, None, None)
}

/// Hit `i` on `t` comes from a projectile that strikes it.
proof fn lemma_hit_on_origin(t: Target, ps: Seq<ProjectileBody>, i: int)
    requires
        0 <= i < hits_on(t, ps).len(),
    ensures
        exists|b: int|
            #![trigger ps[b]]
            0 <= b < ps.len() && strikes(t, ps[b]) && hits_on(t, ps)[i] == hit_of(t, ps[b]),
    decreases ps.len(),
{
    let rest = ps.drop_last();
    if i < hits_on(t, rest).len() {
        lemma_hit_on_origin(t, rest, i);
        let b = choose|b: int|
            #![trigger rest[b]]
            0 <= b < rest.len() && strikes(t, rest[b]) && hits_on(t, rest)[i] == hit_of(t, rest[b]);
        assert(ps[b] == rest[b]);
    } else {
        let b = ps.len() - 1;
        assert(ps[b] == ps.last());
    }
}

/// Hit `i` of the projectile check comes from a target and a projectile that
/// strikes it: the projectile is not the target, was not fired by it, and
/// overlaps it.
pub proof fn lemma_hit_origin(ts: Seq<Target>, ps: Seq<ProjectileBody>, i: int)
    requires
        0 <= i < projectile_hits(ts, ps).len(),
    ensures
        exists|a: int, b: int|
            #![trigger ts[a], ps[b]]
            0 <= a < ts.len() && 0 <= b < ps.len() && strikes(ts[a], ps[b]) && projectile_hits(
                ts,
                ps,
            )[i] == hit_of(ts[a], ps[b]),
    decreases ts.len(),
{
    let rest = ts.drop_last();
    let left = projectile_hits(rest, ps);
    let right = hits_on(ts.last(), ps);
    if i < left.len() {
        lemma_hit_origin(rest, ps, i);
        let (a, b) = choose|a: int, b: int|
            #![trigger rest[a], ps[b]]
            0 <= a < rest.len() && 0 <= b < ps.len() && strikes(rest[a], ps[b]) && left[i]
                == hit_of(rest[a], ps[b]);
        assert(ts[a] == rest[a]);
    } else {
        let k = i - left.len();
        lemma_hit_on_origin(ts.last(), ps, k);
        let b = choose|b: int|
            #![trigger ps[b]]
            0 <= b < ps.len() && strikes(ts.last(), ps[b]) && right[k] == hit_of(ts.last(), ps[b]);
        let a = ts.len() - 1;
        assert(ts[a] == ts.last());
    }
}

/// A projectile never damages the entity that fired it: every hit names a
/// projectile of the input with that source, and a target other than it.
pub proof fn lemma_projectile_spares_its_source(ts: Seq<Target>, ps: Seq<ProjectileBody>)
    ensures
        forall|i: int|
            #![trigger projectile_hits(ts, ps)[i]]
            0 <= i < projectile_hits(ts, ps).len() ==> {
                let h = projectile_hits(ts, ps)[i];
                &&& h.event.target != h.source
                &&& exists|b: int|
                    #![trigger ps[b]]
                    0 <= b < ps.len() && ps[b].entity == h.projectile && ps[b].source == h.source
            },
{
    assert forall|i: int| 0 <= i < projectile_hits(ts, ps).len() implies {
        let h = #[trigger] projectile_hits(ts, ps)[i];
        &&& h.event.target != h.source
        &&& exists|b: int|
            #![trigger ps[b]]
            0 <= b < ps.len() && ps[b].entity == h.projectile && ps[b].source == h.source
    } by {
        lemma_hit_origin(ts, ps, i);
    }
}

} // verus!
