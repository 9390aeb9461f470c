use vstd::prelude::*;

use crate::geometry::{Point2, Point3, UNITS_PER_PIXEL, WORLD_LIMIT};

verus! {

/// Height at which path followers fly.
pub const PATH_Z: i64 = 100 * UNITS_PER_PIXEL;

/// Largest speed, in position units per tick, of a path follower (2^59).
pub const MAX_PATH_SPEED: i64 = 576_460_752_303_423_488;

/// Largest absolute coordinate of a path follower (2^61): it may overshoot
/// a waypoint of the world by up to one step.
pub const FOLLOWER_LIMIT: i64 = 2_305_843_009_213_693_952;

/// Walks an entity along `move_positions`, one waypoint after the other,
/// `movement_speed` position units per tick; `next_path_index` is the
/// waypoint it heads for.
pub struct PathMoveable {
    pub next_path_index: usize,
    pub move_positions: Vec<Point2>,
    pub movement_speed: i64,
}

/// The path-following stage.
#[derive(Clone, Copy, Debug, PartialEq, Eq, Structural)]
pub struct PathMovementPlugin;

/// A path follower in play: its id, where it stands, and its path.
pub struct PathFollower {
    pub entity: u64,
    pub position: Point3,
    pub path: PathMoveable,
}

pub open spec fn near_world(p: Point3) -> bool {
    &&& -FOLLOWER_LIMIT <= p.x <= FOLLOWER_LIMIT
    &&& -FOLLOWER_LIMIT <= p.y <= FOLLOWER_LIMIT
    &&& -FOLLOWER_LIMIT <= p.z <= FOLLOWER_LIMIT
}

impl PathMoveable {
    /// Heads for an existing waypoint of the world at a speed in bounds.
    pub open spec fn well_formed(&self) -> bool {
        &&& self.next_path_index < self.move_positions@.len()
        &&& forall|i: int|
            0 <= i < self.move_positions@.len() ==> (#[trigger] self.move_positions@[i]).in_world()
        &&& 0 <= self.movement_speed <= MAX_PATH_SPEED
    }

    /// The point in space of the waypoint the follower heads for.
    pub open spec fn target(&self) -> Point3 {
        self.move_positions@[self.next_path_index as int].extend_spec(PATH_Z)
    }

    /// The waypoint the follower heads for after one tick at `position`.
    pub open spec fn next_index(&self, position: Point3) -> int {
        if reached(position, self.target(), self.movement_speed as int) {
            self.next_path_index + 1
        } else {
            self.next_path_index as int
        }
    }

    /// Where the follower stands after one tick at `position`: on reaching
    /// its waypoint it stays put, else it steps toward the waypoint.
    pub open spec fn next_position(&self, position: Point3) -> Point3 {
        let target = self.target();
        if reached(position, target, self.movement_speed as int) {
            position
        } else {
            step_toward(position, target, self.movement_speed as int, sqrt_floor(sq_dist(position, target)))
        }
    }

    /// Whether the follower can take a step from `position`: it heads for an
    /// existing waypoint of the world, at a speed in bounds, from near the world.
    pub fn can_step(&self, position: Point3) -> (r: bool)
        ensures
            r == (self.well_formed() && near_world(position)),
    {
        if self.next_path_index >= self.move_positions.len() || self.movement_speed < 0
            || self.movement_speed > MAX_PATH_SPEED {
            return false;
        }
        let mut i: usize = 0;
        while i < self.move_positions.len()
            invariant
                0 <= i <= self.move_positions@.len(),
                forall|k: int| 0 <= k < i ==> (#[trigger] self.move_positions@[k]).in_world(),
            decreases self.move_positions.len() - i,
        {
            let p = self.move_positions[i];
            if p.x < -WORLD_LIMIT || p.x > WORLD_LIMIT || p.y < -WORLD_LIMIT || p.y > WORLD_LIMIT {
                return false;
            }
            i = i + 1;
        }
        -FOLLOWER_LIMIT <= position.x && position.x <= FOLLOWER_LIMIT && -FOLLOWER_LIMIT
            <= position.y && position.y <= FOLLOWER_LIMIT && -FOLLOWER_LIMIT <= position.z
            && position.z <= FOLLOWER_LIMIT
    }

    /// Advances the follower standing at `position` by one tick, and tells
    /// whether it has gone past its last waypoint, so that it leaves play.
    pub fn step(&mut self, position: &mut Point3) -> (finished: bool)
        requires
            old(self).well_formed(),
            near_world(*old(position)),
        ensures
            final(self).next_path_index == old(self).next_index(*old(position)),
            *final(position) == old(self).next_position(*old(position)),
            final(self).move_positions == old(self).move_positions,
            final(self).movement_speed == old(self).movement_speed,
            finished == (final(self).next_path_index >= final(self).move_positions@.len()),
            !finished ==> final(self).well_formed(),
            near_world(*final(position)),
    {
        let target = self.move_positions[self.next_path_index].extend(PATH_Z);
        proof {
            assert(self.move_positions@[self.next_path_index as int].in_world());
        }
        let dx: i128 = target.x as i128 - position.x as i128;
        let dy: i128 = target.y as i128 - position.y as i128;
        let dz: i128 = target.z as i128 - position.z as i128;
        proof {
            lemma_square_small(dx as int);
            lemma_square_small(dy as int);
            lemma_square_small(dz as int);
        }
        let dot: i128 = dx * dx + dy * dy + dz * dz;
        let count = self.move_positions.len();
        let unit = UNITS_PER_PIXEL as i128;
        let threshold: i128 = unit * unit + unit * (self.movement_speed as i128);
        if dot < threshold {
            self.next_path_index = self.next_path_index + 1;
        } else {
            assert(dot >= 0) by (nonlinear_arith)
                requires
                    dot == dx * dx + dy * dy + dz * dz,
            ;
            let len = floor_sqrt(dot as u128) as i128;
            proof {
                lemma_sqrt_floor_unique(dot as int, len as int);
                lemma_axis_within_distance(dx as int, dy as int, dz as int, len as int);
            }
            let speed = self.movement_speed;
            position.x = step_axis(position.x, target.x, speed, len);
            position.y = step_axis(position.y, target.y, speed, len);
            position.z = step_axis(position.z, target.z, speed, len);
        }
        self.next_path_index >= self.move_positions.len()
    }
}

pub open spec fn sq_dist(a: Point3, b: Point3) -> int {
    (b.x - a.x) * (b.x - a.x) + (b.y - a.y) * (b.y - a.y) + (b.z - a.z) * (b.z - a.z)
}

/// A waypoint counts as reached once the squared distance to it, in square
/// pixels, is below one pixel plus the speed in pixels.
pub open spec fn reached(position: Point3, target: Point3, speed: int) -> bool {
    sq_dist(position, target) < UNITS_PER_PIXEL * UNITS_PER_PIXEL + UNITS_PER_PIXEL * speed
}

/// `r` is the square root of `n`, rounded down.
pub open spec fn is_floor_sqrt(n: int, r: int) -> bool {
    0 <= r && r * r <= n < (r + 1) * (r + 1)
}

/// The share `speed / len` of the offset `d`, rounded toward zero.
pub open spec fn scaled(d: int, speed: int, len: int) -> int {
    if d >= 0 {
        (d * speed) / len
    } else {
        -((-d * speed) / len)
    }
}

/// The square root of `n`, rounded down.
pub open spec fn sqrt_floor(n: int) -> int {
    choose|r: int| is_floor_sqrt(n, r)
}

/// `position` moved `speed` units toward `target`, whose distance rounds down
/// to `len`.
pub open spec fn step_toward(position: Point3, target: Point3, speed: int, len: int) -> Point3 {
    Point3 {
        x: (position.x + scaled(target.x - position.x, speed, len)) as i64,
        y: (position.y + scaled(target.y - position.y, speed, len)) as i64,
        z: (position.z + scaled(target.z - position.z, speed, len)) as i64,
    }
}

/// The square root of `n`, rounded down.
fn floor_sqrt(n: u128) -> (r: u128)
    ensures
        is_floor_sqrt(n as int, r as int),
        r < 0x1_0000_0000_0000_0000u128,
{
    let mut lo: u128 = 0;
    let mut hi: u128 = 0x1_0000_0000_0000_0000;
    assert(hi * hi > n) by (nonlinear_arith)
        requires
            hi == 0x1_0000_0000_0000_0000u128,
            n <= u128::MAX,
    ;
    while hi - lo > 1
        invariant
            lo < hi <= 0x1_0000_0000_0000_0000u128,
            lo * lo <= n,
            n < hi * hi,
        decreases hi - lo,
    {
        let mid = lo + (hi - lo) / 2;
        assert(mid * mid < 0x1_0000_0000_0000_0000_0000_0000_0000_0000int) by (nonlinear_arith)
            requires
                mid < 0x1_0000_0000_0000_0000u128,
        ;
        if mid * mid <= n {
            lo = mid;
        } else {
            hi = mid;
        }
    }
    assert(hi == lo + 1);
    lo
}

/// Bounds one coordinate of a step: a step no longer than the distance stays
/// between the start and the target, a longer one ends within `speed` of the
/// target.
proof fn lemma_step_bound(p: int, t: int, speed: int, len: int)
    requires
        0 <= speed,
        1 <= len,
        -len <= t - p <= len,
    ensures
        speed <= len ==> (p <= t ==> p <= p + scaled(t - p, speed, len) <= t) && (t <= p ==> t
            <= p + scaled(t - p, speed, len) <= p),
        len < speed ==> -speed <= p + scaled(t - p, speed, len) - t <= speed,
{
    let d = t - p;
    if d >= 0 {
        assert(0 <= (d * speed) / len) by (nonlinear_arith)
            requires
                0 <= d,
                0 <= speed,
                1 <= len,
        ;
        if speed <= len {
            assert((d * speed) / len <= d) by (nonlinear_arith)
                requires
                    0 <= d,
                    0 <= speed <= len,
                    1 <= len,
            ;
        } else {
            assert(d <= (d * speed) / len <= speed) by (nonlinear_arith)
                requires
                    0 <= d <= len,
                    len < speed,
                    1 <= len,
            ;
        }
    } else {
        let e = -d;
        assert(0 <= (e * speed) / len) by (nonlinear_arith)
            requires
                0 <= e,
                0 <= speed,
                1 <= len,
        ;
        if speed <= len {
            assert((e * speed) / len <= e) by (nonlinear_arith)
                requires
                    0 <= e,
                    0 <= speed <= len,
                    1 <= len,
            ;
        } else {
            assert(e <= (e * speed) / len <= speed) by (nonlinear_arith)
                requires
                    0 <= e <= len,
                    len < speed,
                    1 <= len,
            ;
        }
    }
}

proof fn lemma_square_small(d: int)
    requires
        -0x4000_0000_0000_0000int <= d <= 0x4000_0000_0000_0000int,
    ensures
        0 <= d * d <= 0x1000_0000_0000_0000_0000_0000_0000_0000int,
{
    assert(0 <= d * d <= 0x1000_0000_0000_0000_0000_0000_0000_0000int) by (nonlinear_arith)
        requires
            -0x4000_0000_0000_0000int <= d <= 0x4000_0000_0000_0000int,
    ;
}

proof fn lemma_sqrt_floor_unique(n: int, r: int)
    requires
        is_floor_sqrt(n, r),
    ensures
        sqrt_floor(n) == r,
{
    let c = sqrt_floor(n);
    assert(is_floor_sqrt(n, c));
    if c < r {
        assert((c + 1) * (c + 1) <= r * r) by (nonlinear_arith)
            requires
                0 <= c < r,
        ;
    } else if r < c {
        assert((r + 1) * (r + 1) <= c * c) by (nonlinear_arith)
            requires
                0 <= r < c,
        ;
    }
}

proof fn lemma_square_bound(d: int, n: int, len: int)
    requires
        d * d <= n,
        n < (len + 1) * (len + 1),
        0 <= len,
    ensures
        -len <= d <= len,
{
    if d > len {
        assert((len + 1) * (len + 1) <= d * d) by (nonlinear_arith)
            requires
                d >= len + 1,
                len >= 0,
        ;
    } else if d < -len {
        assert((len + 1) * (len + 1) <= d * d) by (nonlinear_arith)
            requires
                -d >= len + 1,
                len >= 0,
        ;
    }
}

/// No coordinate of an offset is longer than its length rounded down, and a
/// length of at least one pixel is at least one unit.
proof fn lemma_axis_within_distance(dx: int, dy: int, dz: int, len: int)
    requires
        is_floor_sqrt(dx * dx + dy * dy + dz * dz, len),
        dx * dx + dy * dy + dz * dz >= UNITS_PER_PIXEL * UNITS_PER_PIXEL,
    ensures
        1 <= len,
        -len <= dx <= len,
        -len <= dy <= len,
        -len <= dz <= len,
{
    let n = dx * dx + dy * dy + dz * dz;
    assert(1 <= len) by (nonlinear_arith)
        requires
            0 <= len,
            n < (len + 1) * (len + 1),
            n >= 1,
    ;
    assert(dx * dx <= n && dy * dy <= n && dz * dz <= n) by (nonlinear_arith)
        requires
            n == dx * dx + dy * dy + dz * dz,
    ;
    lemma_square_bound(dx, n, len);
    lemma_square_bound(dy, n, len);
    lemma_square_bound(dz, n, len);
}

/// One coordinate of a step toward `target`.
fn step_axis(p: i64, t: i64, speed: i64, len: i128) -> (r: i64)
    requires
        -FOLLOWER_LIMIT <= p <= FOLLOWER_LIMIT,
        -WORLD_LIMIT <= t <= WORLD_LIMIT,
        0 <= speed <= MAX_PATH_SPEED,
        1 <= len,
        -len <= t - p <= len,
    ensures
        r == p + scaled(t - p, speed as int, len as int),
        -FOLLOWER_LIMIT <= r <= FOLLOWER_LIMIT,
{
    proof {
        lemma_step_bound(p as int, t as int, speed as int, len as int);
    }
    let d: i128 = (t as i128) - (p as i128);
    let s = speed as i128;
    let step: i128 = if d >= 0 {
        assert(d * s <= 0x8000_0000_0000_0000int * 0x0800_0000_0000_0000int) by (nonlinear_arith)
            requires
                0 <= d <= 0x8000_0000_0000_0000i128,
                0 <= s <= 0x0800_0000_0000_0000i128,
        ;
        (d * s) / len
    } else {
        assert((-d) * s <= 0x8000_0000_0000_0000int * 0x0800_0000_0000_0000int) by (nonlinear_arith)
            requires
                0 <= -d <= 0x8000_0000_0000_0000i128,
                0 <= s <= 0x0800_0000_0000_0000i128,
        ;
        -(((-d) * s) / len)
    };
    (p as i128 + step) as i64
}

pub open spec fn follower_well_formed(f: PathFollower) -> bool {
    f.path.well_formed() && near_world(f.position)
}

/// The follower `f` after one tick.
pub open spec fn advanced(f: PathFollower) -> PathFollower {
    PathFollower {
        entity: f.entity,
        position: f.path.next_position(f.position),
        path: PathMoveable {
            next_path_index: f.path.next_index(f.position) as usize,
            move_positions: f.path.move_positions,
            movement_speed: f.path.movement_speed,
        },
    }
}

/// After one tick `f` has gone past its last waypoint.
pub open spec fn path_done(f: PathFollower) -> bool {
    f.path.next_index(f.position) >= f.path.move_positions@.len()
}

/// The followers still on their paths after one tick, in order.
pub open spec fn survivors(s: Seq<PathFollower>) -> Seq<PathFollower>
    decreases s.len(),
{
    if s.len() == 0 {
        seq![]
    } else if path_done(s.last()) {
        survivors(s.drop_last())
    } else {
        survivors(s.drop_last()).push(advanced(s.last()))
    }
}

/// The followers that finish their paths on this tick, in order.
pub open spec fn finished_ids(s: Seq<PathFollower>) -> Seq<u64>
    decreases s.len(),
{
    if s.len() == 0 {
        seq![]
    } else if path_done(s.last()) {
        finished_ids(s.drop_last()).push(s.last().entity)
    } else {
        finished_ids(s.drop_last())
    }
}

pub open spec fn unique_followers(s: Seq<PathFollower>) -> bool {
    forall|i: int, j: int|
        0 <= i < s.len() && 0 <= j < s.len() && i != j ==> #[trigger] s[i].entity
            != #[trigger] s[j].entity
}

/// One tick of path following: every follower moves, and those that go past
/// their last waypoint leave play; their ids are returned for despawning.
pub fn movement(followers: &mut Vec<PathFollower>) -> (despawned: Vec<u64>)
    requires
        forall|i: int| 0 <= i < old(followers)@.len() ==> follower_well_formed(#[trigger] old(followers)@[i]),
    ensures
        final(followers)@ == survivors(old(followers)@),
        despawned@ == finished_ids(old(followers)@),
        forall|i: int| 0 <= i < final(followers)@.len() ==> follower_well_formed(#[trigger] final(followers)@[i]),
{
    let ghost start = followers@;
    let mut despawned: Vec<u64> = Vec::new();
    let mut i: usize = 0;
    let ghost mut k: int = 0;
    while i < followers.len()
        invariant
            0 <= k <= start.len(),
            forall|j: int| 0 <= j < start.len() ==> follower_well_formed(#[trigger] start[j]),
            i == survivors(start.take(k)).len(),
            followers@ == survivors(start.take(k)) + start.skip(k),
            despawned@ == finished_ids(start.take(k)),
            forall|j: int| 0 <= j < i ==> follower_well_formed(#[trigger] followers@[j]),
        decreases followers.len() - i,
    {
        let ghost before = followers@;
        proof {
            assert(start.take(k + 1).drop_last() =~= start.take(k));
            assert(start.take(k + 1).last() == start[k]);
            assert(before[i as int] == start[k]);
        }
        let mut f = followers.remove(i);
        let finished = f.path.step(&mut f.position);
        proof {
            assert(f == advanced(start[k]));
        }
        if finished {
            despawned.push(f.entity);
            proof {
                assert(followers@ =~= survivors(start.take(k + 1)) + start.skip(k + 1));
            }
        } else {
            followers.insert(i, f);
            proof {
                assert(followers@ =~= survivors(start.take(k + 1)) + start.skip(k + 1));
            }
            i = i + 1;
        }
        proof {
            k = k + 1;
        }
    }
    proof {
        assert(start.take(k) =~= start) by {
            assert(followers@.len() == i);
        }
    }
    despawned
}

proof fn lemma_survivors_from(s: Seq<PathFollower>, i: int)
    requires
        0 <= i < survivors(s).len(),
    ensures
        exists|j: int| 0 <= j < s.len() && !path_done(s[j]) && #[trigger] survivors(s)[i] == advanced(s[j]),
    decreases s.len(),
{
    let rest = s.drop_last();
    if i < survivors(rest).len() {
        lemma_survivors_from(rest, i);
        let j = choose|j: int| 0 <= j < rest.len() && !path_done(rest[j]) && #[trigger] survivors(rest)[i] == advanced(rest[j]);
        assert(s[j] == rest[j]);
        assert(survivors(s)[i] == survivors(rest)[i]);
    } else {
        assert(s[s.len() - 1] == s.last());
    }
}

proof fn lemma_finished_from(s: Seq<PathFollower>, i: int)
    requires
        0 <= i < finished_ids(s).len(),
    ensures
        exists|j: int| 0 <= j < s.len() && path_done(s[j]) && #[trigger] finished_ids(s)[i] == s[j].entity,
    decreases s.len(),
{
    let rest = s.drop_last();
    if i < finished_ids(rest).len() {
        lemma_finished_from(rest, i);
        let j = choose|j: int| 0 <= j < rest.len() && path_done(rest[j]) && #[trigger] finished_ids(rest)[i] == rest[j].entity;
        assert(s[j] == rest[j]);
        assert(finished_ids(s)[i] == finished_ids(rest)[i]);
    } else {
        assert(s[s.len() - 1] == s.last());
    }
}

/// A follower that goes past the end of its path leaves play and does not
/// come back: with ids unique, no follower left after the tick carries the id
/// of one that finished.
pub proof fn lemma_finished_followers_leave(s: Seq<PathFollower>)
    requires
        unique_followers(s),
    ensures
        forall|i: int, j: int|
            0 <= i < survivors(s).len() && 0 <= j < finished_ids(s).len() ==> #[trigger] survivors(
                s,
            )[i].entity != #[trigger] finished_ids(s)[j],
{
    assert forall|i: int, j: int|
        0 <= i < survivors(s).len() && 0 <= j < finished_ids(s).len() implies #[trigger] survivors(
        s,
    )[i].entity != #[trigger] finished_ids(s)[j] by {
        lemma_survivors_from(s, i);
        lemma_finished_from(s, j);
        let a = choose|a: int| 0 <= a < s.len() && !path_done(s[a]) && #[trigger] survivors(s)[i] == advanced(s[a]);
        let b = choose|b: int| 0 <= b < s.len() && path_done(s[b]) && #[trigger] finished_ids(s)[j] == s[b].entity;
        assert(a != b);
    }
}

} // verus!
