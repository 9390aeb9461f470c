use vstd::prelude::*;

use crate::geometry::Point3;

verus! {

/// Moves an entity in a straight line: `direction` times `speed` pixels per
/// second; with `auto_destroy` it leaves play once above the top of the screen.
#[derive(Clone, Copy, Debug, PartialEq, Eq, Structural)]
pub struct Moveable {
    pub direction: Point3,
    pub speed: i64,
    pub auto_destroy: bool,
}

/// The straight-line movement stage.
#[derive(Clone, Copy, Debug, PartialEq, Eq, Structural)]
pub struct MoveablePlugin;

/// Where an entity at `position` stands after `dt_micros` microseconds:
/// `direction * speed * dt` position units further in the plane.
pub open spec fn moved(position: Point3, m: Moveable, dt_micros: int) -> (int, int) {
    (
        position.x + m.direction.x * m.speed * dt_micros,
        position.y + m.direction.y * m.speed * dt_micros,
    )
}

pub open spec fn fits_i64(v: int) -> bool {
    i64::MIN <= v <= i64::MAX
}

impl Moveable {
    /// The move over `dt_micros` stays within the range of a coordinate.
    pub open spec fn can_advance(&self, position: Point3, dt_micros: int) -> bool {
        fits_i64(moved(position, *self, dt_micros).0) && fits_i64(moved(position, *self, dt_micros).1)
    }

    /// Whether moving from `position` over `dt_micros` stays within the range
    /// of a coordinate.
    pub fn advance_fits(&self, position: Point3, dt_micros: u64) -> (r: bool)
        ensures
            r == self.can_advance(position, dt_micros as int),
    {
        let dt = dt_micros as i128;
        proof {
            lemma_product_bound(self.direction.x as int, self.speed as int);
            lemma_product_bound(self.direction.y as int, self.speed as int);
        }
        let vx = (self.direction.x as i128) * (self.speed as i128);
        let vy = (self.direction.y as i128) * (self.speed as i128);
        let dx = match vx.checked_mul(dt) {
            Some(d) => d,
            None => return false,
        };
        let dy = match vy.checked_mul(dt) {
            Some(d) => d,
            None => return false,
        };
        let limit: i128 = 0x1_0000_0000_0000_0000;
        if dx > limit || dx < -limit || dy > limit || dy < -limit {
            return false;
        }
        let x = position.x as i128 + dx;
        let y = position.y as i128 + dy;
        i64::MIN as i128 <= x && x <= i64::MAX as i128 && i64::MIN as i128 <= y && y
            <= i64::MAX as i128
    }

    /// Moves the entity at `position` for `dt_micros` microseconds; tells
    /// whether it is to be despawned: it destroys itself above the top of a
    /// screen `screen_height` units high.
    pub fn advance(&self, position: &mut Point3, dt_micros: u64, screen_height: i64) -> (despawn: bool)
        requires
            self.can_advance(*old(position), dt_micros as int),
        ensures
            final(position).x == moved(*old(position), *self, dt_micros as int).0,
            final(position).y == moved(*old(position), *self, dt_micros as int).1,
            final(position).z == old(position).z,
            despawn == (self.auto_destroy && final(position).y > screen_height),
    {
        let dt = dt_micros as i128;
        proof {
            lemma_product_bound(self.direction.x as int, self.speed as int);
            lemma_product_bound(self.direction.y as int, self.speed as int);
        }
        let vx = (self.direction.x as i128) * (self.speed as i128);
        let vy = (self.direction.y as i128) * (self.speed as i128);
        proof {
            lemma_fitting_move(position.x as int, vx as int, dt as int);
            lemma_fitting_move(position.y as int, vy as int, dt as int);
        }
        position.x = (position.x as i128 + vx * dt) as i64;
        position.y = (position.y as i128 + vy * dt) as i64;
        self.auto_destroy && position.y > screen_height
    }
}

proof fn lemma_product_bound(a: int, b: int)
    requires
        fits_i64(a),
        fits_i64(b),
    ensures
        -0x4000_0000_0000_0000_0000_0000_0000_0000int <= a * b <= 0x4000_0000_0000_0000_0000_0000_0000_0000int,
{
    assert(-0x4000_0000_0000_0000_0000_0000_0000_0000int <= a * b <= 0x4000_0000_0000_0000_0000_0000_0000_0000int)
        by (nonlinear_arith)
        requires
            -0x8000_0000_0000_0000int <= a <= 0x8000_0000_0000_0000int,
            -0x8000_0000_0000_0000int <= b <= 0x8000_0000_0000_0000int,
    ;
}

/// A move that lands within a coordinate's range is computed without overflow.
proof fn lemma_fitting_move(p: int, v: int, dt: int)
    requires
        fits_i64(p),
        fits_i64(p + v * dt),
        0 <= dt,
    ensures
        -0x2_0000_0000_0000_0000int <= v * dt <= 0x2_0000_0000_0000_0000int,
{
}

} // verus!
