use vstd::prelude::*;

verus! {

/// Position units in one pixel. A speed in pixels per second times a time in
/// microseconds is then a displacement in position units, with no rounding.
pub const UNITS_PER_PIXEL: i64 = 1_000_000;

/// Largest absolute coordinate, in position units, of a point in the world
/// (2^60). Squared distances between such points fit in `i128`.
pub const WORLD_LIMIT: i64 = 1_152_921_504_606_846_976;

/// A point or a vector in the plane, in position units.
#[derive(Clone, Copy, Debug, PartialEq, Eq, Structural)]
pub struct Point2 {
    pub x: i64,
    pub y: i64,
}

/// A point or a vector in space, in position units; `z` orders drawing.
#[derive(Clone, Copy, Debug, PartialEq, Eq, Structural)]
pub struct Point3 {
    pub x: i64,
    pub y: i64,
    pub z: i64,
}

pub open spec fn coord_in_world(c: int) -> bool {
    -WORLD_LIMIT <= c <= WORLD_LIMIT
}

impl Point2 {
    pub open spec fn in_world(self) -> bool {
        coord_in_world(self.x as int) && coord_in_world(self.y as int)
    }

    pub open spec fn extend_spec(self, z: i64) -> Point3 {
        Point3 { x: self.x, y: self.y, z }
    }

    /// The point in space above this one at height `z`.
    pub fn extend(self, z: i64) -> (r: Point3)
        ensures
            r == self.extend_spec(z),
    {
        Point3 { x: self.x, y: self.y, z }
    }
}

impl Point3 {
    pub open spec fn in_world(self) -> bool {
        coord_in_world(self.x as int) && coord_in_world(self.y as int) && coord_in_world(
            self.z as int,
        )
    }
}

} // verus!
