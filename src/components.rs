use vstd::prelude::*;

use crate::geometry::Point3;

verus! {

/// Hit points of an entity; the entity is destroyed once they reach zero or less.
#[derive(Clone, Copy, Debug, PartialEq, Eq, Structural)]
pub struct Health {
    pub amount: i32,
}

impl Health {
    /// Subtracts `amount` hit points.
    pub fn take_damage(&mut self, amount: i32)
        requires
            i32::MIN <= old(self).amount - amount <= i32::MAX,
        ensures
            final(self).amount == old(self).amount - amount,
    {
        self.amount = self.amount - amount;
    }

    /// Whether no hit points are left.
    pub fn is_depleted(&self) -> (r: bool)
        ensures
            r == (self.amount <= 0),
    {
        self.amount <= 0
    }
}

/// Marks the scrolling background.
#[derive(Clone, Copy, Debug, PartialEq, Eq, Structural)]
pub struct Background;

/// Marks a pick-up that the player collects by touching it.
#[derive(Clone, Copy, Debug, PartialEq, Eq, Structural)]
pub struct Collectable;

/// An entity that can be hit and damaged: its id, where it stands, its health.
#[derive(Clone, Copy, Debug, PartialEq, Eq, Structural)]
pub struct Target {
    pub entity: u64,
    pub position: Point3,
    pub health: Health,
}

/// An entity that takes part in collisions without health: its id and position.
#[derive(Clone, Copy, Debug, PartialEq, Eq, Structural)]
pub struct Body {
    pub entity: u64,
    pub position: Point3,
}

/// No entity appears twice.
pub open spec fn unique_entities(store: Seq<Target>) -> bool {
    forall|i: int, j: int|
        0 <= i < store.len() && 0 <= j < store.len() && i != j ==> #[trigger] store[i].entity
            != #[trigger] store[j].entity
}

/// Some target of the store is the entity `id`.
pub open spec fn has_entity(store: Seq<Target>, id: u64) -> bool {
    exists|i: int| 0 <= i < store.len() && #[trigger] store[i].entity == id
}

} // verus!
