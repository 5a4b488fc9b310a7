//! Items a player can carry.

use vstd::prelude::*;
use crate::numeral::Numeral;
use crate::persistence::{Entity, GameObject, GameObjectVisitor, dispatched};

verus! {

/// A ranged weapon.
#[derive(Debug)]
pub struct Bow {
    pub damage: i32,
    pub range: Numeral,
}

impl GameObject for Bow {
    open spec fn entity(&self) -> Entity {
        Entity::Bow(*self)
    }

    /// Hands the bow to the visitor's operation for bows, and to no other.
    fn accept<V: GameObjectVisitor>(&self, visitor: &mut V) -> (r: V::Output) {
        visitor.visit_bow(self)
    }
}

} // verus!
