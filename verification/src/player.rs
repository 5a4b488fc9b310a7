//! The player character.

use vstd::prelude::*;
use crate::numeral::Numeral;
use crate::persistence::{Entity, GameObject, GameObjectVisitor, dispatched};

verus! {

/// The player: where it stands and how much health it has left.
#[derive(Debug)]
pub struct Player {
    pub position: (Numeral, Numeral),
    pub health: i32,
}

impl GameObject for Player {
    open spec fn entity(&self) -> Entity {
        Entity::Player(*self)
    }

    /// Hands the player to the visitor's operation for players, and to no other.
    fn accept<V: GameObjectVisitor>(&self, visitor: &mut V) -> (r: V::Output) {
        visitor.visit_player(self)
    }
}

} // verus!
