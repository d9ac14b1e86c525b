//! What the player's clicks do to the world.
use vstd::prelude::*;

use crate::block::Block;
use crate::spacial::{IVec3, Side};

verus! {

/// The block face that the player points at.
#[derive(Clone, Copy, Debug, PartialEq, Eq, Structural)]
pub struct Pointing {
    pub global: IVec3,
    pub side: Side,
}

/// A change of the world.
#[derive(Clone, Copy, Debug, PartialEq, Eq, Structural)]
pub enum Modify {
    Place { global: IVec3, block: Block },
}

/// Breaking the pointed block: air takes its place.
pub fn break_block(pointing: Pointing) -> (r: Modify)
    ensures
        r == (Modify::Place { global: pointing.global, block: Block::Air }),
{
    Modify::Place { global: pointing.global, block: Block::Air }
}

/// Placing `block` against the pointed face, into the position across that
/// face. A block that collides is placed only where no collider is in the
/// way; `obstructed` tells whether one is.
pub fn place_block(pointing: Pointing, block: Block, obstructed: bool) -> (r: Option<Modify>)
    requires
        pointing.side.unit().no_overflow_add(pointing.global),
    ensures
        r is Some <==> (!block.collides() || !obstructed),
        r matches Some(m) ==> m == (Modify::Place {
            global: pointing.side.unit().sum(pointing.global),
            block,
        }),
{
    let global = pointing.side.neighbour(pointing.global);
    if !block.collides() || !obstructed {
        Some(Modify::Place { global, block })
    } else {
        None
    }
}

} // verus!
