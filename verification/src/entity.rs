use vstd::prelude::*;
use crate::position::Position;

verus! {

/// Identifier of one participant in the game.
#[derive(Clone, Copy, Debug, PartialEq, Eq, Hash, Structural)]
pub struct PlayerId(pub usize);

/// Identifier of one agent (ship) on the board.
#[derive(Clone, Copy, Debug, PartialEq, Eq, Hash, Structural)]
pub struct ShipId(pub usize);

/// Anything that sits on the board: it has an owner and a position.
pub trait Entity {
    fn owner(&self) -> PlayerId;

    fn position(&self) -> Position;
}

} // verus!
