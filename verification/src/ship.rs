use vstd::prelude::*;
use crate::entity::Entity;
use crate::entity::PlayerId;
use crate::entity::ShipId;
use crate::position::Position;

verus! {

/// Read-only snapshot of one agent, as handed over by the turn's
/// authoritative state.  The core never changes an agent's recorded
/// position; it only updates the occupancy table's view of which cell
/// the agent claims.
#[derive(Clone, Copy, Debug, PartialEq, Eq, Structural)]
pub struct Ship {
    pub id: ShipId,
    pub owner: PlayerId,
    pub position: Position,
}

impl Entity for Ship {
    fn owner(&self) -> PlayerId {
        self.owner
    }

    fn position(&self) -> Position {
        self.position
    }
}

} // verus!
