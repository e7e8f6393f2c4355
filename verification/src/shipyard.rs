use vstd::prelude::*;
use crate::command::Command;
use crate::entity::Entity;
use crate::entity::PlayerId;
use crate::position::Position;

verus! {

/// The fixed structure where a participant's new agents appear.
pub struct Shipyard {
    pub owner: PlayerId,
    pub position: Position,
}

impl Shipyard {
    /// The order that produces a new agent at this shipyard.
    pub fn spawn(&self) -> (c: Command)
        ensures
            c == Command::Spawn,
    {
        Command::Spawn
    }
}

impl Entity for Shipyard {
    fn owner(&self) -> PlayerId {
        self.owner
    }

    fn position(&self) -> Position {
        self.position
    }
}

} // verus!
