use vstd::prelude::*;
use crate::direction::Direction;
use crate::entity::ShipId;

verus! {

/// A single per-turn order for the host protocol: produce a new agent
/// at the shipyard, or move one agent a single step.  `Move` with
/// `Direction::Still` is the stay-still order.
#[derive(Clone, Copy, Debug, PartialEq, Eq, Structural)]
pub enum Command {
    Spawn,
    Move(ShipId, Direction),
}

} // verus!
