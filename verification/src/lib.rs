//! Toroidal navigation and collision avoidance for turn-based grids.
//!
//! The crate models a rectangular grid whose axes wrap around, an
//! occupancy table rebuilt once per turn from the positions of every
//! agent on the board, and a greedy, priority-ordered resolver that
//! turns "this agent wants to reach that destination" into a single
//! collision-free step.  The safety predicates guarantee that agents
//! resolved one after another within a turn never claim the same cell
//! and never swap cells mid-transit.

pub mod command;
pub mod direction;
pub mod entity;
pub mod navi;
pub mod position;
pub mod ship;
pub mod shipyard;
