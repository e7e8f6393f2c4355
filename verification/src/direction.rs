use vstd::prelude::*;

verus! {

/// One of the four cardinal moves on the grid, or staying in place.
///
/// Each variant carries a fixed unit offset, `Still` being `(0, 0)`.
/// The vertical axis grows southward, so `North` is `(0, -1)` and
/// `South` is `(0, 1)`.
#[derive(Clone, Copy, Debug, PartialEq, Eq, Structural)]
pub enum Direction {
    North,
    South,
    East,
    West,
    Still,
}

impl Direction {
    /// The horizontal component of this direction's unit offset.
    pub open spec fn offset_x(self) -> int {
        match self {
            Direction::East => 1,
            Direction::West => -1,
            _ => 0,
        }
    }

    /// The vertical component of this direction's unit offset.
    pub open spec fn offset_y(self) -> int {
        match self {
            Direction::South => 1,
            Direction::North => -1,
            _ => 0,
        }
    }
}

} // verus!
