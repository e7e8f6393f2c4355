use vstd::prelude::*;
use crate::direction::Direction;

verus! {

/// `v` reduced into `[0, m)`.  In specifications `%` on `int` is the
/// Euclidean remainder, so negative coordinates wrap toward the far
/// edge of the grid instead of truncating toward zero.
pub open spec fn wrap(v: int, m: int) -> int
    recommends
        m > 0,
{
    v % m
}

/// Wrapping an already wrapped coordinate changes nothing, so
/// normalization is idempotent.
pub proof fn lemma_wrap_idempotent(v: int, m: int)
    requires
        m > 0,
    ensures
        wrap(wrap(v, m), m) == wrap(v, m),
{
    vstd::arithmetic::div_mod::lemma_mod_twice(v, m);
}

/// The wraparound distance between coordinates `a` and `b` along one
/// axis of extent `m`: the shorter of the direct way and the way
/// round the far edge.
pub open spec fn axis_dist(a: int, b: int, m: int) -> int
    recommends
        m > 0,
{
    let d = vstd::math::abs(wrap(a, m) - wrap(b, m)) as int;
    vstd::math::min(d, m - d)
}

/// The wraparound distance between the cells `a` and `b` denote on a
/// `w` by `h` torus: per axis the shorter of the direct way and the
/// way round the far edge, summed over both axes.
pub open spec fn toroidal_dist(a: Position, b: Position, w: int, h: int) -> int
    recommends
        w > 0,
        h > 0,
{
    axis_dist(a.x as int, b.x as int, w) + axis_dist(a.y as int, b.y as int, h)
}

/// Stepping by one along an axis changes the wrapped coordinate by
/// one, modulo the axis extent.
pub proof fn lemma_wrap_step(a: int, m: int, step: int)
    requires
        m > 0,
        step == 1 || step == -1,
    ensures
        wrap(a + step, m) == wrap(wrap(a, m) + step, m),
{
    vstd::arithmetic::div_mod::lemma_fundamental_div_mod(a, m);
    let q = a / m;
    assert(a + step == m * q + (a % m + step));
    vstd::arithmetic::div_mod::lemma_mod_multiples_vanish(q, a % m + step, m);
}

/// One step along the shorter way round an axis takes exactly one off
/// that axis's wraparound distance.  `step` must be the step that the
/// shorter way calls for: toward the other coordinate when the direct
/// way is no longer than the wrapped way (the tie included), away
/// from it otherwise.
pub proof fn lemma_axis_step(a: int, b: int, m: int, step: int)
    requires
        m > 0,
        wrap(a, m) != wrap(b, m),
        ({
            let direct = vstd::math::abs(wrap(a, m) - wrap(b, m)) as int;
            if direct <= m - direct {
                step == (if wrap(a, m) < wrap(b, m) {
                    1int
                } else {
                    -1int
                })
            } else {
                step == (if wrap(a, m) < wrap(b, m) {
                    -1int
                } else {
                    1int
                })
            }
        }),
    ensures
        axis_dist(a + step, b, m) == axis_dist(a, b, m) - 1,
{
    let wa = wrap(a, m);
    let wb = wrap(b, m);
    vstd::arithmetic::div_mod::lemma_mod_bound(a, m);
    vstd::arithmetic::div_mod::lemma_mod_bound(b, m);
    lemma_wrap_step(a, m, step);
    if 0 <= wa + step < m {
        vstd::arithmetic::div_mod::lemma_small_mod((wa + step) as nat, m as nat);
        assert(wrap(a + step, m) == wa + step);
    } else if wa + step == m {
        vstd::arithmetic::div_mod::lemma_mod_self_0(m);
        assert(wrap(a + step, m) == 0);
    } else {
        assert(wa + step == -1);
        vstd::arithmetic::div_mod::lemma_mod_add_multiples_vanish(-1, m);
        vstd::arithmetic::div_mod::lemma_small_mod((m - 1) as nat, m as nat);
        assert(wrap(a + step, m) == m - 1);
    }
}

/// A point of the toroidal lattice.  The pair is meaningful only
/// modulo the grid's width and height, which the caller supplies at
/// each normalization, lookup or comparison.
#[derive(Clone, Copy, Debug, PartialEq, Eq, Structural)]
pub struct Position {
    pub x: i32,
    pub y: i32,
}

/// Both coordinates leave room for a one-step offset in `i32`.
pub open spec fn can_offset(p: Position) -> bool {
    &&& i32::MIN < p.x < i32::MAX
    &&& i32::MIN < p.y < i32::MAX
}

/// `p` shifted one step along `d`, not normalized.
pub open spec fn offset_of(p: Position, d: Direction) -> Position
    recommends
        can_offset(p),
{
    Position { x: (p.x + d.offset_x()) as i32, y: (p.y + d.offset_y()) as i32 }
}

/// The single cardinal direction whose unit offset carries `a` exactly
/// onto `b`, or `Still` when the two points are not one cardinal step
/// apart.
pub open spec fn direction_to_spec(a: Position, b: Position) -> Direction {
    if a.x == b.x && b.y == a.y + 1 {
        Direction::South
    } else if a.x == b.x && b.y == a.y - 1 {
        Direction::North
    } else if b.x == a.x + 1 && a.y == b.y {
        Direction::East
    } else if b.x == a.x - 1 && a.y == b.y {
        Direction::West
    } else {
        Direction::Still
    }
}

impl Position {
    /// The coordinate one step along `d`, deliberately left
    /// unnormalized: callers normalize at the point of use, so that
    /// repeated offsetting keeps out-of-range information.
    pub fn directional_offset(&self, d: Direction) -> (r: Position)
        requires
            can_offset(*self),
        ensures
            r == offset_of(*self, d),
            r.x == self.x + d.offset_x(),
            r.y == self.y + d.offset_y(),
    {
        let (dx, dy): (i32, i32) = match d {
            Direction::North => (0, -1),
            Direction::South => (0, 1),
            Direction::East => (1, 0),
            Direction::West => (-1, 0),
            Direction::Still => (0, 0),
        };
        Position { x: self.x + dx, y: self.y + dy }
    }

    /// Exact-match bearing: the direction that reaches `p` in one
    /// cardinal step, `Still` otherwise.  Valid only for the
    /// adjacent-cell case; distant destinations go through
    /// `Navi::get_unsafe_moves`.
    pub fn get_direction_to_position(&self, p: &Position) -> (d: Direction)
        ensures
            d == direction_to_spec(*self, *p),
    {
        let dx: i64 = self.x as i64 - p.x as i64;
        let dy: i64 = self.y as i64 - p.y as i64;
        if dx == 0 && dy == -1 {
            Direction::South
        } else if dx == 0 && dy == 1 {
            Direction::North
        } else if dx == -1 && dy == 0 {
            Direction::East
        } else if dx == 1 && dy == 0 {
            Direction::West
        } else {
            Direction::Still
        }
    }

    /// Componentwise equality of the raw, unnormalized pairs.
    pub fn equal(&self, p: &Position) -> (r: bool)
        ensures
            r == (self.x == p.x && self.y == p.y),
    {
        self.x == p.x && self.y == p.y
    }

    /// The four coordinates one step away, in the fixed order north,
    /// south, east, west.  The order is deliberate: callers that sort
    /// by a secondary key and take the first candidate rely on it for
    /// tie-breaking.
    pub fn get_surrounding_cardinals(&self) -> (r: Vec<Position>)
        requires
            can_offset(*self),
        ensures
            r@ == seq![
                offset_of(*self, Direction::North),
                offset_of(*self, Direction::South),
                offset_of(*self, Direction::East),
                offset_of(*self, Direction::West),
            ],
    {
        let mut r: Vec<Position> = Vec::new();
        r.push(self.directional_offset(Direction::North));
        r.push(self.directional_offset(Direction::South));
        r.push(self.directional_offset(Direction::East));
        r.push(self.directional_offset(Direction::West));
        proof {
            assert(r@ =~= seq![
                offset_of(*self, Direction::North),
                offset_of(*self, Direction::South),
                offset_of(*self, Direction::East),
                offset_of(*self, Direction::West),
            ]);
        }
        r
    }
}

} // verus!
