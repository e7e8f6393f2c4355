use vstd::prelude::*;
use crate::direction::Direction;
use crate::entity::ShipId;
use crate::position::Position;
use crate::position::can_offset;
use crate::position::offset_of;
use crate::position::toroidal_dist;
use crate::position::wrap;
use crate::ship::Ship;

verus! {

/// Per-turn occupancy of the toroidal grid: each cell holds the
/// identifier of the agent that currently claims it, or nothing.  The
/// table is rebuilt from the authoritative agent list once per turn,
/// then mutated as the resolver commits this participant's moves.
pub struct Navi {
    pub width: usize,
    pub height: usize,
    pub occupied: Vec<Vec<Option<ShipId>>>,
}

/// Whether `v` holds `id`.
fn contains_ship(v: &Vec<ShipId>, id: ShipId) -> (r: bool)
    ensures
        r == v@.contains(id),
{
    let mut j: usize = 0;
    while j < v.len()
        invariant
            j <= v@.len(),
            forall|k: int| 0 <= k < j as int ==> #[trigger] v@[k] != id,
        decreases v@.len() - j,
    {
        if v[j] == id {
            proof {
                assert(v@[j as int] == id);
            }
            return true;
        }
        j += 1;
    }
    false
}

/// The occupant of cell `(x, y)` after the whole of `ships` is marked
/// into an empty `w` by `h` table in list order: the last agent in the
/// list whose normalized position is `(x, y)`, or nothing.
pub open spec fn rebuilt_cell(ships: Seq<Ship>, w: int, h: int, x: int, y: int) -> Option<ShipId>
    decreases ships.len(),
{
    if ships.len() == 0 {
        None
    } else if wrap(ships.last().position.x as int, w) == x && wrap(
        ships.last().position.y as int,
        h,
    ) == y {
        Some(ships.last().id)
    } else {
        rebuilt_cell(ships.drop_last(), w, h, x, y)
    }
}

impl Navi {
    /// The grid's bounds are positive and fit in `i32`, and the table
    /// holds exactly `height` rows of `width` cells.
    pub open spec fn wf(self) -> bool {
        &&& 1 <= self.width as int <= 0x7fff_ffff
        &&& 1 <= self.height as int <= 0x7fff_ffff
        &&& self.occupied@.len() == self.height as int
        &&& forall|y: int|
            0 <= y < self.height as int ==> (#[trigger] self.occupied@[y])@.len()
                == self.width as int
    }

    /// The occupant recorded at cell `(x, y)`, in normalized
    /// coordinates.
    pub open spec fn cell(self, x: int, y: int) -> Option<ShipId>
        recommends
            self.wf(),
            0 <= x < self.width as int,
            0 <= y < self.height as int,
    {
        self.occupied@[y]@[x]
    }

    /// A horizontal coordinate reduced into `[0, width)`.
    pub open spec fn norm_x(self, v: int) -> int {
        wrap(v, self.width as int)
    }

    /// A vertical coordinate reduced into `[0, height)`.
    pub open spec fn norm_y(self, v: int) -> int {
        wrap(v, self.height as int)
    }

    /// `p` reduced componentwise into the grid.
    pub open spec fn norm_pos_spec(self, p: Position) -> Position {
        Position { x: self.norm_x(p.x as int) as i32, y: self.norm_y(p.y as int) as i32 }
    }

    /// The cell that `p` denotes holds no occupant.
    pub open spec fn vacant(self, p: Position) -> bool {
        self.cell(self.norm_x(p.x as int), self.norm_y(p.y as int)) is None
    }

    /// Reduces a position into `[0, width) x [0, height)` with floored
    /// wraparound, so `(-1, 0)` on a ten-wide grid lands on `(9, 0)`.
    /// Every lookup and every boundary-crossing comparison goes
    /// through this first.
    pub fn normalize(&self, position: &Position) -> (r: Position)
        requires
            self.wf(),
        ensures
            r == self.norm_pos_spec(*position),
            0 <= r.x < self.width,
            0 <= r.y < self.height,
    {
        let width = self.width as i32;
        let height = self.height as i32;
        proof {
            vstd::arithmetic::div_mod::lemma_mod_bound(position.x as int, width as int);
            vstd::arithmetic::div_mod::lemma_mod_bound(position.y as int, height as int);
        }
        let x = position.x.checked_rem_euclid(width).unwrap();
        let y = position.y.checked_rem_euclid(height).unwrap();
        Position { x, y }
    }

    /// `self` is `prev` with the cell that `p` denotes overwritten by
    /// `id`, and nothing else changed.
    pub open spec fn marked_from(self, prev: Navi, p: Position, id: ShipId) -> bool {
        let n = prev.norm_pos_spec(p);
        &&& self.width == prev.width
        &&& self.height == prev.height
        &&& self.cell(n.x as int, n.y as int) == Some(id)
        &&& forall|x: int, y: int|
            0 <= x < prev.width as int && 0 <= y < prev.height as int && !(x == n.x as int && y
                == n.y as int) ==> #[trigger] self.cell(x, y) == prev.cell(x, y)
    }

    /// Same grid bounds and the same occupant in every cell as `prev`.
    pub open spec fn same_as(self, prev: Navi) -> bool {
        &&& self.width == prev.width
        &&& self.height == prev.height
        &&& forall|x: int, y: int|
            0 <= x < prev.width as int && 0 <= y < prev.height as int
                ==> #[trigger] self.cell(x, y) == prev.cell(x, y)
    }

    /// An empty table over a `width` by `height` grid.
    pub fn new(width: usize, height: usize) -> (nav: Navi)
        requires
            1 <= width <= 0x7fff_ffff,
            1 <= height <= 0x7fff_ffff,
        ensures
            nav.wf(),
            nav.width == width,
            nav.height == height,
            forall|x: int, y: int|
                0 <= x < width as int && 0 <= y < height as int ==> #[trigger] nav.cell(x, y)
                    is None,
    {
        let mut occupied: Vec<Vec<Option<ShipId>>> = Vec::with_capacity(height);
        let mut y: usize = 0;
        while y < height
            invariant
                y <= height,
                occupied@.len() == y as int,
                forall|r: int|
                    0 <= r < y as int ==> (#[trigger] occupied@[r])@.len() == width as int,
                forall|r: int, c: int|
                    0 <= r < y as int && 0 <= c < width as int ==> (#[trigger] occupied@[r]@[c])
                        is None,
            decreases height - y,
        {
            let mut row: Vec<Option<ShipId>> = Vec::with_capacity(width);
            let mut x: usize = 0;
            while x < width
                invariant
                    x <= width,
                    row@.len() == x as int,
                    forall|c: int| 0 <= c < x as int ==> #[trigger] row@[c] is None,
                decreases width - x,
            {
                row.push(None);
                x += 1;
            }
            occupied.push(row);
            y += 1;
        }
        Navi { width, height, occupied }
    }

    /// Writes `v` into cell `(x, y)` of the table, already in
    /// normalized coordinates, leaving every other cell as it was.
    fn set_cell(&mut self, x: usize, y: usize, v: Option<ShipId>)
        requires
            old(self).wf(),
            x < old(self).width,
            y < old(self).height,
        ensures
            final(self).wf(),
            final(self).width == old(self).width,
            final(self).height == old(self).height,
            final(self).cell(x as int, y as int) == v,
            forall|c: int, r: int|
                0 <= c < old(self).width as int && 0 <= r < old(self).height as int && !(c
                    == x as int && r == y as int) ==> #[trigger] final(self).cell(c, r) == old(
                    self,
                ).cell(c, r),
    {
        let ghost prev = *self;
        self.occupied[y][x] = v;
        proof {
            assert forall|c: int, r: int|
                0 <= c < prev.width as int && 0 <= r < prev.height as int && !(c == x as int && r
                    == y as int) implies #[trigger] self.cell(c, r) == prev.cell(c, r) by {
                if r == y as int {
                    assert(self.occupied@[r]@ == prev.occupied@[r]@.update(x as int, v));
                } else {
                    assert(self.occupied@[r] == prev.occupied@[r]);
                }
            }
        }
    }

    /// Empties every cell.  Runs at the top of each turn, before the
    /// authoritative agent list is marked back in.
    pub fn clear(&mut self)
        requires
            old(self).wf(),
        ensures
            final(self).wf(),
            final(self).width == old(self).width,
            final(self).height == old(self).height,
            forall|x: int, y: int|
                0 <= x < old(self).width as int && 0 <= y < old(self).height as int
                    ==> #[trigger] final(self).cell(x, y) is None,
    {
        let height = self.height;
        let width = self.width;
        let mut y: usize = 0;
        while y < height
            invariant
                self.wf(),
                width == self.width,
                height == self.height,
                y <= height,
                forall|x: int, r: int|
                    0 <= x < width as int && 0 <= r < y as int ==> #[trigger] self.cell(x, r)
                        is None,
            decreases height - y,
        {
            let mut x: usize = 0;
            while x < width
                invariant
                    self.wf(),
                    width == self.width,
                    height == self.height,
                    y < height,
                    x <= width,
                    forall|c: int, r: int|
                        0 <= c < width as int && 0 <= r < y as int ==> #[trigger] self.cell(c, r)
                            is None,
                    forall|c: int| 0 <= c < x as int ==> #[trigger] self.cell(c, y as int) is None,
                decreases width - x,
            {
                self.set_cell(x, y, None);
                x += 1;
            }
            y += 1;
        }
    }

    /// The cell `position` denotes, after normalization, holds no
    /// agent of any participant.
    pub fn is_safe(&self, position: &Position) -> (r: bool)
        requires
            self.wf(),
        ensures
            r == self.vacant(*position),
    {
        let position = self.normalize(position);
        self.occupied[position.y as usize][position.x as usize].is_none()
    }

    /// The cell `position` denotes holds some agent.
    pub fn is_unsafe(&self, position: &Position) -> (r: bool)
        requires
            self.wf(),
        ensures
            r == !self.vacant(*position),
    {
        !self.is_safe(position)
    }

    /// Claims the cell `position` denotes for `ship_id`,
    /// unconditionally overwriting any prior occupant.
    pub fn mark_unsafe(&mut self, position: &Position, ship_id: ShipId)
        requires
            old(self).wf(),
        ensures
            final(self).wf(),
            final(self).marked_from(*old(self), *position, ship_id),
    {
        let position = self.normalize(position);
        self.set_cell(position.x as usize, position.y as usize, Some(ship_id));
    }

    /// Claims the cell under `ship`'s current position for `ship`.
    pub fn mark_unsafe_ship(&mut self, ship: &Ship)
        requires
            old(self).wf(),
        ensures
            final(self).wf(),
            final(self).marked_from(*old(self), ship.position, ship.id),
    {
        self.mark_unsafe(&ship.position, ship.id);
    }

    /// Rebuilds the table from the authoritative snapshot of every
    /// agent of every participant: clears all cells, then marks each
    /// agent's current cell in list order, later entries overwriting
    /// earlier ones.  Must run exactly once per turn before any query.
    pub fn update_frame(&mut self, all_ships: &Vec<Ship>)
        requires
            old(self).wf(),
        ensures
            final(self).wf(),
            final(self).width == old(self).width,
            final(self).height == old(self).height,
            forall|x: int, y: int|
                0 <= x < old(self).width as int && 0 <= y < old(self).height as int
                    ==> #[trigger] final(self).cell(x, y) == rebuilt_cell(
                    all_ships@,
                    old(self).width as int,
                    old(self).height as int,
                    x,
                    y,
                ),
    {
        self.clear();
        let ghost w = self.width as int;
        let ghost h = self.height as int;
        let mut i: usize = 0;
        while i < all_ships.len()
            invariant
                self.wf(),
                self.width as int == w,
                self.height as int == h,
                i <= all_ships.len(),
                forall|x: int, y: int|
                    0 <= x < w && 0 <= y < h ==> #[trigger] self.cell(x, y) == rebuilt_cell(
                        all_ships@.take(i as int),
                        w,
                        h,
                        x,
                        y,
                    ),
            decreases all_ships.len() - i,
        {
            self.mark_unsafe_ship(&all_ships[i]);
            proof {
                let taken = all_ships@.take(i + 1);
                assert(taken.drop_last() =~= all_ships@.take(i as int));
                assert(taken.last() == all_ships@[i as int]);
                vstd::arithmetic::div_mod::lemma_mod_bound(
                    all_ships@[i as int].position.x as int,
                    w,
                );
                vstd::arithmetic::div_mod::lemma_mod_bound(
                    all_ships@[i as int].position.y as int,
                    h,
                );
            }
            i += 1;
        }
        proof {
            assert(all_ships@.take(all_ships@.len() as int) =~= all_ships@);
        }
    }

    /// No plan already recorded this turn collides with a move from
    /// `cur` to `p`.  Plans are read pairwise from `futs` and `curs`
    /// up to the shorter of the two lengths; a collision is either a
    /// recorded plan that claims `p`'s cell, or a recorded plan out of
    /// `cur`'s cell whose owner now sits on `p`'s cell (a two-agent
    /// swap).  `p` is compared after normalization; the recorded
    /// entries are compared as given.
    pub open spec fn self_safe_spec(
        self,
        p: Position,
        cur: Position,
        futs: Seq<Position>,
        curs: Seq<Position>,
    ) -> bool {
        let nf = self.norm_pos_spec(p);
        forall|j: int|
            0 <= j < vstd::math::min(futs.len() as int, curs.len() as int) ==> !(nf
                == #[trigger] futs[j] || (cur == futs[j] && nf == curs[j]))
    }

    /// The destination `p` is acceptable for one of the caller's own
    /// agents standing on `cur`: its cell is vacant or held by one of
    /// the caller's own agents (which will itself move this turn), and
    /// the move is consistent with every plan already recorded this
    /// turn.
    pub open spec fn smart_safe_spec(
        self,
        p: Position,
        cur: Position,
        owner: Seq<ShipId>,
        futs: Seq<Position>,
        curs: Seq<Position>,
    ) -> bool {
        let nf = self.norm_pos_spec(p);
        &&& (self.cell(nf.x as int, nf.y as int) matches Some(id) ==> owner.contains(id))
        &&& self.self_safe_spec(p, cur, futs, curs)
    }

    /// Pure check of the self-consistency predicate against the two
    /// parallel sequences of already-resolved plans.  Every recorded
    /// plan is checked, not only immediate neighbours.
    pub fn is_self_safe(
        &self,
        future_position: &Position,
        current_position: &Position,
        future_positions: &Vec<Position>,
        current_positions: &Vec<Position>,
    ) -> (r: bool)
        requires
            self.wf(),
        ensures
            r == self.self_safe_spec(
                *future_position,
                *current_position,
                future_positions@,
                current_positions@,
            ),
    {
        let nf = self.normalize(future_position);
        let n = if future_positions.len() < current_positions.len() {
            future_positions.len()
        } else {
            current_positions.len()
        };
        let mut j: usize = 0;
        while j < n
            invariant
                self.wf(),
                n as int == vstd::math::min(
                    future_positions@.len() as int,
                    current_positions@.len() as int,
                ),
                j <= n,
                nf == self.norm_pos_spec(*future_position),
                forall|k: int|
                    0 <= k < j as int ==> !(nf == #[trigger] future_positions@[k] || (
                    *current_position == future_positions@[k] && nf == current_positions@[k])),
            decreases n - j,
        {
            let hit_future = nf.equal(&future_positions[j]);
            let swap = current_position.equal(&future_positions[j]) && nf.equal(
                &current_positions[j],
            );
            if hit_future || swap {
                return false;
            }
            j += 1;
        }
        true
    }

    /// Full safety check for one own agent's candidate destination,
    /// combining map occupancy, fleet ownership and the
    /// self-consistency predicate.
    pub fn is_smart_safe(
        &self,
        future_position: &Position,
        current_position: &Position,
        owner_ships: &Vec<ShipId>,
        future_positions: &Vec<Position>,
        current_positions: &Vec<Position>,
    ) -> (r: bool)
        requires
            self.wf(),
        ensures
            r == self.smart_safe_spec(
                *future_position,
                *current_position,
                owner_ships@,
                future_positions@,
                current_positions@,
            ),
    {
        let nf = self.normalize(future_position);
        proof {
            self.lemma_self_safe_norm(
                *future_position,
                *current_position,
                future_positions@,
                current_positions@,
            );
        }
        let occupier = self.occupied[nf.y as usize][nf.x as usize];
        match occupier {
            Some(ship) => {
                if contains_ship(owner_ships, ship) {
                    self.is_self_safe(&nf, current_position, future_positions, current_positions)
                } else {
                    false
                }
            },
            None => self.is_self_safe(&nf, current_position, future_positions, current_positions),
        }
    }

    /// The distance-minimizing candidate along the horizontal axis:
    /// empty when source and destination share a column, otherwise the
    /// one direction whose way round to the destination's column is
    /// shorter; on an exact tie between the direct and the wrapped way
    /// the non-wrapping direction is chosen.
    pub open spec fn x_dirs(self, s: Position, d: Position) -> Seq<Direction> {
        let w = self.width as int;
        let sx = wrap(s.x as int, w);
        let dx = wrap(d.x as int, w);
        if sx == dx {
            Seq::empty()
        } else {
            let direct = vstd::math::abs(sx - dx) as int;
            if direct <= w - direct {
                if sx < dx {
                    seq![Direction::East]
                } else {
                    seq![Direction::West]
                }
            } else {
                if sx < dx {
                    seq![Direction::West]
                } else {
                    seq![Direction::East]
                }
            }
        }
    }

    /// The distance-minimizing candidate along the vertical axis, with
    /// the same tie rule as `x_dirs`.  The vertical axis grows
    /// southward.
    pub open spec fn y_dirs(self, s: Position, d: Position) -> Seq<Direction> {
        let h = self.height as int;
        let sy = wrap(s.y as int, h);
        let dy = wrap(d.y as int, h);
        if sy == dy {
            Seq::empty()
        } else {
            let direct = vstd::math::abs(sy - dy) as int;
            if direct <= h - direct {
                if sy < dy {
                    seq![Direction::South]
                } else {
                    seq![Direction::North]
                }
            } else {
                if sy < dy {
                    seq![Direction::North]
                } else {
                    seq![Direction::South]
                }
            }
        }
    }

    /// The ranked candidate directions toward `d`: the horizontal
    /// candidate first, then the vertical one; zero, one or two
    /// entries, and zero exactly when source and destination denote
    /// the same cell.
    pub open spec fn shortest_dirs(self, s: Position, d: Position) -> Seq<Direction> {
        self.x_dirs(s, d) + self.y_dirs(s, d)
    }

    /// Every candidate direction is cardinal, never `Still`.
    pub proof fn lemma_dirs_not_still(self, s: Position, d: Position)
        ensures
            forall|i: int|
                0 <= i < self.shortest_dirs(s, d).len() ==> #[trigger] self.shortest_dirs(s, d)[i]
                    != Direction::Still,
    {
        let dirs = self.shortest_dirs(s, d);
        let xs = self.x_dirs(s, d);
        let ys = self.y_dirs(s, d);
        assert forall|i: int| 0 <= i < dirs.len() implies dirs[i] != Direction::Still by {
            if i < xs.len() {
                assert(dirs[i] == xs[i]);
            } else {
                assert(dirs[i] == ys[i - xs.len()]);
            }
        }
    }

    /// Each candidate direction is a genuine shortest step: following
    /// it takes exactly one off the wraparound distance to the
    /// destination.
    pub proof fn lemma_candidates_decrease_distance(self, s: Position, d: Position)
        requires
            self.wf(),
            can_offset(s),
        ensures
            forall|i: int|
                0 <= i < self.shortest_dirs(s, d).len() ==> toroidal_dist(
                    offset_of(s, #[trigger] self.shortest_dirs(s, d)[i]),
                    d,
                    self.width as int,
                    self.height as int,
                ) == toroidal_dist(s, d, self.width as int, self.height as int) - 1,
    {
        let w = self.width as int;
        let h = self.height as int;
        let xs = self.x_dirs(s, d);
        let ys = self.y_dirs(s, d);
        assert forall|i: int| 0 <= i < self.shortest_dirs(s, d).len() implies toroidal_dist(
            offset_of(s, self.shortest_dirs(s, d)[i]),
            d,
            w,
            h,
        ) == toroidal_dist(s, d, w, h) - 1 by {
            let dir = self.shortest_dirs(s, d)[i];
            if i < xs.len() {
                assert(dir == xs[0]);
                crate::position::lemma_axis_step(s.x as int, d.x as int, w, dir.offset_x());
                assert(offset_of(s, dir).x as int == s.x + dir.offset_x());
                assert(offset_of(s, dir).y as int == s.y as int);
            } else {
                assert(dir == ys[i - xs.len()]);
                crate::position::lemma_axis_step(s.y as int, d.y as int, h, dir.offset_y());
                assert(offset_of(s, dir).y as int == s.y + dir.offset_y());
                assert(offset_of(s, dir).x as int == s.x as int);
            }
        }
    }

    /// Ranked candidate directions from `source` toward `destination`,
    /// one per axis on which they differ, each the shorter way round
    /// the torus (ties preferring the non-wrapping direction), the
    /// horizontal candidate first.  "Unsafe" because occupancy is not
    /// consulted here: callers test each candidate in order.
    pub fn get_unsafe_moves(&self, source: &Position, destination: &Position) -> (moves: Vec<
        Direction,
    >)
        requires
            self.wf(),
        ensures
            moves@ == self.shortest_dirs(*source, *destination),
            moves@.len() <= 2,
            moves@.len() == 0 <==> self.norm_pos_spec(*source) == self.norm_pos_spec(*destination),
    {
        let ns = self.normalize(source);
        let nd = self.normalize(destination);

        let dx = if ns.x >= nd.x {
            ns.x - nd.x
        } else {
            nd.x - ns.x
        };
        let dy = if ns.y >= nd.y {
            ns.y - nd.y
        } else {
            nd.y - ns.y
        };
        let wrapped_dx = (self.width as i32) - dx;
        let wrapped_dy = (self.height as i32) - dy;

        let mut moves: Vec<Direction> = Vec::new();

        if ns.x < nd.x {
            moves.push(
                if dx <= wrapped_dx {
                    Direction::East
                } else {
                    Direction::West
                },
            );
        } else if ns.x > nd.x {
            moves.push(
                if dx <= wrapped_dx {
                    Direction::West
                } else {
                    Direction::East
                },
            );
        }

        if ns.y < nd.y {
            moves.push(
                if dy <= wrapped_dy {
                    Direction::South
                } else {
                    Direction::North
                },
            );
        } else if ns.y > nd.y {
            moves.push(
                if dy <= wrapped_dy {
                    Direction::North
                } else {
                    Direction::South
                },
            );
        }

        proof {
            assert(moves@ =~= self.shortest_dirs(*source, *destination));
        }
        moves
    }

    /// How many of the four cardinal neighbours of `p`'s cell are
    /// vacant.
    pub open spec fn safe_count(self, p: Position) -> int {
        let n = self.norm_pos_spec(p);
        (if self.vacant(offset_of(n, Direction::North)) {
            1int
        } else {
            0int
        }) + (if self.vacant(offset_of(n, Direction::South)) {
            1int
        } else {
            0int
        }) + (if self.vacant(offset_of(n, Direction::East)) {
            1int
        } else {
            0int
        }) + (if self.vacant(offset_of(n, Direction::West)) {
            1int
        } else {
            0int
        })
    }

    /// Counts the vacant cardinal neighbours of `source`'s cell.  A
    /// pure query: the decision loop uses it as the priority key that
    /// resolves most-constrained agents first.
    pub fn get_total_safe_moves(&self, source: Position) -> (count: i8)
        requires
            self.wf(),
        ensures
            count as int == self.safe_count(source),
            0 <= count <= 4,
    {
        let normalized_source = self.normalize(&source);
        let surrounding = normalized_source.get_surrounding_cardinals();
        let mut safe_moves_len: i8 = 0;
        if self.is_safe(&surrounding[0]) {
            safe_moves_len += 1;
        }
        if self.is_safe(&surrounding[1]) {
            safe_moves_len += 1;
        }
        if self.is_safe(&surrounding[2]) {
            safe_moves_len += 1;
        }
        if self.is_safe(&surrounding[3]) {
            safe_moves_len += 1;
        }
        safe_moves_len
    }

    /// The self-consistency predicate reads its candidate through
    /// normalization, so pre-normalizing the candidate does not change
    /// the verdict.
    pub proof fn lemma_self_safe_norm(
        self,
        p: Position,
        cur: Position,
        futs: Seq<Position>,
        curs: Seq<Position>,
    )
        requires
            self.wf(),
        ensures
            self.self_safe_spec(self.norm_pos_spec(p), cur, futs, curs) == self.self_safe_spec(
                p,
                cur,
                futs,
                curs,
            ),
    {
        self.lemma_normalize_idempotent(p);
    }

    /// Candidate `i` toward `destination` — one step from `ship`'s
    /// position along `shortest_dirs[i]` — passes the full safety
    /// predicate.
    pub open spec fn candidate_safe(
        self,
        ship: Ship,
        destination: Position,
        owner: Seq<ShipId>,
        futs: Seq<Position>,
        curs: Seq<Position>,
        i: int,
    ) -> bool {
        self.smart_safe_spec(
            offset_of(ship.position, self.shortest_dirs(ship.position, destination)[i]),
            ship.position,
            owner,
            futs,
            curs,
        )
    }

    /// Candidate `i` toward `destination`'s target cell is vacant on
    /// the map.
    pub open spec fn candidate_vacant(self, ship: Ship, destination: Position, i: int) -> bool {
        self.vacant(offset_of(ship.position, self.shortest_dirs(ship.position, destination)[i]))
    }

    /// Resolves one own agent's move toward `destination` under the
    /// full safety predicate.  Candidates are tried in ranked order;
    /// the first safe one is committed: its target cell is marked
    /// occupied by this agent, so agents resolved later this turn are
    /// steered away, and the caller is expected to append the
    /// (current, future) pair to the planned-position sequences.  When
    /// no candidate is safe the table is left untouched and `Still` is
    /// returned — never an error — and the caller must still record
    /// the agent's current cell as claimed, since an agent that stays
    /// put remains an obstacle.
    pub fn better_navigate(
        &mut self,
        ship: &Ship,
        destination: &Position,
        owner_ships: &Vec<ShipId>,
        future_positions: &Vec<Position>,
        current_positions: &Vec<Position>,
    ) -> (d: Direction)
        requires
            old(self).wf(),
            can_offset(ship.position),
        ensures
            final(self).wf(),
            final(self).width == old(self).width,
            final(self).height == old(self).height,
            d == Direction::Still <==> (forall|i: int|
                0 <= i < old(self).shortest_dirs(ship.position, *destination).len() ==> !old(self).candidate_safe(
                    *ship,
                    *destination,
                    owner_ships@,
                    future_positions@,
                    current_positions@,
                    i,
                )),
            d == Direction::Still ==> final(self).same_as(*old(self)),
            d != Direction::Still ==> (exists|i: int|
                0 <= i < old(self).shortest_dirs(ship.position, *destination).len() && old(self).shortest_dirs(ship.position, *destination)[i] == d && #[trigger] old(self).candidate_safe(
                    *ship,
                    *destination,
                    owner_ships@,
                    future_positions@,
                    current_positions@,
                    i,
                ) && (forall|j: int|
                    0 <= j < i ==> !old(self).candidate_safe(
                        *ship,
                        *destination,
                        owner_ships@,
                        future_positions@,
                        current_positions@,
                        j,
                    )) && final(self).marked_from(*old(self), offset_of(ship.position, d), ship.id)),
    {
        let ghost orig = *self;
        let dirs = self.get_unsafe_moves(&ship.position, destination);
        let mut k: usize = 0;
        while k < dirs.len()
            invariant
                self.wf(),
                *self == orig,
                orig == *old(self),
                orig.wf(),
                can_offset(ship.position),
                dirs@ == orig.shortest_dirs(ship.position, *destination),
                k <= dirs@.len(),
                forall|j: int|
                    0 <= j < k as int ==> !orig.candidate_safe(
                        *ship,
                        *destination,
                        owner_ships@,
                        future_positions@,
                        current_positions@,
                        j,
                    ),
            decreases dirs@.len() - k,
        {
            let direction = dirs[k];
            let target_pos = ship.position.directional_offset(direction);

            if self.is_smart_safe(
                &target_pos,
                &ship.position,
                owner_ships,
                future_positions,
                current_positions,
            ) {
                self.mark_unsafe(&target_pos, ship.id);
                proof {
                    orig.lemma_dirs_not_still(ship.position, *destination);
                    assert(orig.candidate_safe(
                        *ship,
                        *destination,
                        owner_ships@,
                        future_positions@,
                        current_positions@,
                        k as int,
                    ));
                }
                return direction;
            }
            k += 1;
        }
        Direction::Still
    }

    /// Simplified resolution against committed occupancy alone: the
    /// first ranked candidate whose target cell is map-vacant is
    /// committed and returned.  Without the planned-position
    /// sequences it cannot see same-turn swaps, only cells already
    /// claimed; it provides strictly weaker guarantees than
    /// `better_navigate`.
    pub fn naive_navigate(&mut self, ship: &Ship, destination: &Position) -> (d: Direction)
        requires
            old(self).wf(),
            can_offset(ship.position),
        ensures
            final(self).wf(),
            final(self).width == old(self).width,
            final(self).height == old(self).height,
            d == Direction::Still <==> (forall|i: int|
                0 <= i < old(self).shortest_dirs(ship.position, *destination).len() ==> !old(self).candidate_vacant(*ship, *destination, i)),
            d == Direction::Still ==> final(self).same_as(*old(self)),
            d != Direction::Still ==> (exists|i: int|
                0 <= i < old(self).shortest_dirs(ship.position, *destination).len() && old(self).shortest_dirs(ship.position, *destination)[i] == d && #[trigger] old(self).candidate_vacant(*ship, *destination, i) && (forall|j: int|
                    0 <= j < i ==> !old(self).candidate_vacant(*ship, *destination, j)) && final(self).marked_from(*old(self), offset_of(ship.position, d), ship.id)),
    {
        let ghost orig = *self;
        let dirs = self.get_unsafe_moves(&ship.position, destination);
        let mut k: usize = 0;
        while k < dirs.len()
            invariant
                self.wf(),
                *self == orig,
                orig == *old(self),
                orig.wf(),
                can_offset(ship.position),
                dirs@ == orig.shortest_dirs(ship.position, *destination),
                k <= dirs@.len(),
                forall|j: int|
                    0 <= j < k as int ==> !orig.candidate_vacant(*ship, *destination, j),
            decreases dirs@.len() - k,
        {
            let direction = dirs[k];
            let target_pos = ship.position.directional_offset(direction);

            if self.is_safe(&target_pos) {
                self.mark_unsafe(&target_pos, ship.id);
                proof {
                    orig.lemma_dirs_not_still(ship.position, *destination);
                    assert(orig.candidate_vacant(*ship, *destination, k as int));
                }
                return direction;
            }
            k += 1;
        }
        Direction::Still
    }

    /// The wraparound distance between the cells `a` and `b` denote:
    /// per axis the shorter way round the torus, summed.
    pub fn calculate_distance(&self, a: &Position, b: &Position) -> (dist: usize)
        requires
            self.wf(),
        ensures
            dist as int == toroidal_dist(*a, *b, self.width as int, self.height as int),
    {
        let na = self.normalize(a);
        let nb = self.normalize(b);
        let dx = (if na.x >= nb.x {
            na.x - nb.x
        } else {
            nb.x - na.x
        }) as usize;
        let dy = (if na.y >= nb.y {
            na.y - nb.y
        } else {
            nb.y - na.y
        }) as usize;
        let ddx = if dx <= self.width - dx {
            dx
        } else {
            self.width - dx
        };
        let ddy = if dy <= self.height - dy {
            dy
        } else {
            self.height - dy
        };
        ddx + ddy
    }

    /// The full safety predicate is at least as strict as the
    /// self-consistency predicate: a destination it accepts collides
    /// with no plan already recorded this turn.
    pub proof fn lemma_smart_safe_implies_self_safe(
        self,
        p: Position,
        cur: Position,
        owner: Seq<ShipId>,
        futs: Seq<Position>,
        curs: Seq<Position>,
    )
        ensures
            self.smart_safe_spec(p, cur, owner, futs, curs) ==> self.self_safe_spec(
                p,
                cur,
                futs,
                curs,
            ),
    {
    }

    /// No double claim: when every planned future cell in a sequence
    /// was accepted by the self-consistency predicate against the
    /// plans recorded before it — the caller appending each agent's
    /// current position before resolving it and its future cell,
    /// normalized, after — no two planned future cells coincide.
    pub proof fn lemma_no_double_claim(self, futs: Seq<Position>, curs: Seq<Position>)
        requires
            self.wf(),
            curs.len() >= futs.len(),
            forall|i: int|
                0 <= i < futs.len() ==> #[trigger] futs[i] == self.norm_pos_spec(futs[i]),
            forall|i: int|
                0 <= i < futs.len() ==> #[trigger] self.self_safe_spec(
                    futs[i],
                    curs[i],
                    futs.take(i),
                    curs.take(i + 1),
                ),
        ensures
            forall|i: int, j: int|
                #![trigger futs[i], futs[j]]
                0 <= i < j < futs.len() ==> futs[i] != futs[j],
    {
        assert forall|i: int, j: int|
            #![trigger futs[i], futs[j]]
            0 <= i < j < futs.len() implies futs[i] != futs[j] by {
            assert(self.self_safe_spec(futs[j], curs[j], futs.take(j), curs.take(j + 1)));
            assert(futs.take(j)[i] == futs[i]);
            assert(futs.take(j).len() == j);
            assert(curs.take(j + 1).len() == j + 1);
            assert(self.norm_pos_spec(futs[j]) == futs[j]);
        }
    }

    /// Stay-still obstruction: once a plan is recorded at the cell
    /// `p` denotes — in particular an agent that resolved to `Still`,
    /// recorded at its own current cell — every later safety check of
    /// `p` in the same turn fails.
    pub proof fn lemma_recorded_plan_blocks(
        self,
        p: Position,
        cur: Position,
        owner: Seq<ShipId>,
        futs: Seq<Position>,
        curs: Seq<Position>,
        j: int,
    )
        requires
            self.wf(),
            0 <= j < futs.len(),
            j < curs.len(),
            futs[j] == self.norm_pos_spec(p),
        ensures
            !self.self_safe_spec(p, cur, futs, curs),
            !self.smart_safe_spec(p, cur, owner, futs, curs),
    {
        assert(j < vstd::math::min(futs.len() as int, curs.len() as int));
        assert(self.norm_pos_spec(p) == futs[j]);
    }

    /// Normalizing twice gives the same cell as normalizing once.
    pub proof fn lemma_normalize_idempotent(self, p: Position)
        requires
            self.wf(),
        ensures
            self.norm_pos_spec(self.norm_pos_spec(p)) == self.norm_pos_spec(p),
    {
        crate::position::lemma_wrap_idempotent(p.x as int, self.width as int);
        crate::position::lemma_wrap_idempotent(p.y as int, self.height as int);
        vstd::arithmetic::div_mod::lemma_mod_bound(p.x as int, self.width as int);
        vstd::arithmetic::div_mod::lemma_mod_bound(p.y as int, self.height as int);
    }
}

/// The base nearest to `ship_position` by wraparound distance: the
/// shipyard, or one of the drop-offs.  Among bases at equal distance
/// the earliest wins — the shipyard first, then the drop-offs in the
/// given order.
pub fn get_nearest_base(
    navi: &Navi,
    ship_position: &Position,
    shipyard_position: &Position,
    dropoff_positions: &Vec<Position>,
) -> (base: Position)
    requires
        navi.wf(),
    ensures
        ({
            let bases = seq![*shipyard_position] + dropoff_positions@;
            let w = navi.width as int;
            let h = navi.height as int;
            exists|i: int|
                0 <= i < bases.len() && base == #[trigger] bases[i] && (forall|t: int|
                    0 <= t < bases.len() ==> toroidal_dist(*ship_position, base, w, h)
                        <= toroidal_dist(*ship_position, #[trigger] bases[t], w, h)) && (forall|
                    t: int,
                |
                    0 <= t < i ==> toroidal_dist(*ship_position, #[trigger] bases[t], w, h)
                        > toroidal_dist(*ship_position, base, w, h))
        }),
{
    let ghost bases = seq![*shipyard_position] + dropoff_positions@;
    let ghost w = navi.width as int;
    let ghost h = navi.height as int;
    let mut best = *shipyard_position;
    let mut best_dist = navi.calculate_distance(ship_position, shipyard_position);
    let ghost mut bi: int = 0;
    proof {
        assert(bases[0] == *shipyard_position);
    }
    let mut j: usize = 0;
    while j < dropoff_positions.len()
        invariant
            navi.wf(),
            w == navi.width as int,
            h == navi.height as int,
            bases == seq![*shipyard_position] + dropoff_positions@,
            bases.len() == 1 + dropoff_positions@.len(),
            j <= dropoff_positions@.len(),
            0 <= bi <= j as int,
            best == bases[bi],
            best_dist as int == toroidal_dist(*ship_position, best, w, h),
            forall|t: int|
                0 <= t < 1 + j as int ==> best_dist as int <= toroidal_dist(
                    *ship_position,
                    #[trigger] bases[t],
                    w,
                    h,
                ),
            forall|t: int|
                0 <= t < bi ==> toroidal_dist(*ship_position, #[trigger] bases[t], w, h)
                    > best_dist as int,
        decreases dropoff_positions@.len() - j,
    {
        let dist = navi.calculate_distance(ship_position, &dropoff_positions[j]);
        proof {
            assert(bases[j + 1] == dropoff_positions@[j as int]);
        }
        if dist < best_dist {
            best = dropoff_positions[j];
            best_dist = dist;
            proof {
                bi = j + 1;
            }
        }
        j += 1;
    }
    best
}

} // verus!
