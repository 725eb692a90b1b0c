//! Cells of a hexagonal board and walks between them.

use vstd::prelude::*;
use vstd::std_specs::cmp::PartialEqSpecImpl;

verus! {

/// Number of directions in which a hexagonal cell has a neighbour.
pub const DIRECTIONS: usize = 6;

/// A cell of a rhombic hexagonal board, in axial coordinates.
///
/// `board_size` is the side of the board the cell belongs to. It gives the
/// edge at which walks stop and is no part of the cell's identity.
#[derive(Debug, Clone, Copy)]
pub struct HexCoord {
    pub x: usize,
    pub y: usize,
    pub board_size: usize,
}

/// Change of the first axial coordinate by one step in direction `dir`.
///
/// Directions are numbered counter-clockwise: `dir + 1` is the direction one
/// sixth of a turn further.
pub open spec fn dir_dx(dir: int) -> int {
    if dir == 0 || dir == 5 {
        1
    } else if dir == 2 || dir == 3 {
        -1
    } else {
        0
    }
}

/// Change of the second axial coordinate by one step in direction `dir`.
pub open spec fn dir_dy(dir: int) -> int {
    if dir == 1 || dir == 2 {
        1
    } else if dir == 4 || dir == 5 {
        -1
    } else {
        0
    }
}

/// `v + d` where that lies in `[0, size)`.
pub open spec fn spec_shift(v: int, d: int, size: int) -> Option<int> {
    if 0 <= v + d < size {
        Some(v + d)
    } else {
        None
    }
}

fn shift(v: usize, d: i8, size: usize) -> (r: Option<usize>)
    requires
        -1 <= d <= 1,
    ensures
        match spec_shift(v as int, d as int, size as int) {
            Some(w) => r == Some(w as usize) && w == v + d,
            None => r.is_none(),
        },
{
    if d == 0 {
        if v < size {
            Some(v)
        } else {
            None
        }
    } else if d == 1 {
        if v < size && v + 1 < size {
            Some(v + 1)
        } else {
            None
        }
    } else {
        if v >= 1 && v - 1 < size {
            Some(v - 1)
        } else {
            None
        }
    }
}

fn dx_of(dir: usize) -> (d: i8)
    ensures
        d == dir_dx(dir as int),
{
    if dir == 0 || dir == 5 {
        1
    } else if dir == 2 || dir == 3 {
        -1
    } else {
        0
    }
}

fn dy_of(dir: usize) -> (d: i8)
    ensures
        d == dir_dy(dir as int),
{
    if dir == 1 || dir == 2 {
        1
    } else if dir == 4 || dir == 5 {
        -1
    } else {
        0
    }
}

impl HexCoord {
    pub fn new(x: usize, y: usize, board_size: usize) -> (c: HexCoord)
        ensures
            c.x == x,
            c.y == y,
            c.board_size == board_size,
    {
        HexCoord { x, y, board_size }
    }

    /// Whether the cell lies on its board.
    pub open spec fn on_board(self) -> bool {
        self.x < self.board_size && self.y < self.board_size
    }

    /// Whether two coordinates name the same cell.
    pub open spec fn same_cell(self, other: HexCoord) -> bool {
        self.x == other.x && self.y == other.y
    }

    /// The cell one step away in direction `dir`, unless that step leaves
    /// the board or `dir` is no direction.
    pub open spec fn spec_neighbor(self, dir: int) -> Option<HexCoord> {
        if 0 <= dir < DIRECTIONS {
            match (
                spec_shift(self.x as int, dir_dx(dir), self.board_size as int),
                spec_shift(self.y as int, dir_dy(dir), self.board_size as int),
            ) {
                (Some(nx), Some(ny)) => Some(
                    HexCoord { x: nx as usize, y: ny as usize, board_size: self.board_size },
                ),
                _ => None,
            }
        } else {
            None
        }
    }

    /// The cell `distance` single steps away in direction `dir`: `None` as
    /// soon as one of the steps has no neighbour.
    pub open spec fn spec_get_neighbor(self, dir: int, distance: nat) -> Option<HexCoord>
        decreases distance,
    {
        if distance == 0 {
            Some(self)
        } else {
            match self.spec_neighbor(dir) {
                Some(next) => next.spec_get_neighbor(dir, (distance - 1) as nat),
                None => None,
            }
        }
    }

    /// The six directions, in counter-clockwise order.
    pub open spec fn spec_all_directions() -> Seq<usize> {
        seq![0usize, 1usize, 2usize, 3usize, 4usize, 5usize]
    }

    pub fn neighbor(&self, dir: usize) -> (r: Option<HexCoord>)
        ensures
            r == self.spec_neighbor(dir as int),
    {
        if dir >= DIRECTIONS {
            return None;
        }
        match (shift(self.x, dx_of(dir), self.board_size), shift(self.y, dy_of(dir), self.board_size)) {
            (Some(nx), Some(ny)) => Some(HexCoord { x: nx, y: ny, board_size: self.board_size }),
            _ => None,
        }
    }

    pub fn get_neighbor(&self, dir: usize, distance: usize) -> (r: Option<HexCoord>)
        ensures
            r == self.spec_get_neighbor(dir as int, distance as nat),
    {
        let mut current: HexCoord = *self;
        let mut left: usize = distance;
        while left > 0
            invariant
                self.spec_get_neighbor(dir as int, distance as nat) == current.spec_get_neighbor(
                    dir as int,
                    left as nat,
                ),
            decreases left,
        {
            match current.neighbor(dir) {
                Some(next) => {
                    current = next;
                    left = left - 1;
                },
                None => {
                    return None;
                },
            }
        }
        Some(current)
    }

    pub fn get_all_directions(&self) -> (dirs: Vec<usize>)
        ensures
            dirs@ == Self::spec_all_directions(),
    {
        let dirs: Vec<usize> = vec![0, 1, 2, 3, 4, 5];
        assert(dirs@ =~= Self::spec_all_directions());
        dirs
    }
}

impl PartialEq for HexCoord {
    fn eq(&self, other: &Self) -> (r: bool) {
        self.x == other.x && self.y == other.y
    }
}

impl Eq for HexCoord {

}

impl PartialEqSpecImpl for HexCoord {
    open spec fn obeys_eq_spec() -> bool {
        true
    }

    open spec fn eq_spec(&self, other: &Self) -> bool {
        self.x == other.x && self.y == other.y
    }
}

/// A walk that arrives has moved by `distance` times the direction's step,
/// and has stayed on the same board.
pub proof fn walk_arrives_at_offset(start: HexCoord, dir: int, distance: nat)
    requires
        start.spec_get_neighbor(dir, distance) is Some,
    ensures
        start.spec_get_neighbor(dir, distance)->0.x == start.x + distance * dir_dx(dir),
        start.spec_get_neighbor(dir, distance)->0.y == start.y + distance * dir_dy(dir),
        start.spec_get_neighbor(dir, distance)->0.board_size == start.board_size,
        distance > 0 ==> start.spec_get_neighbor(dir, distance)->0.on_board(),
    decreases distance,
{
    if distance > 0 {
        let next = start.spec_neighbor(dir)->0;
        walk_arrives_at_offset(next, dir, (distance - 1) as nat);
        assert(distance * dir_dx(dir) == dir_dx(dir) + (distance - 1) * dir_dx(dir))
            by (nonlinear_arith);
        assert(distance * dir_dy(dir) == dir_dy(dir) + (distance - 1) * dir_dy(dir))
            by (nonlinear_arith);
    }
}

/// Every single step inside the board can be taken back: the opposite
/// direction is three further round.
pub proof fn step_can_be_undone(start: HexCoord, dir: int)
    requires
        start.on_board(),
        start.spec_neighbor(dir) is Some,
    ensures
        start.spec_neighbor(dir)->0.spec_neighbor((dir + 3) % 6) == Some(start),
{
}

} // verus!
