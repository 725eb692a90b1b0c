//! Places on the screen, in whole thousandths so that distances compare
//! exactly.

use crate::hexcoord::HexCoord;
use crate::object::Object;
use vstd::prelude::*;

verus! {

/// The largest coordinate of a cell that has a place on the screen.
pub const HEX_LIMIT: usize = 0x100_0000;

/// The largest coordinate, either way, of a place on the screen between
/// which distances are measured.
pub const SCREEN_LIMIT: i64 = 0x1000_0000_0000_0000;

/// A place on the screen, in thousandths of a cell's width.
#[derive(Copy, Clone, Debug, PartialEq, Eq, Structural)]
pub struct ScreenCoord {
    pub x: i64,
    pub y: i64,
    pub z: i64,
}

/// Whether the cell `coord` has a place on the screen.
pub open spec fn fits_screen(coord: HexCoord) -> bool {
    coord.x <= HEX_LIMIT && coord.y <= HEX_LIMIT && coord.board_size <= HEX_LIMIT
}

/// The place of the cell `coord` on the screen: the board's middle lies
/// near the screen's, a step along the first axis goes 2.15 to the right,
/// one along the second axis 1 to the right and 1.85 up.
pub open spec fn spec_from_hexcoord(coord: HexCoord) -> ScreenCoord {
    ScreenCoord {
        x: (600 + 2150 * coord.x + 1000 * coord.y - 1575 * coord.board_size) as i64,
        y: (600 + 1850 * coord.y - 925 * coord.board_size) as i64,
        z: 0,
    }
}

/// The square of the distance between `a` and `b`.
pub open spec fn spec_dist_sq(a: ScreenCoord, b: ScreenCoord) -> int {
    (a.x - b.x) * (a.x - b.x) + (a.y - b.y) * (a.y - b.y) + (a.z - b.z) * (a.z - b.z)
}

fn square_of_gap(a: i64, b: i64) -> (r: u128)
    requires
        -SCREEN_LIMIT <= a <= SCREEN_LIMIT,
        -SCREEN_LIMIT <= b <= SCREEN_LIMIT,
    ensures
        r == (a - b) * (a - b),
        r <= 0x400_0000_0000_0000_0000_0000_0000_0000,
{
    let gap: u128 = if a >= b {
        (a as i128 - b as i128) as u128
    } else {
        (b as i128 - a as i128) as u128
    };
    assert(gap * gap <= 0x2000_0000_0000_0000 * 0x2000_0000_0000_0000) by (nonlinear_arith)
        requires
            gap <= 0x2000_0000_0000_0000,
    ;
    assert(gap * gap == (a - b) * (a - b)) by (nonlinear_arith)
        requires
            gap == a - b || gap == b - a,
    ;
    gap * gap
}

impl ScreenCoord {
    /// Whether the place lies within the limit either way.
    pub open spec fn in_range(self) -> bool {
        &&& -SCREEN_LIMIT <= self.x <= SCREEN_LIMIT
        &&& -SCREEN_LIMIT <= self.y <= SCREEN_LIMIT
        &&& -SCREEN_LIMIT <= self.z <= SCREEN_LIMIT
    }

    pub fn new(x: i64, y: i64) -> (c: ScreenCoord)
        ensures
            c == (ScreenCoord { x, y, z: 0 }),
    {
        ScreenCoord { x, y, z: 0 }
    }

    pub fn from_hexcoord(coord: &HexCoord) -> (c: ScreenCoord)
        requires
            fits_screen(*coord),
        ensures
            c == spec_from_hexcoord(*coord),
            c.in_range(),
    {
        let x = coord.x as i64;
        let y = coord.y as i64;
        let s = coord.board_size as i64;
        ScreenCoord { x: 600 + 2150 * x + 1000 * y - 1575 * s, y: 600 + 1850 * y - 925 * s, z: 0 }
    }

    /// The square of the distance to `other`.
    pub fn dist_sq(&self, other: &ScreenCoord) -> (d: u128)
        requires
            self.in_range(),
            other.in_range(),
        ensures
            d == spec_dist_sq(*self, *other),
    {
        square_of_gap(self.x, other.x) + square_of_gap(self.y, other.y) + square_of_gap(
            self.z,
            other.z,
        )
    }

    /// The place that lies from this one as `other` lies from the origin.
    pub fn add(&self, other: &ScreenCoord) -> (c: ScreenCoord)
        requires
            self.in_range(),
            other.in_range(),
        ensures
            c.x == self.x + other.x,
            c.y == self.y + other.y,
            c.z == self.z + other.z,
    {
        ScreenCoord { x: self.x + other.x, y: self.y + other.y, z: self.z + other.z }
    }

    /// How this place lies from `other`.
    pub fn sub(&self, other: &ScreenCoord) -> (c: ScreenCoord)
        requires
            self.in_range(),
            other.in_range(),
        ensures
            c.x == self.x - other.x,
            c.y == self.y - other.y,
            c.z == self.z - other.z,
    {
        ScreenCoord { x: self.x - other.x, y: self.y - other.y, z: self.z - other.z }
    }

    pub fn with_x(&self, x: i64) -> (c: ScreenCoord)
        ensures
            c == (ScreenCoord { x, y: self.y, z: self.z }),
    {
        ScreenCoord { x, y: self.y, z: self.z }
    }

    pub fn with_y(&self, y: i64) -> (c: ScreenCoord)
        ensures
            c == (ScreenCoord { x: self.x, y, z: self.z }),
    {
        ScreenCoord { x: self.x, y, z: self.z }
    }

    pub fn with_z(&self, z: i64) -> (c: ScreenCoord)
        ensures
            c == (ScreenCoord { x: self.x, y: self.y, z }),
    {
        ScreenCoord { x: self.x, y: self.y, z }
    }
}

impl Object {
    /// The place on the screen of the cell the object stands on.
    pub fn get_screen_coord(&self) -> (c: ScreenCoord)
        requires
            fits_screen(self.coord),
        ensures
            c == spec_from_hexcoord(self.coord),
            c.in_range(),
    {
        ScreenCoord::from_hexcoord(&self.coord)
    }
}

} // verus!
