//! Grid geometry: coordinates, grid sizes and the four cardinal directions.

use vstd::prelude::*;

verus! {

/// A position on the game grid. `x` grows eastward, `y` grows southward, so
/// the top-left cell of a grid is `(0, 0)`.
#[derive(Clone, Copy, Debug, PartialEq, Eq, Structural)]
pub struct Coord {
    pub x: i32,
    pub y: i32,
}

/// The dimensions of a grid, in cells.
#[derive(Clone, Copy, Debug, PartialEq, Eq, Structural)]
pub struct Size {
    pub width: u32,
    pub height: u32,
}

/// Whether the cell at `(x, y)` lies on a grid of size `s`.
pub open spec fn in_grid(s: Size, x: int, y: int) -> bool {
    0 <= x < s.width && 0 <= y < s.height
}

impl Size {
    /// Number of cells on a grid of this size.
    pub open spec fn area(self) -> nat {
        (self.width * self.height) as nat
    }

    /// Each dimension fits in an `i32`, so every in-grid coordinate is
    /// representable and one step past the edge cannot overflow.
    pub open spec fn wf(self) -> bool {
        self.width <= 0x7fff_ffff && self.height <= 0x7fff_ffff
    }

    pub fn new(width: u32, height: u32) -> (s: Size)
        ensures
            s.width == width,
            s.height == height,
    {
        Size { width, height }
    }
}

impl Coord {
    pub fn new(x: i32, y: i32) -> (c: Coord)
        ensures
            c.x == x,
            c.y == y,
    {
        Coord { x, y }
    }

    /// Whether this coordinate lies on a grid of size `s`.
    pub open spec fn in_bounds(self, s: Size) -> bool {
        in_grid(s, self.x as int, self.y as int)
    }

    pub fn is_valid(self, s: Size) -> (r: bool)
        ensures
            r == self.in_bounds(s),
    {
        self.x >= 0 && self.y >= 0 && (self.x as u32) < s.width && (self.y as u32) < s.height
    }
}

/// One of the four cardinal directions a move command can name.
#[derive(Clone, Copy, Debug, PartialEq, Eq, Structural)]
pub enum CardinalDirection {
    North,
    East,
    South,
    West,
}

/// The direction a movement key names: `w`/`a`/`s`/`d` for north, west,
/// south and east; anything else is no move command.
pub open spec fn key_direction(key: char) -> Option<CardinalDirection> {
    match key {
        'w' => Some(CardinalDirection::North),
        'a' => Some(CardinalDirection::West),
        's' => Some(CardinalDirection::South),
        'd' => Some(CardinalDirection::East),
        _ => None,
    }
}

impl CardinalDirection {
    /// Maps a movement key to the direction it commands, if any. The input
    /// driver feeds keys through this before asking for a move.
    pub fn from_key(key: char) -> (r: Option<CardinalDirection>)
        ensures
            r == key_direction(key),
    {
        match key {
            'w' => Some(CardinalDirection::North),
            'a' => Some(CardinalDirection::West),
            's' => Some(CardinalDirection::South),
            'd' => Some(CardinalDirection::East),
            _ => None,
        }
    }

    /// Horizontal component of one step in this direction.
    pub open spec fn offset_x(self) -> int {
        match self {
            CardinalDirection::East => 1,
            CardinalDirection::West => -1,
            _ => 0,
        }
    }

    /// Vertical component of one step in this direction; north is negative
    /// `y` because `y` grows southward.
    pub open spec fn offset_y(self) -> int {
        match self {
            CardinalDirection::North => -1,
            CardinalDirection::South => 1,
            _ => 0,
        }
    }

    /// The unit offset of one step in this direction.
    pub fn coord(self) -> (c: Coord)
        ensures
            c.x == self.offset_x(),
            c.y == self.offset_y(),
    {
        match self {
            CardinalDirection::North => Coord { x: 0, y: -1 },
            CardinalDirection::East => Coord { x: 1, y: 0 },
            CardinalDirection::South => Coord { x: 0, y: 1 },
            CardinalDirection::West => Coord { x: -1, y: 0 },
        }
    }
}

/// Row-major index of the cell at `(x, y)` on a grid of size `size`.
pub(crate) fn flat_index(size: Size, x: u32, y: u32) -> (i: usize)
    requires
        size.area() <= usize::MAX,
        x < size.width,
        y < size.height,
    ensures
        i == y * size.width + x,
        i < size.area(),
{
    proof {
        lemma_flat_index_bound(x as int, y as int, size.width as int, size.height as int);
    }
    (y as usize) * (size.width as usize) + (x as usize)
}

/// A cell's row-major index is below the grid's area.
pub(crate) proof fn lemma_flat_index_bound(x: int, y: int, w: int, h: int)
    requires
        0 <= x < w,
        0 <= y < h,
    ensures
        0 <= y * w + x < w * h,
{
    assert(0 <= y * w + x < w * h) by (nonlinear_arith)
        requires
            0 <= x < w,
            0 <= y < h,
    ;
}

/// Distinct in-grid cells have distinct row-major indices.
pub(crate) proof fn lemma_flat_index_injective(x1: int, y1: int, x2: int, y2: int, w: int, h: int)
    requires
        0 <= x1 < w,
        0 <= y1 < h,
        0 <= x2 < w,
        0 <= y2 < h,
    ensures
        y1 * w + x1 == y2 * w + x2 ==> x1 == x2 && y1 == y2,
{
    assert(y1 * w + x1 == y2 * w + x2 ==> x1 == x2 && y1 == y2) by (nonlinear_arith)
        requires
            0 <= x1 < w,
            0 <= y1 < h,
            0 <= x2 < w,
            0 <= y2 < h,
    ;
}

} // verus!
