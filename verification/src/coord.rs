//! Grid coordinates, grid sizes and circular ranges.

use vstd::prelude::*;

verus! {

/// The longest side a grid may have.
///
/// The line-of-sight scan multiplies doubled cell offsets by doubled depths in
/// 32-bit signed arithmetic; with both factors below `2 * MAX_SIDE + 4` the
/// products stay below `2^31`.
pub const MAX_SIDE: u16 = 16384;

/// A cell position: `x` grows to the right, `y` grows downwards, and the cell
/// in the top-left corner of a grid is `(0, 0)`.
#[derive(Clone, Copy, Debug, PartialEq, Eq, Hash, Structural)]
pub struct Coordinate {
    pub x: i32,
    pub y: i32,
}

impl Coordinate {
    pub fn new(x: i32, y: i32) -> (c: Coordinate)
        ensures
            c == (Coordinate { x, y }),
    {
        Coordinate { x, y }
    }

    /// The squared Euclidean distance between two positions.
    pub open spec fn distance2_spec(self, other: Coordinate) -> int {
        (self.x - other.x) * (self.x - other.x) + (self.y - other.y) * (self.y - other.y)
    }

    pub fn distance2(self, other: Coordinate) -> (d: u128)
        ensures
            d == self.distance2_spec(other),
    {
        let dx: i128 = self.x as i128 - other.x as i128;
        let dy: i128 = self.y as i128 - other.y as i128;
        assert(dx * dx <= 0x1_0000_0000 * 0x1_0000_0000 && dx * dx >= 0) by (nonlinear_arith)
            requires
                -0x1_0000_0000 <= dx <= 0x1_0000_0000,
        ;
        assert(dy * dy <= 0x1_0000_0000 * 0x1_0000_0000 && dy * dy >= 0) by (nonlinear_arith)
            requires
                -0x1_0000_0000 <= dy <= 0x1_0000_0000,
        ;
        (dx * dx + dy * dy) as u128
    }

    /// The position `dx` to the right of and `dy` below this one, where that
    /// position can be written in 32 bits.
    pub fn checked_offset(self, dx: i32, dy: i32) -> (moved: Option<Coordinate>)
        ensures
            match moved {
                Some(c) => c.x == self.x + dx && c.y == self.y + dy,
                None => !(i32::MIN <= self.x + dx <= i32::MAX && i32::MIN <= self.y + dy
                    <= i32::MAX),
            },
    {
        let x: i64 = self.x as i64 + dx as i64;
        let y: i64 = self.y as i64 + dy as i64;
        if x < i32::MIN as i64 || x > i32::MAX as i64 || y < i32::MIN as i64 || y
            > i32::MAX as i64 {
            None
        } else {
            Some(Coordinate { x: x as i32, y: y as i32 })
        }
    }
}

/// One of the four directions along the axes of the grid.
#[derive(Debug, Clone, Copy, PartialEq, Eq, Hash, Structural)]
pub enum CardinalDirection {
    North,
    East,
    South,
    West,
}

impl CardinalDirection {
    /// The step of one cell in this direction; north is up, towards
    /// smaller `y`.
    pub open spec fn coord_spec(self) -> Coordinate {
        match self {
            CardinalDirection::North => Coordinate { x: 0, y: -1i32 },
            CardinalDirection::East => Coordinate { x: 1, y: 0 },
            CardinalDirection::South => Coordinate { x: 0, y: 1 },
            CardinalDirection::West => Coordinate { x: -1i32, y: 0 },
        }
    }

    #[verifier::when_used_as_spec(coord_spec)]
    pub fn coord(self) -> (step: Coordinate)
        ensures
            step == self.coord_spec(),
    {
        match self {
            CardinalDirection::North => Coordinate { x: 0, y: -1 },
            CardinalDirection::East => Coordinate { x: 1, y: 0 },
            CardinalDirection::South => Coordinate { x: 0, y: 1 },
            CardinalDirection::West => Coordinate { x: -1, y: 0 },
        }
    }
}

/// The width and height of a grid, in cells.
#[derive(Clone, Copy, Debug, PartialEq, Eq, Hash, Structural)]
pub struct GridSize {
    pub width: u16,
    pub height: u16,
}

impl GridSize {
    /// Neither side is longer than [`MAX_SIDE`].
    pub open spec fn wf(self) -> bool {
        self.width <= MAX_SIDE && self.height <= MAX_SIDE
    }

    /// A size of `width` by `height` cells, unless a side is longer than
    /// [`MAX_SIDE`].
    pub fn new(width: u16, height: u16) -> (size: Option<GridSize>)
        ensures
            size == if width <= MAX_SIDE && height <= MAX_SIDE {
                Some(GridSize { width, height })
            } else {
                None
            },
    {
        if width <= MAX_SIDE && height <= MAX_SIDE {
            Some(GridSize { width, height })
        } else {
            None
        }
    }

    pub fn width(self) -> (w: u16)
        ensures
            w == self.width,
    {
        self.width
    }

    pub fn height(self) -> (h: u16)
        ensures
            h == self.height,
    {
        self.height
    }

    /// The number of cells.
    pub open spec fn count_spec(self) -> nat {
        (self.width * self.height) as nat
    }

    pub fn count(self) -> (n: usize)
        requires
            self.wf(),
        ensures
            n == self.count_spec(),
    {
        assert(self.width * self.height <= 16384 * 16384) by (nonlinear_arith)
            requires
                0 <= self.width <= 16384,
                0 <= self.height <= 16384,
        ;
        (self.width as usize) * (self.height as usize)
    }

    /// Whether `coord` names a cell of a grid of this size.
    pub open spec fn contains_spec(self, coord: Coordinate) -> bool {
        0 <= coord.x < self.width && 0 <= coord.y < self.height
    }

    #[verifier::when_used_as_spec(contains_spec)]
    pub fn contains(self, coord: Coordinate) -> (inside: bool)
        ensures
            inside == self.contains_spec(coord),
    {
        0 <= coord.x && coord.x < self.width as i32 && 0 <= coord.y && coord.y
            < self.height as i32
    }

    /// Whether `coord` names a cell of a grid of this size or a place one
    /// step beside it.
    pub open spec fn borders_spec(self, coord: Coordinate) -> bool {
        -1 <= coord.x <= self.width && -1 <= coord.y <= self.height
    }

    #[verifier::when_used_as_spec(borders_spec)]
    pub fn borders(self, coord: Coordinate) -> (near: bool)
        ensures
            near == self.borders_spec(coord),
    {
        -1 <= coord.x && coord.x <= self.width as i32 && -1 <= coord.y && coord.y
            <= self.height as i32
    }

    /// The place of `coord` in row-major order.
    pub open spec fn index_spec(self, coord: Coordinate) -> int {
        coord.y * self.width + coord.x
    }

    /// The cell at place `index` in row-major order.
    pub open spec fn coord_spec(self, index: int) -> Coordinate {
        Coordinate { x: (index % (self.width as int)) as i32, y: (index / (self.width as int)) as i32 }
    }

    pub fn index_of(self, coord: Coordinate) -> (index: usize)
        requires
            self.wf(),
            self.contains(coord),
        ensures
            index == self.index_spec(coord),
            index < self.count_spec(),
    {
        proof {
            self.lemma_index_in_range(coord);
        }
        assert(coord.y * self.width <= 16384 * 16384 && coord.y * self.width >= 0)
            by (nonlinear_arith)
            requires
                0 <= coord.y <= 16384,
                0 <= self.width <= 16384,
        ;
        (coord.y as usize) * (self.width as usize) + (coord.x as usize)
    }

    pub fn coord_of(self, index: usize) -> (coord: Coordinate)
        requires
            self.wf(),
            index < self.count_spec(),
        ensures
            coord == self.coord_spec(index as int),
            self.contains(coord),
            self.index_spec(coord) == index,
    {
        proof {
            self.lemma_coord_in_range(index as int);
        }
        let w: usize = self.width as usize;
        Coordinate { x: (index % w) as i32, y: (index / w) as i32 }
    }

    /// A cell of the grid has a place below the number of cells, and
    /// `coord_spec` leads back from that place to the cell.
    pub proof fn lemma_index_in_range(self, coord: Coordinate)
        requires
            self.contains(coord),
        ensures
            0 <= self.index_spec(coord) < self.count_spec(),
            self.coord_spec(self.index_spec(coord)) == coord,
    {
        let w = self.width as int;
        let h = self.height as int;
        let x = coord.x as int;
        let y = coord.y as int;
        assert(y * w + x < h * w && y * w >= 0) by (nonlinear_arith)
            requires
                0 <= x < w,
                0 <= y < h,
        ;
        assert(h * w == w * h) by (nonlinear_arith);
        vstd::arithmetic::div_mod::lemma_fundamental_div_mod_converse(y * w + x, w, y, x);
    }

    /// A place below the number of cells belongs to a cell of the grid, and
    /// `index_spec` leads back from that cell to the place.
    pub proof fn lemma_coord_in_range(self, index: int)
        requires
            0 <= index < self.count_spec(),
        ensures
            self.contains(self.coord_spec(index)),
            self.index_spec(self.coord_spec(index)) == index,
    {
        let w = self.width as int;
        let h = self.height as int;
        assert(w > 0) by (nonlinear_arith)
            requires
                0 <= index < w * h,
                w >= 0,
        ;
        vstd::arithmetic::div_mod::lemma_fundamental_div_mod(index, w);
        vstd::arithmetic::div_mod::lemma_mod_bound(index, w);
        let q = index / w;
        let r = index % w;
        assert(0 <= q < h) by (nonlinear_arith)
            requires
                index == w * q + r,
                0 <= r < w,
                0 <= index < w * h,
        ;
        assert(q * w + r == index) by (nonlinear_arith)
            requires
                index == w * q + r,
        ;
    }
}

/// A circular range, kept as the square of its radius: a cell is in range
/// when its squared Euclidean distance from the centre is at most that.
#[derive(Clone, Copy, Debug, PartialEq, Eq, Structural)]
pub struct Circle {
    pub distance_squared: u32,
}

impl Circle {
    pub fn new_squared(distance_squared: u32) -> (circle: Circle)
        ensures
            circle.distance_squared == distance_squared,
    {
        Circle { distance_squared }
    }

    pub fn distance_squared(self) -> (d: u32)
        ensures
            d == self.distance_squared,
    {
        self.distance_squared
    }

    /// Whether `to` lies within the circle drawn around `from`.
    pub open spec fn reaches_spec(self, from: Coordinate, to: Coordinate) -> bool {
        from.distance2_spec(to) <= self.distance_squared
    }

    #[verifier::when_used_as_spec(reaches_spec)]
    pub fn reaches(self, from: Coordinate, to: Coordinate) -> (inside: bool)
        ensures
            inside == self.reaches_spec(from, to),
    {
        from.distance2(to) <= self.distance_squared as u128
    }
}

} // verus!
