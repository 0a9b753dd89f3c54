//! Coordinates, sizes and rectangles on the terminal grid.

use vstd::prelude::*;

verus! {

/// A zero-based cell coordinate.
#[derive(Debug, Clone, Copy, PartialEq, Eq, Hash, Structural)]
pub struct Position {
    /// Row index, counted from the top.
    pub row: u16,
    /// Column index, counted from the left.
    pub col: u16,
}

impl Position {
    /// The position at `row`, `col`.
    pub fn new(row: u16, col: u16) -> (p: Self)
        ensures
            p == (Position { row, col }),
    {
        Position { row, col }
    }

    /// The top-left position.
    pub fn origin() -> (p: Self)
        ensures
            p == (Position { row: 0, col: 0 }),
    {
        Position { row: 0, col: 0 }
    }
}

/// The size of a terminal or of a region of it.
#[derive(Debug, Clone, Copy, PartialEq, Eq, Hash, Structural)]
pub struct Dimensions {
    /// Number of rows.
    pub rows: u16,
    /// Number of columns.
    pub cols: u16,
}

impl Dimensions {
    /// A size of `rows` by `cols`.
    pub fn new(rows: u16, cols: u16) -> (d: Self)
        ensures
            d == (Dimensions { rows, cols }),
    {
        Dimensions { rows, cols }
    }

    /// The number of cells, `rows * cols`, as a mathematical integer.
    pub open spec fn area(&self) -> int {
        self.rows as int * self.cols as int
    }

    /// The number of cells in a grid of this size.
    pub fn cell_count(&self) -> (n: usize)
        ensures
            n == self.area(),
    {
        proof {
            lemma_area_fits(self.rows as int, self.cols as int);
        }
        let n: u32 = self.rows as u32 * self.cols as u32;
        n as usize
    }
}

impl Default for Dimensions {
    /// The conventional 24 by 80 terminal.
    fn default() -> (d: Self)
        ensures
            d == (Dimensions { rows: 24, cols: 80 }),
    {
        Dimensions { rows: 24, cols: 80 }
    }
}

/// The product of two 16-bit quantities fits in 32 bits, with room for one more column.
pub proof fn lemma_area_fits(rows: int, cols: int)
    requires
        0 <= rows <= 0xffff,
        0 <= cols <= 0xffff,
    ensures
        0 <= rows * cols <= 0xffff * 0xffff,
        rows * cols + 0xffff < 0x1_0000_0000,
{
    assert(0 <= rows * cols <= 0xffff * 0xffff) by (nonlinear_arith)
        requires
            0 <= rows <= 0xffff,
            0 <= cols <= 0xffff,
    ;
}

/// Row-major index arithmetic: a cell inside a `rows` by `cols` grid has an index below `rows * cols`.
pub proof fn lemma_index_in_range(rows: int, cols: int, r: int, c: int)
    requires
        0 <= r < rows,
        0 <= c < cols,
    ensures
        0 <= r * cols + c < rows * cols,
        r * cols + cols <= rows * cols,
{
    assert(r * cols + cols <= rows * cols && 0 <= r * cols) by (nonlinear_arith)
        requires
            0 <= r < rows,
            0 <= c < cols,
    ;
}

/// A whole row of a `rows` by `cols` grid lies inside the row-major storage.
pub proof fn lemma_row_span(rows: int, cols: int, r: int)
    requires
        0 <= r < rows,
        0 <= cols,
    ensures
        0 <= r * cols,
        r * cols + cols <= rows * cols,
{
    assert(r * cols + cols <= rows * cols && 0 <= r * cols) by (nonlinear_arith)
        requires
            0 <= r < rows,
            0 <= cols,
    ;
}

/// A half-open rectangle of cells: rows `row .. row + height`, columns `col .. col + width`.
#[derive(Debug, Clone, Copy, PartialEq, Eq, Hash, Structural)]
pub struct Bounds {
    /// First row.
    pub row: u16,
    /// First column.
    pub col: u16,
    /// Number of columns.
    pub width: u16,
    /// Number of rows.
    pub height: u16,
}

impl Bounds {
    /// The rectangle with the given corner and extent.
    pub fn new(row: u16, col: u16, width: u16, height: u16) -> (b: Self)
        ensures
            b == (Bounds { row, col, width, height }),
    {
        Bounds { row, col, width, height }
    }

    /// Whether `pos` lies inside the rectangle.
    pub open spec fn contains_spec(&self, pos: Position) -> bool {
        &&& self.row <= pos.row
        &&& pos.row < self.row + self.height
        &&& self.col <= pos.col
        &&& pos.col < self.col + self.width
    }

    /// Whether the two rectangles share at least one cell.
    pub open spec fn intersects_spec(&self, other: Bounds) -> bool {
        &&& self.row + self.height > other.row
        &&& other.row + other.height > self.row
        &&& self.col + self.width > other.col
        &&& other.col + other.width > self.col
    }

    /// Whether the rectangle lies wholly inside `outer`.
    pub open spec fn within(&self, outer: Bounds) -> bool {
        &&& self.row >= outer.row
        &&& self.col >= outer.col
        &&& self.row + self.height <= outer.row + outer.height
        &&& self.col + self.width <= outer.col + outer.width
    }

    /// Whether the rectangle fits on a grid of the given size.
    pub open spec fn fits(&self, dims: Dimensions) -> bool {
        &&& self.row + self.height <= dims.rows
        &&& self.col + self.width <= dims.cols
    }

    /// The number of cells covered.
    pub open spec fn area(&self) -> int {
        self.width as int * self.height as int
    }

    /// Whether `pos` lies inside the rectangle.
    pub fn contains(&self, pos: &Position) -> (b: bool)
        ensures
            b == self.contains_spec(*pos),
    {
        pos.row >= self.row && (pos.row as u32) < self.row as u32 + self.height as u32
            && pos.col >= self.col && (pos.col as u32) < self.col as u32 + self.width as u32
    }

    /// Whether the two rectangles share at least one cell.
    pub fn intersects(&self, other: &Bounds) -> (b: bool)
        ensures
            b == self.intersects_spec(*other),
    {
        !(self.row as u32 + self.height as u32 <= other.row as u32 || other.row as u32
            + other.height as u32 <= self.row as u32 || self.col as u32 + self.width as u32
            <= other.col as u32 || other.col as u32 + other.width as u32 <= self.col as u32)
    }

    /// Whether the rectangle lies wholly inside `outer`.
    pub fn is_within(&self, outer: &Bounds) -> (b: bool)
        ensures
            b == self.within(*outer),
    {
        self.row >= outer.row && self.col >= outer.col && self.row as u32 + self.height as u32
            <= outer.row as u32 + outer.height as u32 && self.col as u32 + self.width as u32
            <= outer.col as u32 + outer.width as u32
    }
}

} // verus!
