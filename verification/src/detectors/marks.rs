//! Counting the cells of a row that carry a mark.

use vstd::prelude::*;
use crate::cell::{Cell, Color};
use crate::grid::{Grid, GridView};

verus! {

/// A property of a cell that detectors count.
#[derive(Debug, Clone, Copy, PartialEq, Eq, Structural)]
pub enum Mark {
    /// Reverse video.
    Reverse,
    /// Bold.
    Bold,
    /// A background other than the default.
    Tinted,
    /// A character of which separator lines are drawn.
    Separator,
}

/// Whether `c` is a character of which separator lines are drawn.
pub open spec fn is_separator_char(c: char) -> bool {
    c == '─' || c == '━' || c == '-' || c == '=' || c == '═' || c == '|' || c == '│'
}

impl Mark {
    /// Whether `cell` carries the mark.
    pub open spec fn on(&self, cell: Cell) -> bool {
        match *self {
            Mark::Reverse => cell.attrs.reverse,
            Mark::Bold => cell.attrs.bold,
            Mark::Tinted => cell.bg != Color::Default,
            Mark::Separator => is_separator_char(cell.character),
        }
    }

    /// Whether `cell` carries the mark.
    pub fn is_on(&self, cell: &Cell) -> (b: bool)
        ensures
            b == self.on(*cell),
    {
        match self {
            Mark::Reverse => cell.attrs.reverse,
            Mark::Bold => cell.attrs.bold,
            Mark::Tinted => match cell.bg {
                Color::Default => false,
                _ => true,
            },
            Mark::Separator => {
                let c = cell.character;
                c == '─' || c == '━' || c == '-' || c == '=' || c == '═' || c == '|' || c == '│'
            },
        }
    }
}

/// The number of cells of row `row` before column `n` that are not spaces.
pub open spec fn ink(g: GridView, row: int, n: int) -> int
    decreases n,
{
    if n <= 0 {
        0
    } else {
        ink(g, row, n - 1) + if g.at(row, n - 1).character != ' ' {
            1int
        } else {
            0int
        }
    }
}

/// The number of cells of row `row` before column `n` that are not spaces and carry
/// `mark`.
pub open spec fn marked(g: GridView, row: int, n: int, mark: Mark) -> int
    decreases n,
{
    if n <= 0 {
        0
    } else {
        marked(g, row, n - 1, mark) + if g.at(row, n - 1).character != ' ' && mark.on(
            g.at(row, n - 1),
        ) {
            1int
        } else {
            0int
        }
    }
}

/// Whether more than half of the cells of row `row` that are not spaces carry `mark`.
pub open spec fn mostly(g: GridView, row: int, mark: Mark) -> bool {
    let cols = g.dimensions.cols as int;
    ink(g, row, cols) > 0 && marked(g, row, cols, mark) > ink(g, row, cols) / 2
}

/// Whether row `row` is a separator line: it holds cells that are not spaces, and at
/// least four in five of them are separator characters.
pub open spec fn is_separator_row(g: GridView, row: int) -> bool {
    let cols = g.dimensions.cols as int;
    ink(g, row, cols) > 0 && marked(g, row, cols, Mark::Separator) * 5 >= ink(g, row, cols) * 4
}

/// For row `row`, the number of cells that are not spaces, and the number of those that
/// carry `mark`.
pub fn row_counts(grid: &Grid, row: u16, mark: Mark) -> (r: (u32, u32))
    requires
        grid.wf(),
        row < grid@.dimensions.rows,
    ensures
        r.0 == ink(grid@, row as int, grid@.dimensions.cols as int),
        r.1 == marked(grid@, row as int, grid@.dimensions.cols as int, mark),
        r.1 <= r.0 <= grid@.dimensions.cols,
{
    let dims = grid.dimensions();
    let mut total: u32 = 0;
    let mut hits: u32 = 0;
    let mut col: u16 = 0;
    while col < dims.cols
        invariant
            grid.wf(),
            dims == grid@.dimensions,
            row < dims.rows,
            col <= dims.cols,
            total == ink(grid@, row as int, col as int),
            hits == marked(grid@, row as int, col as int, mark),
            hits <= total <= col,
        decreases dims.cols - col,
    {
        match grid.cell(row, col) {
            Some(cell) => {
                if cell.character != ' ' {
                    total += 1;
                    if mark.is_on(cell) {
                        hits += 1;
                    }
                }
            },
            None => {},
        }
        col += 1;
    }
    (total, hits)
}

/// Whether more than half of the cells of row `row` that are not spaces carry `mark`.
pub fn row_mostly(grid: &Grid, row: u16, mark: Mark) -> (b: bool)
    requires
        grid.wf(),
        row < grid@.dimensions.rows,
    ensures
        b == mostly(grid@, row as int, mark),
{
    let (total, hits) = row_counts(grid, row, mark);
    total > 0 && hits > total / 2
}

/// Whether row `row` is a separator line.
pub fn is_separator_line(grid: &Grid, row: u16) -> (b: bool)
    requires
        grid.wf(),
        row < grid@.dimensions.rows,
    ensures
        b == is_separator_row(grid@, row as int),
{
    let (total, hits) = row_counts(grid, row, Mark::Separator);
    total > 0 && hits * 5 >= total * 4
}

} // verus!
