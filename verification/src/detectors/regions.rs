//! Groups of consecutive rows that hold text: the candidate regions of menus and tables.

use vstd::prelude::*;
use crate::geometry::Bounds;
use crate::grid::{Grid, GridView};
use crate::text::{is_blank, is_blank_chars};

verus! {

/// The least height of a region.
pub const MIN_REGION_ROWS: u16 = 2;

/// The region of the rows `start .. end` over the full width of the grid.
pub open spec fn rows_region(g: GridView, start: int, end: int) -> Bounds {
    Bounds {
        row: start as u16,
        col: 0,
        width: g.dimensions.cols,
        height: (end - start) as u16,
    }
}

/// The regions found from row `row` on, after those of `acc`, where `start` is the first
/// row of the group of rows with text that `row` continues, if any. A group is a region
/// where it is at least two rows high.
pub open spec fn regions_from(g: GridView, row: int, start: Option<int>, acc: Seq<Bounds>) -> Seq<
    Bounds,
>
    decreases g.dimensions.rows - row,
{
    if row < 0 || row >= g.dimensions.rows {
        match start {
            Some(s) => if g.dimensions.rows - s >= MIN_REGION_ROWS {
                acc.push(rows_region(g, s, g.dimensions.rows as int))
            } else {
                acc
            },
            None => acc,
        }
    } else if !is_blank(g.line(row)) {
        regions_from(
            g,
            row + 1,
            match start {
                Some(s) => Some(s),
                None => Some(row),
            },
            acc,
        )
    } else {
        match start {
            Some(s) => regions_from(
                g,
                row + 1,
                None,
                if row - s >= MIN_REGION_ROWS {
                    acc.push(rows_region(g, s, row))
                } else {
                    acc
                },
            ),
            None => regions_from(g, row + 1, None, acc),
        }
    }
}

/// The maximal groups of at least two consecutive rows that are not blank, each as a
/// region over the full width, top to bottom.
pub open spec fn content_regions(g: GridView) -> Seq<Bounds> {
    regions_from(g, 0, None, Seq::empty())
}

/// Whether every region lies on the grid, spans its full width from column 0 and is at
/// least two rows high.
pub open spec fn regions_ok(regions: Seq<Bounds>, g: GridView) -> bool {
    forall|i: int|
        0 <= i < regions.len() ==> (#[trigger] regions[i]).fits(g.dimensions) && regions[i].col
            == 0 && regions[i].width == g.dimensions.cols && regions[i].height >= MIN_REGION_ROWS
}

/// The candidate regions of the grid.
pub fn find_regions(grid: &Grid) -> (regions: Vec<Bounds>)
    requires
        grid.wf(),
    ensures
        regions@ == content_regions(grid@),
        regions_ok(regions@, grid@),
{
    let dims = grid.dimensions();
    let mut regions: Vec<Bounds> = Vec::new();
    let mut start: Option<u16> = None;
    let mut row: u16 = 0;
    while row < dims.rows
        invariant
            grid.wf(),
            dims == grid@.dimensions,
            row <= dims.rows,
            match start {
                Some(s) => s < row,
                None => true,
            },
            regions_from(
                grid@,
                row as int,
                match start {
                    Some(s) => Some(s as int),
                    None => None,
                },
                regions@,
            ) == content_regions(grid@),
            regions_ok(regions@, grid@),
        decreases dims.rows - row,
    {
        let line = grid.line(row);
        if !is_blank_chars(&line) {
            if start.is_none() {
                start = Some(row);
            }
        } else {
            match start {
                Some(s) => {
                    if row - s >= MIN_REGION_ROWS {
                        regions.push(Bounds::new(s, 0, dims.cols, row - s));
                    }
                    start = None;
                },
                None => {},
            }
        }
        row += 1;
    }
    match start {
        Some(s) => {
            if dims.rows - s >= MIN_REGION_ROWS {
                regions.push(Bounds::new(s, 0, dims.cols, dims.rows - s));
            }
        },
        None => {},
    }
    regions
}

} // verus!
