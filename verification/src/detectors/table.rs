//! Tables: groups of rows whose text stands in aligned columns.

use vstd::prelude::*;
use crate::detection::{
    claimed, Confidence, DetectedElement, DetectionContext, ElementDetector,
    lemma_renumbered_well_behaved, number_elements, ref_id_text, well_behaved,
};
use crate::detectors::marks::{
    is_separator_line, is_separator_row, Mark, marked, mostly, row_counts, row_mostly,
};
use crate::detectors::regions::{content_regions, find_regions, regions_ok};
use crate::element::Element;
use crate::geometry::Bounds;
use crate::grid::{Grid, GridView};
use crate::text::{from_chars, trim, trim_chars};

verus! {

/// The least number of columns of a table.
pub const MIN_TABLE_COLUMNS: usize = 2;

/// The least number of rows of a table, the header counted.
pub const MIN_TABLE_ROWS: usize = 2;

/// A table as it is found.
pub struct TableFind {
    /// The region of the table.
    pub bounds: Bounds,
    /// The header cells; empty where the first row is a separator line.
    pub headers: Seq<Seq<char>>,
    /// The data rows.
    pub rows: Seq<Seq<Seq<char>>>,
}

/// The number of the first `n` rows of `region` that hold something other than a space
/// in column `c` of the region.
pub open spec fn occupancy(g: GridView, region: Bounds, c: int, n: int) -> int
    decreases n,
{
    if n <= 0 {
        0
    } else {
        occupancy(g, region, c, n - 1) + if g.at(region.row + n - 1, region.col + c).character
            != ' ' {
            1int
        } else {
            0int
        }
    }
}

/// Whether column `c` of `region` separates columns of text: fewer than half of the rows
/// hold something there.
pub open spec fn is_gap(g: GridView, region: Bounds, c: int) -> bool {
    occupancy(g, region, c, region.height as int) < region.height as int / 2
}

/// The last column of the run of separating columns that begins at `c`.
pub open spec fn gap_end(g: GridView, region: Bounds, c: int) -> int
    decreases region.width - c,
{
    if c + 1 < region.width && is_gap(g, region, c + 1) {
        gap_end(g, region, c + 1)
    } else {
        c
    }
}

/// The column from which on a run of separating columns counts as the empty space after
/// the table: four fifths of the width.
pub open spec fn trailing_from(width: int) -> int {
    width * 8 / 10
}

/// The columns at which the text columns of `region` begin, from column `c` on, after
/// those of `acc`: a text column begins just after the middle of each run of separating
/// columns, up to the first run that reaches into the last fifth of the width.
pub open spec fn column_starts(g: GridView, region: Bounds, c: int, acc: Seq<int>) -> Seq<int>
    decreases region.width - c,
{
    if c < 0 || c >= region.width {
        acc
    } else if !is_gap(g, region, c) {
        column_starts(g, region, c + 1, acc)
    } else {
        let e = gap_end(g, region, c);
        if e >= trailing_from(region.width as int) {
            acc
        } else if c <= e {
            column_starts(g, region, e + 1, acc.push((c + e) / 2 + 1))
        } else {
            acc
        }
    }
}

/// The columns at which the text columns of `region` begin, the first at 0; `None` where
/// there are fewer than two.
pub open spec fn columns(g: GridView, region: Bounds) -> Option<Seq<int>> {
    let starts = column_starts(g, region, 0, seq![0int]);
    if starts.len() >= MIN_TABLE_COLUMNS {
        Some(starts)
    } else {
        None
    }
}

/// The row of `region` that is taken for the header, as an offset, where one is
/// recognised: the first row, where most of it is bold, or the row below it is a
/// separator line, or it holds a cell with a background colour.
pub open spec fn header_row(g: GridView, region: Bounds) -> Option<int> {
    if mostly(g, region.row as int, Mark::Bold) {
        Some(0)
    } else if region.height > 1 && is_separator_row(g, region.row + 1) {
        Some(0)
    } else if marked(g, region.row as int, g.dimensions.cols as int, Mark::Tinted) > 0 {
        Some(0)
    } else {
        None
    }
}

/// The offset of the row whose cells are the headers: the header row where one is
/// recognised, else the first row.
pub open spec fn header_offset(g: GridView, region: Bounds) -> int {
    match header_row(g, region) {
        Some(k) => k,
        None => 0,
    }
}

/// The text of cell `i` of row `row`: what stands between the start of column `i` and
/// the start of the next, or the end of the region, without surrounding white space.
pub open spec fn cell_text(g: GridView, row: int, region: Bounds, starts: Seq<int>, i: int) -> Seq<
    char,
> {
    let start = starts[i];
    let end = if i + 1 < starts.len() {
        starts[i + 1]
    } else {
        region.width as int
    };
    trim(g.row_chars(row, region.col + start, end - start))
}

/// Whether one of `cells` holds text.
pub open spec fn any_text(cells: Seq<Seq<char>>) -> bool {
    exists|i: int| 0 <= i < cells.len() && (#[trigger] cells[i]).len() > 0
}

/// The first `n` cells of row `row`. The last cell is left out where it is empty and a
/// cell before it holds text.
pub open spec fn row_cells(g: GridView, row: int, region: Bounds, starts: Seq<int>, n: int) -> Seq<
    Seq<char>,
>
    decreases n,
{
    if n <= 0 {
        Seq::empty()
    } else {
        let before = row_cells(g, row, region, starts, n - 1);
        let content = cell_text(g, row, region, starts, n - 1);
        if n == starts.len() && content.len() == 0 && any_text(before) {
            before
        } else {
            before.push(content)
        }
    }
}

/// The header cells of the table: the cells of the header row, unless that row is a
/// separator line.
pub open spec fn table_headers(g: GridView, region: Bounds, starts: Seq<int>) -> Seq<Seq<char>> {
    let k = header_offset(g, region);
    if k < region.height && !is_separator_row(g, region.row + k) {
        row_cells(g, region.row + k, region, starts, starts.len() as int)
    } else {
        Seq::empty()
    }
}

/// The data rows among the first `n` rows of `region`: every row that is neither a
/// separator line nor the header row.
pub open spec fn table_rows(g: GridView, region: Bounds, starts: Seq<int>, n: int) -> Seq<
    Seq<Seq<char>>,
>
    decreases n,
{
    if n <= 0 {
        Seq::empty()
    } else {
        let before = table_rows(g, region, starts, n - 1);
        if is_separator_row(g, region.row + n - 1) || n - 1 == header_offset(g, region) {
            before
        } else {
            before.push(row_cells(g, region.row + n - 1, region, starts, starts.len() as int))
        }
    }
}

/// The table of `region`, if there is one: at least two columns and, the header counted,
/// at least two rows.
pub open spec fn table_in(g: GridView, region: Bounds) -> Option<TableFind> {
    match columns(g, region) {
        None => None,
        Some(starts) => {
            let headers = table_headers(g, region, starts);
            let rows = table_rows(g, region, starts, region.height as int);
            let total = rows.len() + if headers.len() > 0 {
                1int
            } else {
                0int
            };
            if total >= MIN_TABLE_ROWS {
                Some(TableFind { bounds: region, headers, rows })
            } else {
                None
            }
        },
    }
}

/// The tables of the first `n` of `regions`, claimed regions left out.
pub open spec fn tables_in(g: GridView, regions: Seq<Bounds>, claims: Seq<Bounds>, n: int) -> Seq<
    TableFind,
>
    decreases n,
{
    if n <= 0 || n > regions.len() {
        Seq::empty()
    } else {
        let before = tables_in(g, regions, claims, n - 1);
        if claimed(claims, regions[n - 1]) {
            before
        } else {
            match table_in(g, regions[n - 1]) {
                Some(t) => before.push(t),
                None => before,
            }
        }
    }
}

/// The tables that the detector reports: those of the candidate regions that are not
/// claimed, top to bottom.
pub open spec fn tables(g: GridView, claims: Seq<Bounds>) -> Seq<TableFind> {
    tables_in(g, content_regions(g), claims, content_regions(g).len() as int)
}

/// The texts of the strings.
pub open spec fn texts(cells: Seq<String>) -> Seq<Seq<char>> {
    Seq::new(cells.len(), |i: int| cells[i]@)
}

/// The texts of the rows.
pub open spec fn row_texts(rows: Seq<Vec<String>>) -> Seq<Seq<Seq<char>>> {
    Seq::new(rows.len(), |i: int| texts(rows[i]@))
}

/// Whether `e` stands for the table `f`, whatever its reference.
pub open spec fn describes_table(e: DetectedElement, f: TableFind) -> bool {
    &&& e.bounds == f.bounds
    &&& e.confidence == Confidence::Medium
    &&& e.element matches Element::Table { ref_id, bounds, headers, rows }
    &&& bounds == f.bounds
    &&& texts(headers@) == f.headers
    &&& row_texts(rows@) == f.rows
}

/// Whether `e` reports the table `f` under the number `n`.
pub open spec fn reports_table(e: DetectedElement, f: TableFind, n: nat) -> bool {
    describes_table(e, f) && e.element.id() == ref_id_text("table"@, n)
}

/// The column starts as integers.
spec fn ints(v: Seq<usize>) -> Seq<int> {
    Seq::new(v.len(), |i: int| v[i] as int)
}

/// Whether the column starts rise strictly and stay within `limit`.
spec fn rising(v: Seq<usize>, limit: int) -> bool {
    &&& forall|i: int, j: int| 0 <= i < j < v.len() ==> v[i] < v[j]
    &&& forall|i: int| 0 <= i < v.len() ==> #[trigger] v[i] <= limit
}

/// Whether column `c` of `region` separates columns of text.
fn column_is_gap(grid: &Grid, region: &Bounds, c: u16) -> (b: bool)
    requires
        grid.wf(),
        region.fits(grid@.dimensions),
        c < region.width,
    ensures
        b == is_gap(grid@, *region, c as int),
{
    let mut count: u16 = 0;
    let mut k: u16 = 0;
    while k < region.height
        invariant
            grid.wf(),
            region.fits(grid@.dimensions),
            c < region.width,
            k <= region.height,
            count == occupancy(grid@, *region, c as int, k as int),
            count <= k,
        decreases region.height - k,
    {
        match grid.cell(region.row + k, region.col + c) {
            Some(cell) => {
                if cell.character != ' ' {
                    count += 1;
                }
            },
            None => {},
        }
        k += 1;
    }
    count < region.height / 2
}

/// The columns at which the text columns of `region` begin.
fn detect_columns(grid: &Grid, region: &Bounds) -> (r: Option<Vec<usize>>)
    requires
        grid.wf(),
        region.fits(grid@.dimensions),
    ensures
        match r {
            Some(starts) => columns(grid@, *region) == Some(ints(starts@)) && rising(
                starts@,
                region.width as int,
            ) && starts@.len() >= MIN_TABLE_COLUMNS,
            None => columns(grid@, *region) is None,
        },
{
    let width = region.width;
    let limit: u32 = width as u32 * 8 / 10;
    let mut starts: Vec<usize> = Vec::new();
    starts.push(0);
    assert(ints(starts@) =~= seq![0int]);
    let ghost goal = column_starts(grid@, *region, 0, seq![0int]);
    let mut c: u16 = 0;
    while c < width
        invariant
            grid.wf(),
            region.fits(grid@.dimensions),
            width == region.width,
            limit == trailing_from(width as int),
            c <= width,
            starts@.len() >= 1,
            rising(starts@, c as int),
            column_starts(grid@, *region, c as int, ints(starts@)) == goal,
        ensures
            ints(starts@) == goal,
            rising(starts@, width as int),
        decreases width - c,
    {
        if !column_is_gap(grid, region, c) {
            c += 1;
        } else {
            let mut e: u16 = c;
            while e < width - 1 && column_is_gap(grid, region, e + 1)
                invariant
                    grid.wf(),
                    region.fits(grid@.dimensions),
                    width == region.width,
                    c <= e < width,
                    gap_end(grid@, *region, e as int) == gap_end(grid@, *region, c as int),
                decreases width - e,
            {
                e += 1;
            }
            if e as u32 >= limit {
                break ;
            }
            let ghost before = ints(starts@);
            let at: usize = (c as usize + e as usize) / 2 + 1;
            starts.push(at);
            assert(ints(starts@) =~= before.push(at as int));
            c = e + 1;
        }
    }
    if starts.len() >= MIN_TABLE_COLUMNS {
        Some(starts)
    } else {
        None
    }
}

/// The row that is taken for the header, where one is recognised.
fn detect_header_row(grid: &Grid, region: &Bounds) -> (r: Option<usize>)
    requires
        grid.wf(),
        region.fits(grid@.dimensions),
        region.height >= 1,
    ensures
        match r {
            Some(k) => header_row(grid@, *region) == Some(k as int),
            None => header_row(grid@, *region) is None,
        },
{
    if row_mostly(grid, region.row, Mark::Bold) {
        return Some(0);
    }
    if region.height > 1 && is_separator_line(grid, region.row + 1) {
        return Some(0);
    }
    let (_, tinted) = row_counts(grid, region.row, Mark::Tinted);
    if tinted > 0 {
        return Some(0);
    }
    None
}

/// The cells of row `row`.
fn extract_cells(grid: &Grid, row: u16, region: &Bounds, starts: &Vec<usize>) -> (cells: Vec<
    String,
>)
    requires
        grid.wf(),
        region.fits(grid@.dimensions),
        rising(starts@, region.width as int),
    ensures
        texts(cells@) == row_cells(
            grid@,
            row as int,
            *region,
            ints(starts@),
            starts@.len() as int,
        ),
{
    let mut cells: Vec<String> = Vec::new();
    let mut any = false;
    let n = starts.len();
    let mut i: usize = 0;
    assert(texts(cells@) =~= Seq::<Seq<char>>::empty());
    while i < n
        invariant
            grid.wf(),
            region.fits(grid@.dimensions),
            rising(starts@, region.width as int),
            n == starts.len(),
            i <= n,
            texts(cells@) == row_cells(grid@, row as int, *region, ints(starts@), i as int),
            any == any_text(texts(cells@)),
        decreases n - i,
    {
        let start = starts[i];
        let end = if i + 1 < n {
            starts[i + 1]
        } else {
            region.width as usize
        };
        let chars = grid.row_text(row, region.col + start as u16, (end - start) as u16);
        let content = trim_chars(&chars);
        let ghost before = texts(cells@);
        assert(content@ == cell_text(grid@, row as int, *region, ints(starts@), i as int));
        if !(i + 1 == n && content.len() == 0 && any) {
            if content.len() > 0 {
                any = true;
            }
            cells.push(from_chars(&content));
            proof {
                assert(texts(cells@) =~= before.push(content@));
                if content.len() > 0 {
                    assert(texts(cells@)[before.len() as int].len() > 0);
                } else {
                    if any_text(texts(cells@)) {
                        let w = choose|w: int|
                            0 <= w < texts(cells@).len() && (#[trigger] texts(cells@)[w]).len()
                                > 0;
                        assert(before[w].len() > 0);
                    }
                    if any_text(before) {
                        let w = choose|w: int|
                            0 <= w < before.len() && (#[trigger] before[w]).len() > 0;
                        assert(texts(cells@)[w].len() > 0);
                    }
                }
            }
        }
        i += 1;
    }
    cells
}

/// The header cells and the data rows of the table of `region`.
fn parse_table_rows(grid: &Grid, region: &Bounds, starts: &Vec<usize>, header: usize) -> (r: (
    Vec<String>,
    Vec<Vec<String>>,
))
    requires
        grid.wf(),
        region.fits(grid@.dimensions),
        rising(starts@, region.width as int),
        header == header_offset(grid@, *region),
    ensures
        texts(r.0@) == table_headers(grid@, *region, ints(starts@)),
        row_texts(r.1@) == table_rows(grid@, *region, ints(starts@), region.height as int),
{
    let mut headers: Vec<String> = Vec::new();
    let mut rows: Vec<Vec<String>> = Vec::new();
    assert(texts(headers@) =~= Seq::<Seq<char>>::empty());
    assert(row_texts(rows@) =~= Seq::<Seq<Seq<char>>>::empty());
    let mut k: u16 = 0;
    while k < region.height
        invariant
            grid.wf(),
            region.fits(grid@.dimensions),
            rising(starts@, region.width as int),
            header == header_offset(grid@, *region),
            k <= region.height,
            texts(headers@) == (if header < k {
                table_headers(grid@, *region, ints(starts@))
            } else {
                Seq::empty()
            }),
            row_texts(rows@) == table_rows(grid@, *region, ints(starts@), k as int),
        decreases region.height - k,
    {
        let row = region.row + k;
        if !is_separator_line(grid, row) {
            let cells = extract_cells(grid, row, region, starts);
            if k as usize == header {
                headers = cells;
            } else {
                let ghost before = row_texts(rows@);
                rows.push(cells);
                assert(row_texts(rows@) =~= before.push(texts(cells@)));
            }
        }
        k += 1;
    }
    (headers, rows)
}

/// The table of `region`.
fn detect_table_in_region(grid: &Grid, region: &Bounds) -> (r: Option<DetectedElement>)
    requires
        grid.wf(),
        region.fits(grid@.dimensions),
        region.height >= 1,
    ensures
        match r {
            Some(e) => table_in(grid@, *region) matches Some(f) && describes_table(e, f)
                && e.bounds == *region && e.element.region() == e.bounds,
            None => table_in(grid@, *region) is None,
        },
{
    let starts = match detect_columns(grid, region) {
        Some(starts) => starts,
        None => {
            return None;
        },
    };
    let header = match detect_header_row(grid, region) {
        Some(k) => k,
        None => 0,
    };
    let (headers, rows) = parse_table_rows(grid, region, &starts, header);
    let extra: usize = if headers.len() > 0 {
        1
    } else {
        0
    };
    if rows.len() >= MIN_TABLE_ROWS || rows.len() + extra >= MIN_TABLE_ROWS {
        Some(
            DetectedElement {
                element: Element::Table { ref_id: String::new(), bounds: *region, headers, rows },
                bounds: *region,
                confidence: Confidence::Medium,
            },
        )
    } else {
        None
    }
}

/// Detects tables.
pub struct TableDetector {}

impl TableDetector {
    /// The detector.
    pub fn new() -> (d: Self) {
        TableDetector {  }
    }
}

impl Default for TableDetector {
    /// The detector.
    fn default() -> (d: Self) {
        TableDetector::new()
    }
}

impl ElementDetector for TableDetector {
    /// The name of the detector: `table`.
    fn name(&self) -> (name: &'static str)
        ensures
            name@ == "table"@,
    {
        "table"
    }

    /// The priority of the detector: 80.
    fn priority(&self) -> (priority: u32)
        ensures
            priority == 80,
    {
        80
    }

    /// The tables of the candidate regions that are not claimed, top to bottom, numbered
    /// from one.
    fn detect(&self, grid: &Grid, context: &DetectionContext) -> (found: Vec<DetectedElement>)
        ensures
            found@.len() == tables(grid@, context.claimed_regions@).len(),
            forall|i: int|
                0 <= i < found@.len() ==> reports_table(
                    #[trigger] found@[i],
                    tables(grid@, context.claimed_regions@)[i],
                    (i + 1) as nat,
                ),
    {
        let regions = find_regions(grid);
        let ghost claims = context.claimed_regions@;
        let ghost g = grid@;
        let mut cands: Vec<DetectedElement> = Vec::new();
        let mut i: usize = 0;
        while i < regions.len()
            invariant
                grid.wf(),
                g == grid@,
                claims == context.claimed_regions@,
                regions@ == content_regions(g),
                regions_ok(regions@, g),
                i <= regions.len(),
                well_behaved(cands@, g.dimensions, claims),
                cands@.len() == tables_in(g, regions@, claims, i as int).len(),
                forall|k: int|
                    0 <= k < cands@.len() ==> describes_table(
                        #[trigger] cands@[k],
                        tables_in(g, regions@, claims, i as int)[k],
                    ),
            decreases regions.len() - i,
        {
            let region = regions[i];
            if !context.is_region_claimed(&region) {
                match detect_table_in_region(grid, &region) {
                    Some(e) => {
                        cands.push(e);
                    },
                    None => {},
                }
            }
            i += 1;
        }
        let found = number_elements(cands);
        proof {
            lemma_renumbered_well_behaved(found@, cands@, g.dimensions, claims);
            reveal_strlit("table");
        }
        found
    }
}

} // verus!
