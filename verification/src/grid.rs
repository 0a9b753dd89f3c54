//! The screen buffer: a row-major grid of cells with a cursor and the current rendition.

use vstd::prelude::*;
use vstd::slice::slice_subrange;
use crate::cell::{Cell, CellAttributes, Color};
use crate::geometry::{Bounds, Dimensions, lemma_area_fits, lemma_index_in_range, Position};
use crate::text::{from_chars, trim_end, trim_end_chars};

verus! {

/// The shape in which the cursor is drawn.
#[derive(Debug, Clone, Copy, PartialEq, Eq, Structural)]
pub enum CursorStyle {
    /// A full block.
    Block,
    /// An underline.
    Underline,
    /// A vertical bar.
    Bar,
}

/// The cursor: where it is, whether it shows, and its shape.
#[derive(Debug, Clone, Copy, PartialEq, Eq, Structural)]
pub struct Cursor {
    /// Cell under the cursor.
    pub position: Position,
    /// Whether the cursor is shown.
    pub visible: bool,
    /// Shape of the cursor.
    pub style: CursorStyle,
}

impl Cursor {
    /// A visible block cursor at `position`.
    pub open spec fn at_spec(position: Position) -> Cursor {
        Cursor { position, visible: true, style: CursorStyle::Block }
    }

    /// A visible block cursor at the origin.
    pub fn new() -> (c: Self)
        ensures
            c == Cursor::at_spec(Position { row: 0, col: 0 }),
    {
        Cursor { position: Position::origin(), visible: true, style: CursorStyle::Block }
    }

    /// A visible block cursor at `position`.
    pub fn at(position: Position) -> (c: Self)
        ensures
            c == Cursor::at_spec(position),
    {
        Cursor { position, visible: true, style: CursorStyle::Block }
    }
}

impl Default for Cursor {
    /// A visible block cursor at the origin.
    fn default() -> (c: Self)
        ensures
            c == Cursor::at_spec(Position { row: 0, col: 0 }),
    {
        Cursor::new()
    }
}

/// What a grid holds, as mathematical values.
pub struct GridView {
    /// The cells, row after row.
    pub cells: Seq<Cell>,
    /// Size of the grid.
    pub dimensions: Dimensions,
    /// The cursor.
    pub cursor: Cursor,
    /// The cursor put aside by the last save, if any.
    pub saved_cursor: Option<Cursor>,
    /// Attributes given to characters written next.
    pub attrs: CellAttributes,
    /// Foreground colour given to characters written next.
    pub fg: Color,
    /// Background colour given to characters written next.
    pub bg: Color,
}

impl GridView {
    /// Whether `row`, `col` names a cell of the grid.
    pub open spec fn in_bounds(&self, row: int, col: int) -> bool {
        0 <= row < self.dimensions.rows && 0 <= col < self.dimensions.cols
    }

    /// The row-major index of the cell at `row`, `col`.
    pub open spec fn index(&self, row: int, col: int) -> int {
        row * self.dimensions.cols as int + col
    }

    /// The cell at `row`, `col`.
    pub open spec fn at(&self, row: int, col: int) -> Cell {
        self.cells[self.index(row, col)]
    }

    /// Whether the cell storage has exactly one cell per position.
    pub open spec fn wf(&self) -> bool {
        self.cells.len() == self.dimensions.area()
    }

    /// Whether the cursor stands on a cell of the grid.
    pub open spec fn cursor_in_bounds(&self) -> bool {
        self.in_bounds(self.cursor.position.row as int, self.cursor.position.col as int)
    }

    /// The characters of row `row` in columns `col .. col + width`, as far as they lie on
    /// the grid.
    pub open spec fn row_chars(&self, row: int, col: int, width: int) -> Seq<char> {
        if 0 <= row < self.dimensions.rows && 0 <= col < self.dimensions.cols && width > 0 {
            let end = if col + width <= self.dimensions.cols {
                col + width
            } else {
                self.dimensions.cols as int
            };
            Seq::new((end - col) as nat, |k: int| self.at(row, col + k).character)
        } else {
            Seq::empty()
        }
    }

    /// The whole of row `row` as characters.
    pub open spec fn line(&self, row: int) -> Seq<char> {
        self.row_chars(row, 0, self.dimensions.cols as int)
    }

    /// The text of the first `k` rows of the rectangle `b`: each row without its trailing
    /// white space, rows separated by a line feed.
    pub open spec fn region_text(&self, b: Bounds, k: int) -> Seq<char>
        decreases k,
    {
        if k <= 0 {
            Seq::empty()
        } else if k == 1 {
            trim_end(self.row_chars(b.row as int, b.col as int, b.width as int))
        } else {
            self.region_text(b, k - 1) + seq!['\n'] + trim_end(
                self.row_chars(b.row + k - 1, b.col as int, b.width as int),
            )
        }
    }

    /// The grid with the cell at `row`, `col` replaced by `cell`.
    pub open spec fn with_cell(&self, row: int, col: int, cell: Cell) -> GridView {
        GridView { cells: self.cells.update(self.index(row, col), cell), ..*self }
    }

    /// The grid with every cell of the rectangle `b` blank.
    pub open spec fn erased(&self, b: Bounds) -> GridView {
        GridView {
            cells: Seq::new(
                self.cells.len(),
                |i: int|
                    {
                        let r = i / (self.dimensions.cols as int);
                        let c = i % (self.dimensions.cols as int);
                        if self.dimensions.cols > 0 && b.contains_spec(
                            Position { row: r as u16, col: c as u16 },
                        ) {
                            Cell::blank()
                        } else {
                            self.cells[i]
                        }
                    },
            ),
            ..*self
        }
    }

    /// The grid after a change of size to `new`: the common top-left rectangle is kept,
    /// other cells are blank, and the cursor is brought back onto the grid.
    pub open spec fn resized(&self, new: Dimensions) -> GridView {
        GridView {
            cells: Seq::new(
                new.area() as nat,
                |i: int|
                    {
                        let r = i / (new.cols as int);
                        let c = i % (new.cols as int);
                        if new.cols > 0 && r < self.dimensions.rows && c < self.dimensions.cols {
                            self.at(r, c)
                        } else {
                            Cell::blank()
                        }
                    },
            ),
            dimensions: new,
            cursor: Cursor {
                position: Position {
                    row: clamp_index(self.cursor.position.row, new.rows),
                    col: clamp_index(self.cursor.position.col, new.cols),
                },
                ..self.cursor
            },
            ..*self
        }
    }
}

/// `i` brought below `limit`; unchanged where `limit` is zero.
pub open spec fn clamp_index(i: u16, limit: u16) -> u16 {
    if limit > 0 && i >= limit {
        (limit - 1) as u16
    } else {
        i
    }
}

/// `i` brought below `limit`; unchanged where `limit` is zero.
pub fn clamp_to(i: u16, limit: u16) -> (r: u16)
    ensures
        r == clamp_index(i, limit),
{
    if limit > 0 && i >= limit {
        limit - 1
    } else {
        i
    }
}

/// Division and remainder recover the row and column of a row-major index.
pub proof fn lemma_row_col(cols: int, r: int, c: int)
    requires
        0 <= r,
        0 <= c < cols,
    ensures
        (r * cols + c) / cols == r,
        (r * cols + c) % cols == c,
{
    vstd::arithmetic::div_mod::lemma_fundamental_div_mod_converse(r * cols + c, cols, r, c);
}

/// The terminal screen: cells in row-major order, the cursor, and the rendition that the
/// next written character receives.
#[derive(Debug)]
pub struct Grid {
    cells: Vec<Cell>,
    dimensions: Dimensions,
    cursor: Cursor,
    saved_cursor: Option<Cursor>,
    scroll_region: Option<(u16, u16)>,
    current_attrs: CellAttributes,
    current_fg: Color,
    current_bg: Color,
}

impl View for Grid {
    type V = GridView;

    closed spec fn view(&self) -> GridView {
        GridView {
            cells: self.cells@,
            dimensions: self.dimensions,
            cursor: self.cursor,
            saved_cursor: self.saved_cursor,
            attrs: self.current_attrs,
            fg: self.current_fg,
            bg: self.current_bg,
        }
    }
}

impl Grid {
    /// The storage invariant: one cell for each position of the grid.
    pub open spec fn wf(&self) -> bool {
        self@.wf()
    }

    /// An empty grid as it is first created.
    pub open spec fn initial(dimensions: Dimensions) -> GridView {
        GridView {
            cells: Seq::new(dimensions.area() as nat, |i: int| Cell::blank()),
            dimensions,
            cursor: Cursor::at_spec(Position { row: 0, col: 0 }),
            saved_cursor: None,
            attrs: CellAttributes::plain(),
            fg: Color::Default,
            bg: Color::Default,
        }
    }

    /// A blank grid of the given size, cursor at the origin.
    pub fn new(dimensions: Dimensions) -> (g: Self)
        ensures
            g.wf(),
            g@ == Grid::initial(dimensions),
            dimensions.rows > 0 && dimensions.cols > 0 ==> g@.cursor_in_bounds(),
    {
        let n = dimensions.cell_count();
        let mut cells: Vec<Cell> = Vec::new();
        let mut i: usize = 0;
        while i < n
            invariant
                i <= n,
                cells.len() == i,
                forall|k: int| 0 <= k < i ==> cells@[k] == Cell::blank(),
            decreases n - i,
        {
            cells.push(Cell::default());
            i += 1;
        }
        let g = Grid {
            cells,
            dimensions,
            cursor: Cursor::new(),
            saved_cursor: None,
            scroll_region: None,
            current_attrs: CellAttributes::default(),
            current_fg: Color::Default,
            current_bg: Color::Default,
        };
        assert(g@.cells =~= Grid::initial(dimensions).cells);
        g
    }

    /// The cell at `row`, `col`; `None` exactly when the position is off the grid.
    pub fn cell(&self, row: u16, col: u16) -> (r: Option<&Cell>)
        requires
            self.wf(),
        ensures
            r is Some <==> self@.in_bounds(row as int, col as int),
            r matches Some(c) ==> *c == self@.at(row as int, col as int),
    {
        if row < self.dimensions.rows && col < self.dimensions.cols {
            proof {
                lemma_area_fits(self.dimensions.rows as int, self.dimensions.cols as int);
                lemma_index_in_range(
                    self.dimensions.rows as int,
                    self.dimensions.cols as int,
                    row as int,
                    col as int,
                );
            }
            let idx: u32 = row as u32 * self.dimensions.cols as u32 + col as u32;
            Some(&self.cells[idx as usize])
        } else {
            None
        }
    }

    /// The cell at `row`, `col`, for writing; `None` exactly when the position is off the
    /// grid. What is written through the reference becomes that cell; nothing else changes.
    pub fn cell_mut(&mut self, row: u16, col: u16) -> (r: Option<&mut Cell>)
        requires
            old(self).wf(),
        ensures
            r is Some <==> old(self)@.in_bounds(row as int, col as int),
            r is None ==> final(self)@ == old(self)@,
            r matches Some(c) ==> *c == old(self)@.at(row as int, col as int) && final(self)@
                == old(self)@.with_cell(row as int, col as int, *final(c)),
            final(self).wf(),
    {
        if row < self.dimensions.rows && col < self.dimensions.cols {
            proof {
                lemma_area_fits(self.dimensions.rows as int, self.dimensions.cols as int);
                lemma_index_in_range(
                    self.dimensions.rows as int,
                    self.dimensions.cols as int,
                    row as int,
                    col as int,
                );
            }
            let idx: u32 = row as u32 * self.dimensions.cols as u32 + col as u32;
            Some(&mut self.cells[idx as usize])
        } else {
            None
        }
    }

    /// Replaces the cell at `row`, `col`; does nothing when the position is off the grid.
    pub fn set_cell(&mut self, row: u16, col: u16, cell: Cell)
        requires
            old(self).wf(),
        ensures
            final(self).wf(),
            final(self)@ == (if old(self)@.in_bounds(row as int, col as int) {
                old(self)@.with_cell(row as int, col as int, cell)
            } else {
                old(self)@
            }),
    {
        if row < self.dimensions.rows && col < self.dimensions.cols {
            proof {
                lemma_area_fits(self.dimensions.rows as int, self.dimensions.cols as int);
                lemma_index_in_range(
                    self.dimensions.rows as int,
                    self.dimensions.cols as int,
                    row as int,
                    col as int,
                );
            }
            let idx: u32 = row as u32 * self.dimensions.cols as u32 + col as u32;
            self.cells.set(idx as usize, cell);
        }
    }

    /// The cells of row `row`; `None` exactly when the row is off the grid.
    pub fn row(&self, row: u16) -> (r: Option<&[Cell]>)
        requires
            self.wf(),
        ensures
            r is Some <==> row < self@.dimensions.rows,
            r matches Some(s) ==> s@ == self@.cells.subrange(
                row as int * self@.dimensions.cols as int,
                row as int * self@.dimensions.cols as int + self@.dimensions.cols as int,
            ),
    {
        if row < self.dimensions.rows {
            proof {
                lemma_area_fits(self.dimensions.rows as int, self.dimensions.cols as int);
                lemma_area_fits(row as int, self.dimensions.cols as int);
                crate::geometry::lemma_row_span(
                    self.dimensions.rows as int,
                    self.dimensions.cols as int,
                    row as int,
                );
            }
            let start: u32 = row as u32 * self.dimensions.cols as u32;
            let end: u32 = start + self.dimensions.cols as u32;
            Some(slice_subrange(self.cells.as_slice(), start as usize, end as usize))
        } else {
            None
        }
    }

    /// The characters of row `row` in columns `start_col .. start_col + width`, as far as
    /// they lie on the grid.
    pub fn row_text(&self, row: u16, start_col: u16, width: u16) -> (r: Vec<char>)
        requires
            self.wf(),
        ensures
            r@ == self@.row_chars(row as int, start_col as int, width as int),
    {
        let mut out: Vec<char> = Vec::new();
        if row >= self.dimensions.rows || start_col >= self.dimensions.cols || width == 0 {
            return out;
        }
        let end: u16 = if width <= self.dimensions.cols - start_col {
            start_col + width
        } else {
            self.dimensions.cols
        };
        let mut col: u16 = start_col;
        while col < end
            invariant
                self.wf(),
                row < self.dimensions.rows,
                start_col <= col <= end <= self.dimensions.cols,
                out.len() == col - start_col,
                forall|k: int|
                    0 <= k < out.len() ==> out@[k] == self@.at(
                        row as int,
                        start_col + k,
                    ).character,
            decreases end - col,
        {
            let c = self.cell(row, col);
            match c {
                Some(cell) => {
                    out.push(cell.character);
                },
                None => {},
            }
            col += 1;
        }
        assert(out@ =~= self@.row_chars(row as int, start_col as int, width as int));
        out
    }

    /// The whole of row `row` as characters: one per column, or none when the row is off
    /// the grid.
    pub fn line(&self, row: u16) -> (r: Vec<char>)
        requires
            self.wf(),
        ensures
            r@ == self@.line(row as int),
            row < self@.dimensions.rows ==> r.len() == self@.dimensions.cols,
            row >= self@.dimensions.rows ==> r.len() == 0,
    {
        self.row_text(row, 0, self.dimensions.cols)
    }

    /// The text of the rectangle `bounds`: the characters of each row without trailing
    /// white space, rows separated by a line feed.
    pub fn extract_text(&self, bounds: &Bounds) -> (text: String)
        requires
            self.wf(),
        ensures
            text@ == self@.region_text(*bounds, bounds.height as int),
    {
        let mut out: Vec<char> = Vec::new();
        let mut k: u16 = 0;
        while k < bounds.height
            invariant
                self.wf(),
                k <= bounds.height,
                out@ == self@.region_text(*bounds, k as int),
            decreases bounds.height - k,
        {
            if k > 0 {
                out.push('\n');
            }
            let row: u32 = bounds.row as u32 + k as u32;
            let chars = if row <= 0xffff {
                self.row_text(row as u16, bounds.col, bounds.width)
            } else {
                Vec::new()
            };
            let trimmed = trim_end_chars(&chars);
            let ghost before = out@;
            crate::text::append_chars(&mut out, &trimmed);
            k += 1;
            proof {
                if k == 1 {
                    assert(before =~= Seq::<char>::empty());
                    assert(out@ =~= trimmed@);
                } else {
                    assert(before == self@.region_text(*bounds, k - 1) + seq!['\n']);
                }
            }
        }
        from_chars(&out)
    }

    /// The text of the whole screen.
    pub fn to_plain_text(&self) -> (text: String)
        requires
            self.wf(),
        ensures
            text@ == self@.region_text(
                Bounds {
                    row: 0,
                    col: 0,
                    width: self@.dimensions.cols,
                    height: self@.dimensions.rows,
                },
                self@.dimensions.rows as int,
            ),
    {
        let bounds = Bounds::new(0, 0, self.dimensions.cols, self.dimensions.rows);
        self.extract_text(&bounds)
    }

    /// The cursor.
    pub fn cursor(&self) -> (c: &Cursor)
        ensures
            *c == self@.cursor,
    {
        &self.cursor
    }

    /// The cursor, for writing. What is written through the reference becomes the cursor;
    /// nothing else changes.
    pub fn cursor_mut(&mut self) -> (c: &mut Cursor)
        ensures
            *c == old(self)@.cursor,
            final(self)@ == (GridView { cursor: *final(c), ..old(self)@ }),
    {
        &mut self.cursor
    }

    /// Moves the cursor to `position`, which is taken as it is.
    pub(crate) fn set_cursor_position(&mut self, position: Position)
        ensures
            final(self)@ == (GridView {
                cursor: Cursor { position, ..old(self)@.cursor },
                ..old(self)@
            }),
    {
        self.cursor.position = position;
    }

    /// The size of the grid.
    pub fn dimensions(&self) -> (d: Dimensions)
        ensures
            d == self@.dimensions,
    {
        self.dimensions
    }

    /// Whether the cursor is shown.
    pub fn cursor_visible(&self) -> (b: bool)
        ensures
            b == self@.cursor.visible,
    {
        self.cursor.visible
    }

    /// The attributes that the next written character receives.
    pub fn current_attrs(&self) -> (a: &CellAttributes)
        ensures
            *a == self@.attrs,
    {
        &self.current_attrs
    }

    /// Sets the attributes that the next written character receives.
    pub fn set_current_attrs(&mut self, attrs: CellAttributes)
        ensures
            final(self)@ == (GridView { attrs, ..old(self)@ }),
    {
        self.current_attrs = attrs;
    }

    /// The foreground colour that the next written character receives.
    pub fn current_fg(&self) -> (c: Color)
        ensures
            c == self@.fg,
    {
        self.current_fg
    }

    /// Sets the foreground colour that the next written character receives.
    pub fn set_current_fg(&mut self, color: Color)
        ensures
            final(self)@ == (GridView { fg: color, ..old(self)@ }),
    {
        self.current_fg = color;
    }

    /// The background colour that the next written character receives.
    pub fn current_bg(&self) -> (c: Color)
        ensures
            c == self@.bg,
    {
        self.current_bg
    }

    /// Sets the background colour that the next written character receives.
    pub fn set_current_bg(&mut self, color: Color)
        ensures
            final(self)@ == (GridView { bg: color, ..old(self)@ }),
    {
        self.current_bg = color;
    }

    /// Puts the cursor aside for a later restore.
    pub fn save_cursor(&mut self)
        ensures
            final(self)@ == (GridView { saved_cursor: Some(old(self)@.cursor), ..old(self)@ }),
    {
        self.saved_cursor = Some(self.cursor);
    }

    /// Brings back the cursor put aside by the last save and forgets it; does nothing when
    /// none was saved. The position is brought back onto the grid if the grid has shrunk
    /// since.
    pub fn restore_cursor(&mut self)
        ensures
            final(self)@ == (match old(self)@.saved_cursor {
                Some(saved) => GridView {
                    cursor: Cursor {
                        position: Position {
                            row: clamp_index(saved.position.row, old(self)@.dimensions.rows),
                            col: clamp_index(saved.position.col, old(self)@.dimensions.cols),
                        },
                        ..saved
                    },
                    saved_cursor: None,
                    ..old(self)@
                },
                None => old(self)@,
            }),
            old(self)@.dimensions.rows > 0 && old(self)@.dimensions.cols > 0 && (old(self)@.saved_cursor is Some || old(self)@.cursor_in_bounds())
                ==> final(self)@.cursor_in_bounds(),
    {
        match self.saved_cursor {
            Some(saved) => {
                self.cursor = Cursor {
                    position: Position {
                        row: clamp_to(saved.position.row, self.dimensions.rows),
                        col: clamp_to(saved.position.col, self.dimensions.cols),
                    },
                    visible: saved.visible,
                    style: saved.style,
                };
                self.saved_cursor = None;
            },
            None => {},
        }
    }

    /// Changes the size of the grid. The cells of the common top-left rectangle keep their
    /// content, every other cell is blank, the cursor is brought back onto the grid, and
    /// the current rendition and the saved cursor stay.
    pub fn resize(&mut self, new_dimensions: Dimensions)
        requires
            old(self).wf(),
        ensures
            final(self).wf(),
            final(self)@ == old(self)@.resized(new_dimensions),
            new_dimensions.rows > 0 && new_dimensions.cols > 0 ==> final(self)@.cursor_in_bounds(),
    {
        let n = new_dimensions.cell_count();
        let old_rows = self.dimensions.rows;
        let old_cols = self.dimensions.cols;
        let new_rows = new_dimensions.rows;
        let new_cols = new_dimensions.cols;
        let mut new_cells: Vec<Cell> = Vec::new();
        let ghost goal = self@.resized(new_dimensions).cells;
        let mut row: u16 = 0;
        while row < new_rows
            invariant
                self.wf(),
                self.dimensions.rows == old_rows,
                self.dimensions.cols == old_cols,
                new_dimensions.rows == new_rows,
                new_dimensions.cols == new_cols,
                goal == self@.resized(new_dimensions).cells,
                row <= new_rows,
                new_cells.len() == row as int * new_cols as int,
                forall|i: int| 0 <= i < new_cells.len() ==> new_cells@[i] == goal[i],
            decreases new_rows - row,
        {
            let mut col: u16 = 0;
            while col < new_cols
                invariant
                    self.wf(),
                    self.dimensions.rows == old_rows,
                    self.dimensions.cols == old_cols,
                    new_dimensions.rows == new_rows,
                    new_dimensions.cols == new_cols,
                    goal == self@.resized(new_dimensions).cells,
                    row < new_rows,
                    col <= new_cols,
                    new_cells.len() == row as int * new_cols as int + col as int,
                    forall|i: int| 0 <= i < new_cells.len() ==> new_cells@[i] == goal[i],
                decreases new_cols - col,
            {
                proof {
                    lemma_row_col(new_cols as int, row as int, col as int);
                    lemma_index_in_range(
                        new_rows as int,
                        new_cols as int,
                        row as int,
                        col as int,
                    );
                }
                let cell = if row < old_rows && col < old_cols {
                    match self.cell(row, col) {
                        Some(c) => *c,
                        None => Cell::default(),
                    }
                } else {
                    Cell::default()
                };
                new_cells.push(cell);
                col += 1;
            }
            row += 1;
            assert(new_cells.len() == row as int * new_cols as int) by (nonlinear_arith)
                requires
                    new_cells.len() == (row - 1) * new_cols + new_cols,
            ;
        }
        assert(new_cells@ =~= goal);
        self.cells = new_cells;
        self.dimensions = new_dimensions;
        self.cursor.position = Position {
            row: clamp_to(self.cursor.position.row, new_rows),
            col: clamp_to(self.cursor.position.col, new_cols),
        };
    }

    /// Makes every cell blank. The cursor and the rendition stay.
    pub fn clear(&mut self)
        requires
            old(self).wf(),
        ensures
            final(self).wf(),
            final(self)@ == (GridView {
                cells: Seq::new(old(self)@.cells.len(), |i: int| Cell::blank()),
                ..old(self)@
            }),
    {
        let n = self.cells.len();
        let mut i: usize = 0;
        while i < n
            invariant
                i <= n,
                self.cells.len() == n,
                self@ == (GridView { cells: self@.cells, ..old(self)@ }),
                forall|k: int| 0 <= k < i ==> self.cells@[k] == Cell::blank(),
            decreases n - i,
        {
            self.cells.set(i, Cell::default());
            i += 1;
        }
        assert(self@.cells =~= Seq::new(old(self)@.cells.len(), |i: int| Cell::blank()));
    }

    /// Makes every cell of the rectangle `bounds` blank, as far as it lies on the grid.
    pub fn clear_region(&mut self, bounds: &Bounds)
        requires
            old(self).wf(),
        ensures
            final(self).wf(),
            final(self)@ == old(self)@.erased(*bounds),
    {
        let n = self.cells.len();
        let cols = self.dimensions.cols;
        let ghost goal = self@.erased(*bounds).cells;
        if cols == 0 {
            assert(self@.cells =~= goal);
            return ;
        }
        let mut i: usize = 0;
        proof {
            lemma_area_fits(self.dimensions.rows as int, self.dimensions.cols as int);
        }
        while i < n
            invariant
                i <= n,
                n == old(self)@.cells.len(),
                old(self)@.wf(),
                n <= 0xffff * 0xffff,
                self.cells.len() == n,
                cols > 0,
                cols == old(self)@.dimensions.cols,
                goal == old(self)@.erased(*bounds).cells,
                self@ == (GridView { cells: self@.cells, ..old(self)@ }),
                forall|k: int| 0 <= k < i ==> self.cells@[k] == goal[k],
                forall|k: int| i <= k < n ==> self.cells@[k] == old(self)@.cells[k],
            decreases n - i,
        {
            let r: usize = i / cols as usize;
            let c: usize = i % cols as usize;
            proof {
                let rows = old(self)@.dimensions.rows as int;
                assert(r < rows) by (nonlinear_arith)
                    requires
                        r == i as int / cols as int,
                        0 <= i < n,
                        n == rows * cols as int,
                        cols > 0,
                ;
            }
            let pos = Position::new(r as u16, c as u16);
            if bounds.contains(&pos) {
                self.cells.set(i, Cell::default());
            }
            i += 1;
        }
        assert(self@.cells =~= goal);
    }
}

/// Grid integrity: writing a cell, erasing a rectangle and changing the size keep one cell
/// per position; the first two keep a cursor that stood on the grid where it is, and a
/// change of size brings the cursor onto the grid.
pub proof fn law_grid_integrity(
    g: GridView,
    new: Dimensions,
    b: Bounds,
    row: int,
    col: int,
    cell: Cell,
)
    requires
        g.wf(),
    ensures
        g.resized(new).wf(),
        new.rows > 0 && new.cols > 0 ==> g.resized(new).cursor_in_bounds(),
        g.erased(b).wf(),
        g.cursor_in_bounds() ==> g.erased(b).cursor_in_bounds(),
        g.in_bounds(row, col) ==> g.with_cell(row, col, cell).wf(),
        g.in_bounds(row, col) && g.cursor_in_bounds() ==> g.with_cell(
            row,
            col,
            cell,
        ).cursor_in_bounds(),
{
    if g.in_bounds(row, col) {
        lemma_index_in_range(g.dimensions.rows as int, g.dimensions.cols as int, row, col);
    }
}

/// A change of size keeps every cell of the common top-left rectangle: for each position
/// that lies on both the old and the new grid, the cell is the same before and after.
pub proof fn law_resize_preserves(g: GridView, new: Dimensions, row: int, col: int)
    requires
        g.wf(),
        0 <= row < g.dimensions.rows,
        row < new.rows,
        0 <= col < g.dimensions.cols,
        col < new.cols,
    ensures
        g.resized(new).wf(),
        g.resized(new).at(row, col) == g.at(row, col),
{
    lemma_row_col(new.cols as int, row, col);
    lemma_index_in_range(new.rows as int, new.cols as int, row, col);
}

/// A change of size leaves blank every cell that lay off the old grid.
pub proof fn law_resize_blank(g: GridView, new: Dimensions, row: int, col: int)
    requires
        g.wf(),
        0 <= row < new.rows,
        0 <= col < new.cols,
        row >= g.dimensions.rows || col >= g.dimensions.cols,
    ensures
        g.resized(new).at(row, col) == Cell::blank(),
{
    lemma_row_col(new.cols as int, row, col);
    lemma_index_in_range(new.rows as int, new.cols as int, row, col);
}

/// Erasing a rectangle blanks the cells inside it and keeps the cells outside it.
pub proof fn law_erased(g: GridView, b: Bounds, row: int, col: int)
    requires
        g.wf(),
        g.in_bounds(row, col),
    ensures
        g.erased(b).wf(),
        g.erased(b).at(row, col) == (if b.contains_spec(
            Position { row: row as u16, col: col as u16 },
        ) {
            Cell::blank()
        } else {
            g.at(row, col)
        }),
{
    lemma_row_col(g.dimensions.cols as int, row, col);
    lemma_index_in_range(g.dimensions.rows as int, g.dimensions.cols as int, row, col);
}

} // verus!
