//! The terminal emulator proper: escape-sequence events applied to the grid.
//!
//! Bytes are split into events by the `vte` state machine; what each event does to the
//! grid is defined here, as functions on the grid's mathematical view, and carried out by
//! [`Parser`].

use vstd::prelude::*;
use crate::cell::{Cell, CellAttributes, Color};
use crate::geometry::{lemma_index_in_range, Position};
use crate::grid::{Cursor, Grid, GridView, lemma_row_col};

verus! {

/// One event of the escape-sequence state machine.
#[derive(Debug, Clone, PartialEq, Eq)]
pub enum TermEvent {
    /// A printable character.
    Print(char),
    /// A C0 or C1 control byte.
    Execute(u8),
    /// A control sequence: its parameters, each with its sub-parameters, and its final
    /// character.
    Csi {
        /// The parameters in order; each holds the parameter and then its sub-parameters.
        params: Vec<Vec<u16>>,
        /// The final character, which selects the function.
        action: char,
    },
    /// An operating-system command.
    Osc,
    /// An escape sequence with the given final byte.
    Esc(u8),
}

/// An event as a mathematical value.
pub enum TermEventView {
    /// A printable character.
    Print(char),
    /// A control byte.
    Execute(u8),
    /// A control sequence.
    Csi {
        /// The parameters in order, each with its sub-parameters.
        params: Seq<Seq<u16>>,
        /// The final character.
        action: char,
    },
    /// An operating-system command.
    Osc,
    /// An escape sequence.
    Esc(u8),
}

/// The parameter groups of a control sequence as mathematical sequences.
pub open spec fn groups_view(params: Seq<Vec<u16>>) -> Seq<Seq<u16>> {
    Seq::new(params.len(), |i: int| params[i]@)
}

impl View for TermEvent {
    type V = TermEventView;

    open spec fn view(&self) -> TermEventView {
        match *self {
            TermEvent::Print(c) => TermEventView::Print(c),
            TermEvent::Execute(b) => TermEventView::Execute(b),
            TermEvent::Csi { params, action } => TermEventView::Csi {
                params: groups_view(params@),
                action,
            },
            TermEvent::Osc => TermEventView::Osc,
            TermEvent::Esc(b) => TermEventView::Esc(b),
        }
    }
}

/// The events of a vector as mathematical values.
pub open spec fn events_view(events: Seq<TermEvent>) -> Seq<TermEventView> {
    Seq::new(events.len(), |i: int| events[i]@)
}

/// The value of parameter `i`: the first number of its group, or zero where the group
/// is empty or absent.
pub open spec fn param(params: Seq<Seq<u16>>, i: int) -> int {
    if 0 <= i < params.len() && params[i].len() > 0 {
        params[i][0] as int
    } else {
        0
    }
}

/// The value of the first parameter, or `default` where there is no parameter.
pub open spec fn first_param(params: Seq<Seq<u16>>, default: int) -> int {
    if params.len() == 0 {
        default
    } else {
        param(params, 0)
    }
}

/// The count of a cursor movement: the first parameter, or one where it is absent or
/// zero. The state machine reports a sequence without parameters as one parameter of
/// value zero, so that zero stands for the default.
pub open spec fn move_count(params: Seq<Seq<u16>>) -> int {
    if first_param(params, 1) == 0 {
        1
    } else {
        first_param(params, 1)
    }
}

/// The smaller of two integers.
pub open spec fn min(a: int, b: int) -> int {
    if a <= b {
        a
    } else {
        b
    }
}

/// The last valid index of an axis of `n` cells; zero for an empty axis.
pub open spec fn last_index(n: u16) -> int {
    if n > 0 {
        n - 1
    } else {
        0
    }
}

/// Which cells an erase covers, relative to the cursor.
pub enum Erase {
    /// From the cursor to the end of the screen.
    Below,
    /// From the start of the screen to the cursor, inclusive.
    Above,
    /// The whole screen.
    All,
    /// From the cursor to the end of its line.
    LineRight,
    /// From the start of the cursor's line to the cursor, inclusive.
    LineLeft,
    /// The whole of the cursor's line.
    Line,
}

impl Erase {
    /// Whether the erase covers the cell at `row`, `col` when the cursor is at `cur`.
    pub open spec fn covers(&self, cur: Position, row: int, col: int) -> bool {
        match *self {
            Erase::Below => row > cur.row || (row == cur.row && col >= cur.col),
            Erase::Above => row < cur.row || (row == cur.row && col <= cur.col),
            Erase::All => true,
            Erase::LineRight => row == cur.row && col >= cur.col,
            Erase::LineLeft => row == cur.row && col <= cur.col,
            Erase::Line => row == cur.row,
        }
    }

    /// Whether the erase covers the cell at `row`, `col` when the cursor is at `cur`.
    pub fn is_covered(&self, cur: Position, row: u16, col: u16) -> (b: bool)
        ensures
            b == self.covers(cur, row as int, col as int),
    {
        match self {
            Erase::Below => row > cur.row || (row == cur.row && col >= cur.col),
            Erase::Above => row < cur.row || (row == cur.row && col <= cur.col),
            Erase::All => true,
            Erase::LineRight => row == cur.row && col >= cur.col,
            Erase::LineLeft => row == cur.row && col <= cur.col,
            Erase::Line => row == cur.row,
        }
    }
}

/// The colour with ANSI number `n` (0 to 7), normal or bright.
pub open spec fn ansi_color(n: int, bright: bool) -> Color {
    if !bright {
        if n == 0 {
            Color::Black
        } else if n == 1 {
            Color::Red
        } else if n == 2 {
            Color::Green
        } else if n == 3 {
            Color::Yellow
        } else if n == 4 {
            Color::Blue
        } else if n == 5 {
            Color::Magenta
        } else if n == 6 {
            Color::Cyan
        } else {
            Color::White
        }
    } else {
        if n == 0 {
            Color::BrightBlack
        } else if n == 1 {
            Color::BrightRed
        } else if n == 2 {
            Color::BrightGreen
        } else if n == 3 {
            Color::BrightYellow
        } else if n == 4 {
            Color::BrightBlue
        } else if n == 5 {
            Color::BrightMagenta
        } else if n == 6 {
            Color::BrightCyan
        } else {
            Color::BrightWhite
        }
    }
}

/// The attributes after rendition code `code`: 0 clears all, 1 to 9 set one flag, 22 to 29
/// clear (22 clears both bold and dim), and any other code leaves them.
pub open spec fn sgr_attrs(a: CellAttributes, code: int) -> CellAttributes {
    if code == 0 {
        CellAttributes::plain()
    } else if code == 1 {
        CellAttributes { bold: true, ..a }
    } else if code == 2 {
        CellAttributes { dim: true, ..a }
    } else if code == 3 {
        CellAttributes { italic: true, ..a }
    } else if code == 4 {
        CellAttributes { underline: true, ..a }
    } else if code == 5 {
        CellAttributes { blink: true, ..a }
    } else if code == 7 {
        CellAttributes { reverse: true, ..a }
    } else if code == 8 {
        CellAttributes { hidden: true, ..a }
    } else if code == 9 {
        CellAttributes { strikethrough: true, ..a }
    } else if code == 22 {
        CellAttributes { bold: false, dim: false, ..a }
    } else if code == 23 {
        CellAttributes { italic: false, ..a }
    } else if code == 24 {
        CellAttributes { underline: false, ..a }
    } else if code == 25 {
        CellAttributes { blink: false, ..a }
    } else if code == 27 {
        CellAttributes { reverse: false, ..a }
    } else if code == 28 {
        CellAttributes { hidden: false, ..a }
    } else if code == 29 {
        CellAttributes { strikethrough: false, ..a }
    } else {
        a
    }
}

/// The foreground colour after rendition code `code`: 30 to 37 and 90 to 97 select an ANSI
/// colour, 0 and 39 the default, and any other code leaves it.
pub open spec fn sgr_fg(fg: Color, code: int) -> Color {
    if code == 0 || code == 39 {
        Color::Default
    } else if 30 <= code <= 37 {
        ansi_color(code - 30, false)
    } else if 90 <= code <= 97 {
        ansi_color(code - 90, true)
    } else {
        fg
    }
}

/// The background colour after rendition code `code`: 40 to 47 and 100 to 107 select an
/// ANSI colour, 0 and 49 the default, and any other code leaves it.
pub open spec fn sgr_bg(bg: Color, code: int) -> Color {
    if code == 0 || code == 49 {
        Color::Default
    } else if 40 <= code <= 47 {
        ansi_color(code - 40, false)
    } else if 100 <= code <= 107 {
        ansi_color(code - 100, true)
    } else {
        bg
    }
}

/// The low eight bits of a parameter value, as colour components are taken.
pub open spec fn low_byte(v: int) -> u8 {
    (v % 256) as u8
}

impl GridView {
    /// The grid with its cursor at row `row`, column `col`.
    pub open spec fn cursor_to(&self, row: int, col: int) -> GridView {
        GridView {
            cursor: Cursor {
                position: Position { row: row as u16, col: col as u16 },
                ..self.cursor
            },
            ..*self
        }
    }

    /// After a character is printed: it stands at the cursor with the current rendition,
    /// and the cursor has advanced one column, wrapping to the start of the next row at the
    /// right edge and staying on the last row at the bottom.
    pub open spec fn printed(&self, c: char) -> GridView {
        let cur = self.cursor.position;
        let written = if self.in_bounds(cur.row as int, cur.col as int) {
            self.with_cell(
                cur.row as int,
                cur.col as int,
                Cell { character: c, fg: self.fg, bg: self.bg, attrs: self.attrs },
            )
        } else {
            *self
        };
        if cur.col + 1 >= self.dimensions.cols {
            written.cursor_to(min(cur.row + 1, last_index(self.dimensions.rows)), 0)
        } else {
            written.cursor_to(cur.row as int, cur.col + 1)
        }
    }

    /// After the cursor moves up by `n` rows, stopping at the top.
    pub open spec fn moved_up(&self, n: int) -> GridView {
        let cur = self.cursor.position;
        self.cursor_to(if cur.row >= n { cur.row - n } else { 0 }, cur.col as int)
    }

    /// After the cursor moves down by `n` rows, stopping at the bottom.
    pub open spec fn moved_down(&self, n: int) -> GridView {
        let cur = self.cursor.position;
        self.cursor_to(min(cur.row + n, last_index(self.dimensions.rows)), cur.col as int)
    }

    /// After the cursor moves right by `n` columns, stopping at the right edge.
    pub open spec fn moved_forward(&self, n: int) -> GridView {
        let cur = self.cursor.position;
        self.cursor_to(cur.row as int, min(cur.col + n, last_index(self.dimensions.cols)))
    }

    /// After the cursor moves left by `n` columns, stopping at the left edge.
    pub open spec fn moved_backward(&self, n: int) -> GridView {
        let cur = self.cursor.position;
        self.cursor_to(cur.row as int, if cur.col >= n { cur.col - n } else { 0 })
    }

    /// After a control byte: backspace, horizontal tab, line feed and carriage return move
    /// the cursor; every other byte leaves the grid as it is.
    pub open spec fn executed(&self, byte: u8) -> GridView {
        let cur = self.cursor.position;
        if byte == 0x08 {
            self.moved_backward(1)
        } else if byte == 0x09 {
            self.cursor_to(
                cur.row as int,
                min((cur.col / 8 + 1) * 8, last_index(self.dimensions.cols)),
            )
        } else if byte == 0x0a {
            self.moved_down(1)
        } else if byte == 0x0d {
            self.cursor_to(cur.row as int, 0)
        } else {
            *self
        }
    }

    /// After the cells that `mode` covers are made blank.
    pub open spec fn erase(&self, mode: Erase) -> GridView {
        GridView {
            cells: Seq::new(
                self.cells.len(),
                |i: int|
                    {
                        let r = i / (self.dimensions.cols as int);
                        let c = i % (self.dimensions.cols as int);
                        if self.dimensions.cols > 0 && mode.covers(self.cursor.position, r, c) {
                            Cell::blank()
                        } else {
                            self.cells[i]
                        }
                    },
            ),
            ..*self
        }
    }

    /// After the cursor is restored from the saved one, if there is one.
    pub open spec fn cursor_restored(&self) -> GridView {
        match self.saved_cursor {
            Some(saved) => GridView {
                cursor: Cursor {
                    position: Position {
                        row: crate::grid::clamp_index(saved.position.row, self.dimensions.rows),
                        col: crate::grid::clamp_index(saved.position.col, self.dimensions.cols),
                    },
                    ..saved
                },
                saved_cursor: None,
                ..*self
            },
            None => *self,
        }
    }

    /// After one rendition code other than the extended-colour codes 38 and 48.
    pub open spec fn sgr_code(&self, code: int) -> GridView {
        GridView {
            attrs: sgr_attrs(self.attrs, code),
            fg: sgr_fg(self.fg, code),
            bg: sgr_bg(self.bg, code),
            ..*self
        }
    }

    /// After the rendition parameters from index `i` on, taken left to right.
    pub open spec fn sgr_from(&self, params: Seq<Seq<u16>>, i: int) -> GridView
        decreases params.len() - i,
    {
        if i < 0 || i >= params.len() {
            *self
        } else {
            let code = param(params, i);
            if code == 38 || code == 48 {
                let (color, next) = extended_color(params, i);
                let after = match color {
                    Some(c) => if code == 38 {
                        GridView { fg: c, ..*self }
                    } else {
                        GridView { bg: c, ..*self }
                    },
                    None => *self,
                };
                if next > i {
                    after.sgr_from(params, next)
                } else {
                    after
                }
            } else {
                self.sgr_code(code).sgr_from(params, i + 1)
            }
        }
    }

    /// After a control sequence with the given parameters and final character.
    pub open spec fn csi(&self, params: Seq<Seq<u16>>, action: char) -> GridView {
        if action == 'A' {
            self.moved_up(move_count(params))
        } else if action == 'B' {
            self.moved_down(move_count(params))
        } else if action == 'C' {
            self.moved_forward(move_count(params))
        } else if action == 'D' {
            self.moved_backward(move_count(params))
        } else if action == 'H' || action == 'f' {
            let p1 = first_param(params, 1);
            let p2 = if params.len() >= 2 {
                param(params, 1)
            } else {
                1
            };
            self.cursor_to(
                min(if p1 >= 1 { p1 - 1 } else { 0 }, last_index(self.dimensions.rows)),
                min(if p2 >= 1 { p2 - 1 } else { 0 }, last_index(self.dimensions.cols)),
            )
        } else if action == 'J' {
            let mode = first_param(params, 0);
            if mode == 0 {
                self.erase(Erase::Below)
            } else if mode == 1 {
                self.erase(Erase::Above)
            } else if mode == 2 || mode == 3 {
                self.erase(Erase::All)
            } else {
                *self
            }
        } else if action == 'K' {
            let mode = first_param(params, 0);
            if mode == 0 {
                self.erase(Erase::LineRight)
            } else if mode == 1 {
                self.erase(Erase::LineLeft)
            } else if mode == 2 {
                self.erase(Erase::Line)
            } else {
                *self
            }
        } else if action == 'm' {
            self.sgr_from(params, 0)
        } else if action == 's' {
            GridView { saved_cursor: Some(self.cursor), ..*self }
        } else if action == 'u' {
            self.cursor_restored()
        } else {
            *self
        }
    }

    /// After one event. Operating-system commands and escape sequences change nothing.
    pub open spec fn apply(&self, event: TermEventView) -> GridView {
        match event {
            TermEventView::Print(c) => self.printed(c),
            TermEventView::Execute(b) => self.executed(b),
            TermEventView::Csi { params, action } => self.csi(params, action),
            TermEventView::Osc => *self,
            TermEventView::Esc(_) => *self,
        }
    }

    /// After a sequence of events, applied in order.
    pub open spec fn apply_all(&self, events: Seq<TermEventView>) -> GridView
        decreases events.len(),
    {
        if events.len() == 0 {
            *self
        } else {
            self.apply_all(events.drop_last()).apply(events.last())
        }
    }
}

/// The colour that an extended-colour code at index `i` selects, if its operands are all
/// there, and the index of the first parameter after the code and its operands.
///
/// Mode 5 takes one operand, a palette index; mode 2 takes three, the red, green and blue
/// components. Any other mode takes none.
pub open spec fn extended_color(params: Seq<Seq<u16>>, i: int) -> (Option<Color>, int) {
    if i + 1 >= params.len() {
        (None, i + 1)
    } else {
        let mode = param(params, i + 1);
        if mode == 5 {
            if i + 2 < params.len() {
                (Some(Color::Indexed(low_byte(param(params, i + 2)))), i + 3)
            } else {
                (None, i + 2)
            }
        } else if mode == 2 {
            if i + 4 < params.len() {
                (
                    Some(
                        Color::Rgb {
                            r: low_byte(param(params, i + 2)),
                            g: low_byte(param(params, i + 3)),
                            b: low_byte(param(params, i + 4)),
                        },
                    ),
                    i + 5,
                )
            } else {
                (None, params.len() as int)
            }
        } else {
            (None, i + 2)
        }
    }
}

/// Rendition codes change neither the cells, the size nor the cursor.
pub proof fn lemma_sgr_keeps_screen(g: GridView, params: Seq<Seq<u16>>, i: int)
    ensures
        g.sgr_from(params, i).cells == g.cells,
        g.sgr_from(params, i).dimensions == g.dimensions,
        g.sgr_from(params, i).cursor == g.cursor,
        g.sgr_from(params, i).saved_cursor == g.saved_cursor,
    decreases params.len() - i,
{
    if 0 <= i < params.len() {
        let code = param(params, i);
        if code == 38 || code == 48 {
            let (color, next) = extended_color(params, i);
            let after = match color {
                Some(c) => if code == 38 {
                    GridView { fg: c, ..g }
                } else {
                    GridView { bg: c, ..g }
                },
                None => g,
            };
            if next > i {
                lemma_sgr_keeps_screen(after, params, next);
            }
        } else {
            lemma_sgr_keeps_screen(g.sgr_code(code), params, i + 1);
        }
    }
}

/// Grid integrity: whatever event is applied, the storage keeps one cell per position,
/// the size stays, and a cursor that stood on the grid still stands on it.
pub proof fn law_event_keeps_integrity(g: GridView, event: TermEventView)
    requires
        g.wf(),
    ensures
        g.apply(event).wf(),
        g.apply(event).dimensions == g.dimensions,
        g.cursor_in_bounds() ==> g.apply(event).cursor_in_bounds(),
{
    match event {
        TermEventView::Print(c) => {
            let cur = g.cursor.position;
            if g.in_bounds(cur.row as int, cur.col as int) {
                lemma_index_in_range(
                    g.dimensions.rows as int,
                    g.dimensions.cols as int,
                    cur.row as int,
                    cur.col as int,
                );
            }
        },
        TermEventView::Execute(b) => {},
        TermEventView::Csi { params, action } => {
            if action == 'm' {
                lemma_sgr_keeps_screen(g, params, 0);
            }
        },
        TermEventView::Osc => {},
        TermEventView::Esc(_) => {},
    }
}

/// Grid integrity over a whole run of events.
pub proof fn law_events_keep_integrity(g: GridView, events: Seq<TermEventView>)
    requires
        g.wf(),
    ensures
        g.apply_all(events).wf(),
        g.apply_all(events).dimensions == g.dimensions,
        g.cursor_in_bounds() ==> g.apply_all(events).cursor_in_bounds(),
    decreases events.len(),
{
    if events.len() > 0 {
        law_events_keep_integrity(g, events.drop_last());
        law_event_keeps_integrity(g.apply_all(events.drop_last()), events.last());
    }
}

/// The events that the `vte` state machine, started afresh, reports for `bytes`: its
/// print, execute, CSI-dispatch, OSC-dispatch and ESC-dispatch calls, in order.
pub uninterp spec fn vte_events(bytes: Seq<u8>) -> Seq<TermEventView>;

/// Receives the calls of the state machine and keeps them in order.
struct EventSink {
    events: Vec<TermEvent>,
}

impl EventSink {
    /// The events kept so far, in the order in which they came.
    pub closed spec fn kept(&self) -> Seq<TermEventView> {
        events_view(self.events@)
    }

    /// Keeps one more event.
    fn keep(&mut self, event: TermEvent)
        ensures
            final(self).kept() == old(self).kept().push(event@),
    {
        self.events.push(event);
        assert(self.kept() =~= old(self).kept().push(event@));
    }
}

/// The parameters that a `vte::Params` holds: one sequence for each parameter, made of
/// the parameter and then its sub-parameters, in order.
pub uninterp spec fn param_groups(params: vte::Params) -> Seq<Seq<u16>>;

/// Copies the parameters of a control sequence out of `vte::Params`.
///
/// Stands for `vte::Params::iter`: each item of the iterator, a parameter followed by its
/// sub-parameters, becomes one vector, in order.
#[verifier::external_body]
fn csi_groups(params: &vte::Params) -> (groups: Vec<Vec<u16>>)
    ensures
        groups_view(groups@) == param_groups(*params),
{
    params.iter().map(|group| group.to_vec()).collect()
}

impl vte::Perform for EventSink {
    /// Keeps a printable character.
    fn print(&mut self, c: char)
        ensures
            final(self).kept() == old(self).kept().push(TermEventView::Print(c)),
    {
        self.keep(TermEvent::Print(c));
    }

    /// Keeps a control byte.
    fn execute(&mut self, byte: u8)
        ensures
            final(self).kept() == old(self).kept().push(TermEventView::Execute(byte)),
    {
        self.keep(TermEvent::Execute(byte));
    }

    /// Keeps the fact that an operating-system command ended; its payload is dropped.
    fn osc_dispatch(&mut self, _params: &[&[u8]], _bell_terminated: bool)
        ensures
            final(self).kept() == old(self).kept().push(TermEventView::Osc),
    {
        self.keep(TermEvent::Osc);
    }

    /// Keeps a control sequence by its parameters and its final character; the
    /// intermediates are dropped.
    fn csi_dispatch(
        &mut self,
        params: &vte::Params,
        _intermediates: &[u8],
        _ignore: bool,
        action: char,
    )
        ensures
            final(self).kept() == old(self).kept().push(
                (TermEventView::Csi { params: param_groups(*params), action }),
            ),
    {
        let groups = csi_groups(params);
        self.keep(TermEvent::Csi { params: groups, action });
    }

    /// Keeps an escape sequence by its final byte; the intermediates are dropped.
    fn esc_dispatch(&mut self, _intermediates: &[u8], _ignore: bool, byte: u8)
        ensures
            final(self).kept() == old(self).kept().push(TermEventView::Esc(byte)),
    {
        self.keep(TermEvent::Esc(byte));
    }
}

/// Splits `bytes` into events.
///
/// Stands for `vte::Parser::new` followed by `vte::Parser::advance` on each byte in
/// order: the events returned are the calls that the state machine made, which depend on
/// the bytes alone.
#[verifier::external_body]
fn scan(bytes: &[u8]) -> (events: Vec<TermEvent>)
    ensures
        events_view(events@) == vte_events(bytes@),
{
    let mut machine = vte::Parser::new();
    let mut sink = EventSink { events: Vec::new() };
    for byte in bytes {
        machine.advance(&mut sink, *byte);
    }
    sink.events
}

/// The first number of a parameter group, or zero where the group is empty.
fn group_value(group: &Vec<u16>) -> (v: u16)
    ensures
        v == (if group@.len() > 0 {
            group@[0] as int
        } else {
            0
        }),
{
    if group.len() > 0 {
        group[0]
    } else {
        0
    }
}

/// The value of parameter `i`, or zero where it is absent.
fn param_value(params: &Vec<Vec<u16>>, i: usize) -> (v: u16)
    ensures
        v == param(groups_view(params@), i as int),
{
    if i < params.len() {
        group_value(&params[i])
    } else {
        0
    }
}

/// The value of the first parameter, or `default` where there is none.
fn first_value(params: &Vec<Vec<u16>>, default: u16) -> (v: u16)
    ensures
        v == first_param(groups_view(params@), default as int),
{
    if params.len() == 0 {
        default
    } else {
        param_value(params, 0)
    }
}

/// The count of a cursor movement: the first parameter, or one where it is absent or zero.
fn move_value(params: &Vec<Vec<u16>>) -> (v: u16)
    ensures
        v == move_count(groups_view(params@)),
{
    let n = first_value(params, 1);
    if n == 0 {
        1
    } else {
        n
    }
}

/// The low eight bits of `v`.
fn low(v: u16) -> (b: u8)
    ensures
        b == low_byte(v as int),
{
    (v % 256) as u8
}

/// The colour with ANSI number `n`, normal or bright.
fn ansi(n: u16, bright: bool) -> (c: Color)
    ensures
        c == ansi_color(n as int, bright),
{
    if !bright {
        if n == 0 {
            Color::Black
        } else if n == 1 {
            Color::Red
        } else if n == 2 {
            Color::Green
        } else if n == 3 {
            Color::Yellow
        } else if n == 4 {
            Color::Blue
        } else if n == 5 {
            Color::Magenta
        } else if n == 6 {
            Color::Cyan
        } else {
            Color::White
        }
    } else {
        if n == 0 {
            Color::BrightBlack
        } else if n == 1 {
            Color::BrightRed
        } else if n == 2 {
            Color::BrightGreen
        } else if n == 3 {
            Color::BrightYellow
        } else if n == 4 {
            Color::BrightBlue
        } else if n == 5 {
            Color::BrightMagenta
        } else if n == 6 {
            Color::BrightCyan
        } else {
            Color::BrightWhite
        }
    }
}

/// The attributes after rendition code `code`.
fn attrs_after(a: CellAttributes, code: u16) -> (r: CellAttributes)
    ensures
        r == sgr_attrs(a, code as int),
{
    let mut r = a;
    if code == 0 {
        r = CellAttributes::default();
    } else if code == 1 {
        r.bold = true;
    } else if code == 2 {
        r.dim = true;
    } else if code == 3 {
        r.italic = true;
    } else if code == 4 {
        r.underline = true;
    } else if code == 5 {
        r.blink = true;
    } else if code == 7 {
        r.reverse = true;
    } else if code == 8 {
        r.hidden = true;
    } else if code == 9 {
        r.strikethrough = true;
    } else if code == 22 {
        r.bold = false;
        r.dim = false;
    } else if code == 23 {
        r.italic = false;
    } else if code == 24 {
        r.underline = false;
    } else if code == 25 {
        r.blink = false;
    } else if code == 27 {
        r.reverse = false;
    } else if code == 28 {
        r.hidden = false;
    } else if code == 29 {
        r.strikethrough = false;
    }
    r
}

/// The foreground colour after rendition code `code`.
fn fg_after(fg: Color, code: u16) -> (r: Color)
    ensures
        r == sgr_fg(fg, code as int),
{
    if code == 0 || code == 39 {
        Color::Default
    } else if 30 <= code && code <= 37 {
        ansi(code - 30, false)
    } else if 90 <= code && code <= 97 {
        ansi(code - 90, true)
    } else {
        fg
    }
}

/// The background colour after rendition code `code`.
fn bg_after(bg: Color, code: u16) -> (r: Color)
    ensures
        r == sgr_bg(bg, code as int),
{
    if code == 0 || code == 49 {
        Color::Default
    } else if 40 <= code && code <= 47 {
        ansi(code - 40, false)
    } else if 100 <= code && code <= 107 {
        ansi(code - 100, true)
    } else {
        bg
    }
}

/// The terminal emulator: it owns a grid and applies events to it.
#[derive(Debug)]
pub struct Parser {
    grid: Grid,
}

impl View for Parser {
    type V = GridView;

    closed spec fn view(&self) -> GridView {
        self.grid@
    }
}

impl Parser {
    /// Whether the grid inside keeps its storage invariant.
    pub open spec fn wf(&self) -> bool {
        self@.wf()
    }

    /// An emulator that writes to `grid`.
    pub fn new(grid: Grid) -> (p: Self)
        ensures
            p@ == grid@,
    {
        Parser { grid }
    }

    /// The grid.
    pub fn grid(&self) -> (g: &Grid)
        ensures
            g@ == self@,
    {
        &self.grid
    }

    /// The grid, for writing. What the grid is when the reference is given up becomes the
    /// emulator's grid.
    pub fn grid_mut(&mut self) -> (g: &mut Grid)
        ensures
            g@ == old(self)@,
            final(self)@ == final(g)@,
    {
        &mut self.grid
    }

    /// Gives up the emulator for its grid.
    pub fn into_grid(self) -> (g: Grid)
        ensures
            g@ == self@,
    {
        self.grid
    }

    /// Feeds `bytes` through the escape-sequence state machine and applies every event to
    /// the grid. Returns the number of bytes consumed, which is all of them.
    pub fn process(&mut self, bytes: &[u8]) -> (consumed: usize)
        requires
            old(self).wf(),
        ensures
            consumed == bytes@.len(),
            final(self).wf(),
            final(self)@ == old(self)@.apply_all(vte_events(bytes@)),
            final(self)@.dimensions == old(self)@.dimensions,
            old(self)@.cursor_in_bounds() ==> final(self)@.cursor_in_bounds(),
    {
        let events = scan(bytes);
        self.apply_events(&events);
        bytes.len()
    }

    /// Applies `events` to the grid, in order.
    pub fn apply_events(&mut self, events: &Vec<TermEvent>)
        requires
            old(self).wf(),
        ensures
            final(self).wf(),
            final(self)@ == old(self)@.apply_all(events_view(events@)),
            final(self)@.dimensions == old(self)@.dimensions,
            old(self)@.cursor_in_bounds() ==> final(self)@.cursor_in_bounds(),
    {
        let ghost all = events_view(events@);
        let mut i: usize = 0;
        while i < events.len()
            invariant
                i <= events.len(),
                all == events_view(events@),
                self.wf(),
                self@ == old(self)@.apply_all(all.take(i as int)),
            decreases events.len() - i,
        {
            self.apply(&events[i]);
            proof {
                assert(all.take(i + 1).drop_last() =~= all.take(i as int));
                assert(all.take(i + 1).last() == events@[i as int]@);
            }
            i += 1;
        }
        proof {
            assert(all.take(events.len() as int) =~= all);
            law_events_keep_integrity(old(self)@, all);
        }
    }

    /// Applies one event to the grid.
    pub fn apply(&mut self, event: &TermEvent)
        requires
            old(self).wf(),
        ensures
            final(self).wf(),
            final(self)@ == old(self)@.apply(event@),
            final(self)@.dimensions == old(self)@.dimensions,
            old(self)@.cursor_in_bounds() ==> final(self)@.cursor_in_bounds(),
    {
        proof {
            law_event_keeps_integrity(self@, event@);
        }
        match event {
            TermEvent::Print(c) => self.print(*c),
            TermEvent::Execute(b) => self.execute(*b),
            TermEvent::Csi { params, action } => self.csi_dispatch(params, *action),
            TermEvent::Osc => {},
            TermEvent::Esc(_) => {},
        }
    }

    /// Writes `c` at the cursor with the current rendition and advances the cursor.
    pub fn print(&mut self, c: char)
        requires
            old(self).wf(),
        ensures
            final(self).wf(),
            final(self)@ == old(self)@.printed(c),
    {
        proof {
            law_event_keeps_integrity(self@, TermEventView::Print(c));
        }
        let cur = self.grid.cursor().position;
        let dims = self.grid.dimensions();
        let cell = Cell {
            character: c,
            fg: self.grid.current_fg(),
            bg: self.grid.current_bg(),
            attrs: *self.grid.current_attrs(),
        };
        self.grid.set_cell(cur.row, cur.col, cell);
        if cur.col as u32 + 1 >= dims.cols as u32 {
            let next: u32 = cur.row as u32 + 1;
            let last: u32 = if dims.rows > 0 {
                (dims.rows - 1) as u32
            } else {
                0
            };
            let row: u32 = if next <= last {
                next
            } else {
                last
            };
            self.grid.set_cursor_position(Position::new(row as u16, 0));
        } else {
            self.grid.set_cursor_position(Position::new(cur.row, cur.col + 1));
        }
    }

    /// Moves the cursor right by `n` columns, stopping at the right edge.
    pub fn cursor_forward(&mut self, n: u16)
        ensures
            final(self)@ == old(self)@.moved_forward(n as int),
    {
        let cur = self.grid.cursor().position;
        let dims = self.grid.dimensions();
        let target: u32 = cur.col as u32 + n as u32;
        let last: u32 = if dims.cols > 0 {
            (dims.cols - 1) as u32
        } else {
            0
        };
        let col: u32 = if target <= last {
            target
        } else {
            last
        };
        self.grid.set_cursor_position(Position::new(cur.row, col as u16));
    }

    /// Moves the cursor left by `n` columns, stopping at the left edge.
    pub fn cursor_backward(&mut self, n: u16)
        ensures
            final(self)@ == old(self)@.moved_backward(n as int),
    {
        let cur = self.grid.cursor().position;
        let col: u16 = if cur.col >= n {
            cur.col - n
        } else {
            0
        };
        self.grid.set_cursor_position(Position::new(cur.row, col));
    }

    /// Moves the cursor down by `n` rows, stopping at the bottom.
    pub fn cursor_down(&mut self, n: u16)
        ensures
            final(self)@ == old(self)@.moved_down(n as int),
    {
        let cur = self.grid.cursor().position;
        let dims = self.grid.dimensions();
        let target: u32 = cur.row as u32 + n as u32;
        let last: u32 = if dims.rows > 0 {
            (dims.rows - 1) as u32
        } else {
            0
        };
        let row: u32 = if target <= last {
            target
        } else {
            last
        };
        self.grid.set_cursor_position(Position::new(row as u16, cur.col));
    }

    /// Moves the cursor up by `n` rows, stopping at the top.
    pub fn cursor_up(&mut self, n: u16)
        ensures
            final(self)@ == old(self)@.moved_up(n as int),
    {
        let cur = self.grid.cursor().position;
        let row: u16 = if cur.row >= n {
            cur.row - n
        } else {
            0
        };
        self.grid.set_cursor_position(Position::new(row, cur.col));
    }

    /// Carries out a control byte: backspace, tab, line feed or carriage return. Other
    /// bytes are ignored.
    pub fn execute(&mut self, byte: u8)
        ensures
            final(self)@ == old(self)@.executed(byte),
    {
        if byte == 0x08 {
            self.cursor_backward(1);
        } else if byte == 0x09 {
            let cur = self.grid.cursor().position;
            let dims = self.grid.dimensions();
            let next_tab: u32 = (cur.col as u32 / 8 + 1) * 8;
            let last: u32 = if dims.cols > 0 {
                (dims.cols - 1) as u32
            } else {
                0
            };
            let col: u32 = if next_tab <= last {
                next_tab
            } else {
                last
            };
            self.grid.set_cursor_position(Position::new(cur.row, col as u16));
        } else if byte == 0x0a {
            self.cursor_down(1);
        } else if byte == 0x0d {
            let cur = self.grid.cursor().position;
            self.grid.set_cursor_position(Position::new(cur.row, 0));
        }
    }

    /// Makes blank the cells that `mode` covers.
    pub fn erase(&mut self, mode: Erase)
        requires
            old(self).wf(),
        ensures
            final(self).wf(),
            final(self)@ == old(self)@.erase(mode),
    {
        let dims = self.grid.dimensions();
        let cur = self.grid.cursor().position;
        let ghost start = self@;
        let ghost goal = self@.erase(mode).cells;
        if dims.cols == 0 {
            assert(self@.cells =~= goal);
            return ;
        }
        let mut row: u16 = 0;
        while row < dims.rows
            invariant
                start.wf(),
                start.dimensions == dims,
                start.cursor.position == cur,
                dims.cols > 0,
                goal == start.erase(mode).cells,
                row <= dims.rows,
                self.wf(),
                self@ == (GridView { cells: self@.cells, ..start }),
                forall|i: int| 0 <= i < row as int * dims.cols as int ==> self@.cells[i] == goal[i],
                forall|i: int|
                    row as int * dims.cols as int <= i < start.cells.len() ==> self@.cells[i]
                        == start.cells[i],
            decreases dims.rows - row,
        {
            let mut col: u16 = 0;
            while col < dims.cols
                invariant
                    start.wf(),
                    start.dimensions == dims,
                    start.cursor.position == cur,
                    dims.cols > 0,
                    goal == start.erase(mode).cells,
                    row < dims.rows,
                    col <= dims.cols,
                    self.wf(),
                    self@ == (GridView { cells: self@.cells, ..start }),
                    forall|i: int|
                        0 <= i < row as int * dims.cols as int + col as int ==> self@.cells[i]
                            == goal[i],
                    forall|i: int|
                        row as int * dims.cols as int + col as int <= i < start.cells.len()
                            ==> self@.cells[i] == start.cells[i],
                decreases dims.cols - col,
            {
                proof {
                    lemma_row_col(dims.cols as int, row as int, col as int);
                    lemma_index_in_range(
                        dims.rows as int,
                        dims.cols as int,
                        row as int,
                        col as int,
                    );
                }
                if mode.is_covered(cur, row, col) {
                    self.grid.set_cell(row, col, Cell::default());
                }
                col += 1;
            }
            row += 1;
            assert(row as int * dims.cols as int == (row - 1) * dims.cols + dims.cols)
                by (nonlinear_arith);
        }
        assert(self@.cells =~= goal);
    }

    /// Applies the rendition parameters of a control sequence, left to right.
    pub fn process_sgr(&mut self, params: &Vec<Vec<u16>>)
        ensures
            final(self)@ == old(self)@.sgr_from(groups_view(params@), 0),
    {
        let ghost groups = groups_view(params@);
        let n = params.len();
        let mut i: usize = 0;
        while i < n
            invariant
                i <= n,
                n == params.len(),
                groups == groups_view(params@),
                self@.sgr_from(groups, i as int) == old(self)@.sgr_from(groups, 0),
            decreases n - i,
        {
            let code = param_value(params, i);
            if code == 38 || code == 48 {
                let mut color: Option<Color> = None;
                let mut next: usize = i + 1;
                if i + 1 < n {
                    let mode = param_value(params, i + 1);
                    next = i + 2;
                    if mode == 5 {
                        if i + 2 < n {
                            color = Some(Color::Indexed(low(param_value(params, i + 2))));
                            next = i + 3;
                        }
                    } else if mode == 2 {
                        if n - i > 4 {
                            color = Some(
                                Color::Rgb {
                                    r: low(param_value(params, i + 2)),
                                    g: low(param_value(params, i + 3)),
                                    b: low(param_value(params, i + 4)),
                                },
                            );
                            next = i + 5;
                        } else {
                            next = n;
                        }
                    }
                }
                assert((color, next as int) == extended_color(groups, i as int));
                match color {
                    Some(c) => {
                        if code == 38 {
                            self.grid.set_current_fg(c);
                        } else {
                            self.grid.set_current_bg(c);
                        }
                    },
                    None => {},
                }
                i = next;
            } else {
                self.sgr_code(code);
                i += 1;
            }
        }
    }

    /// Applies one rendition code other than the extended-colour codes.
    fn sgr_code(&mut self, code: u16)
        ensures
            final(self)@ == old(self)@.sgr_code(code as int),
    {
        let attrs = attrs_after(*self.grid.current_attrs(), code);
        let fg = fg_after(self.grid.current_fg(), code);
        let bg = bg_after(self.grid.current_bg(), code);
        self.grid.set_current_attrs(attrs);
        self.grid.set_current_fg(fg);
        self.grid.set_current_bg(bg);
    }

    /// Carries out a control sequence: cursor movement and positioning, erasing in the
    /// screen and in the line, rendition, and saving and restoring the cursor. Other final
    /// characters are ignored.
    pub fn csi_dispatch(&mut self, params: &Vec<Vec<u16>>, action: char)
        requires
            old(self).wf(),
        ensures
            final(self).wf(),
            final(self)@ == old(self)@.csi(groups_view(params@), action),
    {
        proof {
            law_event_keeps_integrity(
                self@,
                TermEventView::Csi { params: groups_view(params@), action },
            );
        }
        if action == 'A' {
            self.cursor_up(move_value(params));
        } else if action == 'B' {
            self.cursor_down(move_value(params));
        } else if action == 'C' {
            self.cursor_forward(move_value(params));
        } else if action == 'D' {
            self.cursor_backward(move_value(params));
        } else if action == 'H' || action == 'f' {
            let p1 = first_value(params, 1);
            let p2 = if params.len() >= 2 {
                param_value(params, 1)
            } else {
                1
            };
            let dims = self.grid.dimensions();
            let want_row: u16 = if p1 >= 1 {
                p1 - 1
            } else {
                0
            };
            let want_col: u16 = if p2 >= 1 {
                p2 - 1
            } else {
                0
            };
            let last_row: u16 = if dims.rows > 0 {
                dims.rows - 1
            } else {
                0
            };
            let last_col: u16 = if dims.cols > 0 {
                dims.cols - 1
            } else {
                0
            };
            let row: u16 = if want_row <= last_row {
                want_row
            } else {
                last_row
            };
            let col: u16 = if want_col <= last_col {
                want_col
            } else {
                last_col
            };
            self.grid.set_cursor_position(Position::new(row, col));
        } else if action == 'J' {
            let mode = first_value(params, 0);
            if mode == 0 {
                self.erase(Erase::Below);
            } else if mode == 1 {
                self.erase(Erase::Above);
            } else if mode == 2 || mode == 3 {
                self.erase(Erase::All);
            }
        } else if action == 'K' {
            let mode = first_value(params, 0);
            if mode == 0 {
                self.erase(Erase::LineRight);
            } else if mode == 1 {
                self.erase(Erase::LineLeft);
            } else if mode == 2 {
                self.erase(Erase::Line);
            }
        } else if action == 'm' {
            self.process_sgr(params);
        } else if action == 's' {
            self.grid.save_cursor();
        } else if action == 'u' {
            self.grid.restore_cursor();
        }
    }
}

} // verus!
