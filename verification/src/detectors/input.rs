//! Text fields, found at the cursor.

use vstd::prelude::*;
use crate::detection::{
    claimed, Confidence, DetectedElement, DetectionContext, ElementDetector, make_ref_id,
    ref_id_text,
};
use crate::element::Element;
use crate::geometry::{Bounds, Position};
use crate::grid::{Grid, GridView};
use crate::text::{
    find_char, from_chars, index_of, last_index_of, leading_ws_len, longest_run, longest_true_run,
    rfind_char, skip_ws, subvec, trim, trim_chars, trim_end, trim_end_chars,
};

verus! {

/// The least width of a bracketed or highlighted field.
pub const MIN_INPUT_WIDTH: usize = 3;

/// A text field as it is found on a row.
pub struct InputFind {
    /// First column of the field.
    pub start: int,
    /// Column after the last of the field.
    pub end: int,
    /// What the field holds.
    pub value: Seq<char>,
    /// Position of the cursor inside the value.
    pub cursor_pos: int,
    /// How sure the detection is.
    pub confidence: Confidence,
}

/// The smaller of two integers.
pub open spec fn least(a: int, b: int) -> int {
    if a <= b {
        a
    } else {
        b
    }
}

/// The span of the value of a labelled field: from the first character that is not white
/// space after the first colon to the end of the row. There is such a field where
/// something other than white space follows the colon, or more than one character.
pub open spec fn labeled_span(line: Seq<char>) -> Option<(int, int)> {
    match index_of(line, 0, ':') {
        Some(colon) => {
            let after = line.skip(colon + 1);
            let lead = skip_ws(after, 0);
            if lead < after.len() || after.len() > 1 {
                Some((colon + 1 + lead, line.len() as int))
            } else {
                None
            }
        },
        None => None,
    }
}

/// The span between the first `open` and the last `close` of a row that, without its
/// surrounding white space, begins with `open` and ends with `close`, where that span is
/// at least three columns wide.
pub open spec fn pair_span(line: Seq<char>, open: char, close: char) -> Option<(int, int)> {
    let t = trim(line);
    if t.len() > 0 && t[0] == open && t.last() == close {
        match (index_of(line, 0, open), last_index_of(line, line.len() as int, close)) {
            (Some(a), Some(b)) => if b > a + 1 && b - (a + 1) >= MIN_INPUT_WIDTH {
                Some((a + 1, b))
            } else {
                None
            },
            _ => None,
        }
    } else {
        None
    }
}

/// The span of a bracketed field: that of the first of the pairs `[ ]`, `( )`, `{ }` and
/// `│ │` that encloses the row.
pub open spec fn bracketed_span(line: Seq<char>) -> Option<(int, int)> {
    if pair_span(line, '[', ']') is Some {
        pair_span(line, '[', ']')
    } else if pair_span(line, '(', ')') is Some {
        pair_span(line, '(', ')')
    } else if pair_span(line, '{', '}') is Some {
        pair_span(line, '{', '}')
    } else {
        pair_span(line, '│', '│')
    }
}

/// The field on the cursor's row, with the cursor in column `col`: a labelled field where
/// there is one, else a bracketed field.
pub open spec fn field_at_cursor(line: Seq<char>, col: int) -> Option<InputFind> {
    match labeled_span(line) {
        Some((start, end)) => {
            let value = trim_end(line.subrange(start, end));
            Some(
                InputFind {
                    start,
                    end,
                    value,
                    cursor_pos: if col >= start {
                        least(col - start, value.len() as int)
                    } else {
                        0
                    },
                    confidence: Confidence::High,
                },
            )
        },
        None => match bracketed_span(line) {
            Some((start, end)) => {
                let value = trim(line.subrange(start, end));
                Some(
                    InputFind {
                        start,
                        end,
                        value,
                        cursor_pos: if start <= col < end {
                            least(col - start, value.len() as int)
                        } else {
                            0
                        },
                        confidence: Confidence::Medium,
                    },
                )
            },
            None => None,
        },
    }
}

/// For each column of row `row`, whether its cell is in reverse video and not a space.
pub open spec fn focus_flags(g: GridView, row: int) -> Seq<bool> {
    Seq::new(
        if 0 <= row < g.dimensions.rows {
            g.dimensions.cols as nat
        } else {
            0
        },
        |c: int| g.at(row, c).attrs.reverse && g.at(row, c).character != ' ',
    )
}

/// The highlighted field of row `row`: the longest run of cells in reverse video that are
/// not spaces, where it is at least three columns wide.
pub open spec fn focused_field(g: GridView, row: int) -> Option<InputFind> {
    let (start, len) = longest_run(focus_flags(g, row));
    if len >= MIN_INPUT_WIDTH {
        Some(
            InputFind {
                start,
                end: start + len,
                value: trim(g.row_chars(row, start, len)),
                cursor_pos: len,
                confidence: Confidence::High,
            },
        )
    } else {
        None
    }
}

/// The region of a field found on row `row`.
pub open spec fn field_bounds(row: int, f: InputFind) -> Bounds {
    Bounds { row: row as u16, col: f.start as u16, width: (f.end - f.start) as u16, height: 1 }
}

/// The field that the detector reports: the field at the cursor unless its region is
/// claimed, else the highlighted field of the cursor's row unless its region is claimed.
pub open spec fn input_find(g: GridView, cursor: Position, claims: Seq<Bounds>) -> Option<
    InputFind,
> {
    let first = field_at_cursor(g.line(cursor.row as int), cursor.col as int);
    let second = focused_field(g, cursor.row as int);
    if first is Some && !claimed(claims, field_bounds(cursor.row as int, first->0)) {
        first
    } else if second is Some && !claimed(claims, field_bounds(cursor.row as int, second->0)) {
        second
    } else {
        None
    }
}

/// Whether `e` is the input element that reports the field `f` of row `row`, under the
/// number `n`.
pub open spec fn reports_input(e: DetectedElement, row: int, f: InputFind, n: nat) -> bool {
    &&& e.bounds == field_bounds(row, f)
    &&& e.confidence == f.confidence
    &&& e.element matches Element::Input { ref_id, bounds, value, cursor_pos }
    &&& ref_id@ == ref_id_text("input"@, n)
    &&& bounds == field_bounds(row, f)
    &&& value@ == f.value
    &&& cursor_pos == f.cursor_pos
}

/// Detects the text field that the cursor stands in.
pub struct InputDetector {}

/// A field as the detector computes it.
struct Field {
    start: usize,
    end: usize,
    value: Vec<char>,
    cursor_pos: usize,
    confidence: Confidence,
}

impl Field {
    /// The field as a mathematical value.
    spec fn find(&self) -> InputFind {
        InputFind {
            start: self.start as int,
            end: self.end as int,
            value: self.value@,
            cursor_pos: self.cursor_pos as int,
            confidence: self.confidence,
        }
    }
}

/// The span of the value of a labelled field.
fn find_labeled(line: &Vec<char>) -> (r: Option<(usize, usize)>)
    ensures
        match r {
            Some((a, b)) => labeled_span(line@) == Some((a as int, b as int)) && a <= b
                && b == line.len(),
            None => labeled_span(line@) is None,
        },
{
    match find_char(line, 0, ':') {
        Some(colon) => {
            let after = subvec(line, colon + 1, line.len());
            assert(after@ =~= line@.skip(colon + 1));
            let lead = leading_ws_len(&after);
            if lead < after.len() || after.len() > 1 {
                Some((colon + 1 + lead, line.len()))
            } else {
                None
            }
        },
        None => None,
    }
}

/// The span that the pair `open`, `close` encloses.
fn find_pair(line: &Vec<char>, open: char, close: char) -> (r: Option<(usize, usize)>)
    ensures
        match r {
            Some((a, b)) => pair_span(line@, open, close) == Some((a as int, b as int)) && a <= b
                && b <= line.len(),
            None => pair_span(line@, open, close) is None,
        },
{
    let t = trim_chars(line);
    if t.len() > 0 && t[0] == open && t[t.len() - 1] == close {
        let first = find_char(line, 0, open);
        let last = rfind_char(line, close);
        match (first, last) {
            (Some(a), Some(b)) => {
                if b > a + 1 && b - (a + 1) >= MIN_INPUT_WIDTH {
                    Some((a + 1, b))
                } else {
                    None
                }
            },
            _ => None,
        }
    } else {
        None
    }
}

/// The span of a bracketed field.
fn find_bracketed(line: &Vec<char>) -> (r: Option<(usize, usize)>)
    ensures
        match r {
            Some((a, b)) => bracketed_span(line@) == Some((a as int, b as int)) && a <= b && b
                <= line.len(),
            None => bracketed_span(line@) is None,
        },
{
    let square = find_pair(line, '[', ']');
    if square.is_some() {
        return square;
    }
    let round = find_pair(line, '(', ')');
    if round.is_some() {
        return round;
    }
    let curly = find_pair(line, '{', '}');
    if curly.is_some() {
        return curly;
    }
    find_pair(line, '│', '│')
}

/// The field on the cursor's row.
fn detect_input_at_cursor(line: &Vec<char>, col: u16) -> (r: Option<Field>)
    ensures
        match r {
            Some(f) => field_at_cursor(line@, col as int) == Some(f.find()) && f.start <= f.end
                && f.end <= line.len(),
            None => field_at_cursor(line@, col as int) is None,
        },
{
    let col = col as usize;
    match find_labeled(line) {
        Some((start, end)) => {
            let inner = subvec(line, start, end);
            let value = trim_end_chars(&inner);
            let cursor_pos = if col >= start {
                if col - start <= value.len() {
                    col - start
                } else {
                    value.len()
                }
            } else {
                0
            };
            Some(Field { start, end, value, cursor_pos, confidence: Confidence::High })
        },
        None => match find_bracketed(line) {
            Some((start, end)) => {
                let inner = subvec(line, start, end);
                let value = trim_chars(&inner);
                let cursor_pos = if start <= col && col < end {
                    if col - start <= value.len() {
                        col - start
                    } else {
                        value.len()
                    }
                } else {
                    0
                };
                Some(Field { start, end, value, cursor_pos, confidence: Confidence::Medium })
            },
            None => None,
        },
    }
}

/// The highlighted field of row `row`.
fn detect_reverse_video_input(grid: &Grid, row: u16) -> (r: Option<Field>)
    requires
        grid.wf(),
    ensures
        match r {
            Some(f) => focused_field(grid@, row as int) == Some(f.find()) && f.start <= f.end
                && f.end <= grid@.dimensions.cols && row < grid@.dimensions.rows,
            None => focused_field(grid@, row as int) is None,
        },
{
    let dims = grid.dimensions();
    let mut flags: Vec<bool> = Vec::new();
    if row < dims.rows {
        let mut col: u16 = 0;
        while col < dims.cols
            invariant
                grid.wf(),
                dims == grid@.dimensions,
                row < dims.rows,
                col <= dims.cols,
                flags.len() == col,
                forall|c: int|
                    0 <= c < col ==> flags@[c] == (grid@.at(row as int, c).attrs.reverse
                        && grid@.at(row as int, c).character != ' '),
            decreases dims.cols - col,
        {
            let flag = match grid.cell(row, col) {
                Some(cell) => cell.attrs.reverse && cell.character != ' ',
                None => false,
            };
            flags.push(flag);
            col += 1;
        }
    }
    assert(flags@ =~= focus_flags(grid@, row as int));
    let (start, len) = longest_true_run(&flags);
    if len >= MIN_INPUT_WIDTH {
        let chars = grid.row_text(row, start as u16, len as u16);
        let value = trim_chars(&chars);
        Some(
            Field { start, end: start + len, value, cursor_pos: len, confidence: Confidence::High },
        )
    } else {
        None
    }
}

/// The element that reports the field `f` of row `row`.
fn input_element(row: u16, f: Field) -> (e: DetectedElement)
    requires
        f.start <= f.end <= 0xffff,
    ensures
        reports_input(e, row as int, f.find(), 1),
        e.element.region() == e.bounds,
{
    let bounds = Bounds::new(row, f.start as u16, (f.end - f.start) as u16, 1);
    DetectedElement {
        element: Element::Input {
            ref_id: make_ref_id("input", 0),
            bounds,
            value: from_chars(&f.value),
            cursor_pos: f.cursor_pos,
        },
        bounds,
        confidence: f.confidence,
    }
}

impl InputDetector {
    /// The detector.
    pub fn new() -> (d: Self) {
        InputDetector {  }
    }
}

impl Default for InputDetector {
    /// The detector.
    fn default() -> (d: Self) {
        InputDetector::new()
    }
}

impl ElementDetector for InputDetector {
    /// The name of the detector: `input`.
    fn name(&self) -> (name: &'static str)
        ensures
            name@ == "input"@,
    {
        "input"
    }

    /// The priority of the detector: 70.
    fn priority(&self) -> (priority: u32)
        ensures
            priority == 70,
    {
        70
    }

    /// The text field of the cursor's row, if there is one that is not claimed: at most
    /// one element, numbered 1.
    fn detect(&self, grid: &Grid, context: &DetectionContext) -> (found: Vec<DetectedElement>)
        ensures
            match input_find(grid@, context.cursor, context.claimed_regions@) {
                Some(f) => found@.len() == 1 && reports_input(
                    found@[0],
                    context.cursor.row as int,
                    f,
                    1,
                ),
                None => found@.len() == 0,
            },
    {
        let mut results: Vec<DetectedElement> = Vec::new();
        let row = context.cursor.row;
        let line = grid.line(row);
        match detect_input_at_cursor(&line, context.cursor.col) {
            Some(field) => {
                let ghost f = field.find();
                let input = input_element(row, field);
                if !context.is_region_claimed(&input.bounds) {
                    results.push(input);
                    return results;
                }
            },
            None => {},
        }
        match detect_reverse_video_input(grid, row) {
            Some(field) => {
                let input = input_element(row, field);
                if !context.is_region_claimed(&input.bounds) {
                    results.push(input);
                }
            },
            None => {},
        }
        results
    }
}

} // verus!
