//! Check boxes and radio buttons: a marker between square brackets or parentheses.

use vstd::prelude::*;
use crate::detection::{
    claimed, Confidence, DetectedElement, DetectionContext, ElementDetector,
    lemma_renumbered_well_behaved, number_elements, ref_id_text, well_behaved,
};
use crate::element::Element;
use crate::geometry::Bounds;
use crate::grid::{Grid, GridView};
use crate::text::{
    from_chars, leading_ws_len, lemma_skip_ws_back, skip_ws, subvec, trim_end, trim_end_chars,
};

verus! {

/// The greatest length of a label.
pub const MAX_CHECKBOX_LABEL: usize = 60;

/// A check box as it is found on a row.
pub struct CheckboxFind {
    /// Row of the box.
    pub row: int,
    /// Column of the opening bracket.
    pub col: int,
    /// Number of columns: the box, and a space and the label where there is a label.
    pub width: int,
    /// Text beside the box.
    pub label: Seq<char>,
    /// Whether the box is ticked.
    pub checked: bool,
}

/// The opening bracket of pattern `k`: square brackets first, then parentheses.
pub open spec fn box_open(k: int) -> char {
    if k == 0 {
        '['
    } else {
        '('
    }
}

/// The closing bracket of pattern `k`.
pub open spec fn box_close(k: int) -> char {
    if k == 0 {
        ']'
    } else {
        ')'
    }
}

/// Whether `c` marks a box of pattern `k` as ticked.
pub open spec fn is_check_mark(k: int, c: char) -> bool {
    if k == 0 {
        c == 'x' || c == 'X' || c == '*' || c == '✓' || c == '✔'
    } else {
        c == '*' || c == 'o' || c == 'O' || c == '●' || c == '◉'
    }
}

/// Whether a label ends before `c`: at a bracket that may open another box, or at a line
/// break.
pub open spec fn is_label_stop(c: char) -> bool {
    c == '[' || c == '(' || c == '\n' || c == '\r'
}

/// The first index at or after `i` of a character before which a label ends, or the
/// length.
pub open spec fn label_stop(s: Seq<char>, i: int) -> int
    decreases s.len() - i,
{
    if 0 <= i < s.len() && !is_label_stop(s[i]) {
        label_stop(s, i + 1)
    } else {
        i
    }
}

/// The smaller of two integers.
pub open spec fn smaller(a: int, b: int) -> int {
    if a <= b {
        a
    } else {
        b
    }
}

/// The label that follows a box: the text from column `start` on, without leading white
/// space, cut to sixty characters and at the first character that ends a label, and
/// without trailing white space.
pub open spec fn label_after(line: Seq<char>, start: int) -> Seq<char> {
    if 0 <= start <= line.len() {
        let first = start + skip_ws(line.skip(start), 0);
        let last = smaller(first + MAX_CHECKBOX_LABEL, line.len() as int);
        let raw = trim_end(line.subrange(first, last));
        let stop = label_stop(raw, 0);
        if stop < raw.len() {
            trim_end(raw.take(stop))
        } else {
            raw
        }
    } else {
        Seq::empty()
    }
}

/// The box of pattern `k` that opens in column `i`: the opening bracket, a tick mark or a
/// space, and the closing bracket.
pub open spec fn checkbox_at(line: Seq<char>, row: int, k: int, i: int) -> Option<CheckboxFind> {
    if 0 <= i && i + 2 < line.len() && line[i] == box_open(k) && line[i + 2] == box_close(k) && (
    is_check_mark(k, line[i + 1]) || line[i + 1] == ' ') {
        let label = label_after(line, i + 3);
        Some(
            CheckboxFind {
                row,
                col: i,
                width: smaller(
                    if label.len() == 0 {
                        3int
                    } else {
                        4 + label.len() as int
                    },
                    line.len() - i,
                ),
                label,
                checked: is_check_mark(k, line[i + 1]),
            },
        )
    } else {
        None
    }
}

/// The boxes of pattern `k` that open before column `n`, left to right.
pub open spec fn pattern_boxes(line: Seq<char>, row: int, k: int, n: int) -> Seq<CheckboxFind>
    decreases n,
{
    if n <= 0 {
        Seq::empty()
    } else {
        match checkbox_at(line, row, k, n - 1) {
            Some(f) => pattern_boxes(line, row, k, n - 1).push(f),
            None => pattern_boxes(line, row, k, n - 1),
        }
    }
}

/// The boxes of a row: those in square brackets, then those in parentheses.
pub open spec fn row_boxes(line: Seq<char>, row: int) -> Seq<CheckboxFind> {
    pattern_boxes(line, row, 0, line.len() as int) + pattern_boxes(
        line,
        row,
        1,
        line.len() as int,
    )
}

/// The region of a box.
pub open spec fn checkbox_bounds(f: CheckboxFind) -> Bounds {
    Bounds { row: f.row as u16, col: f.col as u16, width: f.width as u16, height: 1 }
}

/// Those of the first `n` of `finds` whose region is not claimed.
pub open spec fn unclaimed_boxes(finds: Seq<CheckboxFind>, n: int, claims: Seq<Bounds>) -> Seq<
    CheckboxFind,
>
    decreases n,
{
    if n <= 0 || n > finds.len() {
        Seq::empty()
    } else if !claimed(claims, checkbox_bounds(finds[n - 1])) {
        unclaimed_boxes(finds, n - 1, claims).push(finds[n - 1])
    } else {
        unclaimed_boxes(finds, n - 1, claims)
    }
}

/// The unclaimed boxes of the rows before `rows`, top to bottom.
pub open spec fn checkboxes(g: GridView, claims: Seq<Bounds>, rows: int) -> Seq<CheckboxFind>
    decreases rows,
{
    if rows <= 0 {
        Seq::empty()
    } else {
        let here = row_boxes(g.line(rows - 1), rows - 1);
        checkboxes(g, claims, rows - 1) + unclaimed_boxes(here, here.len() as int, claims)
    }
}

/// Whether `e` stands for the box `f`, whatever its reference.
pub open spec fn describes_checkbox(e: DetectedElement, f: CheckboxFind) -> bool {
    &&& e.bounds == checkbox_bounds(f)
    &&& e.confidence == Confidence::High
    &&& e.element matches Element::Checkbox { ref_id, bounds, label, checked }
    &&& bounds == checkbox_bounds(f)
    &&& label@ == f.label
    &&& checked == f.checked
}

/// Whether `e` reports the box `f` under the number `n`.
pub open spec fn reports_checkbox(e: DetectedElement, f: CheckboxFind, n: nat) -> bool {
    describes_checkbox(e, f) && e.element.id() == ref_id_text("checkbox"@, n)
}

/// Whether the elements stand for the boxes, one for one.
pub open spec fn describe_checkboxes(
    found: Seq<DetectedElement>,
    finds: Seq<CheckboxFind>,
) -> bool {
    &&& found.len() == finds.len()
    &&& forall|i: int| 0 <= i < found.len() ==> describes_checkbox(#[trigger] found[i], finds[i])
}

/// A box as the detector computes it.
struct Checkbox {
    col: usize,
    width: usize,
    label: Vec<char>,
    checked: bool,
}

impl Checkbox {
    /// The box as a mathematical value.
    spec fn find(&self, row: int) -> CheckboxFind {
        CheckboxFind {
            row,
            col: self.col as int,
            width: self.width as int,
            label: self.label@,
            checked: self.checked,
        }
    }
}

/// The boxes of a vector as mathematical values.
spec fn finds(found: Seq<Checkbox>, row: int) -> Seq<CheckboxFind> {
    Seq::new(found.len(), |i: int| found[i].find(row))
}

/// Whether `c` marks a box of pattern `k` as ticked.
fn check_mark(k: usize, c: char) -> (b: bool)
    ensures
        b == is_check_mark(k as int, c),
{
    if k == 0 {
        c == 'x' || c == 'X' || c == '*' || c == '✓' || c == '✔'
    } else {
        c == '*' || c == 'o' || c == 'O' || c == '●' || c == '◉'
    }
}

/// The label that follows a box.
fn extract_label(line: &Vec<char>, start: usize) -> (label: Vec<char>)
    requires
        start <= line.len(),
    ensures
        label@ == label_after(line@, start as int),
        label.len() <= MAX_CHECKBOX_LABEL,
{
    let after = subvec(line, start, line.len());
    assert(after@ =~= line@.skip(start as int));
    let lead = leading_ws_len(&after);
    let first = start + lead;
    let last = if line.len() - first > MAX_CHECKBOX_LABEL {
        first + MAX_CHECKBOX_LABEL
    } else {
        line.len()
    };
    let piece = subvec(line, first, last);
    let raw = trim_end_chars(&piece);
    proof {
        lemma_skip_ws_back(piece@, piece@.len() as int);
    }
    let mut stop: usize = 0;
    while stop < raw.len() && !(raw[stop] == '[' || raw[stop] == '(' || raw[stop] == '\n'
        || raw[stop] == '\r')
        invariant
            stop <= raw.len(),
            label_stop(raw@, stop as int) == label_stop(raw@, 0),
        decreases raw.len() - stop,
    {
        stop += 1;
    }
    if stop < raw.len() {
        let head = subvec(&raw, 0, stop);
        assert(head@ =~= raw@.take(stop as int));
        proof {
            lemma_skip_ws_back(head@, head@.len() as int);
        }
        trim_end_chars(&head)
    } else {
        raw
    }
}

/// The boxes of pattern `k` on a row, added to `found`.
fn scan_pattern(line: &Vec<char>, k: usize, found: &mut Vec<Checkbox>, Ghost(row): Ghost<int>)
    requires
        k < 2,
        line.len() <= 0xffff,
        forall|i: int|
            0 <= i < old(found).len() ==> (#[trigger] old(found)@[i]).col + old(found)@[i].width
                <= line.len(),
    ensures
        finds(final(found)@, row) == finds(old(found)@, row) + pattern_boxes(
            line@,
            row,
            k as int,
            line.len() as int,
        ),
        forall|i: int|
            0 <= i < final(found).len() ==> (#[trigger] final(found)@[i]).col + final(found)@[i].width <= line.len(),
{
    let open = if k == 0 {
        '['
    } else {
        '('
    };
    let close = if k == 0 {
        ']'
    } else {
        ')'
    };
    let ghost start = finds(found@, row);
    let n = line.len();
    let mut i: usize = 0;
    assert(finds(found@, row) =~= start + pattern_boxes(line@, row, k as int, 0));
    while i < n
        invariant
            i <= n,
            n == line.len(),
            n <= 0xffff,
            k < 2,
            open == box_open(k as int),
            close == box_close(k as int),
            finds(found@, row) == start + pattern_boxes(line@, row, k as int, i as int),
            forall|j: int|
                0 <= j < found.len() ==> (#[trigger] found@[j]).col + found@[j].width
                    <= line.len(),
        decreases n - i,
    {
        let ghost before = finds(found@, row);
        let ghost done = pattern_boxes(line@, row, k as int, i as int);
        if n - i > 2 && line[i] == open && line[i + 2] == close {
            let marker = line[i + 1];
            let checked = check_mark(k, marker);
            if checked || marker == ' ' {
                let label = extract_label(line, i + 3);
                let wanted = if label.len() == 0 {
                    3
                } else {
                    4 + label.len()
                };
                let width = if wanted <= n - i {
                    wanted
                } else {
                    n - i
                };
                let b = Checkbox { col: i, width, label, checked };
                found.push(b);
                assert(finds(found@, row) =~= before.push(b.find(row)));
                assert(start + done.push(b.find(row)) =~= (start + done).push(b.find(row)));
            }
        }
        i += 1;
    }
}

/// The boxes of a row.
fn detect_checkboxes_in_row(line: &Vec<char>, Ghost(row): Ghost<int>) -> (found: Vec<Checkbox>)
    requires
        line.len() <= 0xffff,
    ensures
        finds(found@, row) == row_boxes(line@, row),
        forall|i: int|
            0 <= i < found.len() ==> (#[trigger] found@[i]).col + found@[i].width <= line.len(),
{
    let mut found: Vec<Checkbox> = Vec::new();
    assert(finds(found@, row) =~= Seq::<CheckboxFind>::empty());
    scan_pattern(line, 0, &mut found, Ghost(row));
    scan_pattern(line, 1, &mut found, Ghost(row));
    assert(finds(found@, row) =~= row_boxes(line@, row));
    found
}

/// Detects check boxes and radio buttons, row by row.
pub struct CheckboxDetector {}

impl CheckboxDetector {
    /// The detector.
    pub fn new() -> (d: Self) {
        CheckboxDetector {  }
    }
}

impl Default for CheckboxDetector {
    /// The detector.
    fn default() -> (d: Self) {
        CheckboxDetector::new()
    }
}

impl ElementDetector for CheckboxDetector {
    /// The name of the detector: `checkbox`.
    fn name(&self) -> (name: &'static str)
        ensures
            name@ == "checkbox"@,
    {
        "checkbox"
    }

    /// The priority of the detector: 60.
    fn priority(&self) -> (priority: u32)
        ensures
            priority == 60,
    {
        60
    }

    /// The unclaimed boxes of every row, from the top, numbered from one in the order
    /// found.
    fn detect(&self, grid: &Grid, context: &DetectionContext) -> (found: Vec<DetectedElement>)
        ensures
            found@.len() == checkboxes(
                grid@,
                context.claimed_regions@,
                grid@.dimensions.rows as int,
            ).len(),
            forall|i: int|
                0 <= i < found@.len() ==> reports_checkbox(
                    #[trigger] found@[i],
                    checkboxes(grid@, context.claimed_regions@, grid@.dimensions.rows as int)[i],
                    (i + 1) as nat,
                ),
    {
        let mut cands: Vec<DetectedElement> = Vec::new();
        let dims = grid.dimensions();
        let ghost claims = context.claimed_regions@;
        let mut row: u16 = 0;
        while row < dims.rows
            invariant
                grid.wf(),
                dims == grid@.dimensions,
                claims == context.claimed_regions@,
                row <= dims.rows,
                well_behaved(cands@, dims, claims),
                describe_checkboxes(cands@, checkboxes(grid@, claims, row as int)),
            decreases dims.rows - row,
        {
            let line = grid.line(row);
            let here = detect_checkboxes_in_row(&line, Ghost(row as int));
            let ghost here_finds = finds(here@, row as int);
            let ghost done = checkboxes(grid@, claims, row as int);
            let mut i: usize = 0;
            while i < here.len()
                invariant
                    i <= here.len(),
                    row < dims.rows,
                    dims == grid@.dimensions,
                    claims == context.claimed_regions@,
                    line.len() == dims.cols,
                    here_finds == finds(here@, row as int),
                    forall|k: int|
                        0 <= k < here.len() ==> (#[trigger] here@[k]).col + here@[k].width
                            <= line.len(),
                    well_behaved(cands@, dims, claims),
                    describe_checkboxes(
                        cands@,
                        done + unclaimed_boxes(here_finds, i as int, claims),
                    ),
                decreases here.len() - i,
            {
                let ghost f = here_finds[i as int];
                let ghost kept = unclaimed_boxes(here_finds, i as int, claims);
                assert(f == here@[i as int].find(row as int));
                let bounds = Bounds::new(row, here[i].col as u16, here[i].width as u16, 1);
                assert(bounds == checkbox_bounds(f));
                if !context.is_region_claimed(&bounds) {
                    let label = from_chars(&here[i].label);
                    let e = DetectedElement {
                        element: Element::Checkbox {
                            ref_id: String::new(),
                            bounds,
                            label,
                            checked: here[i].checked,
                        },
                        bounds,
                        confidence: Confidence::High,
                    };
                    cands.push(e);
                    assert(done + kept.push(f) =~= (done + kept).push(f));
                }
                i += 1;
            }
            row += 1;
        }
        let found = number_elements(cands);
        proof {
            lemma_renumbered_well_behaved(found@, cands@, dims, claims);
            reveal_strlit("checkbox");
        }
        found
    }
}

} // verus!
