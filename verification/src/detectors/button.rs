//! Push buttons: labels between square brackets, angle brackets or corner brackets.

use vstd::prelude::*;
use crate::detection::{
    claimed, Confidence, DetectedElement, DetectionContext, ElementDetector,
    lemma_renumbered_well_behaved, number_elements, ref_id_text, well_behaved,
};
use crate::element::Element;
use crate::geometry::Bounds;
use crate::grid::{Grid, GridView};
use crate::text::{
    contains_char, contains_sub, find_at, find_sub, from_chars, has_char, has_sub, subvec, trim,
    trim_chars,
};

verus! {

/// The greatest length of a label.
pub const MAX_BUTTON_LABEL: usize = 30;

/// A button as it is found on a row.
pub struct ButtonFind {
    /// Row of the button.
    pub row: int,
    /// First column, that of the opening delimiter.
    pub col: int,
    /// Number of columns, delimiters included.
    pub width: int,
    /// What the button says.
    pub label: Seq<char>,
}

/// The opening delimiter of pattern `k`. The patterns are tried in this order: `[ x ]`,
/// `[x]`, `< x >`, `<x>`, `「x」`.
pub open spec fn opener(k: int) -> Seq<char> {
    if k == 0 {
        seq!['[', ' ']
    } else if k == 1 {
        seq!['[']
    } else if k == 2 {
        seq!['<', ' ']
    } else if k == 3 {
        seq!['<']
    } else {
        seq!['「']
    }
}

/// The closing delimiter of pattern `k`.
pub open spec fn closer(k: int) -> Seq<char> {
    if k == 0 {
        seq![' ', ']']
    } else if k == 1 {
        seq![']']
    } else if k == 2 {
        seq![' ', '>']
    } else if k == 3 {
        seq!['>']
    } else {
        seq!['」']
    }
}

/// Whether the row looks like a shell prompt: it holds one of `$`, `#`, `~`, `@`, `:`, or
/// one of the words `git`, `main`, `master`, `dev`.
pub open spec fn is_prompt(line: Seq<char>) -> bool {
    ||| has_char(line, '$')
    ||| has_char(line, '#')
    ||| has_char(line, '~')
    ||| has_char(line, '@')
    ||| has_char(line, ':')
    ||| has_sub(line, seq!['g', 'i', 't'])
    ||| has_sub(line, seq!['m', 'a', 'i', 'n'])
    ||| has_sub(line, seq!['m', 'a', 's', 't', 'e', 'r'])
    ||| has_sub(line, seq!['d', 'e', 'v'])
}

/// Whether `label` can be the label of a button: it is not empty, at most thirty
/// characters long, and holds no delimiter.
pub open spec fn valid_label(label: Seq<char>) -> bool {
    &&& label.len() > 0
    &&& label.len() <= MAX_BUTTON_LABEL
    &&& !has_char(label, '[')
    &&& !has_char(label, ']')
    &&& !has_char(label, '<')
    &&& !has_char(label, '>')
    &&& !has_char(label, '(')
    &&& !has_char(label, ')')
    &&& !has_char(label, '「')
    &&& !has_char(label, '」')
}

/// Whether the columns `start .. end` overlap a button of `found`.
pub open spec fn overlaps(found: Seq<ButtonFind>, start: int, end: int) -> bool {
    exists|i: int|
        0 <= i < found.len() && !(end <= (#[trigger] found[i]).col || start >= found[i].col
            + found[i].width)
}

/// The buttons of `found` and, after them, those that the pattern `open`, `close` yields
/// on the row from column `from` on. Each opening delimiter is paired with the next
/// closing delimiter; the text between them, without surrounding white space, is the
/// label; a pair with a valid label is a button unless it overlaps one found before; and
/// the search goes on after the closing delimiter.
pub open spec fn scan_pattern(
    line: Seq<char>,
    row: int,
    open: Seq<char>,
    close: Seq<char>,
    from: int,
    found: Seq<ButtonFind>,
) -> Seq<ButtonFind>
    decreases line.len() - from,
{
    match find_at(line, from, open) {
        None => found,
        Some(a) => {
            let after = a + open.len();
            match find_at(line, after, close) {
                None => found,
                Some(e) => {
                    let label = trim(line.subrange(after, e));
                    let next = e + close.len();
                    let found2 = if valid_label(label) && !overlaps(found, a, next) {
                        found.push(ButtonFind { row, col: a, width: next - a, label })
                    } else {
                        found
                    };
                    if from < next <= line.len() {
                        scan_pattern(line, row, open, close, next, found2)
                    } else {
                        found2
                    }
                },
            }
        },
    }
}

/// The buttons of `found` and, after them, those of the patterns from `k` on.
pub open spec fn scan_patterns(line: Seq<char>, row: int, k: int, found: Seq<ButtonFind>) -> Seq<
    ButtonFind,
>
    decreases 5 - k,
{
    if k < 0 || k >= 5 {
        found
    } else {
        scan_patterns(line, row, k + 1, scan_pattern(line, row, opener(k), closer(k), 0, found))
    }
}

/// The buttons of a row: none on a row that looks like a shell prompt, else those of the
/// five patterns in turn.
pub open spec fn row_buttons(line: Seq<char>, row: int) -> Seq<ButtonFind> {
    if is_prompt(line) {
        Seq::empty()
    } else {
        scan_patterns(line, row, 0, Seq::empty())
    }
}

/// The region of a button.
pub open spec fn button_bounds(f: ButtonFind) -> Bounds {
    Bounds { row: f.row as u16, col: f.col as u16, width: f.width as u16, height: 1 }
}

/// Those of the first `n` of `finds` whose region is not claimed.
pub open spec fn unclaimed_buttons(finds: Seq<ButtonFind>, n: int, claims: Seq<Bounds>) -> Seq<
    ButtonFind,
>
    decreases n,
{
    if n <= 0 || n > finds.len() {
        Seq::empty()
    } else if !claimed(claims, button_bounds(finds[n - 1])) {
        unclaimed_buttons(finds, n - 1, claims).push(finds[n - 1])
    } else {
        unclaimed_buttons(finds, n - 1, claims)
    }
}

/// The unclaimed buttons of the rows before `rows`, top to bottom and left to right
/// within each pattern.
pub open spec fn buttons(g: GridView, claims: Seq<Bounds>, rows: int) -> Seq<ButtonFind>
    decreases rows,
{
    if rows <= 0 {
        Seq::empty()
    } else {
        let here = row_buttons(g.line(rows - 1), rows - 1);
        buttons(g, claims, rows - 1) + unclaimed_buttons(here, here.len() as int, claims)
    }
}

/// Whether `e` stands for the button `f`, whatever its reference.
pub open spec fn describes_button(e: DetectedElement, f: ButtonFind) -> bool {
    &&& e.bounds == button_bounds(f)
    &&& e.confidence == Confidence::High
    &&& e.element matches Element::Button { ref_id, bounds, label }
    &&& bounds == button_bounds(f)
    &&& label@ == f.label
}

/// Whether `e` reports the button `f` under the number `n`.
pub open spec fn reports_button(e: DetectedElement, f: ButtonFind, n: nat) -> bool {
    describes_button(e, f) && e.element.id() == ref_id_text("button"@, n)
}

/// Whether the elements stand for the buttons, one for one.
pub open spec fn describe_buttons(found: Seq<DetectedElement>, finds: Seq<ButtonFind>) -> bool {
    &&& found.len() == finds.len()
    &&& forall|i: int| 0 <= i < found.len() ==> describes_button(#[trigger] found[i], finds[i])
}

/// A button as the detector computes it.
struct Button {
    col: usize,
    width: usize,
    label: Vec<char>,
}

impl Button {
    /// The button as a mathematical value.
    spec fn find(&self, row: int) -> ButtonFind {
        ButtonFind { row, col: self.col as int, width: self.width as int, label: self.label@ }
    }
}

/// The buttons of a vector as mathematical values.
spec fn finds(found: Seq<Button>, row: int) -> Seq<ButtonFind> {
    Seq::new(found.len(), |i: int| found[i].find(row))
}

/// The opening delimiter of pattern `k`.
fn open_of(k: usize) -> (v: Vec<char>)
    requires
        k < 5,
    ensures
        v@ == opener(k as int),
        v.len() >= 1,
{
    let mut v: Vec<char> = Vec::new();
    if k == 0 {
        v.push('[');
        v.push(' ');
    } else if k == 1 {
        v.push('[');
    } else if k == 2 {
        v.push('<');
        v.push(' ');
    } else if k == 3 {
        v.push('<');
    } else {
        v.push('「');
    }
    assert(v@ =~= opener(k as int));
    v
}

/// The closing delimiter of pattern `k`.
fn close_of(k: usize) -> (v: Vec<char>)
    requires
        k < 5,
    ensures
        v@ == closer(k as int),
        v.len() >= 1,
{
    let mut v: Vec<char> = Vec::new();
    if k == 0 {
        v.push(' ');
        v.push(']');
    } else if k == 1 {
        v.push(']');
    } else if k == 2 {
        v.push(' ');
        v.push('>');
    } else if k == 3 {
        v.push('>');
    } else {
        v.push('」');
    }
    assert(v@ =~= closer(k as int));
    v
}

/// The vector of the characters given.
fn chars3(a: char, b: char, c: char) -> (v: Vec<char>)
    ensures
        v@ == seq![a, b, c],
{
    let mut v: Vec<char> = Vec::new();
    v.push(a);
    v.push(b);
    v.push(c);
    assert(v@ =~= seq![a, b, c]);
    v
}

/// Whether the row looks like a shell prompt.
fn is_shell_prompt_row(line: &Vec<char>) -> (b: bool)
    ensures
        b == is_prompt(line@),
{
    if contains_char(line, '$') || contains_char(line, '#') || contains_char(line, '~')
        || contains_char(line, '@') || contains_char(line, ':') {
        return true;
    }
    let git = chars3('g', 'i', 't');
    let dev = chars3('d', 'e', 'v');
    let mut main = chars3('m', 'a', 'i');
    main.push('n');
    assert(main@ =~= seq!['m', 'a', 'i', 'n']);
    let mut master = chars3('m', 'a', 's');
    master.push('t');
    master.push('e');
    master.push('r');
    assert(master@ =~= seq!['m', 'a', 's', 't', 'e', 'r']);
    contains_sub(line, &git) || contains_sub(line, &main) || contains_sub(line, &master)
        || contains_sub(line, &dev)
}

/// Whether `label` can be the label of a button.
fn label_ok(label: &Vec<char>) -> (b: bool)
    ensures
        b == valid_label(label@),
{
    label.len() > 0 && label.len() <= MAX_BUTTON_LABEL && !contains_char(label, '[')
        && !contains_char(label, ']') && !contains_char(label, '<') && !contains_char(label, '>')
        && !contains_char(label, '(') && !contains_char(label, ')') && !contains_char(
        label,
        '「',
    ) && !contains_char(label, '」')
}

/// Whether the columns `start .. end` overlap a button of `found`.
fn overlaps_existing(start: usize, end: usize, found: &Vec<Button>, Ghost(row): Ghost<int>) -> (b:
    bool)
    requires
        forall|i: int|
            0 <= i < found.len() ==> (#[trigger] found@[i]).col + found@[i].width <= 0xffff,
    ensures
        b == overlaps(finds(found@, row), start as int, end as int),
{
    let mut i: usize = 0;
    while i < found.len()
        invariant
            i <= found.len(),
            forall|k: int|
                0 <= k < found.len() ==> (#[trigger] found@[k]).col + found@[k].width <= 0xffff,
            forall|k: int|
                0 <= k < i ==> (end <= (#[trigger] finds(found@, row)[k]).col || start >= finds(
                    found@,
                    row,
                )[k].col + finds(found@, row)[k].width),
        decreases found.len() - i,
    {
        let b = &found[i];
        assert(finds(found@, row)[i as int] == b.find(row));
        if !(end <= b.col || start >= b.col + b.width) {
            return true;
        }
        i += 1;
    }
    false
}

/// Adds to `found` the buttons that pattern `k` yields on the row.
fn scan_one(line: &Vec<char>, k: usize, found: &mut Vec<Button>, Ghost(row): Ghost<int>)
    requires
        k < 5,
        line.len() <= 0xffff,
        forall|i: int|
            0 <= i < old(found).len() ==> (#[trigger] old(found)@[i]).col + old(found)@[i].width
                <= line.len(),
    ensures
        finds(final(found)@, row) == scan_pattern(
            line@,
            row,
            opener(k as int),
            closer(k as int),
            0,
            finds(old(found)@, row),
        ),
        forall|i: int|
            0 <= i < final(found).len() ==> (#[trigger] final(found)@[i]).col + final(found)@[i].width <= line.len(),
{
    let open = open_of(k);
    let close = close_of(k);
    let ghost goal = scan_pattern(line@, row, open@, close@, 0, finds(old(found)@, row));
    let mut from: usize = 0;
    loop
        invariant
            from <= line.len(),
            line.len() <= 0xffff,
            open@ == opener(k as int),
            close@ == closer(k as int),
            open.len() >= 1,
            close.len() >= 1,
            goal == scan_pattern(line@, row, open@, close@, from as int, finds(found@, row)),
            forall|i: int|
                0 <= i < found.len() ==> (#[trigger] found@[i]).col + found@[i].width
                    <= line.len(),
        ensures
            finds(found@, row) == goal,
            forall|i: int|
                0 <= i < found.len() ==> (#[trigger] found@[i]).col + found@[i].width
                    <= line.len(),
        decreases line.len() - from,
    {
        let a = match find_sub(line, from, &open) {
            Some(a) => a,
            None => {
                break ;
            },
        };
        let after = a + open.len();
        let e = match find_sub(line, after, &close) {
            Some(e) => e,
            None => {
                break ;
            },
        };
        let inner = subvec(line, after, e);
        let label = trim_chars(&inner);
        let next = e + close.len();
        let ghost before = finds(found@, row);
        if label_ok(&label) && !overlaps_existing(a, next, found, Ghost(row)) {
            let button = Button { col: a, width: next - a, label };
            found.push(button);
            assert(finds(found@, row) =~= before.push(button.find(row)));
        }
        from = next;
    }
}

/// The buttons of a row.
fn detect_buttons_in_row(line: &Vec<char>, Ghost(row): Ghost<int>) -> (found: Vec<Button>)
    requires
        line.len() <= 0xffff,
    ensures
        finds(found@, row) == row_buttons(line@, row),
        forall|i: int|
            0 <= i < found.len() ==> (#[trigger] found@[i]).col + found@[i].width <= line.len(),
{
    let mut found: Vec<Button> = Vec::new();
    if is_shell_prompt_row(line) {
        assert(finds(found@, row) =~= Seq::<ButtonFind>::empty());
        return found;
    }
    assert(finds(found@, row) =~= Seq::<ButtonFind>::empty());
    let mut k: usize = 0;
    while k < 5
        invariant
            k <= 5,
            line.len() <= 0xffff,
            scan_patterns(line@, row, k as int, finds(found@, row)) == row_buttons(line@, row),
            forall|i: int|
                0 <= i < found.len() ==> (#[trigger] found@[i]).col + found@[i].width
                    <= line.len(),
        decreases 5 - k,
    {
        scan_one(line, k, &mut found, Ghost(row));
        k += 1;
    }
    found
}

/// Detects buttons, row by row.
pub struct ButtonDetector {}

impl ButtonDetector {
    /// The detector.
    pub fn new() -> (d: Self) {
        ButtonDetector {  }
    }
}

impl Default for ButtonDetector {
    /// The detector.
    fn default() -> (d: Self) {
        ButtonDetector::new()
    }
}

impl ElementDetector for ButtonDetector {
    /// The name of the detector: `button`.
    fn name(&self) -> (name: &'static str)
        ensures
            name@ == "button"@,
    {
        "button"
    }

    /// The priority of the detector: 60.
    fn priority(&self) -> (priority: u32)
        ensures
            priority == 60,
    {
        60
    }

    /// The unclaimed buttons of every row, from the top, numbered from one in the order
    /// found.
    fn detect(&self, grid: &Grid, context: &DetectionContext) -> (found: Vec<DetectedElement>)
        ensures
            found@.len() == buttons(
                grid@,
                context.claimed_regions@,
                grid@.dimensions.rows as int,
            ).len(),
            forall|i: int|
                0 <= i < found@.len() ==> reports_button(
                    #[trigger] found@[i],
                    buttons(grid@, context.claimed_regions@, grid@.dimensions.rows as int)[i],
                    (i + 1) as nat,
                ),
    {
        let mut cands: Vec<DetectedElement> = Vec::new();
        let dims = grid.dimensions();
        let ghost claims = context.claimed_regions@;
        let mut row: u16 = 0;
        while row < dims.rows
            invariant
                grid.wf(),
                dims == grid@.dimensions,
                claims == context.claimed_regions@,
                row <= dims.rows,
                well_behaved(cands@, dims, claims),
                describe_buttons(cands@, buttons(grid@, claims, row as int)),
            decreases dims.rows - row,
        {
            let line = grid.line(row);
            let here = detect_buttons_in_row(&line, Ghost(row as int));
            let ghost here_finds = finds(here@, row as int);
            let ghost before = cands@;
            let ghost done = buttons(grid@, claims, row as int);
            let mut here = here;
            let mut i: usize = 0;
            // The buttons are taken over one by one; taking the label out of a button
            // leaves an empty one behind, which is not looked at again.
            while i < here.len()
                invariant
                    i <= here.len(),
                    row < dims.rows,
                    dims == grid@.dimensions,
                    claims == context.claimed_regions@,
                    line.len() == dims.cols,
                    here.len() == here_finds.len(),
                    forall|k: int|
                        i <= k < here.len() ==> (#[trigger] here@[k]).find(row as int)
                            == here_finds[k],
                    forall|k: int|
                        0 <= k < here.len() ==> (#[trigger] here_finds[k]).col
                            + here_finds[k].width <= line.len() && here_finds[k].col >= 0
                            && here_finds[k].width >= 0 && here_finds[k].row == row,
                    well_behaved(cands@, dims, claims),
                    describe_buttons(cands@, done + unclaimed_buttons(here_finds, i as int, claims)),
                decreases here.len() - i,
            {
                let ghost f = here_finds[i as int];
                let ghost kept = unclaimed_buttons(here_finds, i as int, claims);
                let col = here[i].col;
                let width = here[i].width;
                let bounds = Bounds::new(row, col as u16, width as u16, 1);
                assert(bounds == button_bounds(f));
                if !context.is_region_claimed(&bounds) {
                    let label = from_chars(&here[i].label);
                    let e = DetectedElement {
                        element: Element::Button { ref_id: String::new(), bounds, label },
                        bounds,
                        confidence: Confidence::High,
                    };
                    cands.push(e);
                    assert(done + kept.push(f) =~= (done + kept).push(f));
                }
                i += 1;
            }
            row += 1;
        }
        let found = number_elements(cands);
        proof {
            lemma_renumbered_well_behaved(found@, cands@, dims, claims);
            reveal_strlit("button");
        }
        found
    }
}

} // verus!
