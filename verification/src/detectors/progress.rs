//! Progress indicators: bars drawn with block characters, bars in square brackets, and
//! percentages written out.

use vstd::prelude::*;
use crate::detection::{
    claimed, Confidence, DetectedElement, DetectionContext, ElementDetector, make_ref_id,
    ref_id_text, well_behaved,
};
use crate::element::Element;
use crate::geometry::Bounds;
use crate::grid::{Grid, GridView};
use crate::text::{
    char_is_digit, digit_value, find_char, index_of, is_digit, lemma_index_of, trim_end,
    trim_end_chars,
};

verus! {

/// The least length of a bar.
pub const MIN_BAR_LENGTH: usize = 5;

/// Whether `c` draws the filled part of a bar.
pub open spec fn is_filled(c: char) -> bool {
    c == '█' || c == '▓' || c == '▒' || c == '#' || c == '=' || c == '*'
}

/// Whether `c` draws the empty part of a bar.
pub open spec fn is_hollow(c: char) -> bool {
    c == '░' || c == '·' || c == ' ' || c == '-' || c == '.' || c == '▁'
}

/// Whether `c` is a block character, which only a bar would hold.
pub open spec fn is_block(c: char) -> bool {
    c == '█' || c == '▓' || c == '▒' || c == '#' || c == '░' || c == '▁'
}

/// Whether `c` may stand in a bar of block characters.
pub open spec fn is_bar_char(c: char) -> bool {
    is_filled(c) || is_hollow(c)
}

/// Whether `c` may stand inside a bar in brackets, as filled part.
pub open spec fn is_bracket_filled(c: char) -> bool {
    c == '=' || c == '#' || c == '*'
}

/// Whether `c` may stand inside a bar in brackets.
pub open spec fn is_bracket_char(c: char) -> bool {
    is_bracket_filled(c) || c == ' ' || c == '-' || c == '.'
}

/// Whether `c` draws the filled part of a bar.
fn filled(c: char) -> (b: bool)
    ensures
        b == is_filled(c),
{
    c == '█' || c == '▓' || c == '▒' || c == '#' || c == '=' || c == '*'
}

/// Whether `c` draws the empty part of a bar.
fn hollow(c: char) -> (b: bool)
    ensures
        b == is_hollow(c),
{
    c == '░' || c == '·' || c == ' ' || c == '-' || c == '.' || c == '▁'
}

/// Whether `c` is a block character.
fn block(c: char) -> (b: bool)
    ensures
        b == is_block(c),
{
    c == '█' || c == '▓' || c == '▒' || c == '#' || c == '░' || c == '▁'
}

/// A progress indicator as it is found on a row.
pub struct BarFind {
    /// First column.
    pub col: int,
    /// Number of columns.
    pub width: int,
    /// Progress from 0 to 100.
    pub percent: int,
    /// How sure the detection is.
    pub confidence: Confidence,
}

/// The number of characters of `s` in `a .. b` that draw the filled part of a bar.
pub open spec fn count_filled(s: Seq<char>, a: int, b: int) -> int
    decreases b - a,
{
    if b <= a {
        0
    } else {
        count_filled(s, a, b - 1) + if is_filled(s[b - 1]) {
            1int
        } else {
            0int
        }
    }
}

/// Whether a block character stands in `s` in `a .. b`.
pub open spec fn any_block(s: Seq<char>, a: int, b: int) -> bool
    decreases b - a,
{
    if b <= a {
        false
    } else {
        any_block(s, a, b - 1) || is_block(s[b - 1])
    }
}

/// The end of the run of bar characters that begins at `i`.
pub open spec fn run_end(s: Seq<char>, i: int) -> int
    decreases s.len() - i,
{
    if 0 <= i < s.len() && is_bar_char(s[i]) {
        run_end(s, i + 1)
    } else {
        i
    }
}

/// The share of `filled` in `total`, in per cent, rounded down.
pub open spec fn share(filled: int, total: int) -> int {
    if total > 0 {
        filled * 100 / total
    } else {
        0
    }
}

/// The first bar of block characters at or after `i`: the first maximal run of bar
/// characters that is at least five long and holds a block character.
pub open spec fn block_bar_from(s: Seq<char>, i: int) -> Option<BarFind>
    decreases s.len() - i,
{
    if i < 0 || i >= s.len() {
        None
    } else if !is_bar_char(s[i]) {
        block_bar_from(s, i + 1)
    } else {
        let e = run_end(s, i);
        if e - i >= MIN_BAR_LENGTH && any_block(s, i, e) {
            Some(
                BarFind {
                    col: i,
                    width: e - i,
                    percent: share(count_filled(s, i, e), e - i),
                    confidence: Confidence::High,
                },
            )
        } else if i < e <= s.len() {
            block_bar_from(s, e)
        } else {
            None
        }
    }
}

/// The bar of block characters of a row: the first one of the row without its trailing
/// white space.
pub open spec fn block_bar(line: Seq<char>) -> Option<BarFind> {
    block_bar_from(trim_end(line), 0)
}

/// The number of characters of `s` in `a .. b` that are the filled part of a bar in
/// brackets.
pub open spec fn count_bracket_filled(s: Seq<char>, a: int, b: int) -> int
    decreases b - a,
{
    if b <= a {
        0
    } else {
        count_bracket_filled(s, a, b - 1) + if is_bracket_filled(s[b - 1]) {
            1int
        } else {
            0int
        }
    }
}

/// Whether every character of `s` in `a .. b` may stand inside a bar in brackets.
pub open spec fn all_bracket_chars(s: Seq<char>, a: int, b: int) -> bool
    decreases b - a,
{
    if b <= a {
        true
    } else {
        all_bracket_chars(s, a, b - 1) && is_bracket_char(s[b - 1])
    }
}

/// The bar in brackets that opens at `i`: an opening bracket, at least five bar
/// characters and nothing else up to the next closing bracket.
pub open spec fn bracket_bar_at(s: Seq<char>, i: int) -> Option<BarFind> {
    if 0 <= i < s.len() && s[i] == '[' {
        match index_of(s, i + 1, ']') {
            Some(close) => if close - (i + 1) >= MIN_BAR_LENGTH && all_bracket_chars(
                s,
                i + 1,
                close,
            ) {
                Some(
                    BarFind {
                        col: i,
                        width: close - i + 1,
                        percent: share(count_bracket_filled(s, i + 1, close), close - (i + 1)),
                        confidence: Confidence::High,
                    },
                )
            } else {
                None
            },
            None => None,
        }
    } else {
        None
    }
}

/// The bars in brackets that open before column `n`, left to right.
pub open spec fn bracket_bars(s: Seq<char>, n: int) -> Seq<BarFind>
    decreases n,
{
    if n <= 0 {
        Seq::empty()
    } else {
        match bracket_bar_at(s, n - 1) {
            Some(bar) => bracket_bars(s, n - 1).push(bar),
            None => bracket_bars(s, n - 1),
        }
    }
}

/// Whether `c` may stand in a number: a digit or the decimal point.
pub open spec fn is_number_char(c: char) -> bool {
    is_digit(c) || c == '.'
}

/// The start of the run of digits and points that ends just before `p`.
pub open spec fn number_start(s: Seq<char>, p: int) -> int
    decreases p,
{
    if 0 < p <= s.len() && is_number_char(s[p - 1]) {
        number_start(s, p - 1)
    } else {
        p
    }
}

/// The number of digits of `s` in `a .. b`.
pub open spec fn count_digits(s: Seq<char>, a: int, b: int) -> int
    decreases b - a,
{
    if b <= a {
        0
    } else {
        count_digits(s, a, b - 1) + if is_digit(s[b - 1]) {
            1int
        } else {
            0int
        }
    }
}

/// The whole number that the digits of `s` in `a .. b` denote, stopping at 100: the value
/// where it is below 100, else 100.
pub open spec fn capped_value(s: Seq<char>, a: int, b: int) -> int
    decreases b - a,
{
    if b <= a {
        0
    } else {
        let head = capped_value(s, a, b - 1);
        if head >= 100 {
            100
        } else if head * 10 + digit_value(s[b - 1]) >= 100 {
            100
        } else {
            head * 10 + digit_value(s[b - 1])
        }
    }
}

/// The per cent that the number in `s` in `a .. b` stands for: the number rounded to the
/// nearest whole, halves upwards, and at most 100. `None` where the text is no number: it
/// must hold a digit and at most one point.
pub open spec fn percent_value(s: Seq<char>, a: int, b: int) -> Option<int> {
    let digits = count_digits(s, a, b);
    let points = (b - a) - digits;
    if digits >= 1 && points <= 1 {
        let whole_end = match index_of(s, a, '.') {
            Some(dot) => if dot < b {
                dot
            } else {
                b
            },
            None => b,
        };
        let whole = capped_value(s, a, whole_end);
        let up = whole_end + 1 < b && digit_value(s[whole_end + 1]) >= 5;
        Some(
            if whole >= 100 {
                100
            } else if up {
                whole + 1
            } else {
                whole
            },
        )
    } else {
        None
    }
}

/// The percentage written before the per-cent sign at `p`.
pub open spec fn percent_text_at(s: Seq<char>, p: int) -> Option<BarFind> {
    if 0 <= p < s.len() && s[p] == '%' {
        let a = number_start(s, p);
        match percent_value(s, a, p) {
            Some(percent) => Some(
                BarFind { col: a, width: p - a + 1, percent, confidence: Confidence::Medium },
            ),
            None => None,
        }
    } else {
        None
    }
}

/// The percentages whose sign stands before column `n`, left to right.
pub open spec fn percent_texts(s: Seq<char>, n: int) -> Seq<BarFind>
    decreases n,
{
    if n <= 0 {
        Seq::empty()
    } else {
        match percent_text_at(s, n - 1) {
            Some(bar) => percent_texts(s, n - 1).push(bar),
            None => percent_texts(s, n - 1),
        }
    }
}

/// The region of a bar found on row `row`.
pub open spec fn bar_bounds(row: int, bar: BarFind) -> Bounds {
    Bounds { row: row as u16, col: bar.col as u16, width: bar.width as u16, height: 1 }
}

/// Those of the first `n` of `bars` whose region on row `row` is not claimed.
pub open spec fn unclaimed(bars: Seq<BarFind>, n: int, row: int, claims: Seq<Bounds>) -> Seq<
    BarFind,
>
    decreases n,
{
    if n <= 0 || n > bars.len() {
        Seq::empty()
    } else if !claimed(claims, bar_bounds(row, bars[n - 1])) {
        unclaimed(bars, n - 1, row, claims).push(bars[n - 1])
    } else {
        unclaimed(bars, n - 1, row, claims)
    }
}

/// The progress indicators of one row: its bar of block characters if there is one that
/// is not claimed; else its unclaimed bars in brackets, if any; else its unclaimed
/// percentages.
pub open spec fn row_bars(line: Seq<char>, row: int, claims: Seq<Bounds>) -> Seq<BarFind> {
    let first = block_bar(line);
    let brackets = bracket_bars(line, line.len() as int);
    let second = unclaimed(brackets, brackets.len() as int, row, claims);
    let texts = percent_texts(line, line.len() as int);
    if first is Some && !claimed(claims, bar_bounds(row, first->0)) {
        seq![first->0]
    } else if second.len() > 0 {
        second
    } else {
        unclaimed(texts, texts.len() as int, row, claims)
    }
}

/// Whether `e` is the progress element that reports the bar `bar` of row `row`, under the
/// number `n`.
pub open spec fn reports_bar(e: DetectedElement, row: int, bar: BarFind, n: nat) -> bool {
    &&& e.bounds == bar_bounds(row, bar)
    &&& e.confidence == bar.confidence
    &&& e.element matches Element::ProgressBar { ref_id, bounds, percent }
    &&& ref_id@ == ref_id_text("progress_bar"@, n)
    &&& bounds == bar_bounds(row, bar)
    &&& percent == bar.percent
}

/// Whether the elements `found[from ..]` report the bars `bars` of row `row`, numbered
/// from `from + 1`.
pub open spec fn reports_row(
    found: Seq<DetectedElement>,
    from: int,
    row: int,
    bars: Seq<BarFind>,
) -> bool {
    &&& found.len() == from + bars.len()
    &&& forall|k: int|
        0 <= k < bars.len() ==> reports_bar(
            #[trigger] found[from + k],
            row,
            bars[k],
            (from + k + 1) as nat,
        )
}

/// The number of progress indicators in the rows before `row`.
pub open spec fn bars_before(g: GridView, claims: Seq<Bounds>, row: int) -> int
    decreases row,
{
    if row <= 0 {
        0
    } else {
        bars_before(g, claims, row - 1) + row_bars(g.line(row - 1), row - 1, claims).len()
    }
}

/// Whether `found` reports the progress indicators of the rows before `rows`, row after
/// row, numbered from one.
pub open spec fn reports_rows(
    found: Seq<DetectedElement>,
    g: GridView,
    claims: Seq<Bounds>,
    rows: int,
) -> bool {
    &&& found.len() == bars_before(g, claims, rows)
    &&& forall|r: int|
        0 <= r < rows ==> reports_row(
            found.take(bars_before(g, claims, r + 1)),
            #[trigger] bars_before(g, claims, r),
            r,
            row_bars(g.line(r), r, claims),
        )
}

/// A progress indicator as the detector computes it.
struct Bar {
    col: usize,
    width: usize,
    percent: u8,
    confidence: Confidence,
}

impl Bar {
    /// The bar as a mathematical value.
    spec fn find(&self) -> BarFind {
        BarFind {
            col: self.col as int,
            width: self.width as int,
            percent: self.percent as int,
            confidence: self.confidence,
        }
    }
}

/// The bars of a vector as mathematical values.
spec fn finds(bars: Seq<Bar>) -> Seq<BarFind> {
    Seq::new(bars.len(), |i: int| bars[i].find())
}

/// The share of `filled` in `total`, in per cent, rounded down.
fn percent_of(filled: usize, total: usize) -> (p: u8)
    requires
        filled <= total <= 0xffff,
    ensures
        p == share(filled as int, total as int),
        p <= 100,
{
    if total == 0 {
        return 0;
    }
    let scaled: u32 = filled as u32 * 100;
    let p: u32 = scaled / total as u32;
    assert(p <= 100) by (nonlinear_arith)
        requires
            p == (filled * 100) / total as int,
            filled <= total,
            total > 0,
    ;
    p as u8
}

/// A count of filled characters never exceeds the length of the span.
proof fn lemma_count_filled_bound(s: Seq<char>, a: int, b: int)
    ensures
        0 <= count_filled(s, a, b),
        a <= b ==> count_filled(s, a, b) <= b - a,
    decreases b - a,
{
    if b > a {
        lemma_count_filled_bound(s, a, b - 1);
    }
}

/// A count of filled characters never exceeds the length of the span.
proof fn lemma_count_bracket_filled_bound(s: Seq<char>, a: int, b: int)
    ensures
        0 <= count_bracket_filled(s, a, b),
        a <= b ==> count_bracket_filled(s, a, b) <= b - a,
    decreases b - a,
{
    if b > a {
        lemma_count_bracket_filled_bound(s, a, b - 1);
    }
}

/// The bar of block characters of a row that has no trailing white space.
fn detect_block_progress(s: &Vec<char>) -> (r: Option<Bar>)
    requires
        s.len() <= 0xffff,
    ensures
        match r {
            Some(bar) => block_bar_from(s@, 0) == Some(bar.find()) && bar.col + bar.width
                <= s.len() && bar.percent <= 100,
            None => block_bar_from(s@, 0) is None,
        },
{
    let n = s.len();
    let mut i: usize = 0;
    while i < n
        invariant
            i <= n,
            n == s.len(),
            n <= 0xffff,
            block_bar_from(s@, i as int) == block_bar_from(s@, 0),
        decreases n - i,
    {
        if !(filled(s[i]) || hollow(s[i])) {
            i += 1;
        } else {
            let mut e: usize = i;
            let mut count: usize = 0;
            let mut blocks = false;
            while e < n && (filled(s[e]) || hollow(s[e]))
                invariant
                    i <= e <= n,
                    n == s.len(),
                    run_end(s@, e as int) == run_end(s@, i as int),
                    count == count_filled(s@, i as int, e as int),
                    count <= e - i,
                    blocks == any_block(s@, i as int, e as int),
                decreases n - e,
            {
                if filled(s[e]) {
                    count += 1;
                }
                if block(s[e]) {
                    blocks = true;
                }
                e += 1;
            }
            if e - i >= MIN_BAR_LENGTH && blocks {
                return Some(
                    Bar {
                        col: i,
                        width: e - i,
                        percent: percent_of(count, e - i),
                        confidence: Confidence::High,
                    },
                );
            }
            i = e;
        }
    }
    None
}

/// The bar in brackets that opens at `i`.
fn bracket_at(s: &Vec<char>, i: usize) -> (r: Option<Bar>)
    requires
        i < s.len(),
        s.len() <= 0xffff,
    ensures
        match r {
            Some(bar) => bracket_bar_at(s@, i as int) == Some(bar.find()) && bar.col + bar.width
                <= s.len() && bar.percent <= 100,
            None => bracket_bar_at(s@, i as int) is None,
        },
{
    if s[i] != '[' {
        return None;
    }
    proof {
        lemma_index_of(s@, i + 1, ']');
    }
    match find_char(s, i + 1, ']') {
        Some(close) => {
            let mut k: usize = i + 1;
            let mut count: usize = 0;
            let mut all = true;
            while k < close
                invariant
                    i + 1 <= k <= close < s.len(),
                    count == count_bracket_filled(s@, i + 1, k as int),
                    count <= k - (i + 1),
                    all == all_bracket_chars(s@, i + 1, k as int),
                decreases close - k,
            {
                let c = s[k];
                if c == '=' || c == '#' || c == '*' {
                    count += 1;
                } else if !(c == ' ' || c == '-' || c == '.') {
                    all = false;
                }
                k += 1;
            }
            if close - (i + 1) >= MIN_BAR_LENGTH && all {
                Some(
                    Bar {
                        col: i,
                        width: close - i + 1,
                        percent: percent_of(count, close - (i + 1)),
                        confidence: Confidence::High,
                    },
                )
            } else {
                None
            }
        },
        None => None,
    }
}

/// The bars in brackets of a row, left to right.
fn detect_bracket_progress(s: &Vec<char>) -> (r: Vec<Bar>)
    requires
        s.len() <= 0xffff,
    ensures
        finds(r@) == bracket_bars(s@, s.len() as int),
        forall|k: int|
            0 <= k < r.len() ==> (#[trigger] r@[k]).col + r@[k].width <= s.len() && r@[k].percent
                <= 100,
{
    let mut out: Vec<Bar> = Vec::new();
    let mut i: usize = 0;
    while i < s.len()
        invariant
            i <= s.len(),
            s.len() <= 0xffff,
            finds(out@) == bracket_bars(s@, i as int),
            forall|k: int|
                0 <= k < out.len() ==> (#[trigger] out@[k]).col + out@[k].width <= s.len()
                    && out@[k].percent <= 100,
        decreases s.len() - i,
    {
        let ghost before = finds(out@);
        match bracket_at(s, i) {
            Some(bar) => {
                out.push(bar);
                assert(finds(out@) =~= before.push(bar.find()));
            },
            None => {},
        }
        i += 1;
    }
    out
}

/// The per cent that the number in `s` in `a .. b` stands for.
fn percent_number(s: &Vec<char>, a: usize, b: usize) -> (r: Option<u8>)
    requires
        a <= b <= s.len(),
        forall|k: int| a <= k < b ==> is_number_char(#[trigger] s@[k]),
    ensures
        match r {
            Some(p) => percent_value(s@, a as int, b as int) == Some(p as int) && p <= 100,
            None => percent_value(s@, a as int, b as int) is None,
        },
{
    let mut digits: usize = 0;
    let mut k: usize = a;
    while k < b
        invariant
            a <= k <= b <= s.len(),
            digits == count_digits(s@, a as int, k as int),
            digits <= k - a,
        decreases b - k,
    {
        if char_is_digit(s[k]) {
            digits += 1;
        }
        k += 1;
    }
    let points = (b - a) - digits;
    if !(digits >= 1 && points <= 1) {
        return None;
    }
    proof {
        lemma_index_of(s@, a as int, '.');
    }
    let whole_end = match find_char(s, a, '.') {
        Some(dot) => if dot < b {
            dot
        } else {
            b
        },
        None => b,
    };
    let mut whole: u32 = 0;
    let mut j: usize = a;
    while j < whole_end
        invariant
            a <= j <= whole_end <= b <= s.len(),
            whole == capped_value(s@, a as int, j as int),
            whole <= 100,
            forall|k: int| a <= k < whole_end ==> is_digit(#[trigger] s@[k]),
        decreases whole_end - j,
    {
        let d: u32 = s[j] as u32 - 0x30;
        if whole >= 100 {
            whole = 100;
        } else if whole * 10 + d >= 100 {
            whole = 100;
        } else {
            whole = whole * 10 + d;
        }
        j += 1;
    }
    let up = whole_end < b && b - whole_end > 1 && s[whole_end + 1] as u32 >= 0x35;
    if whole >= 100 {
        Some(100)
    } else if up {
        Some((whole + 1) as u8)
    } else {
        Some(whole as u8)
    }
}

/// The percentage written before the per-cent sign at `p`.
fn percent_at(s: &Vec<char>, p: usize) -> (r: Option<Bar>)
    requires
        p < s.len(),
        s.len() <= 0xffff,
    ensures
        match r {
            Some(bar) => percent_text_at(s@, p as int) == Some(bar.find()) && bar.col + bar.width
                <= s.len() && bar.percent <= 100,
            None => percent_text_at(s@, p as int) is None,
        },
{
    if s[p] != '%' {
        return None;
    }
    let mut a: usize = p;
    while a > 0 && (char_is_digit(s[a - 1]) || s[a - 1] == '.')
        invariant
            a <= p < s.len(),
            number_start(s@, a as int) == number_start(s@, p as int),
            forall|k: int| a <= k < p ==> is_number_char(#[trigger] s@[k]),
        decreases a,
    {
        a -= 1;
    }
    match percent_number(s, a, p) {
        Some(percent) => Some(
            Bar { col: a, width: p - a + 1, percent, confidence: Confidence::Medium },
        ),
        None => None,
    }
}

/// The percentages of a row, left to right.
fn detect_percentage_text(s: &Vec<char>) -> (r: Vec<Bar>)
    requires
        s.len() <= 0xffff,
    ensures
        finds(r@) == percent_texts(s@, s.len() as int),
        forall|k: int|
            0 <= k < r.len() ==> (#[trigger] r@[k]).col + r@[k].width <= s.len() && r@[k].percent
                <= 100,
{
    let mut out: Vec<Bar> = Vec::new();
    let mut i: usize = 0;
    while i < s.len()
        invariant
            i <= s.len(),
            s.len() <= 0xffff,
            finds(out@) == percent_texts(s@, i as int),
            forall|k: int|
                0 <= k < out.len() ==> (#[trigger] out@[k]).col + out@[k].width <= s.len()
                    && out@[k].percent <= 100,
        decreases s.len() - i,
    {
        let ghost before = finds(out@);
        match percent_at(s, i) {
            Some(bar) => {
                out.push(bar);
                assert(finds(out@) =~= before.push(bar.find()));
            },
            None => {},
        }
        i += 1;
    }
    out
}

/// The element that reports `bar` on row `row` as the one that follows `count` others.
fn bar_element(row: u16, bar: &Bar, count: usize) -> (e: DetectedElement)
    requires
        bar.col + bar.width <= 0xffff,
    ensures
        reports_bar(e, row as int, bar.find(), (count + 1) as nat),
        e.element.region() == e.bounds,
{
    let bounds = Bounds::new(row, bar.col as u16, bar.width as u16, 1);
    DetectedElement {
        element: Element::ProgressBar {
            ref_id: make_ref_id("progress_bar", count),
            bounds,
            percent: bar.percent,
        },
        bounds,
        confidence: bar.confidence,
    }
}

/// Adds to `results` the elements for those of `bars` whose region on row `row` is not
/// claimed. Returns whether any was added.
fn push_unclaimed(
    results: &mut Vec<DetectedElement>,
    bars: &Vec<Bar>,
    row: u16,
    context: &DetectionContext,
    Ghost(dims): Ghost<crate::geometry::Dimensions>,
) -> (any: bool)
    requires
        row < dims.rows,
        forall|k: int| 0 <= k < bars.len() ==> (#[trigger] bars@[k]).col + bars@[k].width <= dims.cols,
        well_behaved(old(results)@, dims, context.claimed_regions@),
    ensures
        well_behaved(final(results)@, dims, context.claimed_regions@),
        final(results)@.take(old(results)@.len() as int) == old(results)@,
        reports_row(
            final(results)@,
            old(results)@.len() as int,
            row as int,
            unclaimed(finds(bars@), bars@.len() as int, row as int, context.claimed_regions@),
        ),
        any == (final(results)@.len() > old(results)@.len()),
{
    let ghost start = results@;
    let ghost claims = context.claimed_regions@;
    let mut any = false;
    let mut i: usize = 0;
    while i < bars.len()
        invariant
            i <= bars.len(),
            row < dims.rows,
            claims == context.claimed_regions@,
            start == old(results)@,
            forall|k: int|
                0 <= k < bars.len() ==> (#[trigger] bars@[k]).col + bars@[k].width <= dims.cols,
            well_behaved(results@, dims, claims),
            results@.take(start.len() as int) == start,
            reports_row(
                results@,
                start.len() as int,
                row as int,
                unclaimed(finds(bars@), i as int, row as int, claims),
            ),
            any == (results@.len() > start.len()),
        decreases bars.len() - i,
    {
        let ghost before = results@;
        let ghost done = unclaimed(finds(bars@), i as int, row as int, claims);
        // The number of an element is its place in the output, counted from one.
        let e = bar_element(row, &bars[i], results.len());
        if !context.is_region_claimed(&e.bounds) {
            results.push(e);
            any = true;
            proof {
                assert(results@.take(start.len() as int) =~= start);
                let now = unclaimed(finds(bars@), i + 1, row as int, claims);
                assert(now == done.push(bars@[i as int].find()));
                assert forall|k: int| 0 <= k < now.len() implies reports_bar(
                    #[trigger] results@[start.len() + k],
                    row as int,
                    now[k],
                    (start.len() + k + 1) as nat,
                ) by {
                    if k < done.len() {
                        assert(results@[start.len() + k] == before[start.len() + k]);
                    }
                }
            }
        }
        i += 1;
    }
    any
}

/// Detects progress indicators, row by row.
pub struct ProgressDetector {}

impl ProgressDetector {
    /// The detector.
    pub fn new() -> (d: Self) {
        ProgressDetector {  }
    }
}

impl Default for ProgressDetector {
    /// The detector.
    fn default() -> (d: Self) {
        ProgressDetector::new()
    }
}

impl ElementDetector for ProgressDetector {
    /// The name of the detector: `progress`.
    fn name(&self) -> (name: &'static str)
        ensures
            name@ == "progress"@,
    {
        "progress"
    }

    /// The priority of the detector: 60.
    fn priority(&self) -> (priority: u32)
        ensures
            priority == 60,
    {
        60
    }

    /// The progress indicators of every row, from the top: elements numbered from one in
    /// the order found.
    fn detect(&self, grid: &Grid, context: &DetectionContext) -> (found: Vec<DetectedElement>)
        ensures
            found@.len() == bars_before(
                grid@,
                context.claimed_regions@,
                grid@.dimensions.rows as int,
            ),
            forall|r: int|
                0 <= r < grid@.dimensions.rows ==> reports_row(
                    found@.take(bars_before(grid@, context.claimed_regions@, r + 1)),
                    #[trigger] bars_before(grid@, context.claimed_regions@, r),
                    r,
                    row_bars(grid@.line(r), r, context.claimed_regions@),
                ),
    {
        let mut results: Vec<DetectedElement> = Vec::new();
        let dims = grid.dimensions();
        let ghost claims = context.claimed_regions@;
        let mut row: u16 = 0;
        while row < dims.rows
            invariant
                grid.wf(),
                dims == grid@.dimensions,
                claims == context.claimed_regions@,
                row <= dims.rows,
                well_behaved(results@, dims, claims),
                reports_rows(results@, grid@, claims, row as int),
            decreases dims.rows - row,
        {
            let ghost before = results@;
            let line = grid.line(row);
            let trimmed = trim_end_chars(&line);
            proof {
                crate::text::lemma_skip_ws_back(line@, line@.len() as int);
            }
            let mut single: Vec<Bar> = Vec::new();
            match detect_block_progress(&trimmed) {
                Some(bar) => {
                    single.push(bar);
                },
                None => {},
            }
            let mut got = false;
            if single.len() == 1 {
                let ghost first = single@[0].find();
                got = push_unclaimed(&mut results, &single, row, context, Ghost(dims));
                proof {
                    let kept = unclaimed(finds(single@), 1, row as int, claims);
                    assert(finds(single@)[0] == first);
                    assert(unclaimed(finds(single@), 0, row as int, claims) =~= Seq::<
                        BarFind,
                    >::empty());
                    if !claimed(claims, bar_bounds(row as int, first)) {
                        assert(kept =~= seq![first]);
                    } else {
                        assert(kept =~= Seq::<BarFind>::empty());
                    }
                }
            }
            if !got {
                let brackets = detect_bracket_progress(&line);
                got = push_unclaimed(&mut results, &brackets, row, context, Ghost(dims));
            }
            if !got {
                let texts = detect_percentage_text(&line);
                let _ = push_unclaimed(&mut results, &texts, row, context, Ghost(dims));
            }
            proof {
                let bars = row_bars(grid@.line(row as int), row as int, claims);
                assert(reports_row(results@, before.len() as int, row as int, bars));
                assert(results@.take(before.len() as int) =~= before);
                assert forall|r: int| 0 <= r < row + 1 implies reports_row(
                    results@.take(bars_before(grid@, claims, r + 1)),
                    #[trigger] bars_before(grid@, claims, r),
                    r,
                    row_bars(grid@.line(r), r, claims),
                ) by {
                    if r < row {
                        lemma_bars_before_monotone(grid@, claims, r + 1, row as int);
                        assert(results@.take(bars_before(grid@, claims, r + 1)) =~= before.take(
                            bars_before(grid@, claims, r + 1),
                        ));
                    } else {
                        assert(results@.take(bars_before(grid@, claims, r + 1)) =~= results@);
                    }
                }
            }
            row += 1;
        }
        results
    }
}

/// The count of indicators grows with the rows.
proof fn lemma_bars_before_monotone(g: GridView, claims: Seq<Bounds>, a: int, b: int)
    requires
        0 <= a <= b,
    ensures
        0 <= bars_before(g, claims, a) <= bars_before(g, claims, b),
    decreases b,
{
    if a < b {
        lemma_bars_before_monotone(g, claims, a, b - 1);
    } else if a > 0 {
        lemma_bars_before_monotone(g, claims, a - 1, a - 1);
    }
}

} // verus!
