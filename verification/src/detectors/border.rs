//! Boxes drawn with box-drawing characters.

use vstd::prelude::*;
use crate::detection::{
    claimed, Confidence, DetectedElement, DetectionContext, ElementDetector,
    lemma_renumbered_well_behaved, number_elements, ref_id_text, well_behaved,
};
use crate::element::Element;
use crate::geometry::{Bounds, Dimensions};
use crate::grid::{Grid, GridView};
use crate::text::{
    find_char, from_chars, index_of, is_blank_chars, lemma_index_of, trim, trim_chars,
};

verus! {

/// The six characters of which a box is drawn.
#[derive(Debug, Clone, Copy, PartialEq, Eq, Structural)]
pub struct BoxSet {
    /// Top-left corner.
    pub top_left: char,
    /// Top-right corner.
    pub top_right: char,
    /// Bottom-left corner.
    pub bottom_left: char,
    /// Bottom-right corner.
    pub bottom_right: char,
    /// Horizontal edge.
    pub horizontal: char,
    /// Vertical edge.
    pub vertical: char,
}

/// The character sets known, in the order in which they are tried: light, heavy, double,
/// rounded and ASCII.
pub open spec fn box_set(k: int) -> BoxSet {
    if k == 0 {
        BoxSet {
            top_left: '┌',
            top_right: '┐',
            bottom_left: '└',
            bottom_right: '┘',
            horizontal: '─',
            vertical: '│',
        }
    } else if k == 1 {
        BoxSet {
            top_left: '┏',
            top_right: '┓',
            bottom_left: '┗',
            bottom_right: '┛',
            horizontal: '━',
            vertical: '┃',
        }
    } else if k == 2 {
        BoxSet {
            top_left: '╔',
            top_right: '╗',
            bottom_left: '╚',
            bottom_right: '╝',
            horizontal: '═',
            vertical: '║',
        }
    } else if k == 3 {
        BoxSet {
            top_left: '╭',
            top_right: '╮',
            bottom_left: '╰',
            bottom_right: '╯',
            horizontal: '─',
            vertical: '│',
        }
    } else {
        BoxSet {
            top_left: '+',
            top_right: '+',
            bottom_left: '+',
            bottom_right: '+',
            horizontal: '-',
            vertical: '|',
        }
    }
}

/// The number of character sets.
pub const BOX_SETS: usize = 5;

/// The character set with number `k`.
fn set_of(k: usize) -> (s: BoxSet)
    requires
        k < BOX_SETS,
    ensures
        s == box_set(k as int),
{
    if k == 0 {
        BoxSet {
            top_left: '┌',
            top_right: '┐',
            bottom_left: '└',
            bottom_right: '┘',
            horizontal: '─',
            vertical: '│',
        }
    } else if k == 1 {
        BoxSet {
            top_left: '┏',
            top_right: '┓',
            bottom_left: '┗',
            bottom_right: '┛',
            horizontal: '━',
            vertical: '┃',
        }
    } else if k == 2 {
        BoxSet {
            top_left: '╔',
            top_right: '╗',
            bottom_left: '╚',
            bottom_right: '╝',
            horizontal: '═',
            vertical: '║',
        }
    } else if k == 3 {
        BoxSet {
            top_left: '╭',
            top_right: '╮',
            bottom_left: '╰',
            bottom_right: '╯',
            horizontal: '─',
            vertical: '│',
        }
    } else {
        BoxSet {
            top_left: '+',
            top_right: '+',
            bottom_left: '+',
            bottom_right: '+',
            horizontal: '-',
            vertical: '|',
        }
    }
}

/// A box as it is found on the grid.
pub struct BorderFind {
    /// The region of the box, edges included.
    pub bounds: Bounds,
    /// The title set into the top edge, if any.
    pub title: Option<Seq<char>>,
}

/// The characters of a title gathered from column `i` up to `end`: leading edge
/// characters and spaces are passed over; from the first other character on everything
/// is taken, up to the next edge character.
pub open spec fn title_scan(
    line: Seq<char>,
    i: int,
    end: int,
    horizontal: char,
    started: bool,
    acc: Seq<char>,
) -> Seq<char>
    decreases end - i,
{
    if i < 0 || i >= end || i >= line.len() {
        acc
    } else if line[i] == horizontal {
        if started && trim(acc).len() > 0 {
            acc
        } else {
            title_scan(line, i + 1, end, horizontal, started, acc)
        }
    } else if line[i] != ' ' || started {
        title_scan(line, i + 1, end, horizontal, true, acc.push(line[i]))
    } else {
        title_scan(line, i + 1, end, horizontal, started, acc)
    }
}

/// The title in the top edge of a box that begins in column `col` and is `width` wide:
/// what stands between the corners, without surrounding white space; `None` where that is
/// nothing.
pub open spec fn title_of(line: Seq<char>, col: int, width: int, horizontal: char) -> Option<
    Seq<char>,
> {
    let t = trim(title_scan(line, col + 1, col + width - 1, horizontal, false, Seq::empty()));
    if t.len() == 0 {
        None
    } else {
        Some(t)
    }
}

/// The row of the bottom-left corner of a box whose left edge runs down column `col` from
/// row `row`: the first row that holds the corner, all rows before it holding the
/// vertical edge or a space.
pub open spec fn corner_below(g: GridView, col: int, set: BoxSet, row: int) -> Option<int>
    decreases g.dimensions.rows - row,
{
    if row < 0 || row >= g.dimensions.rows {
        None
    } else {
        let ch = g.at(row, col).character;
        if ch == set.bottom_left {
            Some(row)
        } else if ch != set.vertical && ch != ' ' {
            None
        } else {
            corner_below(g, col, set, row + 1)
        }
    }
}

/// The box of character set `set` whose top-left corner is the cell at `row`, `col`: the
/// top edge runs to the first top-right corner, the left edge down to the bottom-left
/// corner, and the bottom-right corner stands where the two meet.
pub open spec fn trace(g: GridView, row: int, col: int, set: BoxSet) -> Option<BorderFind> {
    if !g.in_bounds(row, col) || g.at(row, col).character != set.top_left {
        None
    } else {
        match index_of(g.line(row), col + 1, set.top_right) {
            None => None,
            Some(right) => match corner_below(g, col, set, row + 1) {
                None => None,
                Some(bottom) => if g.at(bottom, right).character == set.bottom_right {
                    Some(
                        BorderFind {
                            bounds: Bounds {
                                row: row as u16,
                                col: col as u16,
                                width: (right - col + 1) as u16,
                                height: (bottom - row + 1) as u16,
                            },
                            title: title_of(g.line(row), col, right - col + 1, set.horizontal),
                        },
                    )
                } else {
                    None
                },
            },
        }
    }
}

/// The unclaimed boxes with top-left corner at `row`, `col`, of the character sets
/// before `k`.
pub open spec fn cell_borders(g: GridView, claims: Seq<Bounds>, row: int, col: int, k: int) -> Seq<
    BorderFind,
>
    decreases k,
{
    if k <= 0 {
        Seq::empty()
    } else {
        let before = cell_borders(g, claims, row, col, k - 1);
        match trace(g, row, col, box_set(k - 1)) {
            Some(b) => if !claimed(claims, b.bounds) {
                before.push(b)
            } else {
                before
            },
            None => before,
        }
    }
}

/// The unclaimed boxes with top-left corner in row `row` before column `n`.
pub open spec fn row_borders(g: GridView, claims: Seq<Bounds>, row: int, n: int) -> Seq<
    BorderFind,
>
    decreases n,
{
    if n <= 0 {
        Seq::empty()
    } else {
        row_borders(g, claims, row, n - 1) + cell_borders(
            g,
            claims,
            row,
            n - 1,
            BOX_SETS as int,
        )
    }
}

/// The unclaimed boxes with top-left corner in the rows before `rows`, in reading order.
pub open spec fn traced(g: GridView, claims: Seq<Bounds>, rows: int) -> Seq<BorderFind>
    decreases rows,
{
    if rows <= 0 {
        Seq::empty()
    } else {
        traced(g, claims, rows - 1) + row_borders(
            g,
            claims,
            rows - 1,
            g.dimensions.cols as int,
        )
    }
}

/// Where a box of area `area` goes into `s`, which is in descending order of area: after
/// the boxes of the same or a greater area.
pub open spec fn insert_point(s: Seq<BorderFind>, from: int, area: int) -> int
    decreases s.len() - from,
{
    if from < 0 || from >= s.len() {
        s.len() as int
    } else if s[from].bounds.area() < area {
        from
    } else {
        insert_point(s, from + 1, area)
    }
}

/// The boxes in descending order of area, boxes of equal area in the order given.
pub open spec fn by_area(s: Seq<BorderFind>) -> Seq<BorderFind>
    decreases s.len(),
{
    if s.len() == 0 {
        Seq::empty()
    } else {
        let head = by_area(s.drop_last());
        head.insert(insert_point(head, 0, s.last().bounds.area()), s.last())
    }
}

/// Whether `b` lies wholly inside one of `kept`.
pub open spec fn inside_any(kept: Seq<BorderFind>, b: Bounds) -> bool {
    exists|j: int| 0 <= j < kept.len() && b.within((#[trigger] kept[j]).bounds)
}

/// Of the first `n` boxes of `s`, those that do not lie wholly inside a box kept before
/// them.
pub open spec fn outermost(s: Seq<BorderFind>, n: int) -> Seq<BorderFind>
    decreases n,
{
    if n <= 0 || n > s.len() {
        Seq::empty()
    } else {
        let kept = outermost(s, n - 1);
        if inside_any(kept, s[n - 1].bounds) {
            kept
        } else {
            kept.push(s[n - 1])
        }
    }
}

/// The boxes that the detector reports: the unclaimed boxes of the grid, largest first,
/// without those that lie inside a larger one.
pub open spec fn borders(g: GridView, claims: Seq<Bounds>) -> Seq<BorderFind> {
    let sorted = by_area(traced(g, claims, g.dimensions.rows as int));
    outermost(sorted, sorted.len() as int)
}

/// Whether `a` lies inside `b` without being `b`.
pub open spec fn strictly_inside(a: Bounds, b: Bounds) -> bool {
    a.within(b) && a != b
}

/// Whether no box lies strictly inside another.
pub open spec fn no_nesting(s: Seq<BorderFind>) -> bool {
    forall|i: int, j: int|
        0 <= i < s.len() && 0 <= j < s.len() && i != j ==> !strictly_inside(
            (#[trigger] s[i]).bounds,
            (#[trigger] s[j]).bounds,
        )
}

/// Whether `s` is in descending order of area.
pub open spec fn area_descending(s: Seq<BorderFind>) -> bool {
    forall|i: int, j: int|
        0 <= i < j < s.len() ==> (#[trigger] s[i]).bounds.area() >= (#[trigger] s[j]).bounds.area()
}

/// Whether every box is at least two cells wide and two high.
pub open spec fn proper(s: Seq<BorderFind>) -> bool {
    forall|i: int| 0 <= i < s.len() ==> (#[trigger] s[i]).bounds.width >= 2 && s[i].bounds.height >= 2
}

/// A box that lies strictly inside another is smaller.
pub proof fn lemma_inside_is_smaller(a: Bounds, b: Bounds)
    requires
        strictly_inside(a, b),
        a.width >= 1,
        a.height >= 1,
    ensures
        a.area() < b.area(),
{
    assert(a.width <= b.width);
    assert(a.height <= b.height);
    assert(a.width < b.width || a.height < b.height);
    let (aw, ah, bw, bh) = (a.width as int, a.height as int, b.width as int, b.height as int);
    assert(aw * ah < bw * bh) by (nonlinear_arith)
        requires
            1 <= aw <= bw,
            1 <= ah <= bh,
            aw < bw || ah < bh,
    ;
}

/// The insertion point lies in the sequence, after the boxes that are not smaller and
/// before a smaller one.
pub proof fn lemma_insert_point(s: Seq<BorderFind>, from: int, area: int)
    requires
        0 <= from <= s.len(),
    ensures
        from <= insert_point(s, from, area) <= s.len(),
        forall|i: int|
            from <= i < insert_point(s, from, area) ==> (#[trigger] s[i]).bounds.area() >= area,
        insert_point(s, from, area) < s.len() ==> s[insert_point(s, from, area)].bounds.area()
            < area,
    decreases s.len() - from,
{
    if from < s.len() && s[from].bounds.area() >= area {
        lemma_insert_point(s, from + 1, area);
    }
}

/// Sorting keeps the boxes and puts them in descending order of area.
pub proof fn lemma_by_area(s: Seq<BorderFind>)
    ensures
        by_area(s).len() == s.len(),
        area_descending(by_area(s)),
        proper(s) ==> proper(by_area(s)),
    decreases s.len(),
{
    if s.len() > 0 {
        lemma_by_area(s.drop_last());
        let head = by_area(s.drop_last());
        let x = s.last();
        let k = insert_point(head, 0, x.bounds.area());
        lemma_insert_point(head, 0, x.bounds.area());
        let r = head.insert(k, x);
        assert forall|i: int, j: int| 0 <= i < j < r.len() implies (#[trigger] r[i]).bounds.area()
            >= (#[trigger] r[j]).bounds.area() by {
            if j < k {
                assert(r[i] == head[i] && r[j] == head[j]);
            } else if j == k {
                assert(r[i] == head[i]);
            } else if i < k {
                assert(r[i] == head[i] && r[j] == head[j - 1]);
                if i < j - 1 {
                    assert(head[i].bounds.area() >= head[j - 1].bounds.area());
                }
            } else if i == k {
                assert(r[j] == head[j - 1]);
                if k < j - 1 {
                    assert(head[k].bounds.area() >= head[j - 1].bounds.area());
                }
            } else {
                assert(r[i] == head[i - 1] && r[j] == head[j - 1]);
            }
        }
        if proper(s) {
            assert(proper(s.drop_last())) by {
                assert forall|i: int| 0 <= i < s.drop_last().len() implies (
                #[trigger] s.drop_last()[i]).bounds.width >= 2 && s.drop_last()[i].bounds.height
                    >= 2 by {
                    assert(s.drop_last()[i] == s[i]);
                }
            }
            assert forall|i: int| 0 <= i < r.len() implies (#[trigger] r[i]).bounds.width >= 2
                && r[i].bounds.height >= 2 by {
                if i < k {
                    assert(r[i] == head[i]);
                } else if i == k {
                    assert(r[i] == s[s.len() - 1]);
                } else {
                    assert(r[i] == head[i - 1]);
                }
            }
        }
    }
}

/// What the nesting filter keeps: boxes of `s` in their order, none inside one kept
/// before it.
pub proof fn lemma_outermost(s: Seq<BorderFind>, n: int)
    requires
        0 <= n <= s.len(),
        area_descending(s),
    ensures
        area_descending(outermost(s, n)),
        proper(s) ==> proper(outermost(s, n)),
        forall|i: int|
            0 <= i < outermost(s, n).len() ==> exists|m: int|
                0 <= m < n && s[m] == #[trigger] outermost(s, n)[i],
        forall|i: int, j: int|
            0 <= j < i < outermost(s, n).len() ==> !(#[trigger] outermost(s, n)[i]).bounds.within(
                (#[trigger] outermost(s, n)[j]).bounds,
            ),
        n > 0 && outermost(s, n).len() > 0 ==> outermost(s, n).last().bounds.area() >= s[n
            - 1].bounds.area(),
    decreases n,
{
    if n > 0 {
        lemma_outermost(s, n - 1);
        let kept = outermost(s, n - 1);
        let x = s[n - 1];
        let r = outermost(s, n);
        assert forall|i: int| 0 <= i < kept.len() implies (#[trigger] kept[i]).bounds.area()
            >= x.bounds.area() by {
            let m = choose|m: int| 0 <= m < n - 1 && s[m] == kept[i];
            assert(s[m].bounds.area() >= s[n - 1].bounds.area());
        }
        if !inside_any(kept, x.bounds) {
            assert(r == kept.push(x));
            assert forall|i: int| 0 <= i < r.len() implies exists|m: int|
                0 <= m < n && s[m] == #[trigger] r[i] by {
                if i < kept.len() {
                    let m = choose|m: int| 0 <= m < n - 1 && s[m] == kept[i];
                    assert(s[m] == r[i]);
                } else {
                    assert(s[n - 1] == r[i]);
                }
            }
            assert forall|i: int, j: int| 0 <= j < i < r.len() implies !(
            #[trigger] r[i]).bounds.within((#[trigger] r[j]).bounds) by {
                if i == kept.len() {
                    assert(r[j] == kept[j]);
                } else {
                    assert(r[i] == kept[i] && r[j] == kept[j]);
                }
            }
            assert forall|i: int, j: int| 0 <= i < j < r.len() implies (
            #[trigger] r[i]).bounds.area() >= (#[trigger] r[j]).bounds.area() by {
                assert(r[i] == kept[i]);
                if j < kept.len() {
                    assert(r[j] == kept[j]);
                }
            }
        } else {
            assert forall|i: int| 0 <= i < r.len() implies exists|m: int|
                0 <= m < n && s[m] == #[trigger] r[i] by {
                let m = choose|m: int| 0 <= m < n - 1 && s[m] == kept[i];
                assert(s[m] == r[i]);
            }
        }
    }
}

/// Sorting keeps every box and brings in none.
pub proof fn lemma_by_area_members(s: Seq<BorderFind>)
    ensures
        forall|m: int| 0 <= m < s.len() ==> by_area(s).contains(#[trigger] s[m]),
        forall|i: int| 0 <= i < by_area(s).len() ==> s.contains(#[trigger] by_area(s)[i]),
    decreases s.len(),
{
    if s.len() > 0 {
        let front = s.drop_last();
        lemma_by_area_members(front);
        lemma_by_area(front);
        let head = by_area(front);
        let x = s.last();
        let k = insert_point(head, 0, x.bounds.area());
        lemma_insert_point(head, 0, x.bounds.area());
        let r = head.insert(k, x);
        assert(r == by_area(s));
        assert forall|m: int| 0 <= m < s.len() implies r.contains(#[trigger] s[m]) by {
            if m == s.len() - 1 {
                assert(r[k] == s[m]);
            } else {
                assert(front[m] == s[m]);
                assert(head.contains(front[m]));
                let t = choose|t: int| 0 <= t < head.len() && head[t] == front[m];
                if t < k {
                    assert(r[t] == s[m]);
                } else {
                    assert(r[t + 1] == s[m]);
                }
            }
        }
        assert forall|i: int| 0 <= i < r.len() implies s.contains(#[trigger] r[i]) by {
            if i == k {
                assert(s[s.len() - 1] == r[i]);
            } else {
                let t = if i < k {
                    i
                } else {
                    i - 1
                };
                assert(r[i] == head[t]);
                assert(front.contains(head[t]));
                let m = choose|m: int| 0 <= m < front.len() && front[m] == head[t];
                assert(s[m] == r[i]);
            }
        }
    }
}

/// What the nesting filter drops lies inside what it keeps: each of the first `n` boxes
/// lies inside a box that is kept.
pub proof fn lemma_outermost_covers(s: Seq<BorderFind>, n: int)
    requires
        0 <= n <= s.len(),
    ensures
        forall|m: int| 0 <= m < n ==> inside_any(outermost(s, n), (#[trigger] s[m]).bounds),
    decreases n,
{
    if n > 0 {
        lemma_outermost_covers(s, n - 1);
        let kept = outermost(s, n - 1);
        let r = outermost(s, n);
        let x = s[n - 1];
        assert forall|m: int| 0 <= m < n implies inside_any(r, (#[trigger] s[m]).bounds) by {
            if m < n - 1 || inside_any(kept, x.bounds) {
                assert(inside_any(kept, s[m].bounds));
                let j = choose|j: int|
                    0 <= j < kept.len() && s[m].bounds.within((#[trigger] kept[j]).bounds);
                assert(r[j] == kept[j]);
            } else {
                assert(r[kept.len() as int] == x);
                assert(x.bounds.within(r[kept.len() as int].bounds));
            }
        }
    }
}

/// Whether every box is at least one cell wide and one high.
pub open spec fn solid(s: Seq<BorderFind>) -> bool {
    forall|i: int| 0 <= i < s.len() ==> (#[trigger] s[i]).bounds.width >= 1 && s[i].bounds.height >= 1
}

/// Border filtering: of the boxes `cands`, those remain that sorting by area and dropping
/// what lies inside a larger one leave. Each box that remains is one of `cands`; the boxes
/// stand largest first; none lies inside another; and every box of `cands` lies inside
/// one that remains.
pub proof fn law_border_filter(cands: Seq<BorderFind>)
    requires
        solid(cands),
    ensures
        forall|i: int|
            0 <= i < outermost(by_area(cands), by_area(cands).len() as int).len()
                ==> cands.contains(
                #[trigger] outermost(by_area(cands), by_area(cands).len() as int)[i],
            ),
        area_descending(outermost(by_area(cands), by_area(cands).len() as int)),
        forall|i: int, j: int|
            0 <= i < outermost(by_area(cands), by_area(cands).len() as int).len() && 0 <= j
                < outermost(by_area(cands), by_area(cands).len() as int).len() && i != j ==> !(
            #[trigger] outermost(by_area(cands), by_area(cands).len() as int)[i]).bounds.within(
                (#[trigger] outermost(by_area(cands), by_area(cands).len() as int)[j]).bounds,
            ),
        forall|m: int|
            0 <= m < cands.len() ==> inside_any(
                outermost(by_area(cands), by_area(cands).len() as int),
                (#[trigger] cands[m]).bounds,
            ),
{
    lemma_by_area(cands);
    lemma_by_area_members(cands);
    let sorted = by_area(cands);
    let n = sorted.len() as int;
    lemma_outermost(sorted, n);
    lemma_outermost_covers(sorted, n);
    let kept = outermost(sorted, n);
    assert forall|i: int| 0 <= i < kept.len() implies cands.contains(#[trigger] kept[i]) by {
        let m = choose|m: int| 0 <= m < n && sorted[m] == kept[i];
        assert(cands.contains(sorted[m]));
    }
    assert forall|i: int, j: int|
        0 <= i < kept.len() && 0 <= j < kept.len() && i != j implies !(
    #[trigger] kept[i]).bounds.within((#[trigger] kept[j]).bounds) by {
        if i < j && kept[i].bounds.within(kept[j].bounds) {
            assert(cands.contains(kept[i]));
            if kept[i].bounds == kept[j].bounds {
                assert(kept[j].bounds.within(kept[i].bounds));
            } else {
                lemma_inside_is_smaller(kept[i].bounds, kept[j].bounds);
                assert(kept[i].bounds.area() >= kept[j].bounds.area());
            }
        }
    }
    assert forall|m: int| 0 <= m < cands.len() implies inside_any(
        kept,
        (#[trigger] cands[m]).bounds,
    ) by {
        assert(sorted.contains(cands[m]));
        let t = choose|t: int| 0 <= t < sorted.len() && sorted[t] == cands[m];
        assert(inside_any(kept, sorted[t].bounds));
    }
}

/// Border nesting: of the boxes that remain after sorting and filtering, none lies
/// strictly inside another.
pub proof fn law_border_nesting(cands: Seq<BorderFind>)
    requires
        proper(cands),
    ensures
        no_nesting(outermost(by_area(cands), by_area(cands).len() as int)),
{
    lemma_by_area(cands);
    let sorted = by_area(cands);
    lemma_outermost(sorted, sorted.len() as int);
    let kept = outermost(sorted, sorted.len() as int);
    assert forall|i: int, j: int|
        0 <= i < kept.len() && 0 <= j < kept.len() && i != j implies !strictly_inside(
        (#[trigger] kept[i]).bounds,
        (#[trigger] kept[j]).bounds,
    ) by {
        if strictly_inside(kept[i].bounds, kept[j].bounds) {
            lemma_inside_is_smaller(kept[i].bounds, kept[j].bounds);
            if i < j {
                assert(kept[i].bounds.area() >= kept[j].bounds.area());
            }
        }
    }
}

/// Whether `e` stands for the box `f`, whatever its reference.
pub open spec fn describes_border(e: DetectedElement, f: BorderFind) -> bool {
    &&& e.bounds == f.bounds
    &&& e.confidence == Confidence::High
    &&& e.element matches Element::Border { ref_id, bounds, title, children }
    &&& bounds == f.bounds
    &&& children@.len() == 0
    &&& match title {
        Some(t) => f.title == Some(t@),
        None => f.title is None,
    }
}

/// Whether `e` reports the box `f` under the number `n`.
pub open spec fn reports_border(e: DetectedElement, f: BorderFind, n: nat) -> bool {
    describes_border(e, f) && e.element.id() == ref_id_text("border"@, n)
}

/// A box as the detector computes it.
struct Border {
    bounds: Bounds,
    title: Option<String>,
}

impl Border {
    /// The box as a mathematical value.
    spec fn find(&self) -> BorderFind {
        BorderFind {
            bounds: self.bounds,
            title: match self.title {
                Some(t) => Some(t@),
                None => None,
            },
        }
    }

    /// A copy of the box.
    fn duplicate(&self) -> (b: Border)
        ensures
            b.find() == self.find(),
            b.bounds == self.bounds,
    {
        let title = match &self.title {
            Some(t) => Some(t.clone()),
            None => None,
        };
        Border { bounds: self.bounds, title }
    }
}

/// The boxes of a vector as mathematical values.
spec fn finds(found: Seq<Border>) -> Seq<BorderFind> {
    Seq::new(found.len(), |i: int| found[i].find())
}

/// The title in the top edge of a box.
fn extract_title(line: &Vec<char>, col: usize, width: usize, horizontal: char) -> (title: Option<
    String,
>)
    requires
        width >= 2,
        col + width <= line.len(),
    ensures
        match title {
            Some(t) => title_of(line@, col as int, width as int, horizontal) == Some(t@),
            None => title_of(line@, col as int, width as int, horizontal) is None,
        },
{
    let end = col + width - 1;
    let mut acc: Vec<char> = Vec::new();
    let mut started = false;
    let mut i: usize = col + 1;
    let ghost goal = title_scan(line@, col + 1, end as int, horizontal, false, Seq::empty());
    assert(acc@ =~= Seq::<char>::empty());
    while i < end
        invariant
            col + 1 <= i <= end < line.len(),
            title_scan(line@, i as int, end as int, horizontal, started, acc@) == goal,
        ensures
            acc@ == goal,
        decreases end - i,
    {
        let ch = line[i];
        if ch == horizontal {
            if started && !is_blank_chars(&acc) {
                break ;
            }
        } else if ch != ' ' || started {
            started = true;
            acc.push(ch);
        }
        i += 1;
    }
    let t = trim_chars(&acc);
    if t.len() == 0 {
        None
    } else {
        Some(from_chars(&t))
    }
}

/// The row of the bottom-left corner of a box whose left edge runs down column `col` from
/// below row `row`.
fn find_corner_below(grid: &Grid, col: u16, set: BoxSet, row: u16) -> (bottom: Option<u16>)
    requires
        grid.wf(),
        grid@.in_bounds(row as int, col as int),
    ensures
        match bottom {
            Some(b) => corner_below(grid@, col as int, set, row + 1) == Some(b as int) && row < b
                < grid@.dimensions.rows,
            None => corner_below(grid@, col as int, set, row + 1) is None,
        },
{
    let dims = grid.dimensions();
    let mut r: u32 = row as u32 + 1;
    let ghost goal = corner_below(grid@, col as int, set, row + 1);
    while r < dims.rows as u32
        invariant
            grid.wf(),
            dims == grid@.dimensions,
            col < dims.cols,
            row + 1 <= r <= dims.rows,
            goal == corner_below(grid@, col as int, set, row + 1),
            corner_below(grid@, col as int, set, r as int) == goal,
        decreases dims.rows - r,
    {
        let ch = match grid.cell(r as u16, col) {
            Some(cell) => cell.character,
            None => ' ',
        };
        if ch == set.bottom_left {
            return Some(r as u16);
        } else if ch != set.vertical && ch != ' ' {
            return None;
        }
        r += 1;
    }
    None
}

/// The box of character set `set` whose top-left corner is the cell at `row`, `col`.
fn trace_border(grid: &Grid, line: &Vec<char>, row: u16, col: u16, set: BoxSet) -> (r: Option<
    Border,
>)
    requires
        grid.wf(),
        grid@.in_bounds(row as int, col as int),
        line@ == grid@.line(row as int),
    ensures
        match r {
            Some(b) => trace(grid@, row as int, col as int, set) == Some(b.find())
                && b.bounds.fits(grid@.dimensions) && b.bounds.width >= 2 && b.bounds.height
                >= 2,
            None => trace(grid@, row as int, col as int, set) is None,
        },
{
    let dims = grid.dimensions();
    if line[col as usize] != set.top_left {
        return None;
    }
    proof {
        lemma_index_of(line@, col + 1, set.top_right);
    }
    let right = match find_char(line, col as usize + 1, set.top_right) {
        Some(right) => right,
        None => {
            return None;
        },
    };
    let bottom = match find_corner_below(grid, col, set, row) {
        Some(b) => b,
        None => {
            return None;
        },
    };
    let corner = match grid.cell(bottom, right as u16) {
        Some(cell) => cell.character,
        None => ' ',
    };
    if corner != set.bottom_right {
        return None;
    }
    let width = right - col as usize + 1;
    let title = extract_title(line, col as usize, width, set.horizontal);
    Some(Border { bounds: Bounds::new(row, col, width as u16, bottom - row + 1), title })
}

/// Whether every box lies on a grid of size `dims` and touches no claimed region.
spec fn all_free(s: Seq<Border>, dims: Dimensions, claims: Seq<Bounds>) -> bool {
    forall|i: int|
        0 <= i < s.len() ==> (#[trigger] s[i]).bounds.fits(dims) && !claimed(claims, s[i].bounds)
}

/// Puts `b` into `sorted` after the boxes of the same or a greater area.
fn insert_sorted(
    sorted: &mut Vec<Border>,
    b: Border,
    Ghost(dims): Ghost<Dimensions>,
    Ghost(claims): Ghost<Seq<Bounds>>,
)
    requires
        all_free(old(sorted)@, dims, claims),
        b.bounds.fits(dims),
        !claimed(claims, b.bounds),
    ensures
        finds(final(sorted)@) == finds(old(sorted)@).insert(
            insert_point(finds(old(sorted)@), 0, b.find().bounds.area()),
            b.find(),
        ),
        all_free(final(sorted)@, dims, claims),
{
    proof {
        crate::geometry::lemma_area_fits(b.bounds.width as int, b.bounds.height as int);
    }
    let area: u32 = b.bounds.width as u32 * b.bounds.height as u32;
    let ghost before = finds(sorted@);
    let ghost start = sorted@;
    let n = sorted.len();
    let mut k: usize = 0;
    while k < n
        invariant
            k <= n,
            n == sorted.len(),
            sorted@ == start,
            before == finds(sorted@),
            area == b.bounds.area(),
            insert_point(before, k as int, area as int) == insert_point(before, 0, area as int),
        ensures
            k <= n,
            k == insert_point(before, 0, area as int),
        decreases n - k,
    {
        proof {
            crate::geometry::lemma_area_fits(
                sorted@[k as int].bounds.width as int,
                sorted@[k as int].bounds.height as int,
            );
            assert(before[k as int] == sorted@[k as int].find());
        }
        let other: u32 = sorted[k].bounds.width as u32 * sorted[k].bounds.height as u32;
        if other < area {
            break ;
        }
        k += 1;
    }
    sorted.insert(k, b);
    proof {
        assert(sorted@ == start.insert(k as int, b));
        assert(finds(sorted@) =~= before.insert(k as int, b.find())) by {
            assert forall|i: int| 0 <= i < sorted@.len() implies finds(sorted@)[i]
                == before.insert(k as int, b.find())[i] by {
                if i < k {
                    assert(sorted@[i] == start[i]);
                } else if i > k {
                    assert(sorted@[i] == start[i - 1]);
                }
            }
        }
        assert forall|i: int| 0 <= i < sorted@.len() implies (#[trigger] sorted@[i]).bounds.fits(
            dims,
        ) && !claimed(claims, sorted@[i].bounds) by {
            if i < k {
                assert(sorted@[i] == start[i]);
            } else if i > k {
                assert(sorted@[i] == start[i - 1]);
            }
        }
    }
}

/// Of the boxes of `sorted`, those that do not lie wholly inside a box kept before them.
fn filter_contained_borders(
    sorted: &Vec<Border>,
    Ghost(dims): Ghost<Dimensions>,
    Ghost(claims): Ghost<Seq<Bounds>>,
) -> (kept: Vec<Border>)
    requires
        all_free(sorted@, dims, claims),
    ensures
        finds(kept@) == outermost(finds(sorted@), sorted@.len() as int),
        all_free(kept@, dims, claims),
{
    let mut kept: Vec<Border> = Vec::new();
    let mut i: usize = 0;
    assert(finds(kept@) =~= Seq::<BorderFind>::empty());
    while i < sorted.len()
        invariant
            i <= sorted.len(),
            finds(kept@) == outermost(finds(sorted@), i as int),
            all_free(sorted@, dims, claims),
            all_free(kept@, dims, claims),
        decreases sorted.len() - i,
    {
        let b = &sorted[i];
        assert(finds(sorted@)[i as int] == b.find());
        let mut inside = false;
        let mut j: usize = 0;
        while j < kept.len()
            invariant_except_break
                !inside,
                forall|m: int|
                    0 <= m < j ==> !b.bounds.within((#[trigger] finds(kept@)[m]).bounds),
            invariant
                j <= kept.len(),
            ensures
                inside == inside_any(finds(kept@), b.bounds),
            decreases kept.len() - j,
        {
            assert(finds(kept@)[j as int] == kept@[j as int].find());
            if b.bounds.is_within(&kept[j].bounds) {
                inside = true;
                break ;
            }
            j += 1;
        }
        if !inside {
            let ghost before = finds(kept@);
            let copy = b.duplicate();
            kept.push(copy);
            assert(finds(kept@) =~= before.push(b.find()));
        }
        i += 1;
    }
    kept
}

/// Detects boxes.
pub struct BorderDetector {}

impl BorderDetector {
    /// The detector.
    pub fn new() -> (d: Self) {
        BorderDetector {  }
    }
}

impl Default for BorderDetector {
    /// The detector.
    fn default() -> (d: Self) {
        BorderDetector::new()
    }
}

impl ElementDetector for BorderDetector {
    /// The name of the detector: `border`.
    fn name(&self) -> (name: &'static str)
        ensures
            name@ == "border"@,
    {
        "border"
    }

    /// The priority of the detector: 100.
    fn priority(&self) -> (priority: u32)
        ensures
            priority == 100,
    {
        100
    }

    /// The unclaimed boxes of the grid, largest first and without those that lie inside a
    /// larger one, numbered from one. No box reported lies strictly inside another.
    fn detect(&self, grid: &Grid, context: &DetectionContext) -> (found: Vec<DetectedElement>)
        ensures
            found@.len() == borders(grid@, context.claimed_regions@).len(),
            forall|i: int|
                0 <= i < found@.len() ==> reports_border(
                    #[trigger] found@[i],
                    borders(grid@, context.claimed_regions@)[i],
                    (i + 1) as nat,
                ),
            no_nesting(borders(grid@, context.claimed_regions@)),
    {
        let dims = grid.dimensions();
        let ghost claims = context.claimed_regions@;
        let ghost g = grid@;
        let mut sorted: Vec<Border> = Vec::new();
        let ghost mut seen: Seq<BorderFind> = Seq::empty();
        assert(finds(sorted@) =~= by_area(seen));
        let mut row: u16 = 0;
        while row < dims.rows
            invariant
                grid.wf(),
                g == grid@,
                dims == g.dimensions,
                claims == context.claimed_regions@,
                row <= dims.rows,
                seen == traced(g, claims, row as int),
                finds(sorted@) == by_area(seen),
                proper(seen),
                all_free(sorted@, dims, claims),
            decreases dims.rows - row,
        {
            let line = grid.line(row);
            let ghost above = seen;
            let mut col: u16 = 0;
            assert(seen =~= above + row_borders(g, claims, row as int, 0));
            while col < dims.cols
                invariant
                    grid.wf(),
                    g == grid@,
                    dims == g.dimensions,
                    claims == context.claimed_regions@,
                    row < dims.rows,
                    col <= dims.cols,
                    line@ == g.line(row as int),
                    line.len() == dims.cols,
                    above == traced(g, claims, row as int),
                    seen == above + row_borders(g, claims, row as int, col as int),
                    finds(sorted@) == by_area(seen),
                    proper(seen),
                    all_free(sorted@, dims, claims),
                decreases dims.cols - col,
            {
                let ghost left = seen;
                let mut k: usize = 0;
                assert(seen =~= left + cell_borders(g, claims, row as int, col as int, 0));
                while k < BOX_SETS
                    invariant
                        grid.wf(),
                        g == grid@,
                        dims == g.dimensions,
                        claims == context.claimed_regions@,
                        row < dims.rows,
                        col < dims.cols,
                        k <= BOX_SETS,
                        line@ == g.line(row as int),
                        line.len() == dims.cols,
                        seen == left + cell_borders(g, claims, row as int, col as int, k as int),
                        finds(sorted@) == by_area(seen),
                        proper(seen),
                        all_free(sorted@, dims, claims),
                    decreases BOX_SETS - k,
                {
                    let set = set_of(k);
                    let ghost so_far = cell_borders(g, claims, row as int, col as int, k as int);
                    match trace_border(grid, &line, row, col, set) {
                        Some(b) => {
                            if !context.is_region_claimed(&b.bounds) {
                                let ghost f = b.find();
                                insert_sorted(&mut sorted, b, Ghost(dims), Ghost(claims));
                                proof {
                                    let next = seen.push(f);
                                    assert(next.drop_last() =~= seen);
                                    assert(next.last() == f);
                                    assert(left + so_far.push(f) =~= next);
                                    assert forall|i: int| 0 <= i < next.len() implies (
                                    #[trigger] next[i]).bounds.width >= 2 && next[i].bounds.height
                                        >= 2 by {
                                        if i < seen.len() {
                                            assert(next[i] == seen[i]);
                                        }
                                    }
                                    seen = next;
                                }
                            }
                        },
                        None => {},
                    }
                    k += 1;
                }
                proof {
                    assert(seen =~= above + row_borders(g, claims, row as int, col + 1));
                }
                col += 1;
            }
            row += 1;
        }
        let kept = filter_contained_borders(&sorted, Ghost(dims), Ghost(claims));
        proof {
            law_border_nesting(seen);
        }
        let ghost goal = borders(g, claims);
        let mut cands: Vec<DetectedElement> = Vec::new();
        let mut i: usize = 0;
        while i < kept.len()
            invariant
                i <= kept.len(),
                dims == g.dimensions,
                finds(kept@) == goal,
                all_free(kept@, dims, claims),
                cands.len() == i,
                well_behaved(cands@, dims, claims),
                forall|m: int| 0 <= m < i ==> describes_border(#[trigger] cands@[m], goal[m]),
            decreases kept.len() - i,
        {
            let b = kept[i].duplicate();
            proof {
                assert(goal[i as int] == kept@[i as int].find());
            }
            let Border { bounds, title } = b;
            cands.push(
                DetectedElement {
                    element: Element::Border {
                        ref_id: String::new(),
                        bounds,
                        title,
                        children: Vec::new(),
                    },
                    bounds,
                    confidence: Confidence::High,
                },
            );
            i += 1;
        }
        let found = number_elements(cands);
        proof {
            lemma_renumbered_well_behaved(found@, cands@, dims, claims);
            reveal_strlit("border");
        }
        found
    }
}

} // verus!
