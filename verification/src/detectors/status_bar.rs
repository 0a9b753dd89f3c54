//! The status line at the bottom of the screen.

use vstd::prelude::*;
use crate::detection::{
    claimed, Confidence, DetectedElement, DetectionContext, ElementDetector, make_ref_id,
    ref_id_text,
};
use crate::detectors::marks::{Mark, mostly, row_mostly};
use crate::element::Element;
use crate::geometry::Bounds;
use crate::grid::{Grid, GridView};
use crate::text::{contains_sub, from_chars, has_sub, lemma_trim, to_chars, trim, trim_chars};

verus! {

/// Whether `t` holds one of the phrases that status lines hold: a hint to press a key, a
/// key's name, a caption or a separator.
pub open spec fn has_status_phrase(t: Seq<char>) -> bool {
    ||| has_sub(t, "Press"@)
    ||| has_sub(t, "press"@)
    ||| has_sub(t, "ESC"@)
    ||| has_sub(t, "Esc"@)
    ||| has_sub(t, "q to quit"@)
    ||| has_sub(t, "Q to quit"@)
    ||| has_sub(t, "Help:"@)
    ||| has_sub(t, "Status:"@)
    ||| has_sub(t, "│"@)
    ||| has_sub(t, "|"@)
    ||| has_sub(t, "Ctrl+"@)
    ||| has_sub(t, "Alt+"@)
    ||| has_sub(t, "F1"@)
    ||| has_sub(t, "F2"@)
    ||| has_sub(t, "F3"@)
    ||| has_sub(t, "F4"@)
    ||| has_sub(t, "F5"@)
    ||| has_sub(t, "F6"@)
    ||| has_sub(t, "F7"@)
    ||| has_sub(t, "F8"@)
    ||| has_sub(t, "F9"@)
    ||| has_sub(t, "F10"@)
}

/// The last row of the grid; row 0 for a grid without rows.
pub open spec fn last_row(g: GridView) -> int {
    if g.dimensions.rows > 0 {
        g.dimensions.rows - 1
    } else {
        0
    }
}

/// The region of the status line: the whole last row.
pub open spec fn status_bounds(g: GridView) -> Bounds {
    Bounds { row: last_row(g) as u16, col: 0, width: g.dimensions.cols, height: 1 }
}

/// Whether the last row is a status line: it is not blank, and it holds a status phrase
/// or more than half of its cells that are not spaces have a background colour.
pub open spec fn looks_like_status(g: GridView) -> bool {
    let t = trim(g.line(last_row(g)));
    t.len() > 0 && (has_status_phrase(t) || mostly(g, last_row(g), Mark::Tinted))
}

/// The text of the status line that the detector reports, if any: that of the last row
/// where it is a status line and its region is not claimed.
pub open spec fn status_content(g: GridView, claims: Seq<Bounds>) -> Option<Seq<char>> {
    if !claimed(claims, status_bounds(g)) && looks_like_status(g) {
        Some(trim(g.line(last_row(g))))
    } else {
        None
    }
}

/// Whether `e` reports the status line of `g` with the text `content`.
pub open spec fn reports_status(e: DetectedElement, g: GridView, content: Seq<char>) -> bool {
    &&& e.bounds == status_bounds(g)
    &&& e.confidence == Confidence::Medium
    &&& e.element matches Element::StatusBar { ref_id, bounds, content: text }
    &&& ref_id@ == ref_id_text("status_bar"@, 1)
    &&& bounds == status_bounds(g)
    &&& text@ == content
}

/// Whether `t` holds the phrase `phrase`.
fn holds(t: &Vec<char>, phrase: &str) -> (b: bool)
    ensures
        b == has_sub(t@, phrase@),
{
    let p = to_chars(phrase);
    contains_sub(t, &p)
}

/// Whether `t` holds one of the phrases that status lines hold.
fn has_phrase(t: &Vec<char>) -> (b: bool)
    ensures
        b == has_status_phrase(t@),
{
    holds(t, "Press") || holds(t, "press") || holds(t, "ESC") || holds(t, "Esc") || holds(
        t,
        "q to quit",
    ) || holds(t, "Q to quit") || holds(t, "Help:") || holds(t, "Status:") || holds(t, "│")
        || holds(t, "|") || holds(t, "Ctrl+") || holds(t, "Alt+") || holds(t, "F1") || holds(
        t,
        "F2",
    ) || holds(t, "F3") || holds(t, "F4") || holds(t, "F5") || holds(t, "F6") || holds(t, "F7")
        || holds(t, "F8") || holds(t, "F9") || holds(t, "F10")
}

/// Detects the status line.
pub struct StatusBarDetector {}

impl StatusBarDetector {
    /// The detector.
    pub fn new() -> (d: Self) {
        StatusBarDetector {  }
    }
}

impl Default for StatusBarDetector {
    /// The detector.
    fn default() -> (d: Self) {
        StatusBarDetector::new()
    }
}

impl ElementDetector for StatusBarDetector {
    /// The name of the detector: `status_bar`.
    fn name(&self) -> (name: &'static str)
        ensures
            name@ == "status_bar"@,
    {
        "status_bar"
    }

    /// The priority of the detector: 50.
    fn priority(&self) -> (priority: u32)
        ensures
            priority == 50,
    {
        50
    }

    /// The status line, if the last row is one and is not claimed: at most one element,
    /// numbered 1.
    fn detect(&self, grid: &Grid, context: &DetectionContext) -> (found: Vec<DetectedElement>)
        ensures
            match status_content(grid@, context.claimed_regions@) {
                Some(content) => found@.len() == 1 && reports_status(found@[0], grid@, content),
                None => found@.len() == 0,
            },
    {
        let mut results: Vec<DetectedElement> = Vec::new();
        let dims = grid.dimensions();
        let last: u16 = if dims.rows > 0 {
            dims.rows - 1
        } else {
            0
        };
        let bounds = Bounds::new(last, 0, dims.cols, 1);
        if context.is_region_claimed(&bounds) {
            return results;
        }
        let line = grid.line(last);
        let t = trim_chars(&line);
        proof {
            lemma_trim(line@);
        }
        if t.len() == 0 {
            return results;
        }
        if has_phrase(&t) || row_mostly(grid, last, Mark::Tinted) {
            results.push(
                DetectedElement {
                    element: Element::StatusBar {
                        ref_id: make_ref_id("status_bar", 0),
                        bounds,
                        content: from_chars(&t),
                    },
                    bounds,
                    confidence: Confidence::Medium,
                },
            );
        }
        results
    }
}

} // verus!
