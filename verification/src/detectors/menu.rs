//! Menus: groups of rows of which one is selected.

use vstd::prelude::*;
use crate::detection::{
    claimed, Confidence, DetectedElement, DetectionContext, ElementDetector,
    lemma_renumbered_well_behaved, number_elements, ref_id_text, well_behaved,
};
use crate::detectors::marks::{Mark, mostly, row_mostly};
use crate::detectors::regions::{content_regions, find_regions, regions_ok};
use crate::element::{Element, MenuItem};
use crate::geometry::{Bounds, Position};
use crate::grid::{Grid, GridView};
use crate::text::{from_chars, is_blank, is_blank_chars, lemma_trim, subvec, trim, trim_chars};

verus! {

/// The least number of entries of a menu.
pub const MIN_MENU_ITEMS: usize = 2;

/// How the selected entry of a menu is recognised.
#[derive(Debug, Clone, Copy, PartialEq, Eq, Structural)]
pub enum Strategy {
    /// The selected row is in reverse video.
    Reverse,
    /// The selected row begins with a marker.
    Marker,
    /// The selected row is the cursor's.
    Cursor,
}

/// Whether `c` marks a row as selected.
pub open spec fn is_marker(c: char) -> bool {
    c == '>' || c == '→' || c == '▶' || c == '•' || c == '*' || c == '►'
}

/// An entry of a menu as it is found.
pub struct ItemFind {
    /// Text of the entry.
    pub text: Seq<char>,
    /// Whether the entry is selected.
    pub selected: bool,
}

/// A menu as it is found.
pub struct MenuFind {
    /// The region of the menu.
    pub bounds: Bounds,
    /// The entries, top to bottom.
    pub items: Seq<ItemFind>,
    /// Index of the selected entry.
    pub selected: int,
}

/// Whether row `row` is selected under `strategy`: most of its cells that are not spaces
/// are in reverse video; or its first character that is not white space is a marker; or
/// it is the cursor's row.
pub open spec fn row_selected(g: GridView, row: int, strategy: Strategy, cursor: Position) -> bool {
    match strategy {
        Strategy::Reverse => mostly(g, row, Mark::Reverse),
        Strategy::Marker => trim(g.line(row)).len() > 0 && is_marker(trim(g.line(row))[0]),
        Strategy::Cursor => row == cursor.row,
    }
}

/// The text of the entry of row `row`: the row without surrounding white space and, where
/// a marker selects it, without the marker and the white space after it.
pub open spec fn item_text(g: GridView, row: int, strategy: Strategy, cursor: Position) -> Seq<
    char,
> {
    let t = trim(g.line(row));
    if strategy == Strategy::Marker && row_selected(g, row, strategy, cursor) {
        trim(t.skip(1))
    } else {
        t
    }
}

/// The entries of the first `n` rows of `region`: one for each row that is not blank.
pub open spec fn menu_items(
    g: GridView,
    region: Bounds,
    strategy: Strategy,
    cursor: Position,
    n: int,
) -> Seq<ItemFind>
    decreases n,
{
    if n <= 0 {
        Seq::empty()
    } else {
        let before = menu_items(g, region, strategy, cursor, n - 1);
        let row = region.row + n - 1;
        if is_blank(g.line(row)) {
            before
        } else {
            before.push(
                ItemFind {
                    text: item_text(g, row, strategy, cursor),
                    selected: row_selected(g, row, strategy, cursor),
                },
            )
        }
    }
}

/// The index of the first selected entry at or after `from`, if any.
pub open spec fn first_selected(items: Seq<ItemFind>, from: int) -> Option<int>
    decreases items.len() - from,
{
    if from < 0 || from >= items.len() {
        None
    } else if items[from].selected {
        Some(from)
    } else {
        first_selected(items, from + 1)
    }
}

/// The index of the last selected entry before `end`, if any.
pub open spec fn last_selected(items: Seq<ItemFind>, end: int) -> Option<int>
    decreases end,
{
    if end <= 0 || end > items.len() {
        None
    } else if items[end - 1].selected {
        Some(end - 1)
    } else {
        last_selected(items, end - 1)
    }
}

/// The menu that `strategy` finds in `region`, if any. A menu has at least two entries.
/// Reverse video selects the first row so highlighted and a marker the last row so
/// marked, and either finds a menu only where a row is selected; the cursor finds a menu
/// where it stands in the region, and selects its row.
pub open spec fn menu_by(g: GridView, region: Bounds, strategy: Strategy, cursor: Position) -> Option<
    MenuFind,
> {
    let items = menu_items(g, region, strategy, cursor, region.height as int);
    if items.len() < MIN_MENU_ITEMS {
        None
    } else {
        match strategy {
            Strategy::Reverse => match first_selected(items, 0) {
                Some(i) => Some(MenuFind { bounds: region, items, selected: i }),
                None => None,
            },
            Strategy::Marker => match last_selected(items, items.len() as int) {
                Some(i) => Some(MenuFind { bounds: region, items, selected: i }),
                None => None,
            },
            Strategy::Cursor => if region.contains_spec(cursor) {
                Some(
                    MenuFind {
                        bounds: region,
                        items,
                        selected: match first_selected(items, 0) {
                            Some(i) => i,
                            None => 0,
                        },
                    },
                )
            } else {
                None
            },
        }
    }
}

/// The menu of `region`: that of the first strategy that finds one, of reverse video,
/// marker and cursor in this order.
pub open spec fn menu_in(g: GridView, region: Bounds, cursor: Position) -> Option<MenuFind> {
    if menu_by(g, region, Strategy::Reverse, cursor) is Some {
        menu_by(g, region, Strategy::Reverse, cursor)
    } else if menu_by(g, region, Strategy::Marker, cursor) is Some {
        menu_by(g, region, Strategy::Marker, cursor)
    } else {
        menu_by(g, region, Strategy::Cursor, cursor)
    }
}

/// The menus of the first `n` of `regions`, claimed regions left out.
pub open spec fn menus_in(
    g: GridView,
    regions: Seq<Bounds>,
    claims: Seq<Bounds>,
    cursor: Position,
    n: int,
) -> Seq<MenuFind>
    decreases n,
{
    if n <= 0 || n > regions.len() {
        Seq::empty()
    } else {
        let before = menus_in(g, regions, claims, cursor, n - 1);
        if claimed(claims, regions[n - 1]) {
            before
        } else {
            match menu_in(g, regions[n - 1], cursor) {
                Some(m) => before.push(m),
                None => before,
            }
        }
    }
}

/// The menus that the detector reports: those of the candidate regions that are not
/// claimed, top to bottom.
pub open spec fn menus(g: GridView, claims: Seq<Bounds>, cursor: Position) -> Seq<MenuFind> {
    menus_in(g, content_regions(g), claims, cursor, content_regions(g).len() as int)
}

/// Whether the entries stand for the entries found, one for one; entries carry no
/// reference.
pub open spec fn describe_items(items: Seq<MenuItem>, finds: Seq<ItemFind>) -> bool {
    &&& items.len() == finds.len()
    &&& forall|i: int|
        0 <= i < items.len() ==> (#[trigger] items[i]).text@ == finds[i].text
            && items[i].selected == finds[i].selected && items[i].ref_id@.len() == 0
}

/// Whether `e` stands for the menu `f`, whatever its reference.
pub open spec fn describes_menu(e: DetectedElement, f: MenuFind) -> bool {
    &&& e.bounds == f.bounds
    &&& e.confidence == Confidence::High
    &&& e.element matches Element::Menu { ref_id, bounds, items, selected }
    &&& bounds == f.bounds
    &&& selected == f.selected
    &&& describe_items(items@, f.items)
}

/// Whether `e` reports the menu `f` under the number `n`.
pub open spec fn reports_menu(e: DetectedElement, f: MenuFind, n: nat) -> bool {
    describes_menu(e, f) && e.element.id() == ref_id_text("menu"@, n)
}

/// Whether `c` marks a row as selected.
fn marker(c: char) -> (b: bool)
    ensures
        b == is_marker(c),
{
    c == '>' || c == '→' || c == '▶' || c == '•' || c == '*' || c == '►'
}

/// The entries of the cells views of a vector.
spec fn item_finds(items: Seq<MenuItem>) -> Seq<ItemFind> {
    Seq::new(items.len(), |i: int| ItemFind { text: items[i].text@, selected: items[i].selected })
}

/// The entries of `region` under `strategy`.
fn collect_items(grid: &Grid, region: &Bounds, strategy: Strategy, cursor: Position) -> (items:
    Vec<MenuItem>)
    requires
        grid.wf(),
        region.fits(grid@.dimensions),
    ensures
        describe_items(
            items@,
            menu_items(grid@, *region, strategy, cursor, region.height as int),
        ),
{
    let mut items: Vec<MenuItem> = Vec::new();
    let mut k: u16 = 0;
    while k < region.height
        invariant
            grid.wf(),
            region.fits(grid@.dimensions),
            k <= region.height,
            describe_items(items@, menu_items(grid@, *region, strategy, cursor, k as int)),
        decreases region.height - k,
    {
        let row = region.row + k;
        let line = grid.line(row);
        if !is_blank_chars(&line) {
            let t = trim_chars(&line);
            proof {
                lemma_trim(line@);
            }
            let selected = match strategy {
                Strategy::Reverse => row_mostly(grid, row, Mark::Reverse),
                Strategy::Marker => t.len() > 0 && marker(t[0]),
                Strategy::Cursor => row == cursor.row,
            };
            let text = match strategy {
                Strategy::Marker => if selected {
                    let rest = subvec(&t, 1, t.len());
                    assert(rest@ =~= t@.skip(1));
                    trim_chars(&rest)
                } else {
                    t
                },
                _ => t,
            };
            items.push(MenuItem { ref_id: String::new(), text: from_chars(&text), selected });
        }
        k += 1;
    }
    items
}

/// The index of the first selected entry.
fn find_first_selected(items: &Vec<MenuItem>) -> (r: Option<usize>)
    ensures
        match r {
            Some(i) => first_selected(item_finds(items@), 0) == Some(i as int),
            None => first_selected(item_finds(items@), 0) is None,
        },
{
    let mut i: usize = 0;
    while i < items.len()
        invariant
            i <= items.len(),
            first_selected(item_finds(items@), i as int) == first_selected(item_finds(items@), 0),
        decreases items.len() - i,
    {
        if items[i].selected {
            return Some(i);
        }
        i += 1;
    }
    None
}

/// The index of the last selected entry.
fn find_last_selected(items: &Vec<MenuItem>) -> (r: Option<usize>)
    ensures
        match r {
            Some(i) => last_selected(item_finds(items@), items@.len() as int) == Some(i as int),
            None => last_selected(item_finds(items@), items@.len() as int) is None,
        },
{
    let mut j: usize = items.len();
    while j > 0
        invariant
            j <= items.len(),
            last_selected(item_finds(items@), j as int) == last_selected(
                item_finds(items@),
                items@.len() as int,
            ),
        decreases j,
    {
        if items[j - 1].selected {
            return Some(j - 1);
        }
        j -= 1;
    }
    None
}

/// Selection depends only on the texts and flags of the entries.
proof fn lemma_same_items(items: Seq<MenuItem>, finds: Seq<ItemFind>)
    requires
        describe_items(items, finds),
    ensures
        item_finds(items) == finds,
{
    assert(item_finds(items) =~= finds);
}

/// The menu that `strategy` finds in `region`: its entries and the index of the selected
/// one.
fn detect_by(grid: &Grid, region: &Bounds, strategy: Strategy, cursor: Position) -> (r: Option<
    (usize, Vec<MenuItem>),
>)
    requires
        grid.wf(),
        region.fits(grid@.dimensions),
    ensures
        match r {
            Some((selected, items)) => menu_by(grid@, *region, strategy, cursor) matches Some(f)
                && f.bounds == *region && f.selected == selected && describe_items(
                items@,
                f.items,
            ),
            None => menu_by(grid@, *region, strategy, cursor) is None,
        },
{
    let items = collect_items(grid, region, strategy, cursor);
    proof {
        lemma_same_items(
            items@,
            menu_items(grid@, *region, strategy, cursor, region.height as int),
        );
    }
    if items.len() < MIN_MENU_ITEMS {
        return None;
    }
    match strategy {
        Strategy::Reverse => match find_first_selected(&items) {
            Some(i) => Some((i, items)),
            None => None,
        },
        Strategy::Marker => match find_last_selected(&items) {
            Some(i) => Some((i, items)),
            None => None,
        },
        Strategy::Cursor => if region.contains(&cursor) {
            let selected = match find_first_selected(&items) {
                Some(i) => i,
                None => 0,
            };
            Some((selected, items))
        } else {
            None
        },
    }
}

/// The menu of `region`.
fn detect_menu_in_region(grid: &Grid, region: &Bounds, cursor: Position) -> (r: Option<
    DetectedElement,
>)
    requires
        grid.wf(),
        region.fits(grid@.dimensions),
    ensures
        match r {
            Some(e) => menu_in(grid@, *region, cursor) matches Some(f) && describes_menu(e, f)
                && e.bounds == *region && e.element.region() == e.bounds,
            None => menu_in(grid@, *region, cursor) is None,
        },
{
    let mut result = detect_by(grid, region, Strategy::Reverse, cursor);
    if result.is_none() {
        result = detect_by(grid, region, Strategy::Marker, cursor);
    }
    if result.is_none() {
        result = detect_by(grid, region, Strategy::Cursor, cursor);
    }
    match result {
        Some((selected, items)) => Some(
            DetectedElement {
                element: Element::Menu {
                    ref_id: String::new(),
                    bounds: *region,
                    items,
                    selected,
                },
                bounds: *region,
                confidence: Confidence::High,
            },
        ),
        None => None,
    }
}

/// Detects menus.
pub struct MenuDetector {}

impl MenuDetector {
    /// The detector.
    pub fn new() -> (d: Self) {
        MenuDetector {  }
    }
}

impl Default for MenuDetector {
    /// The detector.
    fn default() -> (d: Self) {
        MenuDetector::new()
    }
}

impl ElementDetector for MenuDetector {
    /// The name of the detector: `menu`.
    fn name(&self) -> (name: &'static str)
        ensures
            name@ == "menu"@,
    {
        "menu"
    }

    /// The priority of the detector: 80.
    fn priority(&self) -> (priority: u32)
        ensures
            priority == 80,
    {
        80
    }

    /// The menus of the candidate regions that are not claimed, top to bottom, numbered
    /// from one.
    fn detect(&self, grid: &Grid, context: &DetectionContext) -> (found: Vec<DetectedElement>)
        ensures
            found@.len() == menus(grid@, context.claimed_regions@, context.cursor).len(),
            forall|i: int|
                0 <= i < found@.len() ==> reports_menu(
                    #[trigger] found@[i],
                    menus(grid@, context.claimed_regions@, context.cursor)[i],
                    (i + 1) as nat,
                ),
    {
        let regions = find_regions(grid);
        let ghost claims = context.claimed_regions@;
        let ghost g = grid@;
        let cursor = context.cursor;
        let mut cands: Vec<DetectedElement> = Vec::new();
        let mut i: usize = 0;
        while i < regions.len()
            invariant
                grid.wf(),
                g == grid@,
                claims == context.claimed_regions@,
                cursor == context.cursor,
                regions@ == content_regions(g),
                regions_ok(regions@, g),
                i <= regions.len(),
                well_behaved(cands@, g.dimensions, claims),
                cands@.len() == menus_in(g, regions@, claims, cursor, i as int).len(),
                forall|k: int|
                    0 <= k < cands@.len() ==> describes_menu(
                        #[trigger] cands@[k],
                        menus_in(g, regions@, claims, cursor, i as int)[k],
                    ),
            decreases regions.len() - i,
        {
            let region = regions[i];
            if !context.is_region_claimed(&region) {
                match detect_menu_in_region(grid, &region, cursor) {
                    Some(e) => {
                        cands.push(e);
                    },
                    None => {},
                }
            }
            i += 1;
        }
        let found = number_elements(cands);
        proof {
            lemma_renumbered_well_behaved(found@, cands@, g.dimensions, claims);
            reveal_strlit("menu");
        }
        found
    }
}

} // verus!
