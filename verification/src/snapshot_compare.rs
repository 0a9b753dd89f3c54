//! Comparison of two detection results: which elements came, which went, and which
//! changed.

use vstd::prelude::*;
use crate::detection::{Confidence, DetectedElement};
use crate::element::{Element, MenuItem};
use crate::geometry::Bounds;
use crate::text::{decimal, decimal_chars, from_chars, str_eq};

verus! {

/// One change to an element.
#[derive(Debug, Clone, PartialEq)]
pub enum ElementChange {
    /// The element is new.
    Added,
    /// The element is gone.
    Removed,
    /// The element is of another type.
    TypeChanged {
        /// The type it had.
        expected: String,
        /// The type it has.
        actual: String,
    },
    /// The element stands elsewhere.
    BoundsChanged {
        /// Where it stood.
        expected: Bounds,
        /// Where it stands.
        actual: Bounds,
    },
    /// A part of the element's content differs.
    ContentChanged {
        /// Which part.
        field: String,
        /// What it held.
        expected: String,
        /// What it holds.
        actual: String,
    },
    /// The detector's confidence differs.
    ConfidenceChanged {
        /// The level it had.
        expected: String,
        /// The level it has.
        actual: String,
    },
}

/// A change as a mathematical value.
pub enum ChangeView {
    /// The element is new.
    Added,
    /// The element is gone.
    Removed,
    /// The element is of another type.
    TypeChanged { expected: Seq<char>, actual: Seq<char> },
    /// The element stands elsewhere.
    BoundsChanged { expected: Bounds, actual: Bounds },
    /// A part of the element's content differs.
    ContentChanged { field: Seq<char>, expected: Seq<char>, actual: Seq<char> },
    /// The detector's confidence differs.
    ConfidenceChanged { expected: Seq<char>, actual: Seq<char> },
}

impl View for ElementChange {
    type V = ChangeView;

    open spec fn view(&self) -> ChangeView {
        match *self {
            ElementChange::Added => ChangeView::Added,
            ElementChange::Removed => ChangeView::Removed,
            ElementChange::TypeChanged { expected, actual } => ChangeView::TypeChanged {
                expected: expected@,
                actual: actual@,
            },
            ElementChange::BoundsChanged { expected, actual } => ChangeView::BoundsChanged {
                expected,
                actual,
            },
            ElementChange::ContentChanged { field, expected, actual } => ChangeView::ContentChanged {
                field: field@,
                expected: expected@,
                actual: actual@,
            },
            ElementChange::ConfidenceChanged { expected, actual } => ChangeView::ConfidenceChanged {
                expected: expected@,
                actual: actual@,
            },
        }
    }
}

/// The changes of a vector as mathematical values.
pub open spec fn changes_view(changes: Seq<ElementChange>) -> Seq<ChangeView> {
    Seq::new(changes.len(), |i: int| changes[i]@)
}

/// What differs about one element.
#[derive(Debug, Clone)]
pub struct ElementDiff {
    /// Reference of the element, where it has one.
    pub ref_id: Option<String>,
    /// Name of the element's type.
    pub element_type: String,
    /// Where the element stands.
    pub bounds: Option<Bounds>,
    /// The changes.
    pub changes: Vec<ElementChange>,
}

/// The difference of one element as a mathematical value.
pub struct DiffView {
    /// Reference of the element.
    pub ref_id: Option<Seq<char>>,
    /// Name of the element's type.
    pub element_type: Seq<char>,
    /// Where the element stands.
    pub bounds: Option<Bounds>,
    /// The changes.
    pub changes: Seq<ChangeView>,
}

impl View for ElementDiff {
    type V = DiffView;

    open spec fn view(&self) -> DiffView {
        DiffView {
            ref_id: match self.ref_id {
                Some(id) => Some(id@),
                None => None,
            },
            element_type: self.element_type@,
            bounds: self.bounds,
            changes: changes_view(self.changes@),
        }
    }
}

/// The differences of a vector as mathematical values.
pub open spec fn diffs_view(diffs: Seq<ElementDiff>) -> Seq<DiffView> {
    Seq::new(diffs.len(), |i: int| diffs[i]@)
}

/// The counts of a comparison.
#[derive(Debug, Clone, Copy, PartialEq, Eq, Structural)]
pub struct DiffStats {
    /// Number of elements expected.
    pub expected_count: usize,
    /// Number of elements found.
    pub actual_count: usize,
    /// Number of elements that are new.
    pub added_count: usize,
    /// Number of elements that are gone.
    pub removed_count: usize,
    /// Number of elements that changed.
    pub modified_count: usize,
    /// Number of elements that are as expected.
    pub unchanged_count: usize,
}

impl DiffStats {
    /// All counts at zero.
    pub open spec fn zero() -> DiffStats {
        DiffStats {
            expected_count: 0,
            actual_count: 0,
            added_count: 0,
            removed_count: 0,
            modified_count: 0,
            unchanged_count: 0,
        }
    }
}

impl Default for DiffStats {
    /// All counts at zero.
    fn default() -> (s: Self)
        ensures
            s == DiffStats::zero(),
    {
        DiffStats {
            expected_count: 0,
            actual_count: 0,
            added_count: 0,
            removed_count: 0,
            modified_count: 0,
            unchanged_count: 0,
        }
    }
}

/// The outcome of a comparison.
#[derive(Debug, Clone)]
pub struct SnapshotDiff {
    /// The elements found that were not expected.
    pub added: Vec<ElementDiff>,
    /// The elements expected that were not found.
    pub removed: Vec<ElementDiff>,
    /// The elements found with changes.
    pub modified: Vec<ElementDiff>,
    /// The counts.
    pub stats: DiffStats,
}

impl Default for SnapshotDiff {
    /// The outcome without differences and with all counts at zero.
    fn default() -> (d: Self)
        ensures
            d.added@.len() == 0,
            d.removed@.len() == 0,
            d.modified@.len() == 0,
            d.stats == DiffStats::zero(),
    {
        SnapshotDiff {
            added: Vec::new(),
            removed: Vec::new(),
            modified: Vec::new(),
            stats: DiffStats::default(),
        }
    }
}

/// The text of a string as `Debug` shows it: in double quotes, with its escapes.
pub uninterp spec fn debug_text(s: Seq<char>) -> Seq<char>;

/// The text of `s` as `Debug` shows it.
///
/// Stands for `<str as Debug>::fmt`: the text in double quotes with its escapes, which
/// depends on the text alone.
#[verifier::external_body]
fn quoted(s: &str) -> (r: String)
    ensures
        r@ == debug_text(s@),
{
    format!("{:?}", s)
}

/// The text of a truth value.
pub open spec fn bool_text(b: bool) -> Seq<char> {
    if b {
        "true"@
    } else {
        "false"@
    }
}

/// The text of a truth value: `true` or `false`.
pub fn bool_string(b: bool) -> (r: String)
    ensures
        r@ == bool_text(b),
{
    if b {
        String::from_str("true")
    } else {
        String::from_str("false")
    }
}

/// The decimal text of a number.
pub fn number_string(n: usize) -> (r: String)
    ensures
        r@ == decimal(n as nat),
{
    from_chars(&decimal_chars(n as u128))
}

/// The name of a confidence level.
pub open spec fn confidence_text(c: Confidence) -> Seq<char> {
    match c {
        Confidence::Low => "Low"@,
        Confidence::Medium => "Medium"@,
        Confidence::High => "High"@,
    }
}

/// The name of a confidence level: `Low`, `Medium` or `High`.
pub fn confidence_string(c: Confidence) -> (r: String)
    ensures
        r@ == confidence_text(c),
{
    match c {
        Confidence::Low => String::from_str("Low"),
        Confidence::Medium => String::from_str("Medium"),
        Confidence::High => String::from_str("High"),
    }
}

/// The texts of a vector as mathematical values.
pub open spec fn texts_view(texts: Seq<String>) -> Seq<Seq<char>> {
    Seq::new(texts.len(), |i: int| texts[i]@)
}

/// The first `n` parts, separated by a comma and a space.
pub open spec fn listed(parts: Seq<Seq<char>>, n: int) -> Seq<char>
    decreases n,
{
    if n <= 0 || n > parts.len() {
        Seq::empty()
    } else if n == 1 {
        parts[0]
    } else {
        listed(parts, n - 1) + ", "@ + parts[n - 1]
    }
}

/// The parts as a list: in square brackets, separated by a comma and a space.
pub open spec fn list_text(parts: Seq<Seq<char>>) -> Seq<char> {
    "["@ + listed(parts, parts.len() as int) + "]"@
}

/// The parts, separated by a comma and a space.
pub fn join_list(parts: &Vec<String>) -> (r: String)
    ensures
        r@ == listed(texts_view(parts@), parts@.len() as int),
{
    let mut inner = String::from_str("");
    let mut i: usize = 0;
    proof {
        reveal_strlit("");
        assert(inner@ =~= listed(texts_view(parts@), 0));
    }
    while i < parts.len()
        invariant
            i <= parts.len(),
            inner@ == listed(texts_view(parts@), i as int),
        decreases parts.len() - i,
    {
        if i == 0 {
            inner = String::from_str(parts[0].as_str());
        } else {
            inner = inner.concat(", ").concat(parts[i].as_str());
        }
        i += 1;
    }
    inner
}

/// The parts as a list: in square brackets, separated by a comma and a space.
pub fn list_string(parts: &Vec<String>) -> (r: String)
    ensures
        r@ == list_text(texts_view(parts@)),
{
    String::from_str("[").concat(join_list(parts).as_str()).concat("]")
}

/// The entry as `Debug` shows it.
pub open spec fn item_text(item: MenuItem) -> Seq<char> {
    "MenuItem { ref_id: "@ + debug_text(item.ref_id@) + ", text: "@ + debug_text(item.text@)
        + ", selected: "@ + bool_text(item.selected) + " }"@
}

/// The entries as `Debug` shows them, one by one.
pub open spec fn item_texts(items: Seq<MenuItem>) -> Seq<Seq<char>> {
    Seq::new(items.len(), |i: int| item_text(items[i]))
}

/// The entries of a menu as `Debug` shows them.
pub fn items_string(items: &Vec<MenuItem>) -> (r: String)
    ensures
        r@ == list_text(item_texts(items@)),
{
    let mut parts: Vec<String> = Vec::new();
    let mut i: usize = 0;
    while i < items.len()
        invariant
            i <= items.len(),
            parts@.len() == i,
            forall|k: int| 0 <= k < i ==> (#[trigger] parts@[k])@ == item_text(items@[k]),
        decreases items.len() - i,
    {
        let item = &items[i];
        let text = String::from_str("MenuItem { ref_id: ").concat(
            quoted(item.ref_id.as_str()).as_str(),
        ).concat(", text: ").concat(quoted(item.text.as_str()).as_str()).concat(
            ", selected: ",
        ).concat(bool_string(item.selected).as_str()).concat(" }");
        parts.push(text);
        i += 1;
    }
    assert(texts_view(parts@) =~= item_texts(items@));
    list_string(&parts)
}

/// The texts as `Debug` shows them, one by one.
pub open spec fn quoted_texts(texts: Seq<String>) -> Seq<Seq<char>> {
    Seq::new(texts.len(), |i: int| debug_text(texts[i]@))
}

/// The texts of a list as `Debug` shows them.
pub fn texts_string(texts: &Vec<String>) -> (r: String)
    ensures
        r@ == list_text(quoted_texts(texts@)),
{
    let mut parts: Vec<String> = Vec::new();
    let mut i: usize = 0;
    while i < texts.len()
        invariant
            i <= texts.len(),
            parts@.len() == i,
            forall|k: int| 0 <= k < i ==> (#[trigger] parts@[k])@ == debug_text(texts@[k]@),
        decreases texts.len() - i,
    {
        parts.push(quoted(texts[i].as_str()));
        i += 1;
    }
    assert(texts_view(parts@) =~= quoted_texts(texts@));
    list_string(&parts)
}

/// Whether two lists of entries are the same: as long, and entry by entry the same in
/// reference, text and selection.
pub open spec fn same_items(a: Seq<MenuItem>, b: Seq<MenuItem>) -> bool {
    &&& a.len() == b.len()
    &&& forall|i: int|
        0 <= i < a.len() ==> (#[trigger] a[i]).ref_id@ == b[i].ref_id@ && a[i].text@ == b[i].text@
            && a[i].selected == b[i].selected
}

/// Whether two lists of entries are the same.
pub fn items_match(a: &Vec<MenuItem>, b: &Vec<MenuItem>) -> (r: bool)
    ensures
        r == same_items(a@, b@),
{
    if a.len() != b.len() {
        return false;
    }
    let mut i: usize = 0;
    while i < a.len()
        invariant
            i <= a.len(),
            a.len() == b.len(),
            forall|k: int|
                0 <= k < i ==> (#[trigger] a@[k]).ref_id@ == b@[k].ref_id@ && a@[k].text@
                    == b@[k].text@ && a@[k].selected == b@[k].selected,
        decreases a.len() - i,
    {
        if !str_eq(a[i].ref_id.as_str(), b[i].ref_id.as_str()) || !str_eq(
            a[i].text.as_str(),
            b[i].text.as_str(),
        ) || a[i].selected != b[i].selected {
            assert(!(a@[i as int].ref_id@ == b@[i as int].ref_id@ && a@[i as int].text@
                == b@[i as int].text@ && a@[i as int].selected == b@[i as int].selected));
            return false;
        }
        i += 1;
    }
    true
}

/// Whether two lists of texts are the same.
pub fn texts_match(a: &Vec<String>, b: &Vec<String>) -> (r: bool)
    ensures
        r == (texts_view(a@) == texts_view(b@)),
{
    if a.len() != b.len() {
        assert(texts_view(a@).len() != texts_view(b@).len());
        return false;
    }
    let mut i: usize = 0;
    while i < a.len()
        invariant
            i <= a.len(),
            a.len() == b.len(),
            forall|k: int| 0 <= k < i ==> (#[trigger] a@[k])@ == b@[k]@,
        decreases a.len() - i,
    {
        if !str_eq(a[i].as_str(), b[i].as_str()) {
            assert(texts_view(a@)[i as int] != texts_view(b@)[i as int]);
            return false;
        }
        i += 1;
    }
    assert(texts_view(a@) =~= texts_view(b@));
    true
}

/// The change of one part of the content, where it differs.
pub open spec fn if_changed(
    differs: bool,
    field: Seq<char>,
    expected: Seq<char>,
    actual: Seq<char>,
) -> Seq<ChangeView> {
    if differs {
        seq![ChangeView::ContentChanged { field, expected, actual }]
    } else {
        Seq::empty()
    }
}

/// The change of type, where the types differ.
pub open spec fn if_retyped(expected: Element, actual: Element) -> Seq<ChangeView> {
    if expected.kind() != actual.kind() {
        seq![ChangeView::TypeChanged { expected: expected.kind(), actual: actual.kind() }]
    } else {
        Seq::empty()
    }
}

/// The changes of content from `expected` to `actual`. For two elements of one type
/// these are: of a button its label; of a checkbox its label and whether it is ticked;
/// of an input its value and the place of its cursor; of a menu its entries and which is
/// selected; of a progress bar its percentage; of a table its headers and the number of
/// its rows. For elements of two types it is the change of type.
pub open spec fn content_changes(expected: Element, actual: Element) -> Seq<ChangeView> {
    match (expected, actual) {
        (Element::Button { label: a, .. }, Element::Button { label: b, .. }) => if_changed(
            a@ != b@,
            "label"@,
            a@,
            b@,
        ),
        (
            Element::Checkbox { label: a, checked: ca, .. },
            Element::Checkbox { label: b, checked: cb, .. },
        ) => if_changed(a@ != b@, "label"@, a@, b@) + if_changed(
            ca != cb,
            "checked"@,
            bool_text(ca),
            bool_text(cb),
        ),
        (
            Element::Input { value: a, cursor_pos: pa, .. },
            Element::Input { value: b, cursor_pos: pb, .. },
        ) => if_changed(a@ != b@, "value"@, a@, b@) + if_changed(
            pa != pb,
            "cursor_pos"@,
            decimal(pa as nat),
            decimal(pb as nat),
        ),
        (
            Element::Menu { items: a, selected: sa, .. },
            Element::Menu { items: b, selected: sb, .. },
        ) => if_changed(
            !same_items(a@, b@),
            "items"@,
            list_text(item_texts(a@)),
            list_text(item_texts(b@)),
        ) + if_changed(sa != sb, "selected"@, decimal(sa as nat), decimal(sb as nat)),
        (Element::ProgressBar { percent: a, .. }, Element::ProgressBar { percent: b, .. }) => if_changed(
            a != b,
            "percent"@,
            decimal(a as nat),
            decimal(b as nat),
        ),
        (
            Element::Table { headers: a, rows: ra, .. },
            Element::Table { headers: b, rows: rb, .. },
        ) => if_changed(
            texts_view(a@) != texts_view(b@),
            "headers"@,
            list_text(quoted_texts(a@)),
            list_text(quoted_texts(b@)),
        ) + if_changed(
            ra@.len() != rb@.len(),
            "row_count"@,
            decimal(ra@.len()),
            decimal(rb@.len()),
        ),
        _ => if_retyped(expected, actual),
    }
}

/// Notes the change of one part of the content, where it differs.
fn note_if_changed(
    changes: &mut Vec<ElementChange>,
    differs: bool,
    field: &str,
    expected: String,
    actual: String,
)
    ensures
        changes_view(final(changes)@) == changes_view(old(changes)@) + if_changed(
            differs,
            field@,
            expected@,
            actual@,
        ),
{
    if differs {
        changes.push(
            ElementChange::ContentChanged { field: String::from_str(field), expected, actual },
        );
    }
    assert(changes_view(changes@) =~= changes_view(old(changes)@) + if_changed(
        differs,
        field@,
        expected@,
        actual@,
    ));
}

/// Notes the change of type, where the types differ.
fn note_if_retyped(changes: &mut Vec<ElementChange>, expected: &Element, actual: &Element)
    ensures
        changes_view(final(changes)@) == changes_view(old(changes)@) + if_retyped(
            *expected,
            *actual,
        ),
{
    if !str_eq(expected.kind_name(), actual.kind_name()) {
        changes.push(
            ElementChange::TypeChanged {
                expected: String::from_str(expected.kind_name()),
                actual: String::from_str(actual.kind_name()),
            },
        );
    }
    assert(changes_view(changes@) =~= changes_view(old(changes)@) + if_retyped(
        *expected,
        *actual,
    ));
}

/// Notes the changes of content from `expected` to `actual`.
fn note_content(changes: &mut Vec<ElementChange>, expected: &Element, actual: &Element)
    ensures
        changes_view(final(changes)@) == changes_view(old(changes)@) + content_changes(
            *expected,
            *actual,
        ),
{
    let ghost start = changes_view(changes@);
    match expected {
        Element::Button { label: a, .. } => match actual {
            Element::Button { label: b, .. } => {
                let differs = !str_eq(a.as_str(), b.as_str());
                note_if_changed(changes, differs, "label", a.clone(), b.clone());
            },
            _ => {
                note_if_retyped(changes, expected, actual);
            },
        },
        Element::Checkbox { label: a, checked: ca, .. } => match actual {
            Element::Checkbox { label: b, checked: cb, .. } => {
                let differs = !str_eq(a.as_str(), b.as_str());
                note_if_changed(changes, differs, "label", a.clone(), b.clone());
                note_if_changed(
                    changes,
                    *ca != *cb,
                    "checked",
                    bool_string(*ca),
                    bool_string(*cb),
                );
                assert(changes_view(changes@) =~= start + content_changes(*expected, *actual));
            },
            _ => {
                note_if_retyped(changes, expected, actual);
            },
        },
        Element::Input { value: a, cursor_pos: pa, .. } => match actual {
            Element::Input { value: b, cursor_pos: pb, .. } => {
                let differs = !str_eq(a.as_str(), b.as_str());
                note_if_changed(changes, differs, "value", a.clone(), b.clone());
                note_if_changed(
                    changes,
                    *pa != *pb,
                    "cursor_pos",
                    number_string(*pa),
                    number_string(*pb),
                );
                assert(changes_view(changes@) =~= start + content_changes(*expected, *actual));
            },
            _ => {
                note_if_retyped(changes, expected, actual);
            },
        },
        Element::Menu { items: a, selected: sa, .. } => match actual {
            Element::Menu { items: b, selected: sb, .. } => {
                let differs = !items_match(a, b);
                note_if_changed(changes, differs, "items", items_string(a), items_string(b));
                note_if_changed(
                    changes,
                    *sa != *sb,
                    "selected",
                    number_string(*sa),
                    number_string(*sb),
                );
                assert(changes_view(changes@) =~= start + content_changes(*expected, *actual));
            },
            _ => {
                note_if_retyped(changes, expected, actual);
            },
        },
        Element::ProgressBar { percent: a, .. } => match actual {
            Element::ProgressBar { percent: b, .. } => {
                let x: u8 = *a;
                let y: u8 = *b;
                note_if_changed(
                    changes,
                    x != y,
                    "percent",
                    number_string(x as usize),
                    number_string(y as usize),
                );
            },
            _ => {
                note_if_retyped(changes, expected, actual);
            },
        },
        Element::Table { headers: a, rows: ra, .. } => match actual {
            Element::Table { headers: b, rows: rb, .. } => {
                let differs = !texts_match(a, b);
                note_if_changed(changes, differs, "headers", texts_string(a), texts_string(b));
                note_if_changed(
                    changes,
                    ra.len() != rb.len(),
                    "row_count",
                    number_string(ra.len()),
                    number_string(rb.len()),
                );
                assert(changes_view(changes@) =~= start + content_changes(*expected, *actual));
            },
            _ => {
                note_if_retyped(changes, expected, actual);
            },
        },
        _ => {
            note_if_retyped(changes, expected, actual);
        },
    }
}

/// The distance between two coordinates.
pub open spec fn gap(a: u16, b: u16) -> int {
    if a >= b {
        a - b
    } else {
        b - a
    }
}

/// The distance between two coordinates.
fn gap_of(a: u16, b: u16) -> (d: u16)
    ensures
        d == gap(a, b),
{
    if a >= b {
        a - b
    } else {
        b - a
    }
}

/// What is noted of an element: its reference, the name of its type, where it stands,
/// and the changes.
pub open spec fn diff_of(e: DetectedElement, changes: Seq<ChangeView>) -> DiffView {
    DiffView {
        ref_id: Some(e.element.id()),
        element_type: e.element.kind(),
        bounds: Some(e.bounds),
        changes,
    }
}

/// Notes of an element its reference, the name of its type, where it stands, and the
/// changes.
fn make_diff(e: &DetectedElement, changes: Vec<ElementChange>) -> (d: ElementDiff)
    ensures
        d@ == diff_of(*e, changes_view(changes@)),
{
    ElementDiff {
        ref_id: Some(String::from_str(e.element.ref_id())),
        element_type: String::from_str(e.element.kind_name()),
        bounds: Some(e.bounds),
        changes,
    }
}

/// How two detection results are compared.
#[derive(Debug, Clone, Copy, PartialEq, Eq, Structural)]
pub struct SnapshotMatcher {
    /// How many cells the corner of an element may have moved and the element still count
    /// as the same.
    pub bounds_tolerance: u16,
    /// Whether a change of confidence counts.
    pub compare_confidence: bool,
    /// Whether references are compared.
    pub compare_ref_ids: bool,
}

impl Default for SnapshotMatcher {
    /// No tolerance; confidence and references are not compared.
    fn default() -> (m: Self)
        ensures
            m.bounds_tolerance == 0,
            !m.compare_confidence,
            !m.compare_ref_ids,
    {
        SnapshotMatcher { bounds_tolerance: 0, compare_confidence: false, compare_ref_ids: false }
    }
}

impl SnapshotMatcher {
    /// No tolerance; confidence and references are not compared.
    pub fn new() -> (m: Self)
        ensures
            m.bounds_tolerance == 0,
            !m.compare_confidence,
            !m.compare_ref_ids,
    {
        SnapshotMatcher { bounds_tolerance: 0, compare_confidence: false, compare_ref_ids: false }
    }

    /// The same matcher with the tolerance `tolerance`.
    pub fn with_bounds_tolerance(self, tolerance: u16) -> (m: Self)
        ensures
            m == (SnapshotMatcher { bounds_tolerance: tolerance, ..self }),
    {
        SnapshotMatcher { bounds_tolerance: tolerance, ..self }
    }

    /// The same matcher, comparing confidence or not.
    pub fn with_confidence_comparison(self, enabled: bool) -> (m: Self)
        ensures
            m == (SnapshotMatcher { compare_confidence: enabled, ..self }),
    {
        SnapshotMatcher { compare_confidence: enabled, ..self }
    }

    /// Whether two regions have their corners within the tolerance of each other.
    pub open spec fn near(&self, a: Bounds, b: Bounds) -> bool {
        gap(a.row, b.row) <= self.bounds_tolerance && gap(a.col, b.col) <= self.bounds_tolerance
    }

    /// Whether two elements count as one and the same: they are of one type, and their
    /// corners lie within the tolerance of each other.
    pub open spec fn same_element(&self, a: DetectedElement, b: DetectedElement) -> bool {
        a.element.kind() == b.element.kind() && self.near(a.bounds, b.bounds)
    }

    /// The changes from `expected` to `actual`: that of the region, where the regions
    /// differ and there is no tolerance; those of the content; and that of the
    /// confidence, where it is compared and differs.
    pub open spec fn changes(&self, expected: DetectedElement, actual: DetectedElement) -> Seq<
        ChangeView,
    > {
        (if expected.bounds != actual.bounds && self.bounds_tolerance == 0 {
            seq![ChangeView::BoundsChanged { expected: expected.bounds, actual: actual.bounds }]
        } else {
            Seq::empty()
        }) + content_changes(expected.element, actual.element) + (if self.compare_confidence
            && expected.confidence != actual.confidence {
            seq![
                ChangeView::ConfidenceChanged {
                    expected: confidence_text(expected.confidence),
                    actual: confidence_text(actual.confidence),
                },
            ]
        } else {
            Seq::empty()
        })
    }

    /// Whether `actual` can stand for `expected`: it is not taken yet, it is of the same
    /// type, and either nothing changed or the two count as one and the same.
    pub open spec fn fits(
        &self,
        expected: DetectedElement,
        actual: DetectedElement,
        taken: bool,
    ) -> bool {
        !taken && expected.element.kind() == actual.element.kind() && (self.changes(
            expected,
            actual,
        ).len() == 0 || self.same_element(expected, actual))
    }

    /// The first element at or after `from` that can stand for `expected`.
    pub open spec fn pick(
        &self,
        expected: DetectedElement,
        actual: Seq<DetectedElement>,
        taken: Seq<bool>,
        from: int,
    ) -> Option<int>
        decreases actual.len() - from,
    {
        if from < 0 || from >= actual.len() {
            None
        } else if self.fits(expected, actual[from], taken[from]) {
            Some(from)
        } else {
            self.pick(expected, actual, taken, from + 1)
        }
    }

    /// Which of the elements found are taken once the first `n` expected ones have been
    /// looked for, in order.
    pub open spec fn taken_after(
        &self,
        expected: Seq<DetectedElement>,
        actual: Seq<DetectedElement>,
        n: int,
    ) -> Seq<bool>
        decreases n,
    {
        if n <= 0 || n > expected.len() {
            Seq::new(actual.len(), |j: int| false)
        } else {
            let before = self.taken_after(expected, actual, n - 1);
            match self.pick(expected[n - 1], actual, before, 0) {
                Some(j) => before.update(j, true),
                None => before,
            }
        }
    }

    /// The element found that stands for expected element `i`, if any.
    pub open spec fn choice(
        &self,
        expected: Seq<DetectedElement>,
        actual: Seq<DetectedElement>,
        i: int,
    ) -> Option<int> {
        self.pick(expected[i], actual, self.taken_after(expected, actual, i), 0)
    }

    /// What is noted as removed among the first `n` expected elements: those for which
    /// no element found stands.
    pub open spec fn removed_upto(
        &self,
        expected: Seq<DetectedElement>,
        actual: Seq<DetectedElement>,
        n: int,
    ) -> Seq<DiffView>
        decreases n,
    {
        if n <= 0 || n > expected.len() {
            Seq::empty()
        } else if self.choice(expected, actual, n - 1) is None {
            self.removed_upto(expected, actual, n - 1).push(
                diff_of(expected[n - 1], seq![ChangeView::Removed]),
            )
        } else {
            self.removed_upto(expected, actual, n - 1)
        }
    }

    /// What is noted as modified among the first `n` expected elements: those for which
    /// an element found stands that shows changes, with the changes.
    pub open spec fn modified_upto(
        &self,
        expected: Seq<DetectedElement>,
        actual: Seq<DetectedElement>,
        n: int,
    ) -> Seq<DiffView>
        decreases n,
    {
        if n <= 0 || n > expected.len() {
            Seq::empty()
        } else {
            match self.choice(expected, actual, n - 1) {
                Some(j) => if self.changes(expected[n - 1], actual[j]).len() > 0 {
                    self.modified_upto(expected, actual, n - 1).push(
                        diff_of(expected[n - 1], self.changes(expected[n - 1], actual[j])),
                    )
                } else {
                    self.modified_upto(expected, actual, n - 1)
                },
                None => self.modified_upto(expected, actual, n - 1),
            }
        }
    }

    /// How many of the first `n` expected elements were found unchanged.
    pub open spec fn unchanged_upto(
        &self,
        expected: Seq<DetectedElement>,
        actual: Seq<DetectedElement>,
        n: int,
    ) -> nat
        decreases n,
    {
        if n <= 0 || n > expected.len() {
            0
        } else {
            match self.choice(expected, actual, n - 1) {
                Some(j) => if self.changes(expected[n - 1], actual[j]).len() == 0 {
                    self.unchanged_upto(expected, actual, n - 1) + 1
                } else {
                    self.unchanged_upto(expected, actual, n - 1)
                },
                None => self.unchanged_upto(expected, actual, n - 1),
            }
        }
    }

    /// Whether two regions have their corners within the tolerance of each other.
    pub fn bounds_match(&self, a: &Bounds, b: &Bounds) -> (r: bool)
        ensures
            r == self.near(*a, *b),
    {
        gap_of(a.row, b.row) <= self.bounds_tolerance && gap_of(a.col, b.col)
            <= self.bounds_tolerance
    }

    /// Whether two elements count as one and the same.
    pub fn is_same_element(&self, a: &DetectedElement, b: &DetectedElement) -> (r: bool)
        ensures
            r == self.same_element(*a, *b),
    {
        if !str_eq(a.element.kind_name(), b.element.kind_name()) {
            return false;
        }
        self.bounds_match(&a.bounds, &b.bounds)
    }

    /// The changes from `expected` to `actual`.
    pub fn compare_elements(&self, expected: &DetectedElement, actual: &DetectedElement) -> (r:
        Vec<ElementChange>)
        ensures
            changes_view(r@) == self.changes(*expected, *actual),
    {
        let mut changes: Vec<ElementChange> = Vec::new();
        if expected.bounds != actual.bounds && self.bounds_tolerance == 0 {
            changes.push(
                ElementChange::BoundsChanged { expected: expected.bounds, actual: actual.bounds },
            );
        }
        let ghost first = changes_view(changes@);
        assert(first =~= (if expected.bounds != actual.bounds && self.bounds_tolerance == 0 {
            seq![ChangeView::BoundsChanged { expected: expected.bounds, actual: actual.bounds }]
        } else {
            Seq::empty()
        }));
        note_content(&mut changes, &expected.element, &actual.element);
        let ghost second = changes_view(changes@);
        if self.compare_confidence && expected.confidence != actual.confidence {
            changes.push(
                ElementChange::ConfidenceChanged {
                    expected: confidence_string(expected.confidence),
                    actual: confidence_string(actual.confidence),
                },
            );
        }
        assert(changes_view(changes@) =~= second + (if self.compare_confidence
            && expected.confidence != actual.confidence {
            seq![
                ChangeView::ConfidenceChanged {
                    expected: confidence_text(expected.confidence),
                    actual: confidence_text(actual.confidence),
                },
            ]
        } else {
            Seq::empty()
        }));
        changes
    }

    /// The first element found that can stand for `expected`, with the changes that it
    /// shows.
    fn find_match(
        &self,
        expected: &DetectedElement,
        actual: &Vec<DetectedElement>,
        taken: &Vec<bool>,
    ) -> (r: Option<(usize, Vec<ElementChange>)>)
        requires
            taken@.len() == actual@.len(),
        ensures
            match r {
                Some((j, changes)) => self.pick(*expected, actual@, taken@, 0) == Some(j as int)
                    && j < actual@.len() && changes_view(changes@) == self.changes(
                    *expected,
                    actual@[j as int],
                ),
                None => self.pick(*expected, actual@, taken@, 0) is None,
            },
    {
        let mut j: usize = 0;
        while j < actual.len()
            invariant
                j <= actual.len(),
                taken@.len() == actual@.len(),
                self.pick(*expected, actual@, taken@, j as int) == self.pick(
                    *expected,
                    actual@,
                    taken@,
                    0,
                ),
            decreases actual.len() - j,
        {
            if !taken[j] && str_eq(expected.element.kind_name(), actual[j].element.kind_name()) {
                let changes = self.compare_elements(expected, &actual[j]);
                if changes.len() == 0 || self.is_same_element(expected, &actual[j]) {
                    return Some((j, changes));
                }
            }
            j += 1;
        }
        None
    }

    /// Compares what was found with what was expected.
    ///
    /// The expected elements are looked for in order. For each, the first element found
    /// stands that is not taken yet, is of the same type and either shows no change or
    /// counts as the same element; it is then taken. An expected element for which none
    /// stands is noted as removed; one whose stand-in shows changes, as modified, with
    /// the changes; the others count as unchanged. The elements found that are not taken
    /// in the end are noted as added, in their order.
    pub fn compare(&self, expected: &Vec<DetectedElement>, actual: &Vec<DetectedElement>) -> (d:
        SnapshotDiff)
        ensures
            diffs_view(d.removed@) == self.removed_upto(
                expected@,
                actual@,
                expected@.len() as int,
            ),
            diffs_view(d.modified@) == self.modified_upto(
                expected@,
                actual@,
                expected@.len() as int,
            ),
            diffs_view(d.added@) == added_upto(
                actual@,
                self.taken_after(expected@, actual@, expected@.len() as int),
                actual@.len() as int,
            ),
            d.stats == (DiffStats {
                expected_count: expected@.len() as usize,
                actual_count: actual@.len() as usize,
                added_count: d.added@.len() as usize,
                removed_count: d.removed@.len() as usize,
                modified_count: d.modified@.len() as usize,
                unchanged_count: self.unchanged_upto(
                    expected@,
                    actual@,
                    expected@.len() as int,
                ) as usize,
            }),
            self.unchanged_upto(expected@, actual@, expected@.len() as int) <= expected@.len(),
    {
        let mut taken: Vec<bool> = Vec::new();
        while taken.len() < actual.len()
            invariant
                taken@.len() <= actual@.len(),
                forall|j: int| 0 <= j < taken@.len() ==> !taken@[j],
            decreases actual.len() - taken.len(),
        {
            taken.push(false);
        }
        assert(taken@ =~= self.taken_after(expected@, actual@, 0));
        let mut removed: Vec<ElementDiff> = Vec::new();
        let mut modified: Vec<ElementDiff> = Vec::new();
        let mut unchanged: usize = 0;
        let mut i: usize = 0;
        assert(diffs_view(removed@) =~= self.removed_upto(expected@, actual@, 0));
        assert(diffs_view(modified@) =~= self.modified_upto(expected@, actual@, 0));
        while i < expected.len()
            invariant
                i <= expected.len(),
                taken@.len() == actual@.len(),
                taken@ == self.taken_after(expected@, actual@, i as int),
                diffs_view(removed@) == self.removed_upto(expected@, actual@, i as int),
                diffs_view(modified@) == self.modified_upto(expected@, actual@, i as int),
                unchanged == self.unchanged_upto(expected@, actual@, i as int),
                unchanged <= i,
            decreases expected.len() - i,
        {
            let ghost held_removed = diffs_view(removed@);
            let ghost held_modified = diffs_view(modified@);
            match self.find_match(&expected[i], actual, &taken) {
                Some((j, changes)) => {
                    taken.set(j, true);
                    if changes.len() == 0 {
                        unchanged += 1;
                    } else {
                        let diff = make_diff(&expected[i], changes);
                        modified.push(diff);
                        assert(diffs_view(modified@) =~= held_modified.push(diff@));
                    }
                },
                None => {
                    let mut changes: Vec<ElementChange> = Vec::new();
                    changes.push(ElementChange::Removed);
                    assert(changes_view(changes@) =~= seq![ChangeView::Removed]);
                    let diff = make_diff(&expected[i], changes);
                    removed.push(diff);
                    assert(diffs_view(removed@) =~= held_removed.push(diff@));
                },
            }
            i += 1;
        }
        let mut added: Vec<ElementDiff> = Vec::new();
        let mut k: usize = 0;
        assert(diffs_view(added@) =~= added_upto(actual@, taken@, 0));
        while k < actual.len()
            invariant
                k <= actual.len(),
                taken@.len() == actual@.len(),
                diffs_view(added@) == added_upto(actual@, taken@, k as int),
            decreases actual.len() - k,
        {
            let ghost held = diffs_view(added@);
            if !taken[k] {
                let mut changes: Vec<ElementChange> = Vec::new();
                changes.push(ElementChange::Added);
                assert(changes_view(changes@) =~= seq![ChangeView::Added]);
                let diff = make_diff(&actual[k], changes);
                added.push(diff);
                assert(diffs_view(added@) =~= held.push(diff@));
            }
            k += 1;
        }
        let stats = DiffStats {
            expected_count: expected.len(),
            actual_count: actual.len(),
            added_count: added.len(),
            removed_count: removed.len(),
            modified_count: modified.len(),
            unchanged_count: unchanged,
        };
        SnapshotDiff { added, removed, modified, stats }
    }
}

/// What is noted as added among the first `n` elements found: those that are not taken.
pub open spec fn added_upto(actual: Seq<DetectedElement>, taken: Seq<bool>, n: int) -> Seq<
    DiffView,
>
    decreases n,
{
    if n <= 0 || n > actual.len() {
        Seq::empty()
    } else if !taken[n - 1] {
        added_upto(actual, taken, n - 1).push(diff_of(actual[n - 1], seq![ChangeView::Added]))
    } else {
        added_upto(actual, taken, n - 1)
    }
}

/// A count with its word, where the count is not zero.
pub open spec fn count_part(n: nat, word: Seq<char>) -> Seq<Seq<char>> {
    if n > 0 {
        seq![decimal(n) + " "@ + word]
    } else {
        Seq::empty()
    }
}

/// The counts of a summary: those of the added, removed and modified elements that are
/// not zero, each with its word.
pub open spec fn summary_parts(added: nat, removed: nat, modified: nat) -> Seq<Seq<char>> {
    count_part(added, "added"@) + count_part(removed, "removed"@) + count_part(
        modified,
        "modified"@,
    )
}

/// The summary of a comparison in one line.
pub open spec fn summary_text(added: nat, removed: nat, modified: nat) -> Seq<char> {
    if added == 0 && removed == 0 && modified == 0 {
        "Snapshots match"@
    } else {
        "Differences: "@ + listed(
            summary_parts(added, removed, modified),
            summary_parts(added, removed, modified).len() as int,
        )
    }
}

/// Notes a count with its word, where the count is not zero.
fn note_count(parts: &mut Vec<String>, n: usize, word: &str)
    ensures
        texts_view(final(parts)@) == texts_view(old(parts)@) + count_part(n as nat, word@),
{
    if n > 0 {
        parts.push(number_string(n).concat(" ").concat(word));
    }
    assert(texts_view(parts@) =~= texts_view(old(parts)@) + count_part(n as nat, word@));
}

/// A region as `Debug` shows it.
pub open spec fn bounds_debug(b: Bounds) -> Seq<char> {
    "Bounds { row: "@ + decimal(b.row as nat) + ", col: "@ + decimal(b.col as nat) + ", width: "@
        + decimal(b.width as nat) + ", height: "@ + decimal(b.height as nat) + " }"@
}

/// A region as `Debug` shows it.
pub fn bounds_debug_string(b: &Bounds) -> (r: String)
    ensures
        r@ == bounds_debug(*b),
{
    String::from_str("Bounds { row: ").concat(number_string(b.row as usize).as_str()).concat(
        ", col: ",
    ).concat(number_string(b.col as usize).as_str()).concat(", width: ").concat(
        number_string(b.width as usize).as_str(),
    ).concat(", height: ").concat(number_string(b.height as usize).as_str()).concat(" }")
}

/// A change as `Debug` shows it.
pub open spec fn change_text(c: ChangeView) -> Seq<char> {
    match c {
        ChangeView::Added => "Added"@,
        ChangeView::Removed => "Removed"@,
        ChangeView::TypeChanged { expected, actual } => "TypeChanged { expected: "@ + debug_text(
            expected,
        ) + ", actual: "@ + debug_text(actual) + " }"@,
        ChangeView::BoundsChanged { expected, actual } => "BoundsChanged { expected: "@
            + bounds_debug(expected) + ", actual: "@ + bounds_debug(actual) + " }"@,
        ChangeView::ContentChanged { field, expected, actual } => "ContentChanged { field: "@
            + debug_text(field) + ", expected: "@ + debug_text(expected) + ", actual: "@
            + debug_text(actual) + " }"@,
        ChangeView::ConfidenceChanged { expected, actual } => "ConfidenceChanged { expected: "@
            + debug_text(expected) + ", actual: "@ + debug_text(actual) + " }"@,
    }
}

/// A change as `Debug` shows it.
pub fn change_string(c: &ElementChange) -> (r: String)
    ensures
        r@ == change_text(c@),
{
    match c {
        ElementChange::Added => String::from_str("Added"),
        ElementChange::Removed => String::from_str("Removed"),
        ElementChange::TypeChanged { expected, actual } => String::from_str(
            "TypeChanged { expected: ",
        ).concat(quoted(expected.as_str()).as_str()).concat(", actual: ").concat(
            quoted(actual.as_str()).as_str(),
        ).concat(" }"),
        ElementChange::BoundsChanged { expected, actual } => String::from_str(
            "BoundsChanged { expected: ",
        ).concat(bounds_debug_string(expected).as_str()).concat(", actual: ").concat(
            bounds_debug_string(actual).as_str(),
        ).concat(" }"),
        ElementChange::ContentChanged { field, expected, actual } => String::from_str(
            "ContentChanged { field: ",
        ).concat(quoted(field.as_str()).as_str()).concat(", expected: ").concat(
            quoted(expected.as_str()).as_str(),
        ).concat(", actual: ").concat(quoted(actual.as_str()).as_str()).concat(" }"),
        ElementChange::ConfidenceChanged { expected, actual } => String::from_str(
            "ConfidenceChanged { expected: ",
        ).concat(quoted(expected.as_str()).as_str()).concat(", actual: ").concat(
            quoted(actual.as_str()).as_str(),
        ).concat(" }"),
    }
}

/// A region as a table cell shows it: corner and extent, or `N/A` where there is none.
pub open spec fn bounds_cell(b: Option<Bounds>) -> Seq<char> {
    match b {
        Some(b) => "("@ + decimal(b.row as nat) + ","@ + decimal(b.col as nat) + ") "@ + decimal(
            b.width as nat,
        ) + "x"@ + decimal(b.height as nat),
        None => "N/A"@,
    }
}

/// A reference, or `other` where there is none.
pub open spec fn ref_or(id: Option<Seq<char>>, other: Seq<char>) -> Seq<char> {
    match id {
        Some(id) => id,
        None => other,
    }
}

/// The table row of one element.
pub open spec fn row_text(d: DiffView) -> Seq<char> {
    "<tr><td>"@ + d.element_type + "</td><td>"@ + ref_or(d.ref_id, "N/A"@) + "</td><td>"@
        + bounds_cell(d.bounds) + "</td></tr>\n"@
}

/// The table rows of the first `n` elements.
pub open spec fn rows_text(diffs: Seq<DiffView>, n: int) -> Seq<char>
    decreases n,
{
    if n <= 0 || n > diffs.len() {
        Seq::empty()
    } else {
        rows_text(diffs, n - 1) + row_text(diffs[n - 1])
    }
}

/// The table of the elements: type, reference and region of each.
pub open spec fn table_text(diffs: Seq<DiffView>) -> Seq<char> {
    "<table>\n<tr><th>Type</th><th>Ref ID</th><th>Bounds</th></tr>\n"@ + rows_text(
        diffs,
        diffs.len() as int,
    ) + "</table>\n"@
}

/// The list items of the first `n` changes.
pub open spec fn change_items(changes: Seq<ChangeView>, n: int) -> Seq<char>
    decreases n,
{
    if n <= 0 || n > changes.len() {
        Seq::empty()
    } else {
        change_items(changes, n - 1) + ("<li>"@ + change_text(changes[n - 1]) + "</li>\n"@)
    }
}

/// The report of one modified element: a heading and the list of its changes.
pub open spec fn modified_text(d: DiffView) -> Seq<char> {
    "<h3>"@ + d.element_type + " ("@ + ref_or(d.ref_id, "unknown"@) + ")</h3>\n<ul>\n"@
        + change_items(d.changes, d.changes.len() as int) + "</ul>\n"@
}

/// The reports of the first `n` modified elements.
pub open spec fn modified_texts(diffs: Seq<DiffView>, n: int) -> Seq<char>
    decreases n,
{
    if n <= 0 || n > diffs.len() {
        Seq::empty()
    } else {
        modified_texts(diffs, n - 1) + modified_text(diffs[n - 1])
    }
}

/// One row of the statistics.
pub open spec fn stat_row(label: Seq<char>, n: nat) -> Seq<char> {
    "<tr><td>"@ + label + "</td><td>"@ + decimal(n) + "</td></tr>\n"@
}

/// The statistics of a report.
pub open spec fn stats_text(stats: DiffStats) -> Seq<char> {
    "<div class=\"section\">\n<h2>Statistics</h2>\n<table>\n"@ + stat_row(
        "Expected elements"@,
        stats.expected_count as nat,
    ) + stat_row("Actual elements"@, stats.actual_count as nat) + stat_row(
        "Added"@,
        stats.added_count as nat,
    ) + stat_row("Removed"@, stats.removed_count as nat) + stat_row(
        "Modified"@,
        stats.modified_count as nat,
    ) + stat_row("Unchanged"@, stats.unchanged_count as nat) + "</table>\n</div>\n"@
}

/// A section of a report that holds a table of elements; nothing where there are none.
pub open spec fn table_section(opening: Seq<char>, diffs: Seq<DiffView>) -> Seq<char> {
    if diffs.len() > 0 {
        opening + table_text(diffs) + "</div>\n"@
    } else {
        Seq::empty()
    }
}

/// The section of the modified elements; nothing where there are none.
pub open spec fn modified_section(diffs: Seq<DiffView>) -> Seq<char> {
    if diffs.len() > 0 {
        "<div class=\"section modified\">\n<h2>Modified Elements</h2>\n"@ + modified_texts(
            diffs,
            diffs.len() as int,
        ) + "</div>\n"@
    } else {
        Seq::empty()
    }
}

/// The report of a comparison as a page of HTML: the summary, the statistics, and a
/// section each for the added, the removed and the modified elements that there are.
pub open spec fn html_text(
    added: Seq<DiffView>,
    removed: Seq<DiffView>,
    modified: Seq<DiffView>,
    stats: DiffStats,
) -> Seq<char> {
    "<!DOCTYPE html>\n<html>\n<head>\n<title>Snapshot Diff Report</title>\n<style>\nbody { font-family: monospace; margin: 20px; }\n.added { background-color: #d4edda; }\n.removed { background-color: #f8d7da; }\n.modified { background-color: #fff3cd; }\n.section { margin: 20px 0; padding: 10px; border: 1px solid #ddd; }\nh2 { margin-top: 0; }\ntable { border-collapse: collapse; width: 100%; }\nth, td { border: 1px solid #ddd; padding: 8px; text-align: left; }\nth { background-color: #f5f5f5; }\n</style>\n</head>\n<body>\n<h1>Snapshot Diff Report</h1>\n<p><strong>Status:</strong> "@
        + summary_text(added.len(), removed.len(), modified.len()) + "</p>\n"@ + stats_text(stats)
        + table_section("<div class=\"section added\">\n<h2>Added Elements</h2>\n"@, added)
        + table_section("<div class=\"section removed\">\n<h2>Removed Elements</h2>\n"@, removed)
        + modified_section(modified) + "</body>\n</html>\n"@
}

/// One row of the statistics.
fn stat_row_string(label: &str, n: usize) -> (r: String)
    ensures
        r@ == stat_row(label@, n as nat),
{
    String::from_str("<tr><td>").concat(label).concat("</td><td>").concat(
        number_string(n).as_str(),
    ).concat("</td></tr>\n")
}

/// A region as a table cell shows it.
fn bounds_cell_string(b: &Option<Bounds>) -> (r: String)
    ensures
        r@ == bounds_cell(*b),
{
    match b {
        Some(b) => String::from_str("(").concat(number_string(b.row as usize).as_str()).concat(
            ",",
        ).concat(number_string(b.col as usize).as_str()).concat(") ").concat(
            number_string(b.width as usize).as_str(),
        ).concat("x").concat(number_string(b.height as usize).as_str()),
        None => String::from_str("N/A"),
    }
}

/// The reference of a difference, or `other` where there is none.
fn ref_or_string(d: &ElementDiff, other: &str) -> (r: String)
    ensures
        r@ == ref_or(d@.ref_id, other@),
{
    match &d.ref_id {
        Some(id) => String::from_str(id.as_str()),
        None => String::from_str(other),
    }
}

/// The report of one modified element.
fn modified_string(d: &ElementDiff) -> (r: String)
    ensures
        r@ == modified_text(d@),
{
    let mut items = String::from_str("");
    let mut i: usize = 0;
    proof {
        reveal_strlit("");
        assert(items@ =~= change_items(d@.changes, 0));
    }
    while i < d.changes.len()
        invariant
            i <= d.changes.len(),
            items@ == change_items(d@.changes, i as int),
        decreases d.changes.len() - i,
    {
        let item = String::from_str("<li>").concat(change_string(&d.changes[i]).as_str()).concat(
            "</li>\n",
        );
        items = items.concat(item.as_str());
        i += 1;
    }
    String::from_str("<h3>").concat(d.element_type.as_str()).concat(" (").concat(
        ref_or_string(d, "unknown").as_str(),
    ).concat(")</h3>\n<ul>\n").concat(items.as_str()).concat("</ul>\n")
}

/// A section of a report that holds a table of elements; nothing where there are none.
fn table_section_string(opening: &str, diffs: &Vec<ElementDiff>) -> (r: String)
    ensures
        r@ == table_section(opening@, diffs_view(diffs@)),
{
    if diffs.len() > 0 {
        String::from_str(opening).concat(SnapshotDiff::elements_table(diffs).as_str()).concat(
            "</div>\n",
        )
    } else {
        let r = String::from_str("");
        proof {
            reveal_strlit("");
            assert(r@ =~= Seq::<char>::empty());
        }
        r
    }
}

impl SnapshotDiff {
    /// Whether nothing differs.
    pub fn is_match(&self) -> (r: bool)
        ensures
            r == (self.added@.len() == 0 && self.removed@.len() == 0 && self.modified@.len()
                == 0),
    {
        self.added.len() == 0 && self.removed.len() == 0 && self.modified.len() == 0
    }

    /// The number of differences.
    pub fn diff_count(&self) -> (n: usize)
        requires
            self.added@.len() + self.removed@.len() + self.modified@.len() <= usize::MAX,
        ensures
            n == self.added@.len() + self.removed@.len() + self.modified@.len(),
    {
        self.added.len() + self.removed.len() + self.modified.len()
    }

    /// The summary in one line: `Snapshots match`, or `Differences:` and the counts of
    /// the added, removed and modified elements that are not zero.
    pub fn summary(&self) -> (r: String)
        ensures
            r@ == summary_text(self.added@.len(), self.removed@.len(), self.modified@.len()),
    {
        if self.is_match() {
            return String::from_str("Snapshots match");
        }
        let mut parts: Vec<String> = Vec::new();
        assert(texts_view(parts@) =~= Seq::<Seq<char>>::empty());
        note_count(&mut parts, self.added.len(), "added");
        note_count(&mut parts, self.removed.len(), "removed");
        note_count(&mut parts, self.modified.len(), "modified");
        assert(texts_view(parts@) =~= summary_parts(
            self.added@.len(),
            self.removed@.len(),
            self.modified@.len(),
        ));
        String::from_str("Differences: ").concat(join_list(&parts).as_str())
    }

    /// The table of the elements: type, reference and region of each.
    pub fn elements_table(elements: &Vec<ElementDiff>) -> (r: String)
        ensures
            r@ == table_text(diffs_view(elements@)),
    {
        let mut rows = String::from_str("");
        let mut i: usize = 0;
        proof {
            reveal_strlit("");
            assert(rows@ =~= rows_text(diffs_view(elements@), 0));
        }
        while i < elements.len()
            invariant
                i <= elements.len(),
                rows@ == rows_text(diffs_view(elements@), i as int),
            decreases elements.len() - i,
        {
            let d = &elements[i];
            let row = String::from_str("<tr><td>").concat(d.element_type.as_str()).concat(
                "</td><td>",
            ).concat(ref_or_string(d, "N/A").as_str()).concat("</td><td>").concat(
                bounds_cell_string(&d.bounds).as_str(),
            ).concat("</td></tr>\n");
            assert(row@ == row_text(diffs_view(elements@)[i as int]));
            rows = rows.concat(row.as_str());
            i += 1;
        }
        String::from_str("<table>\n<tr><th>Type</th><th>Ref ID</th><th>Bounds</th></tr>\n").concat(
            rows.as_str(),
        ).concat("</table>\n")
    }

    /// The report as a page of HTML.
    pub fn to_html(&self) -> (r: String)
        ensures
            r@ == html_text(
                diffs_view(self.added@),
                diffs_view(self.removed@),
                diffs_view(self.modified@),
                self.stats,
            ),
    {
        let stats = String::from_str(
            "<div class=\"section\">\n<h2>Statistics</h2>\n<table>\n",
        ).concat(stat_row_string("Expected elements", self.stats.expected_count).as_str()).concat(
            stat_row_string("Actual elements", self.stats.actual_count).as_str(),
        ).concat(stat_row_string("Added", self.stats.added_count).as_str()).concat(
            stat_row_string("Removed", self.stats.removed_count).as_str(),
        ).concat(stat_row_string("Modified", self.stats.modified_count).as_str()).concat(
            stat_row_string("Unchanged", self.stats.unchanged_count).as_str(),
        ).concat("</table>\n</div>\n");
        let mut items = String::from_str("");
        let mut i: usize = 0;
        proof {
            reveal_strlit("");
            assert(items@ =~= modified_texts(diffs_view(self.modified@), 0));
        }
        while i < self.modified.len()
            invariant
                i <= self.modified.len(),
                items@ == modified_texts(diffs_view(self.modified@), i as int),
            decreases self.modified.len() - i,
        {
            let item = modified_string(&self.modified[i]);
            assert(item@ == modified_text(diffs_view(self.modified@)[i as int]));
            items = items.concat(item.as_str());
            i += 1;
        }
        let modified = if self.modified.len() > 0 {
            String::from_str(
                "<div class=\"section modified\">\n<h2>Modified Elements</h2>\n",
            ).concat(items.as_str()).concat("</div>\n")
        } else {
            let r = String::from_str("");
            proof {
                reveal_strlit("");
                assert(r@ =~= Seq::<char>::empty());
            }
            r
        };
        String::from_str(
            "<!DOCTYPE html>\n<html>\n<head>\n<title>Snapshot Diff Report</title>\n<style>\nbody { font-family: monospace; margin: 20px; }\n.added { background-color: #d4edda; }\n.removed { background-color: #f8d7da; }\n.modified { background-color: #fff3cd; }\n.section { margin: 20px 0; padding: 10px; border: 1px solid #ddd; }\nh2 { margin-top: 0; }\ntable { border-collapse: collapse; width: 100%; }\nth, td { border: 1px solid #ddd; padding: 8px; text-align: left; }\nth { background-color: #f5f5f5; }\n</style>\n</head>\n<body>\n<h1>Snapshot Diff Report</h1>\n<p><strong>Status:</strong> ",
        ).concat(self.summary().as_str()).concat("</p>\n").concat(stats.as_str()).concat(
            table_section_string(
                "<div class=\"section added\">\n<h2>Added Elements</h2>\n",
                &self.added,
            ).as_str(),
        ).concat(
            table_section_string(
                "<div class=\"section removed\">\n<h2>Removed Elements</h2>\n",
                &self.removed,
            ).as_str(),
        ).concat(modified.as_str()).concat("</body>\n</html>\n")
    }
}

/// An element shows no change of content against itself.
pub proof fn lemma_no_content_change(e: Element)
    ensures
        content_changes(e, e).len() == 0,
{
    match e {
        Element::Menu { items, .. } => {
            assert(same_items(items@, items@));
        },
        _ => {},
    }
}

/// The first `n` of `len` marks set, the others not.
pub open spec fn first_taken(len: nat, n: int) -> Seq<bool> {
    Seq::new(len, |j: int| j < n)
}

impl SnapshotMatcher {
    /// An element shows no change against itself.
    pub proof fn lemma_no_change(&self, e: DetectedElement)
        ensures
            self.changes(e, e).len() == 0,
    {
        lemma_no_content_change(e.element);
    }

    /// Where the elements before `at` are taken and the one at `at` is not, an element
    /// looked for among its own kind finds itself at `at`.
    proof fn lemma_pick_self(&self, all: Seq<DetectedElement>, at: int, from: int)
        requires
            0 <= from <= at < all.len(),
        ensures
            self.pick(all[at], all, first_taken(all.len(), at), from) == Some(at),
        decreases at - from,
    {
        self.lemma_no_change(all[at]);
        if from < at {
            self.lemma_pick_self(all, at, from + 1);
        }
    }

    /// Compared with themselves, the first `n` elements take the first `n` elements.
    proof fn lemma_taken_same(&self, all: Seq<DetectedElement>, n: int)
        requires
            0 <= n <= all.len(),
        ensures
            self.taken_after(all, all, n) == first_taken(all.len(), n),
        decreases n,
    {
        if n > 0 {
            self.lemma_taken_same(all, n - 1);
            self.lemma_pick_self(all, n - 1, 0);
            assert(first_taken(all.len(), n - 1).update(n - 1, true) =~= first_taken(
                all.len(),
                n,
            ));
        } else {
            assert(self.taken_after(all, all, n) =~= first_taken(all.len(), n));
        }
    }

    /// Compared with themselves, the first `n` elements are all found unchanged.
    proof fn lemma_same_upto(&self, all: Seq<DetectedElement>, n: int)
        requires
            0 <= n <= all.len(),
        ensures
            self.removed_upto(all, all, n).len() == 0,
            self.modified_upto(all, all, n).len() == 0,
            self.unchanged_upto(all, all, n) == n,
        decreases n,
    {
        if n > 0 {
            self.lemma_same_upto(all, n - 1);
            self.lemma_taken_same(all, n - 1);
            self.lemma_pick_self(all, n - 1, 0);
            self.lemma_no_change(all[n - 1]);
        }
    }

    /// Every expected element is accounted for once: as removed, as modified or as
    /// unchanged.
    pub proof fn law_counts_add_up(
        &self,
        expected: Seq<DetectedElement>,
        actual: Seq<DetectedElement>,
        n: int,
    )
        requires
            0 <= n <= expected.len(),
        ensures
            self.removed_upto(expected, actual, n).len() + self.modified_upto(
                expected,
                actual,
                n,
            ).len() + self.unchanged_upto(expected, actual, n) == n,
        decreases n,
    {
        if n > 0 {
            self.law_counts_add_up(expected, actual, n - 1);
        }
    }

    /// A result compared with itself matches: nothing is noted as removed, modified or
    /// added, and every element counts as unchanged.
    pub proof fn law_same_snapshots(&self, all: Seq<DetectedElement>)
        ensures
            self.removed_upto(all, all, all.len() as int).len() == 0,
            self.modified_upto(all, all, all.len() as int).len() == 0,
            self.unchanged_upto(all, all, all.len() as int) == all.len(),
            added_upto(all, self.taken_after(all, all, all.len() as int), all.len() as int).len()
                == 0,
    {
        let n = all.len() as int;
        self.lemma_same_upto(all, n);
        self.lemma_taken_same(all, n);
        lemma_none_added(all, first_taken(all.len(), n), n);
    }
}

/// Where all elements are taken, none is noted as added.
proof fn lemma_none_added(actual: Seq<DetectedElement>, taken: Seq<bool>, n: int)
    requires
        0 <= n <= actual.len(),
        taken.len() == actual.len(),
        forall|j: int| 0 <= j < taken.len() ==> taken[j],
    ensures
        added_upto(actual, taken, n).len() == 0,
    decreases n,
{
    if n > 0 {
        lemma_none_added(actual, taken, n - 1);
    }
}

} // verus!
