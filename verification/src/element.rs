//! The elements of a terminal state tree.

use vstd::prelude::*;
use crate::geometry::{Bounds, Dimensions, Position};
use crate::text::str_eq;

verus! {

/// One entry of a menu.
#[derive(Debug, Clone, PartialEq, Eq)]
pub struct MenuItem {
    /// Reference of the entry.
    pub ref_id: String,
    /// Text of the entry.
    pub text: String,
    /// Whether the entry is the selected one.
    pub selected: bool,
}

impl MenuItem {
    /// The entry with the given reference, text and selection.
    pub fn new(ref_id: &str, text: &str, selected: bool) -> (item: Self)
        ensures
            item.ref_id@ == ref_id@,
            item.text@ == text@,
            item.selected == selected,
    {
        MenuItem { ref_id: String::from_str(ref_id), text: String::from_str(text), selected }
    }
}

/// A widget found on the screen.
#[derive(Debug, Clone, PartialEq)]
pub enum Element {
    /// A list of entries of which one is selected.
    Menu {
        /// Reference of the element.
        ref_id: String,
        /// Where the element stands.
        bounds: Bounds,
        /// The entries, top to bottom.
        items: Vec<MenuItem>,
        /// Index of the selected entry.
        selected: usize,
    },
    /// Rows of cells under optional headers.
    Table {
        /// Reference of the element.
        ref_id: String,
        /// Where the element stands.
        bounds: Bounds,
        /// The header cells; empty where the table has no header.
        headers: Vec<String>,
        /// The data rows.
        rows: Vec<Vec<String>>,
    },
    /// A text field.
    Input {
        /// Reference of the element.
        ref_id: String,
        /// Where the element stands.
        bounds: Bounds,
        /// What the field holds.
        value: String,
        /// Position of the cursor inside the value.
        cursor_pos: usize,
    },
    /// A push button.
    Button {
        /// Reference of the element.
        ref_id: String,
        /// Where the element stands.
        bounds: Bounds,
        /// What the button says.
        label: String,
    },
    /// A progress indicator.
    ProgressBar {
        /// Reference of the element.
        ref_id: String,
        /// Where the element stands.
        bounds: Bounds,
        /// Progress from 0 to 100.
        percent: u8,
    },
    /// A check box or radio button.
    Checkbox {
        /// Reference of the element.
        ref_id: String,
        /// Where the element stands.
        bounds: Bounds,
        /// Text beside the box.
        label: String,
        /// Whether the box is ticked.
        checked: bool,
    },
    /// The status line at the bottom of the screen.
    StatusBar {
        /// Reference of the element.
        ref_id: String,
        /// Where the element stands.
        bounds: Bounds,
        /// Text of the line.
        content: String,
    },
    /// A box drawn around a region.
    Border {
        /// Reference of the element.
        ref_id: String,
        /// Where the element stands.
        bounds: Bounds,
        /// Title set into the top edge, if any.
        title: Option<String>,
        /// References of the elements inside.
        children: Vec<String>,
    },
    /// Plain text.
    Text {
        /// Reference of the element.
        ref_id: String,
        /// Where the element stands.
        bounds: Bounds,
        /// The text.
        content: String,
    },
}

impl Element {
    /// The reference of the element.
    pub open spec fn id(&self) -> Seq<char> {
        match *self {
            Element::Menu { ref_id, .. } => ref_id@,
            Element::Table { ref_id, .. } => ref_id@,
            Element::Input { ref_id, .. } => ref_id@,
            Element::Button { ref_id, .. } => ref_id@,
            Element::ProgressBar { ref_id, .. } => ref_id@,
            Element::Checkbox { ref_id, .. } => ref_id@,
            Element::StatusBar { ref_id, .. } => ref_id@,
            Element::Border { ref_id, .. } => ref_id@,
            Element::Text { ref_id, .. } => ref_id@,
        }
    }

    /// The name of the element's type.
    pub open spec fn kind(&self) -> Seq<char> {
        match *self {
            Element::Menu { .. } => "menu"@,
            Element::Table { .. } => "table"@,
            Element::Input { .. } => "input"@,
            Element::Button { .. } => "button"@,
            Element::ProgressBar { .. } => "progress_bar"@,
            Element::Checkbox { .. } => "checkbox"@,
            Element::StatusBar { .. } => "status_bar"@,
            Element::Border { .. } => "border"@,
            Element::Text { .. } => "text"@,
        }
    }

    /// Where the element stands.
    pub open spec fn region(&self) -> Bounds {
        match *self {
            Element::Menu { bounds, .. } => bounds,
            Element::Table { bounds, .. } => bounds,
            Element::Input { bounds, .. } => bounds,
            Element::Button { bounds, .. } => bounds,
            Element::ProgressBar { bounds, .. } => bounds,
            Element::Checkbox { bounds, .. } => bounds,
            Element::StatusBar { bounds, .. } => bounds,
            Element::Border { bounds, .. } => bounds,
            Element::Text { bounds, .. } => bounds,
        }
    }

    /// The element with its reference replaced by `id` and everything else as it is.
    pub open spec fn with_id(&self, id: String) -> Element {
        match *self {
            Element::Menu { ref_id, bounds, items, selected } => Element::Menu {
                ref_id: id,
                bounds,
                items,
                selected,
            },
            Element::Table { ref_id, bounds, headers, rows } => Element::Table {
                ref_id: id,
                bounds,
                headers,
                rows,
            },
            Element::Input { ref_id, bounds, value, cursor_pos } => Element::Input {
                ref_id: id,
                bounds,
                value,
                cursor_pos,
            },
            Element::Button { ref_id, bounds, label } => Element::Button {
                ref_id: id,
                bounds,
                label,
            },
            Element::ProgressBar { ref_id, bounds, percent } => Element::ProgressBar {
                ref_id: id,
                bounds,
                percent,
            },
            Element::Checkbox { ref_id, bounds, label, checked } => Element::Checkbox {
                ref_id: id,
                bounds,
                label,
                checked,
            },
            Element::StatusBar { ref_id, bounds, content } => Element::StatusBar {
                ref_id: id,
                bounds,
                content,
            },
            Element::Border { ref_id, bounds, title, children } => Element::Border {
                ref_id: id,
                bounds,
                title,
                children,
            },
            Element::Text { ref_id, bounds, content } => Element::Text {
                ref_id: id,
                bounds,
                content,
            },
        }
    }

    /// The reference of the element.
    pub fn ref_id(&self) -> (id: &str)
        ensures
            id@ == self.id(),
    {
        match self {
            Element::Menu { ref_id, .. } => ref_id.as_str(),
            Element::Table { ref_id, .. } => ref_id.as_str(),
            Element::Input { ref_id, .. } => ref_id.as_str(),
            Element::Button { ref_id, .. } => ref_id.as_str(),
            Element::ProgressBar { ref_id, .. } => ref_id.as_str(),
            Element::Checkbox { ref_id, .. } => ref_id.as_str(),
            Element::StatusBar { ref_id, .. } => ref_id.as_str(),
            Element::Border { ref_id, .. } => ref_id.as_str(),
            Element::Text { ref_id, .. } => ref_id.as_str(),
        }
    }

    /// The name of the element's type: `menu`, `table`, `input`, `button`, `progress_bar`,
    /// `checkbox`, `status_bar`, `border` or `text`.
    pub fn kind_name(&self) -> (name: &'static str)
        ensures
            name@ == self.kind(),
    {
        match self {
            Element::Menu { .. } => "menu",
            Element::Table { .. } => "table",
            Element::Input { .. } => "input",
            Element::Button { .. } => "button",
            Element::ProgressBar { .. } => "progress_bar",
            Element::Checkbox { .. } => "checkbox",
            Element::StatusBar { .. } => "status_bar",
            Element::Border { .. } => "border",
            Element::Text { .. } => "text",
        }
    }

    /// Where the element stands.
    pub fn bounds(&self) -> (b: &Bounds)
        ensures
            *b == self.region(),
    {
        match self {
            Element::Menu { bounds, .. } => bounds,
            Element::Table { bounds, .. } => bounds,
            Element::Input { bounds, .. } => bounds,
            Element::Button { bounds, .. } => bounds,
            Element::ProgressBar { bounds, .. } => bounds,
            Element::Checkbox { bounds, .. } => bounds,
            Element::StatusBar { bounds, .. } => bounds,
            Element::Border { bounds, .. } => bounds,
            Element::Text { bounds, .. } => bounds,
        }
    }

    /// The element under the reference `id`, everything else kept.
    pub fn with_ref_id(self, id: String) -> (e: Element)
        ensures
            e == self.with_id(id),
            e.id() == id@,
            e.kind() == self.kind(),
            e.region() == self.region(),
    {
        match self {
            Element::Menu { ref_id, bounds, items, selected } => Element::Menu {
                ref_id: id,
                bounds,
                items,
                selected,
            },
            Element::Table { ref_id, bounds, headers, rows } => Element::Table {
                ref_id: id,
                bounds,
                headers,
                rows,
            },
            Element::Input { ref_id, bounds, value, cursor_pos } => Element::Input {
                ref_id: id,
                bounds,
                value,
                cursor_pos,
            },
            Element::Button { ref_id, bounds, label } => Element::Button {
                ref_id: id,
                bounds,
                label,
            },
            Element::ProgressBar { ref_id, bounds, percent } => Element::ProgressBar {
                ref_id: id,
                bounds,
                percent,
            },
            Element::Checkbox { ref_id, bounds, label, checked } => Element::Checkbox {
                ref_id: id,
                bounds,
                label,
                checked,
            },
            Element::StatusBar { ref_id, bounds, content } => Element::StatusBar {
                ref_id: id,
                bounds,
                content,
            },
            Element::Border { ref_id, bounds, title, children } => Element::Border {
                ref_id: id,
                bounds,
                title,
                children,
            },
            Element::Text { ref_id, bounds, content } => Element::Text {
                ref_id: id,
                bounds,
                content,
            },
        }
    }
}

/// The first index at or after `from` of an element with reference `id`, if any.
pub open spec fn index_with_id(elements: Seq<Element>, from: int, id: Seq<char>) -> Option<int>
    decreases elements.len() - from,
{
    if from < 0 || from >= elements.len() {
        None
    } else if elements[from].id() == id {
        Some(from)
    } else {
        index_with_id(elements, from + 1, id)
    }
}

/// `index_with_id` returns the first element with the reference, and `None` only where no
/// element has it.
pub proof fn lemma_index_with_id(elements: Seq<Element>, from: int, id: Seq<char>)
    requires
        0 <= from,
    ensures
        match index_with_id(elements, from, id) {
            Some(i) => from <= i < elements.len() && elements[i].id() == id && forall|k: int|
                from <= k < i ==> (#[trigger] elements[k]).id() != id,
            None => forall|k: int|
                from <= k < elements.len() ==> (#[trigger] elements[k]).id() != id,
        },
    decreases elements.len() - from,
{
    if from < elements.len() && elements[from].id() != id {
        lemma_index_with_id(elements, from + 1, id);
    }
}

/// The elements of type `kind`, in order.
pub open spec fn of_kind(elements: Seq<Element>, kind: Seq<char>) -> Seq<Element>
    decreases elements.len(),
{
    if elements.len() == 0 {
        Seq::empty()
    } else if elements.last().kind() == kind {
        of_kind(elements.drop_last(), kind).push(elements.last())
    } else {
        of_kind(elements.drop_last(), kind)
    }
}

/// Whether some element is of type `kind`.
pub open spec fn has_kind(elements: Seq<Element>, kind: Seq<char>) -> bool {
    exists|i: int| 0 <= i < elements.len() && (#[trigger] elements[i]).kind() == kind
}

/// The semantic snapshot of a terminal: its size, cursor, detected elements and text.
#[derive(Debug, Clone)]
pub struct TerminalStateTree {
    /// Identifier of the session the snapshot was taken of.
    pub session_id: String,
    /// Size of the terminal.
    pub dimensions: Dimensions,
    /// Position of the cursor.
    pub cursor: Position,
    /// When the snapshot was taken, as ISO-8601 text.
    pub timestamp: String,
    /// The elements, in detection order.
    pub elements: Vec<Element>,
    /// The text of the whole screen.
    pub raw_text: String,
    /// The raw output with its escape sequences, where it was asked for.
    pub ansi_buffer: Option<String>,
}

impl TerminalStateTree {
    /// The first element with reference `ref_id`; `None` exactly when no element has it.
    pub fn find_element(&self, ref_id: &str) -> (r: Option<&Element>)
        ensures
            match r {
                Some(e) => index_with_id(self.elements@, 0, ref_id@) matches Some(i)
                    && *e == self.elements@[i],
                None => index_with_id(self.elements@, 0, ref_id@) is None,
            },
    {
        let mut i: usize = 0;
        while i < self.elements.len()
            invariant
                index_with_id(self.elements@, i as int, ref_id@) == index_with_id(
                    self.elements@,
                    0,
                    ref_id@,
                ),
            decreases self.elements.len() - i,
        {
            if str_eq(self.elements[i].ref_id(), ref_id) {
                return Some(&self.elements[i]);
            }
            i += 1;
        }
        None
    }

    /// The elements whose type name is `element_type`, in order.
    pub fn elements_of_type(&self, element_type: &str) -> (r: Vec<&Element>)
        ensures
            r@.len() == of_kind(self.elements@, element_type@).len(),
            forall|k: int|
                0 <= k < r@.len() ==> *r@[k] == #[trigger] of_kind(
                    self.elements@,
                    element_type@,
                )[k],
    {
        let mut out: Vec<&Element> = Vec::new();
        let mut i: usize = 0;
        while i < self.elements.len()
            invariant
                i <= self.elements.len(),
                out@.len() == of_kind(self.elements@.take(i as int), element_type@).len(),
                forall|k: int|
                    0 <= k < out@.len() ==> *out@[k] == #[trigger] of_kind(
                        self.elements@.take(i as int),
                        element_type@,
                    )[k],
            decreases self.elements.len() - i,
        {
            proof {
                assert(self.elements@.take(i + 1).drop_last() =~= self.elements@.take(i as int));
                assert(self.elements@.take(i + 1).last() == self.elements@[i as int]);
            }
            if str_eq(self.elements[i].kind_name(), element_type) {
                out.push(&self.elements[i]);
            }
            i += 1;
        }
        proof {
            assert(self.elements@.take(self.elements.len() as int) =~= self.elements@);
        }
        out
    }

    /// The menus.
    pub fn menus(&self) -> (r: Vec<&Element>)
        ensures
            r@.len() == of_kind(self.elements@, "menu"@).len(),
            forall|k: int|
                0 <= k < r@.len() ==> *r@[k] == #[trigger] of_kind(self.elements@, "menu"@)[k],
    {
        self.elements_of_type("menu")
    }

    /// The tables.
    pub fn tables(&self) -> (r: Vec<&Element>)
        ensures
            r@.len() == of_kind(self.elements@, "table"@).len(),
            forall|k: int|
                0 <= k < r@.len() ==> *r@[k] == #[trigger] of_kind(self.elements@, "table"@)[k],
    {
        self.elements_of_type("table")
    }

    /// The inputs.
    pub fn inputs(&self) -> (r: Vec<&Element>)
        ensures
            r@.len() == of_kind(self.elements@, "input"@).len(),
            forall|k: int|
                0 <= k < r@.len() ==> *r@[k] == #[trigger] of_kind(self.elements@, "input"@)[k],
    {
        self.elements_of_type("input")
    }
}

} // verus!
