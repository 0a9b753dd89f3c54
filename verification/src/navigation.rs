//! Keystroke planning: which keys activate an element of a snapshot.

use vstd::prelude::*;
use crate::element::{Element, index_with_id, MenuItem, TerminalStateTree};
use crate::error::Error;
use crate::key::Key;
use crate::text::{has_prefix, starts_with, str_eq, to_chars};

verus! {

/// The index of the first entry at or after `from` whose reference is `target`, if any.
pub open spec fn item_index(items: Seq<MenuItem>, from: int, target: Seq<char>) -> Option<int>
    decreases items.len() - from,
{
    if from < 0 || from >= items.len() {
        None
    } else if items[from].ref_id@ == target {
        Some(from)
    } else {
        item_index(items, from + 1, target)
    }
}

/// Whether `e` is a menu with an entry whose reference is `target`.
pub open spec fn is_menu_with(e: Element, target: Seq<char>) -> bool {
    e matches Element::Menu { items, .. } && item_index(items@, 0, target) is Some
}

/// The index of the first element at or after `from` that is a menu with an entry whose
/// reference is `target`, if any.
pub open spec fn menu_index(elements: Seq<Element>, from: int, target: Seq<char>) -> Option<int>
    decreases elements.len() - from,
{
    if from < 0 || from >= elements.len() {
        None
    } else if is_menu_with(elements[from], target) {
        Some(from)
    } else {
        menu_index(elements, from + 1, target)
    }
}

/// The distance between two indexes.
pub open spec fn distance(a: int, b: int) -> int {
    if a >= b {
        a - b
    } else {
        b - a
    }
}

/// The keys that move the selection of a menu from entry `selected` to entry `target`
/// and activate it: as many arrows as the entries lie apart, down where the target lies
/// below and up where it lies above, and then Enter.
pub open spec fn menu_keys(target: int, selected: int) -> Seq<Key> {
    Seq::new(
        (distance(target, selected) + 1) as nat,
        |i: int|
            if i < distance(target, selected) {
                if target > selected {
                    Key::Down
                } else {
                    Key::Up
                }
            } else {
                Key::Enter
            },
    )
}

/// What a plan can fail with.
pub enum PlanError {
    /// No element or entry has the reference.
    NotFound,
    /// The element cannot be clicked.
    NotClickable,
}

/// The keys that activate the element with reference `target`.
///
/// A reference that begins with `item_` names an entry of a menu: the plan is that of the
/// first menu that holds it. Any other reference names an element: a button is activated
/// with Enter, a check box with Space, and no other element can be clicked.
pub open spec fn plan(elements: Seq<Element>, target: Seq<char>) -> Result<Seq<Key>, PlanError> {
    if has_prefix(target, "item_"@) {
        match menu_index(elements, 0, target) {
            Some(m) => match elements[m] {
                Element::Menu { items, selected, .. } => Ok(
                    menu_keys(item_index(items@, 0, target)->0, selected as int),
                ),
                _ => Err(PlanError::NotFound),
            },
            None => Err(PlanError::NotFound),
        }
    } else {
        match index_with_id(elements, 0, target) {
            Some(i) => match elements[i] {
                Element::Button { .. } => Ok(seq![Key::Enter]),
                Element::Checkbox { .. } => Ok(seq![Key::Space]),
                _ => Err(PlanError::NotClickable),
            },
            None => Err(PlanError::NotFound),
        }
    }
}

/// The message for an element of type `kind` that cannot be clicked.
pub open spec fn not_clickable(kind: Seq<char>) -> Seq<char> {
    "Element type '"@ + kind + "' is not clickable"@
}

/// Navigation determinism: the plan for an entry of a menu holds exactly as many
/// navigation keys as the entry lies from the selected one, all of them arrows in the
/// direction of the entry, and one activation key, Enter, at the end.
pub proof fn law_menu_plan(target: int, selected: int)
    ensures
        menu_keys(target, selected).len() == distance(target, selected) + 1,
        menu_keys(target, selected).last() == Key::Enter,
        forall|i: int|
            0 <= i < distance(target, selected) ==> #[trigger] menu_keys(target, selected)[i] == (
            if target > selected {
                Key::Down
            } else {
                Key::Up
            }),
{
}

/// Computes the keys that activate an element.
#[derive(Debug, Clone, Copy, PartialEq, Eq, Structural)]
pub struct NavigationCalculator {}

/// The index of the first entry whose reference is `target`.
fn find_item(items: &Vec<MenuItem>, target: &str) -> (r: Option<usize>)
    ensures
        match r {
            Some(i) => item_index(items@, 0, target@) == Some(i as int) && i < items.len(),
            None => item_index(items@, 0, target@) is None,
        },
{
    let mut i: usize = 0;
    while i < items.len()
        invariant
            i <= items.len(),
            item_index(items@, i as int, target@) == item_index(items@, 0, target@),
        decreases items.len() - i,
    {
        if str_eq(items[i].ref_id.as_str(), target) {
            return Some(i);
        }
        i += 1;
    }
    None
}

impl NavigationCalculator {
    /// The calculator.
    pub fn new() -> (c: Self) {
        NavigationCalculator {  }
    }

    /// The keys that move the selection of a menu from entry `selected` to entry `target`
    /// and activate it.
    pub fn navigate_menu(&self, target: usize, selected: usize) -> (keys: Vec<Key>)
        ensures
            keys@ == menu_keys(target as int, selected as int),
    {
        let mut keys: Vec<Key> = Vec::new();
        let down = target > selected;
        let steps: usize = if down {
            target - selected
        } else {
            selected - target
        };
        let mut i: usize = 0;
        while i < steps
            invariant
                i <= steps,
                steps == distance(target as int, selected as int),
                down == (target > selected),
                keys@.len() == i,
                forall|k: int|
                    0 <= k < i ==> keys@[k] == menu_keys(target as int, selected as int)[k],
            decreases steps - i,
        {
            if down {
                keys.push(Key::Down);
            } else {
                keys.push(Key::Up);
            }
            i += 1;
        }
        keys.push(Key::Enter);
        assert(keys@ =~= menu_keys(target as int, selected as int));
        keys
    }

    /// The keys that activate the element of `snapshot` with reference `target_ref`.
    ///
    /// Fails with element-not-found, carrying the reference, where nothing has the
    /// reference, and with invalid-input where the element is neither a button nor a
    /// check box.
    pub fn calculate(&self, snapshot: &TerminalStateTree, target_ref: &str) -> (r: Result<
        Vec<Key>,
        Error,
    >)
        ensures
            match r {
                Ok(keys) => plan(snapshot.elements@, target_ref@) == Ok::<Seq<Key>, PlanError>(
                    keys@,
                ),
                Err(e) => match plan(snapshot.elements@, target_ref@) {
                    Err(PlanError::NotFound) => e matches Error::ElementNotFound(id) && id@
                        == target_ref@,
                    Err(PlanError::NotClickable) => e matches Error::InvalidInput(text)
                        && index_with_id(snapshot.elements@, 0, target_ref@) matches Some(i)
                        && text@ == not_clickable(snapshot.elements@[i].kind()),
                    Ok(_) => false,
                },
            },
    {
        let target = to_chars(target_ref);
        let prefix = to_chars("item_");
        if starts_with(&target, &prefix) {
            let mut m: usize = 0;
            while m < snapshot.elements.len()
                invariant
                    m <= snapshot.elements.len(),
                    has_prefix(target_ref@, "item_"@),
                    menu_index(snapshot.elements@, m as int, target_ref@) == menu_index(
                        snapshot.elements@,
                        0,
                        target_ref@,
                    ),
                decreases snapshot.elements.len() - m,
            {
                match &snapshot.elements[m] {
                    Element::Menu { items, selected, .. } => {
                        match find_item(items, target_ref) {
                            Some(i) => {
                                return Ok(self.navigate_menu(i, *selected));
                            },
                            None => {},
                        }
                    },
                    _ => {},
                }
                m += 1;
            }
            return Err(Error::ElementNotFound(String::from_str(target_ref)));
        }
        match snapshot.find_element(target_ref) {
            Some(e) => match e {
                Element::Button { .. } => {
                    let mut keys: Vec<Key> = Vec::new();
                    keys.push(Key::Enter);
                    assert(keys@ =~= seq![Key::Enter]);
                    Ok(keys)
                },
                Element::Checkbox { .. } => {
                    let mut keys: Vec<Key> = Vec::new();
                    keys.push(Key::Space);
                    assert(keys@ =~= seq![Key::Space]);
                    Ok(keys)
                },
                _ => Err(
                    Error::InvalidInput(
                        String::from_str("Element type '").concat(e.kind_name()).concat(
                            "' is not clickable",
                        ),
                    ),
                ),
            },
            None => Err(Error::ElementNotFound(String::from_str(target_ref))),
        }
    }
}

impl Default for NavigationCalculator {
    /// The calculator.
    fn default() -> (c: Self) {
        NavigationCalculator::new()
    }
}

} // verus!
