//! Assembly of a terminal state tree from what the detectors found.

use vstd::prelude::*;
use crate::detection::{Confidence, DetectedElement};
use crate::element::{Element, TerminalStateTree};
use crate::geometry::{Dimensions, Position};

verus! {

/// The elements of the detections, in order.
pub open spec fn elements_of(detected: Seq<DetectedElement>) -> Seq<Element> {
    Seq::new(detected.len(), |i: int| detected[i].element)
}

/// Those of `detected` whose confidence is `min` or higher, in order.
pub open spec fn confident(detected: Seq<DetectedElement>, min: Confidence) -> Seq<
    DetectedElement,
>
    decreases detected.len(),
{
    if detected.len() == 0 {
        Seq::empty()
    } else if detected.last().confidence.level() >= min.level() {
        confident(detected.drop_last(), min).push(detected.last())
    } else {
        confident(detected.drop_last(), min)
    }
}

/// The present moment in UTC, as ISO-8601 text.
///
/// Stands for `chrono::Utc::now` followed by `chrono::DateTime::to_rfc3339`. The text
/// depends on the clock, so nothing is promised of it.
#[verifier::external_body]
fn utc_now() -> (text: String) {
    chrono::Utc::now().to_rfc3339()
}

/// Builds terminal state trees.
#[derive(Debug, Clone, Copy, PartialEq, Eq, Structural)]
pub struct TSTAssembler {}

/// The elements of the detections, which are given up for them.
fn take_elements(detected: Vec<DetectedElement>) -> (elements: Vec<Element>)
    ensures
        elements@ == elements_of(detected@),
{
    let ghost given = detected@;
    let mut detected = detected;
    let mut rev: Vec<Element> = Vec::new();
    while detected.len() > 0
        invariant
            detected.len() + rev.len() == given.len(),
            forall|j: int| 0 <= j < detected.len() ==> detected@[j] == given[j],
            forall|j: int|
                0 <= j < rev.len() ==> rev@[j] == given[given.len() - 1 - j].element,
        decreases detected.len(),
    {
        match detected.pop() {
            Some(d) => {
                rev.push(d.element);
            },
            None => {},
        }
    }
    let mut out: Vec<Element> = Vec::new();
    while rev.len() > 0
        invariant
            out.len() + rev.len() == given.len(),
            forall|j: int|
                0 <= j < rev.len() ==> rev@[j] == given[given.len() - 1 - j].element,
            forall|i: int| 0 <= i < out.len() ==> out@[i] == given[i].element,
        decreases rev.len(),
    {
        match rev.pop() {
            Some(e) => {
                out.push(e);
            },
            None => {},
        }
    }
    assert(out@ =~= elements_of(given));
    out
}

/// Those of `detected` whose confidence is `min` or higher.
fn keep_confident(detected: Vec<DetectedElement>, min: Confidence) -> (kept: Vec<DetectedElement>)
    ensures
        kept@ == confident(detected@, min),
{
    let ghost given = detected@;
    let mut detected = detected;
    let mut rev: Vec<DetectedElement> = Vec::new();
    while detected.len() > 0
        invariant
            detected.len() + rev.len() == given.len(),
            forall|j: int| 0 <= j < detected.len() ==> detected@[j] == given[j],
            forall|j: int| 0 <= j < rev.len() ==> rev@[j] == given[given.len() - 1 - j],
        decreases detected.len(),
    {
        match detected.pop() {
            Some(d) => {
                rev.push(d);
            },
            None => {},
        }
    }
    let mut out: Vec<DetectedElement> = Vec::new();
    let ghost mut done: int = 0;
    assert(given.take(0) =~= Seq::<DetectedElement>::empty());
    while rev.len() > 0
        invariant
            done + rev.len() == given.len(),
            0 <= done,
            forall|j: int| 0 <= j < rev.len() ==> rev@[j] == given[given.len() - 1 - j],
            out@ == confident(given.take(done), min),
        decreases rev.len(),
    {
        match rev.pop() {
            Some(d) => {
                proof {
                    assert(given.take(done + 1).drop_last() =~= given.take(done));
                    assert(given.take(done + 1).last() == d);
                    done = done + 1;
                }
                if d.confidence.at_least(min) {
                    out.push(d);
                }
            },
            None => {},
        }
    }
    assert(given.take(given.len() as int) =~= given);
    out
}

impl TSTAssembler {
    /// The assembler.
    pub fn new() -> (a: Self) {
        TSTAssembler {  }
    }

    /// The tree of the given parts, stamped `timestamp`: the elements in detection order,
    /// their regions and confidence left behind.
    pub fn assemble_at(
        &self,
        detected: Vec<DetectedElement>,
        session_id: String,
        dimensions: Dimensions,
        cursor: Position,
        raw_text: String,
        timestamp: String,
    ) -> (tree: TerminalStateTree)
        ensures
            tree.session_id == session_id,
            tree.dimensions == dimensions,
            tree.cursor == cursor,
            tree.timestamp == timestamp,
            tree.elements@ == elements_of(detected@),
            tree.raw_text == raw_text,
            tree.ansi_buffer is None,
    {
        TerminalStateTree {
            session_id,
            dimensions,
            cursor,
            timestamp,
            elements: take_elements(detected),
            raw_text,
            ansi_buffer: None,
        }
    }

    /// The tree of the given parts, stamped with the present moment.
    pub fn assemble(
        &self,
        detected: Vec<DetectedElement>,
        session_id: String,
        dimensions: Dimensions,
        cursor: Position,
        raw_text: String,
    ) -> (tree: TerminalStateTree)
        ensures
            tree.session_id == session_id,
            tree.dimensions == dimensions,
            tree.cursor == cursor,
            tree.elements@ == elements_of(detected@),
            tree.raw_text == raw_text,
            tree.ansi_buffer is None,
    {
        let timestamp = utc_now();
        self.assemble_at(detected, session_id, dimensions, cursor, raw_text, timestamp)
    }

    /// The tree of those detections whose confidence is `min_confidence` or higher,
    /// stamped with the present moment.
    pub fn assemble_with_confidence(
        &self,
        detected: Vec<DetectedElement>,
        min_confidence: Confidence,
        session_id: String,
        dimensions: Dimensions,
        cursor: Position,
        raw_text: String,
    ) -> (tree: TerminalStateTree)
        ensures
            tree.session_id == session_id,
            tree.dimensions == dimensions,
            tree.cursor == cursor,
            tree.elements@ == elements_of(confident(detected@, min_confidence)),
            tree.raw_text == raw_text,
            tree.ansi_buffer is None,
    {
        let kept = keep_confident(detected, min_confidence);
        self.assemble(kept, session_id, dimensions, cursor, raw_text)
    }
}

impl Default for TSTAssembler {
    /// The assembler.
    fn default() -> (a: Self) {
        TSTAssembler::new()
    }
}

} // verus!
