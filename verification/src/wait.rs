//! Waiting for a condition of the terminal: what is waited for, and what the waiter does
//! next.

use vstd::prelude::*;
use core::time::Duration;
use crate::element::{Element, has_kind, TerminalStateTree};
use crate::error::Error;
use crate::pattern::{regex_search, text_matches};
use crate::text::str_eq;
use crate::time::{is_millis, millis, millis_of, span_of_millis, span_of_secs};

verus! {

/// The pause between two looks at the output while waiting for the terminal to fall
/// idle, in milliseconds.
pub const IDLE_POLL_MS: u64 = 10;

/// What is waited for.
#[derive(Debug, Clone)]
pub struct WaitCondition {
    /// A regular expression that the text of the screen is searched for.
    pub text: Option<String>,
    /// The type name of an element.
    pub element_type: Option<String>,
    /// Whether the text or the element is waited to go rather than to come.
    pub gone: bool,
    /// Whether the terminal is waited to fall idle.
    pub idle: bool,
    /// How long to wait at most.
    pub timeout: Duration,
    /// How long to pause between two snapshots.
    pub poll_interval: Duration,
}

impl WaitCondition {
    /// Whether the condition is the default one but for its text, element type and flags:
    /// it waits at most thirty seconds and polls every hundred milliseconds.
    pub open spec fn default_times(&self) -> bool {
        is_millis(self.timeout, 30_000) && is_millis(self.poll_interval, 100)
    }

    /// A condition that waits for nothing in particular.
    pub fn new() -> (c: Self)
        ensures
            c.text is None,
            c.element_type is None,
            !c.gone,
            !c.idle,
            c.default_times(),
    {
        WaitCondition {
            text: None,
            element_type: None,
            gone: false,
            idle: false,
            timeout: span_of_secs(30),
            poll_interval: span_of_millis(100),
        }
    }

    /// Waits for text that matches the regular expression `text`.
    pub fn for_text(text: &str) -> (c: Self)
        ensures
            c.text matches Some(t) && t@ == text@,
            c.element_type is None,
            !c.gone,
            !c.idle,
            c.default_times(),
    {
        let mut c = WaitCondition::new();
        c.text = Some(String::from_str(text));
        c
    }

    /// Waits until no text matches the regular expression `text`.
    pub fn for_text_gone(text: &str) -> (c: Self)
        ensures
            c.text matches Some(t) && t@ == text@,
            c.element_type is None,
            c.gone,
            !c.idle,
            c.default_times(),
    {
        let mut c = WaitCondition::new();
        c.text = Some(String::from_str(text));
        c.gone = true;
        c
    }

    /// Waits for an element of type `element_type`.
    pub fn for_element(element_type: &str) -> (c: Self)
        ensures
            c.text is None,
            c.element_type matches Some(t) && t@ == element_type@,
            !c.gone,
            !c.idle,
            c.default_times(),
    {
        let mut c = WaitCondition::new();
        c.element_type = Some(String::from_str(element_type));
        c
    }

    /// Waits until there is no element of type `element_type`.
    pub fn for_element_gone(element_type: &str) -> (c: Self)
        ensures
            c.text is None,
            c.element_type matches Some(t) && t@ == element_type@,
            c.gone,
            !c.idle,
            c.default_times(),
    {
        let mut c = WaitCondition::new();
        c.element_type = Some(String::from_str(element_type));
        c.gone = true;
        c
    }

    /// Waits for the terminal to fall idle.
    pub fn for_idle() -> (c: Self)
        ensures
            c.text is None,
            c.element_type is None,
            !c.gone,
            c.idle,
            c.default_times(),
    {
        let mut c = WaitCondition::new();
        c.idle = true;
        c
    }

    /// The condition made of the given parts, the times in milliseconds.
    pub fn from_parts(
        text: Option<String>,
        element_type: Option<String>,
        gone: bool,
        idle: bool,
        timeout_ms: u64,
        poll_interval_ms: u64,
    ) -> (c: Self)
        ensures
            c.text == text,
            c.element_type == element_type,
            c.gone == gone,
            c.idle == idle,
            is_millis(c.timeout, timeout_ms as nat),
            is_millis(c.poll_interval, poll_interval_ms as nat),
    {
        WaitCondition {
            text,
            element_type,
            gone,
            idle,
            timeout: span_of_millis(timeout_ms),
            poll_interval: span_of_millis(poll_interval_ms),
        }
    }

    /// The same condition, waiting at most `timeout`.
    pub fn with_timeout(self, timeout: Duration) -> (c: Self)
        ensures
            c == (WaitCondition { timeout, ..self }),
    {
        let mut c = self;
        c.timeout = timeout;
        c
    }

    /// The same condition, pausing `interval` between two snapshots.
    pub fn with_poll_interval(self, interval: Duration) -> (c: Self)
        ensures
            c == (WaitCondition { poll_interval: interval, ..self }),
    {
        let mut c = self;
        c.poll_interval = interval;
        c
    }

    /// The longest wait in milliseconds.
    pub fn timeout_ms(&self) -> (ms: u128)
        ensures
            ms == millis(self.timeout),
    {
        millis_of(&self.timeout)
    }

    /// The pause between two snapshots in milliseconds.
    pub fn poll_interval_ms(&self) -> (ms: u128)
        ensures
            ms == millis(self.poll_interval),
    {
        millis_of(&self.poll_interval)
    }
}

impl Default for WaitCondition {
    /// A condition that waits for nothing in particular.
    fn default() -> (c: Self)
        ensures
            c.text is None,
            c.element_type is None,
            !c.gone,
            !c.idle,
            c.default_times(),
    {
        WaitCondition::new()
    }
}

/// How a wait ended.
#[derive(Debug, Clone)]
pub struct WaitResult {
    /// Whether the condition came true in time.
    pub condition_met: bool,
    /// How long the wait took, in milliseconds.
    pub waited_ms: u64,
    /// The last snapshot taken.
    pub snapshot: TerminalStateTree,
}

/// Whether a snapshot meets a condition, given whether its text matches the condition's
/// regular expression: a text condition goes by the match and an element condition by
/// the presence of an element of the type, either turned round where the condition waits
/// for something to go; a condition with neither is not met.
pub open spec fn meets(c: WaitCondition, text_found: bool, elements: Seq<Element>) -> bool {
    if c.text is Some {
        c.gone != text_found
    } else if c.element_type is Some {
        c.gone != has_kind(elements, c.element_type->0@)
    } else {
        false
    }
}

/// Whether some element of `elements` is of type `kind`.
pub fn any_of_kind(elements: &Vec<Element>, kind: &str) -> (b: bool)
    ensures
        b == has_kind(elements@, kind@),
{
    let mut i: usize = 0;
    while i < elements.len()
        invariant
            i <= elements.len(),
            forall|k: int| 0 <= k < i ==> (#[trigger] elements@[k]).kind() != kind@,
        decreases elements.len() - i,
    {
        if str_eq(elements[i].kind_name(), kind) {
            return true;
        }
        i += 1;
    }
    false
}

/// Whether `snapshot` meets `condition`, given whether its text matches the condition's
/// regular expression.
pub fn condition_met(snapshot: &TerminalStateTree, condition: &WaitCondition, text_found: bool) -> (b:
    bool)
    ensures
        b == meets(*condition, text_found, snapshot.elements@),
{
    match &condition.text {
        Some(_) => condition.gone != text_found,
        None => match &condition.element_type {
            Some(kind) => condition.gone != any_of_kind(&snapshot.elements, kind.as_str()),
            None => false,
        },
    }
}

/// Whether `snapshot` meets `condition`. A text condition whose pattern is no regular
/// expression is refused as invalid input.
pub fn check_condition(snapshot: &TerminalStateTree, condition: &WaitCondition) -> (r: Result<
    bool,
    Error,
>)
    ensures
        match condition.text {
            Some(pattern) => match regex_search(pattern@, snapshot.raw_text@) {
                Some(found) => r == Ok::<bool, Error>(
                    meets(*condition, found, snapshot.elements@),
                ),
                None => r matches Err(Error::InvalidInput(message)) && crate::text::has_prefix(
                    message@,
                    "Invalid regex: "@,
                ),
            },
            None => r == Ok::<bool, Error>(meets(*condition, false, snapshot.elements@)),
        },
{
    match &condition.text {
        Some(pattern) => {
            match text_matches(pattern.as_str(), snapshot.raw_text.as_str(), "Invalid regex: ") {
                Ok(found) => Ok(condition_met(snapshot, condition, found)),
                Err(e) => Err(e),
            }
        },
        None => Ok(condition_met(snapshot, condition, false)),
    }
}

/// What a waiter does next.
#[derive(Debug, Clone, Copy, PartialEq, Eq, Structural)]
pub enum WaitStep {
    /// Give up: take a last snapshot and report that the condition was not met.
    TimedOut,
    /// Read what output there is and see whether the terminal has fallen idle.
    ReadOutput,
    /// Take a snapshot and see whether it meets the condition.
    Snapshot,
}

/// What a waiter does next, `elapsed_ms` milliseconds into a wait of at most `timeout_ms`:
/// it gives up once the time is used up; before that it reads output where it waits for
/// the terminal to fall idle, and takes a snapshot otherwise.
pub fn next_step(idle: bool, timeout_ms: u128, elapsed_ms: u128) -> (step: WaitStep)
    ensures
        step == (if elapsed_ms >= timeout_ms {
            WaitStep::TimedOut
        } else if idle {
            WaitStep::ReadOutput
        } else {
            WaitStep::Snapshot
        }),
{
    if elapsed_ms >= timeout_ms {
        WaitStep::TimedOut
    } else if idle {
        WaitStep::ReadOutput
    } else {
        WaitStep::Snapshot
    }
}

/// What a read of output tells about the terminal.
#[derive(Debug, Clone, Copy, PartialEq, Eq, Structural)]
pub enum Activity {
    /// Output came: the terminal is busy, and the quiet time starts anew.
    Busy,
    /// No output has come for as long as the threshold asks: the terminal is idle.
    Idle,
    /// No output came, but the quiet time is still short of the threshold.
    Quiet,
}

/// What a read that returned `bytes_read` bytes tells, `quiet_ms` milliseconds after the
/// last output, with an idle threshold of `threshold_ms`.
pub fn activity(bytes_read: usize, quiet_ms: u128, threshold_ms: u128) -> (a: Activity)
    ensures
        a == (if bytes_read > 0 {
            Activity::Busy
        } else if quiet_ms >= threshold_ms {
            Activity::Idle
        } else {
            Activity::Quiet
        }),
{
    if bytes_read > 0 {
        Activity::Busy
    } else if quiet_ms >= threshold_ms {
        Activity::Idle
    } else {
        Activity::Quiet
    }
}

/// The time waited as it is reported: `elapsed_ms`, or the greatest number that fits
/// where it does not fit.
pub fn waited(elapsed_ms: u128) -> (ms: u64)
    ensures
        ms == (if elapsed_ms <= u64::MAX {
            elapsed_ms as u64
        } else {
            u64::MAX
        }),
{
    if elapsed_ms <= u64::MAX as u128 {
        elapsed_ms as u64
    } else {
        u64::MAX
    }
}

} // verus!
