//! Visible terminal windows: which emulator to open.

use vstd::prelude::*;
use crate::error::Error;
use crate::geometry::Dimensions;
use crate::text::{ascii_lower, to_ascii_lower, to_chars};

verus! {

/// A visible terminal window that was opened.
#[derive(Debug, Clone)]
pub struct VisualTerminalHandle {
    /// Process of the window.
    pub pid: u32,
    /// Identifier of the window, where the platform gives one.
    pub window_id: Option<String>,
    /// Name of the emulator.
    pub terminal_name: String,
}

impl VisualTerminalHandle {
    /// The handle of a window of the emulator `terminal_name`, run by process `pid`.
    pub fn new(pid: u32, terminal_name: &str) -> (h: Self)
        ensures
            h.pid == pid,
            h.window_id is None,
            h.terminal_name@ == terminal_name@,
    {
        VisualTerminalHandle {
            pid,
            window_id: None,
            terminal_name: String::from_str(terminal_name),
        }
    }

    /// The handle of the window `window_id` of the emulator `terminal_name`, run by
    /// process `pid`.
    pub fn with_window_id(pid: u32, terminal_name: &str, window_id: &str) -> (h: Self)
        ensures
            h.pid == pid,
            h.window_id matches Some(w) && w@ == window_id@,
            h.terminal_name@ == terminal_name@,
    {
        VisualTerminalHandle {
            pid,
            window_id: Some(String::from_str(window_id)),
            terminal_name: String::from_str(terminal_name),
        }
    }
}

/// Whether a session shows a window.
#[derive(Debug, Clone, Copy, PartialEq, Eq, Structural)]
pub enum SessionMode {
    /// No window.
    Headless,
    /// A visible terminal window.
    Visual,
}

impl Default for SessionMode {
    /// No window.
    fn default() -> (m: Self)
        ensures
            m == SessionMode::Headless,
    {
        SessionMode::Headless
    }
}

impl SessionMode {
    /// The name of the mode.
    pub open spec fn label(&self) -> Seq<char> {
        match *self {
            SessionMode::Headless => "headless"@,
            SessionMode::Visual => "visual"@,
        }
    }

    /// The name of the mode: `headless` or `visual`.
    pub fn to_string(&self) -> (text: String)
        ensures
            text@ == self.label(),
    {
        match self {
            SessionMode::Headless => String::from_str("headless"),
            SessionMode::Visual => String::from_str("visual"),
        }
    }

    /// The mode of a new session: visual where it is asked for, headless where it is
    /// declined, and the server's default where nothing is said.
    pub fn choose_mode(asked: Option<bool>, headless_by_default: bool) -> (m: Self)
        ensures
            m == (if (match asked {
                Some(v) => v,
                None => !headless_by_default,
            }) {
                SessionMode::Visual
            } else {
                SessionMode::Headless
            }),
    {
        let visual = match asked {
            Some(v) => v,
            None => !headless_by_default,
        };
        if visual {
            SessionMode::Visual
        } else {
            SessionMode::Headless
        }
    }
}

/// A terminal emulator that can open a visible window.
pub trait VisualTerminal: Send + Sync {
    /// Opens a window that runs `command` with `args`.
    fn spawn(&self, command: &str, args: &[String], dimensions: Dimensions) -> Result<
        VisualTerminalHandle,
        Error,
    >;

    /// Whether the emulator is installed.
    fn is_available(&self) -> bool;

    /// The name of the emulator.
    fn name(&self) -> &'static str;

    /// The priority of the emulator; the higher, the more it is preferred.
    fn priority(&self) -> u8;
}

/// What is known of an emulator when one is chosen.
#[derive(Debug, Clone, Copy, PartialEq, Eq, Structural)]
pub struct Candidate {
    /// Whether the emulator is installed.
    pub available: bool,
    /// The priority of the emulator.
    pub priority: u8,
}

/// Whether candidate `i` is the best of the first `n`: it is available, none of them that
/// is available has a higher priority, and none after it has the same.
pub open spec fn is_best(candidates: Seq<Candidate>, n: int, i: int) -> bool {
    &&& 0 <= i < n
    &&& candidates[i].available
    &&& forall|k: int|
        0 <= k < n && (#[trigger] candidates[k]).available ==> candidates[k].priority
            <= candidates[i].priority
    &&& forall|k: int|
        i < k < n && (#[trigger] candidates[k]).available ==> candidates[k].priority
            < candidates[i].priority
}

/// The index of the candidate to choose: the available one of the highest priority, the
/// last of them where several have it; `None` exactly where none is available.
pub fn best_candidate(candidates: &Vec<Candidate>) -> (r: Option<usize>)
    ensures
        match r {
            Some(i) => is_best(candidates@, candidates@.len() as int, i as int),
            None => forall|k: int|
                0 <= k < candidates@.len() ==> !(#[trigger] candidates@[k]).available,
        },
{
    let mut best: Option<usize> = None;
    let mut k: usize = 0;
    while k < candidates.len()
        invariant
            k <= candidates.len(),
            match best {
                Some(i) => is_best(candidates@, k as int, i as int),
                None => forall|j: int| 0 <= j < k ==> !(#[trigger] candidates@[j]).available,
            },
        decreases candidates.len() - k,
    {
        if candidates[k].available {
            match best {
                Some(i) => {
                    if candidates[k].priority >= candidates[i].priority {
                        best = Some(k);
                    }
                },
                None => {
                    best = Some(k);
                },
            }
        }
        k += 1;
    }
    best
}

/// Where candidate `index` goes into `order`, which is in descending order of priority:
/// after the candidates of the same or a higher priority.
pub open spec fn rank_point(candidates: Seq<Candidate>, order: Seq<int>, from: int, index: int) -> int
    decreases order.len() - from,
{
    if from < 0 || from >= order.len() {
        order.len() as int
    } else if candidates[order[from]].priority < candidates[index].priority {
        from
    } else {
        rank_point(candidates, order, from + 1, index)
    }
}

/// The indexes of those of the first `n` candidates that are available, in descending
/// order of priority; candidates of the same priority stand in the order given.
pub open spec fn ranking(candidates: Seq<Candidate>, n: int) -> Seq<int>
    decreases n,
{
    if n <= 0 || n > candidates.len() {
        Seq::empty()
    } else {
        let before = ranking(candidates, n - 1);
        if candidates[n - 1].available {
            before.insert(rank_point(candidates, before, 0, n - 1), n - 1)
        } else {
            before
        }
    }
}

/// The insertion point lies within the order.
pub proof fn lemma_rank_point(candidates: Seq<Candidate>, order: Seq<int>, from: int, index: int)
    requires
        0 <= from <= order.len(),
    ensures
        from <= rank_point(candidates, order, from, index) <= order.len(),
        forall|k: int|
            from <= k < rank_point(candidates, order, from, index) ==> candidates[
            #[trigger] order[k]].priority >= candidates[index].priority,
        rank_point(candidates, order, from, index) < order.len() ==> candidates[order[rank_point(
            candidates,
            order,
            from,
            index,
        )]].priority < candidates[index].priority,
    decreases order.len() - from,
{
    if from < order.len() && candidates[order[from]].priority >= candidates[index].priority {
        lemma_rank_point(candidates, order, from + 1, index);
    }
}

/// A ranking names available candidates only, each at most once, highest priority first.
pub proof fn lemma_ranking(candidates: Seq<Candidate>, n: int)
    requires
        0 <= n <= candidates.len(),
    ensures
        forall|k: int|
            0 <= k < ranking(candidates, n).len() ==> 0 <= #[trigger] ranking(candidates, n)[k]
                < n && candidates[ranking(candidates, n)[k]].available,
        forall|i: int, j: int|
            0 <= i < j < ranking(candidates, n).len() ==> candidates[#[trigger] ranking(
                candidates,
                n,
            )[i]].priority >= candidates[#[trigger] ranking(candidates, n)[j]].priority,
        forall|i: int|
            0 <= i < n && (#[trigger] candidates[i]).available ==> ranking(candidates, n).contains(
                i,
            ),
    decreases n,
{
    if n > 0 {
        lemma_ranking(candidates, n - 1);
        let before = ranking(candidates, n - 1);
        if candidates[n - 1].available {
            let at = rank_point(candidates, before, 0, n - 1);
            lemma_rank_point(candidates, before, 0, n - 1);
            let after = before.insert(at, n - 1);
            assert(after == ranking(candidates, n));
            assert forall|k: int| 0 <= k < after.len() implies 0 <= #[trigger] after[k] < n
                && candidates[after[k]].available by {
                if k < at {
                    assert(after[k] == before[k]);
                } else if k > at {
                    assert(after[k] == before[k - 1]);
                }
            }
            assert forall|i: int, j: int| 0 <= i < j < after.len() implies candidates[
            #[trigger] after[i]].priority >= candidates[#[trigger] after[j]].priority by {
                if j < at {
                    assert(after[i] == before[i] && after[j] == before[j]);
                } else if j == at {
                    assert(after[i] == before[i]);
                } else if i < at {
                    assert(after[i] == before[i] && after[j] == before[j - 1]);
                } else if i == at {
                    assert(after[j] == before[j - 1]);
                    if at < j - 1 {
                        assert(candidates[before[at]].priority >= candidates[before[j
                            - 1]].priority);
                    }
                } else {
                    assert(after[i] == before[i - 1] && after[j] == before[j - 1]);
                }
            }
            assert forall|i: int| 0 <= i < n && (#[trigger] candidates[i]).available implies after.contains(
                i,
            ) by {
                if i == n - 1 {
                    assert(after[at] == i);
                } else {
                    let k = choose|k: int| 0 <= k < before.len() && before[k] == i;
                    if k < at {
                        assert(after[k] == i);
                    } else {
                        assert(after[k + 1] == i);
                    }
                }
            }
        }
    }
}

/// The indexes of the candidates that are available, highest priority first.
pub fn rank_candidates(candidates: &Vec<Candidate>) -> (order: Vec<usize>)
    ensures
        order@.len() == ranking(candidates@, candidates@.len() as int).len(),
        forall|k: int|
            0 <= k < order@.len() ==> #[trigger] order@[k] as int == ranking(
                candidates@,
                candidates@.len() as int,
            )[k],
        forall|k: int| 0 <= k < order@.len() ==> (#[trigger] order@[k]) < candidates@.len(),
{
    let mut order: Vec<usize> = Vec::new();
    let mut n: usize = 0;
    while n < candidates.len()
        invariant
            n <= candidates.len(),
            order@.len() == ranking(candidates@, n as int).len(),
            forall|k: int|
                0 <= k < order@.len() ==> #[trigger] order@[k] as int == ranking(
                    candidates@,
                    n as int,
                )[k],
            forall|k: int| 0 <= k < order@.len() ==> (#[trigger] order@[k]) < n,
        decreases candidates.len() - n,
    {
        if candidates[n].available {
            let ghost before = ranking(candidates@, n as int);
            let ghost old_order = order@;
            let mut at: usize = 0;
            while at < order.len() && candidates[order[at]].priority >= candidates[n].priority
                invariant
                    at <= order.len(),
                    n < candidates.len(),
                    order@.len() == before.len(),
                    forall|k: int| 0 <= k < order@.len() ==> #[trigger] order@[k] as int == before[k],
                    forall|k: int| 0 <= k < order@.len() ==> (#[trigger] order@[k]) < n,
                    rank_point(candidates@, before, at as int, n as int) == rank_point(
                        candidates@,
                        before,
                        0,
                        n as int,
                    ),
                decreases order.len() - at,
            {
                at += 1;
            }
            order.insert(at, n);
            proof {
                let after = ranking(candidates@, n + 1);
                assert(after == before.insert(at as int, n as int));
                assert forall|k: int| 0 <= k < order@.len() implies #[trigger] order@[k] as int
                    == after[k] by {
                    if k < at {
                        assert(order@[k] == old_order[k]);
                    } else if k > at {
                        assert(order@[k] == old_order[k - 1]);
                    }
                }
                assert forall|k: int| 0 <= k < order@.len() implies (#[trigger] order@[k]) < n
                    + 1 by {
                    if k < at {
                        assert(order@[k] == old_order[k]);
                    } else if k > at {
                        assert(order@[k] == old_order[k - 1]);
                    }
                }
            }
        }
        n += 1;
    }
    order
}

/// Whether two names are the same but for the case of their ASCII letters.
pub open spec fn same_name(a: Seq<char>, b: Seq<char>) -> bool {
    a.len() == b.len() && forall|i: int|
        0 <= i < a.len() ==> ascii_lower(#[trigger] a[i]) == ascii_lower(b[i])
}

/// Whether two names are the same but for the case of their ASCII letters.
pub fn names_match(a: &str, b: &str) -> (r: bool)
    ensures
        r == same_name(a@, b@),
{
    let x = to_chars(a);
    let y = to_chars(b);
    if x.len() != y.len() {
        return false;
    }
    let mut i: usize = 0;
    while i < x.len()
        invariant
            i <= x.len(),
            x.len() == y.len(),
            x@ == a@,
            y@ == b@,
            forall|k: int| 0 <= k < i ==> ascii_lower(#[trigger] x@[k]) == ascii_lower(y@[k]),
        decreases x.len() - i,
    {
        if to_ascii_lower(x[i]) != to_ascii_lower(y[i]) {
            assert(ascii_lower(a@[i as int]) != ascii_lower(b@[i as int]));
            return false;
        }
        i += 1;
    }
    true
}

/// The command line that a shell runs for `command` with `args`: the command and the
/// arguments, separated by single spaces.
pub open spec fn command_line(command: Seq<char>, args: Seq<String>, n: int) -> Seq<char>
    decreases n,
{
    if n <= 0 || n > args.len() {
        command
    } else {
        command_line(command, args, n - 1) + seq![' '] + args[n - 1]@
    }
}

/// The command line that a shell runs for `command` with `args`.
pub fn shell_command(command: &str, args: &Vec<String>) -> (line: String)
    ensures
        line@ == command_line(command@, args@, args@.len() as int),
{
    let mut line = String::from_str(command);
    let mut i: usize = 0;
    while i < args.len()
        invariant
            i <= args.len(),
            line@ == command_line(command@, args@, i as int),
        decreases args.len() - i,
    {
        proof {
            reveal_strlit(" ");
            assert(" "@ =~= seq![' ']);
        }
        line = line.concat(" ").concat(args[i].as_str());
        i += 1;
    }
    line
}

/// The command line that runs `line` in the directory `dir`.
pub fn in_directory(dir: &str, line: &str) -> (full: String)
    ensures
        full@ == "cd "@ + dir@ + " && "@ + line@,
{
    String::from_str("cd ").concat(dir).concat(" && ").concat(line)
}

/// An emulator with the name and the priority that it gave when it was registered.
struct Slot<T> {
    terminal: T,
    name: &'static str,
    priority: u8,
}

impl<T> Slot<T> {
    /// The slot that holds `terminal` under `name` and `priority`.
    fn new(terminal: T, name: &'static str, priority: u8) -> (s: Self)
        ensures
            s.terminal == terminal,
            s.name == name,
            s.priority == priority,
    {
        Slot { terminal, name, priority }
    }
}

/// What is said where no emulator is available.
pub open spec fn none_available_message() -> Seq<char> {
    "No visual terminal emulator available"@
}

/// What is said where no emulator is named `name`.
pub open spec fn not_found_message(name: Seq<char>) -> Seq<char> {
    "Terminal emulator '"@ + name + "' not found"@
}

/// What is said where the emulator named `name` is not installed.
pub open spec fn not_available_message(name: Seq<char>) -> Seq<char> {
    "Terminal emulator '"@ + name + "' is not available"@
}

/// Which emulator to open for the name `name`, where `found` is the index of the emulator
/// of that name and `available` its answer on whether it is installed: that emulator where
/// it is installed. Where there is none of that name, and where it is not installed, the
/// error says so.
pub fn named_choice(found: Option<usize>, available: bool, name: &str) -> (r: Result<
    usize,
    Error,
>)
    ensures
        match found {
            Some(i) => if available {
                r matches Ok(k) && k == i
            } else {
                r matches Err(Error::Other(m)) && m@ == not_available_message(name@)
            },
            None => r matches Err(Error::Other(m)) && m@ == not_found_message(name@),
        },
{
    match found {
        Some(i) => {
            if available {
                Ok(i)
            } else {
                Err(
                    Error::Other(
                        String::from_str("Terminal emulator '").concat(name).concat(
                            "' is not available",
                        ),
                    ),
                )
            }
        },
        None => Err(
            Error::Other(String::from_str("Terminal emulator '").concat(name).concat("' not found")),
        ),
    }
}

/// Which emulator to open where none is named: the best candidate. Where there is none,
/// the error says so.
pub fn best_choice(best: Option<usize>) -> (r: Result<usize, Error>)
    ensures
        match best {
            Some(i) => r matches Ok(k) && k == i,
            None => r matches Err(Error::Other(m)) && m@ == none_available_message(),
        },
{
    match best {
        Some(i) => Ok(i),
        None => Err(Error::Other(String::from_str("No visual terminal emulator available"))),
    }
}

/// The emulators of a platform. The registry notes the name and the priority of each
/// emulator when it is built; whether an emulator is installed it asks anew each time.
pub struct TerminalRegistry {
    slots: Vec<Slot<Box<dyn VisualTerminal>>>,
}

impl TerminalRegistry {
    /// The number of emulators.
    pub closed spec fn count(&self) -> nat {
        self.slots@.len()
    }

    /// The emulators, in the order of the registry.
    pub closed spec fn emulators(&self) -> Seq<Box<dyn VisualTerminal>> {
        Seq::new(self.slots@.len(), |i: int| self.slots@[i].terminal)
    }

    /// Emulator `i`.
    pub open spec fn terminal(&self, i: int) -> &dyn VisualTerminal {
        &*self.emulators()[i]
    }

    /// The name of emulator `i`.
    pub closed spec fn name_of(&self, i: int) -> Seq<char> {
        self.slots@[i].name@
    }

    /// The priority of emulator `i`.
    pub closed spec fn priority_of(&self, i: int) -> u8 {
        self.slots@[i].priority
    }

    /// Whether `c` rates the emulators: one candidate for each, in order, with the
    /// emulator's priority. Which of them are available is left open.
    pub open spec fn rates(&self, c: Seq<Candidate>) -> bool {
        &&& c.len() == self.count()
        &&& forall|i: int| 0 <= i < c.len() ==> (#[trigger] c[i]).priority == self.priority_of(i)
    }

    /// Whether emulator `i` is the first whose name is `name` but for the case of its
    /// letters.
    pub open spec fn first_named(&self, name: Seq<char>, i: int) -> bool {
        &&& 0 <= i < self.count()
        &&& same_name(self.name_of(i), name)
        &&& forall|k: int| 0 <= k < i ==> !same_name(#[trigger] self.name_of(k), name)
    }

    /// Whether no emulator has the name `name`, the case of letters set aside.
    pub open spec fn none_named(&self, name: Seq<char>) -> bool {
        forall|k: int| 0 <= k < self.count() ==> !same_name(#[trigger] self.name_of(k), name)
    }

    /// The emulators at the indexes `order`, in that order.
    pub open spec fn terminals_at(&self, order: Seq<int>) -> Seq<&dyn VisualTerminal>
        decreases order.len(),
    {
        if order.len() == 0 {
            Seq::empty()
        } else {
            self.terminals_at(order.drop_last()).push(self.terminal(order.last()))
        }
    }

    /// Emulator `i`, where there is one.
    fn get(&self, i: usize) -> (r: Option<&dyn VisualTerminal>)
        ensures
            match r {
                Some(t) => i < self.count() && t == self.terminal(i as int),
                None => i >= self.count(),
            },
    {
        if i < self.slots.len() {
            let t: &dyn VisualTerminal = &*self.slots[i].terminal;
            Some(t)
        } else {
            None
        }
    }

    /// The registry of the given emulators, in the order given. Each emulator is asked
    /// once for its name and its priority.
    pub fn with_terminals(terminals: Vec<Box<dyn VisualTerminal>>) -> (r: Self)
        ensures
            r.count() == terminals@.len(),
            r.emulators() == terminals@,
    {
        let mut rest = terminals;
        let mut turned: Vec<Slot<Box<dyn VisualTerminal>>> = Vec::new();
        while rest.len() > 0
            invariant
                rest@.len() + turned@.len() == terminals@.len(),
                forall|i: int| 0 <= i < rest@.len() ==> rest@[i] == terminals@[i],
                forall|i: int|
                    0 <= i < turned@.len() ==> (#[trigger] turned@[i]).terminal == terminals@[
                        terminals@.len() - 1 - i
                    ],
            decreases rest@.len(),
        {
            let ghost held = turned@;
            match rest.pop() {
                Some(t) => {
                    let name = t.name();
                    let priority = t.priority();
                    let slot = Slot::new(t, name, priority);
                    turned.push(slot);
                    assert(turned@[held.len() as int] == slot);
                    assert forall|i: int| 0 <= i < held.len() implies turned@[i] == held[i] by {}
                },
                None => {},
            }
        }
        let mut slots: Vec<Slot<Box<dyn VisualTerminal>>> = Vec::new();
        while turned.len() > 0
            invariant
                slots@.len() + turned@.len() == terminals@.len(),
                forall|i: int|
                    0 <= i < turned@.len() ==> (#[trigger] turned@[i]).terminal == terminals@[
                        terminals@.len() - 1 - i
                    ],
                forall|i: int|
                    0 <= i < slots@.len() ==> (#[trigger] slots@[i]).terminal == terminals@[i],
            decreases turned@.len(),
        {
            match turned.pop() {
                Some(slot) => {
                    slots.push(slot);
                },
                None => {},
            }
        }
        let r = TerminalRegistry { slots };
        proof {
            assert(r.emulators() =~= terminals@);
        }
        r
    }

    /// The number of emulators.
    pub fn len(&self) -> (n: usize)
        ensures
            n == self.count(),
    {
        self.slots.len()
    }

    /// What is known of the emulators now: for each its priority, and whether it is
    /// installed, as it answers now.
    pub fn candidates(&self) -> (c: Vec<Candidate>)
        ensures
            self.rates(c@),
    {
        let mut c: Vec<Candidate> = Vec::new();
        let mut i: usize = 0;
        while i < self.slots.len()
            invariant
                i <= self.slots.len(),
                c@.len() == i,
                forall|k: int| 0 <= k < i ==> (#[trigger] c@[k]).priority == self.priority_of(k),
            decreases self.slots.len() - i,
        {
            let slot = &self.slots[i];
            c.push(Candidate { available: slot.terminal.is_available(), priority: slot.priority });
            i += 1;
        }
        c
    }

    /// The indexes of the emulators that are available, highest priority first and, among
    /// equals, in the order of the registry: the ranking of the emulators as they answer
    /// now.
    pub fn available_indexes(&self) -> (order: Vec<usize>)
        ensures
            exists|c: Seq<Candidate>|
                {
                    &&& #[trigger] self.rates(c)
                    &&& order@.len() == ranking(c, c.len() as int).len()
                    &&& forall|k: int|
                        0 <= k < order@.len() ==> #[trigger] order@[k] as int == ranking(
                            c,
                            c.len() as int,
                        )[k]
                },
            forall|k: int| 0 <= k < order@.len() ==> (#[trigger] order@[k]) < self.count(),
    {
        let c = self.candidates();
        let order = rank_candidates(&c);
        assert(self.rates(c@));
        order
    }

    /// The emulators that are available, highest priority first and, among equals, in the
    /// order of the registry: those that the ranking names, as the emulators answer now.
    pub fn available_terminals(&self) -> (found: Vec<&dyn VisualTerminal>)
        ensures
            exists|c: Seq<Candidate>|
                {
                    &&& #[trigger] self.rates(c)
                    &&& found@ == self.terminals_at(ranking(c, c.len() as int))
                },
    {
        let c = self.candidates();
        let order = rank_candidates(&c);
        let ghost rank = ranking(c@, c@.len() as int);
        let mut found: Vec<&dyn VisualTerminal> = Vec::new();
        let mut k: usize = 0;
        assert(rank.take(0) =~= Seq::<int>::empty());
        while k < order.len()
            invariant
                k <= order.len(),
                order@.len() == rank.len(),
                c@.len() == self.count(),
                forall|j: int| 0 <= j < order@.len() ==> #[trigger] order@[j] as int == rank[j],
                forall|j: int| 0 <= j < order@.len() ==> (#[trigger] order@[j]) < c@.len(),
                found@ == self.terminals_at(rank.take(k as int)),
            decreases order.len() - k,
        {
            match self.get(order[k]) {
                Some(t) => {
                    found.push(t);
                },
                None => {},
            }
            proof {
                let next = rank.take(k + 1);
                assert(next.drop_last() =~= rank.take(k as int));
                assert(next.last() == rank[k as int]);
            }
            k += 1;
        }
        assert(rank.take(k as int) =~= rank);
        assert(self.rates(c@));
        found
    }

    /// The index of the emulator to open: the available one of the highest priority, the
    /// last of them where several have it, as the emulators answer now; `None` where
    /// none answers that it is available.
    pub fn find_best_index(&self) -> (r: Option<usize>)
        ensures
            exists|c: Seq<Candidate>|
                {
                    &&& #[trigger] self.rates(c)
                    &&& match r {
                        Some(i) => is_best(c, c.len() as int, i as int),
                        None => forall|k: int| 0 <= k < c.len() ==> !(#[trigger] c[k]).available,
                    }
                },
            r matches Some(i) ==> i < self.count(),
    {
        let c = self.candidates();
        let r = best_candidate(&c);
        assert(self.rates(c@));
        r
    }

    /// The emulator to open: the available one of the highest priority, the last of them
    /// where several have it, as the emulators answer now; `None` where none answers that
    /// it is available.
    pub fn find_best_terminal(&self) -> (r: Option<&dyn VisualTerminal>)
        ensures
            exists|c: Seq<Candidate>|
                {
                    &&& #[trigger] self.rates(c)
                    &&& match r {
                        Some(t) => exists|i: int|
                            #[trigger] is_best(c, c.len() as int, i) && t == self.terminal(i),
                        None => forall|k: int| 0 <= k < c.len() ==> !(#[trigger] c[k]).available,
                    }
                },
    {
        let c = self.candidates();
        let best = best_candidate(&c);
        assert(self.rates(c@));
        match best {
            Some(i) => {
                assert(is_best(c@, c@.len() as int, i as int));
                self.get(i)
            },
            None => None,
        }
    }

    /// The first emulator whose name is `name` but for the case of its letters; `None`
    /// exactly where no emulator has that name.
    pub fn find_terminal_by_name(&self, name: &str) -> (r: Option<&dyn VisualTerminal>)
        ensures
            match r {
                Some(t) => exists|i: int|
                    #[trigger] self.first_named(name@, i) && t == self.terminal(i),
                None => self.none_named(name@),
            },
    {
        match self.find_index_by_name(name) {
            Some(i) => {
                assert(self.first_named(name@, i as int));
                self.get(i)
            },
            None => None,
        }
    }

    /// The index of the first emulator whose name is `name` but for the case of its
    /// letters; `None` exactly where no emulator has that name.
    pub fn find_index_by_name(&self, name: &str) -> (r: Option<usize>)
        ensures
            match r {
                Some(i) => self.first_named(name@, i as int),
                None => self.none_named(name@),
            },
    {
        let mut i: usize = 0;
        while i < self.slots.len()
            invariant
                i <= self.slots.len(),
                forall|k: int| 0 <= k < i ==> !same_name(#[trigger] self.name_of(k), name@),
            decreases self.slots.len() - i,
        {
            if names_match(self.slots[i].name, name) {
                return Some(i);
            }
            i += 1;
        }
        None
    }

    /// The name of emulator `i`.
    pub fn name_at(&self, i: usize) -> (name: &'static str)
        requires
            i < self.count(),
        ensures
            name@ == self.name_of(i as int),
    {
        self.slots[i].name
    }

    /// The priority of emulator `i`.
    pub fn priority_at(&self, i: usize) -> (p: u8)
        requires
            i < self.count(),
        ensures
            p == self.priority_of(i as int),
    {
        self.slots[i].priority
    }

    /// Opens a window of the best emulator, that of `find_best_index`, and hands back what
    /// the emulator answers. Fails where none is available: in a registry without
    /// emulators always, and otherwise where none answers that it is. No other emulator is
    /// tried.
    pub fn spawn_best(&self, command: &str, args: &[String], dimensions: Dimensions) -> (r: Result<
        VisualTerminalHandle,
        Error,
    >)
        ensures
            self.count() == 0 ==> (r matches Err(Error::Other(m)) && m@
                == none_available_message()),
    {
        match best_choice(self.find_best_index()) {
            Ok(i) => self.slots[i].terminal.spawn(command, args, dimensions),
            Err(e) => Err(e),
        }
    }

    /// Opens a window of the first emulator named `terminal_name`, and hands back what the
    /// emulator answers. Fails where no emulator has that name, and where the one that has
    /// it answers that it is not available, as `named_choice` says. No other emulator is
    /// tried.
    pub fn spawn_with(
        &self,
        terminal_name: &str,
        command: &str,
        args: &[String],
        dimensions: Dimensions,
    ) -> (r: Result<VisualTerminalHandle, Error>)
        ensures
            self.none_named(terminal_name@) ==> (r matches Err(Error::Other(m)) && m@
                == not_found_message(terminal_name@)),
    {
        let found = self.find_index_by_name(terminal_name);
        let available = match found {
            Some(i) => self.slots[i].terminal.is_available(),
            None => false,
        };
        match named_choice(found, available, terminal_name) {
            Ok(i) => self.slots[i].terminal.spawn(command, args, dimensions),
            Err(e) => Err(e),
        }
    }
}

} // verus!
