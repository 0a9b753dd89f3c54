//! Recordings of sessions: the events, and the lines of a recording file.
//!
//! A recording file holds one line for the header and one line for each event. What
//! stands on a line is JSON and is written and read elsewhere; here the lines are put
//! together and taken apart.

use vstd::prelude::*;
use crate::error::Error;
use crate::geometry::Dimensions;
use crate::text::{
    append_chars, find_char, from_chars, index_of, is_blank, is_blank_chars, lemma_index_of, subvec,
    to_chars,
};

verus! {

/// The header of a recording.
#[derive(Debug, Clone)]
pub struct AsciinemaHeader {
    /// Version of the format; always 2.
    pub version: u8,
    /// Columns of the terminal.
    pub width: u16,
    /// Rows of the terminal.
    pub height: u16,
    /// When the recording was made, in seconds since the epoch.
    pub timestamp: Option<i64>,
    /// Environment variables of the session, as name and value.
    pub env: Option<Vec<(String, String)>>,
}

/// Which way the data of an event went.
#[derive(Debug, Clone, Copy, PartialEq, Eq, Structural)]
pub enum EventKind {
    /// From the terminal.
    Output,
    /// To the terminal.
    Input,
}

impl EventKind {
    /// The code of the kind in a recording: `o` for output, `i` for input.
    pub open spec fn code_spec(&self) -> Seq<char> {
        match *self {
            EventKind::Output => "o"@,
            EventKind::Input => "i"@,
        }
    }

    /// The code of the kind in a recording.
    pub fn code(&self) -> (c: &'static str)
        ensures
            c@ == self.code_spec(),
    {
        match self {
            EventKind::Output => "o",
            EventKind::Input => "i",
        }
    }

    /// The kind that `code` stands for; output for any code but `i`.
    pub fn from_code(code: &str) -> (k: Self)
        ensures
            k == (if code@ == "i"@ {
                EventKind::Input
            } else {
                EventKind::Output
            }),
    {
        if crate::text::str_eq(code, "i") {
            EventKind::Input
        } else {
            EventKind::Output
        }
    }
}

/// One event of a recording.
#[derive(Debug, Clone)]
pub struct RecordEvent {
    /// When the event happened, in microseconds from the start of the recording.
    pub time_us: u64,
    /// Which way the data went.
    pub kind: EventKind,
    /// The data as text.
    pub data: String,
}

/// The text of `bytes` with every invalid sequence replaced by the replacement character.
pub uninterp spec fn utf8_lossy(bytes: Seq<u8>) -> Seq<char>;

/// The text of `data`.
///
/// Stands for `String::from_utf8_lossy`: valid UTF-8 is decoded as it is, and invalid
/// sequences are replaced by the replacement character.
#[verifier::external_body]
pub(crate) fn lossy_text(data: &[u8]) -> (text: String)
    ensures
        text@ == utf8_lossy(data@),
        vstd::utf8::valid_utf8(data@) ==> text@ == vstd::utf8::decode_utf8(data@),
{
    String::from_utf8_lossy(data).into_owned()
}

/// The names and values of the pairs, as texts.
pub open spec fn pair_texts(pairs: Seq<(String, String)>) -> Seq<(Seq<char>, Seq<char>)> {
    Seq::new(pairs.len(), |i: int| (pairs[i].0@, pairs[i].1@))
}

/// Records what goes to and comes from a terminal.
#[derive(Debug)]
pub struct SessionRecorder {
    events: Vec<RecordEvent>,
    dimensions: Dimensions,
    env: Option<Vec<(String, String)>>,
}

impl SessionRecorder {
    /// The events recorded so far, in order.
    pub closed spec fn events(&self) -> Seq<RecordEvent> {
        self.events@
    }

    /// The size of the terminal recorded.
    pub closed spec fn size(&self) -> Dimensions {
        self.dimensions
    }

    /// The environment noted, if any, as names and values.
    pub closed spec fn environment(&self) -> Option<Seq<(Seq<char>, Seq<char>)>> {
        match self.env {
            Some(pairs) => Some(pair_texts(pairs@)),
            None => None,
        }
    }

    /// A recorder for a terminal of the given size, with nothing recorded.
    pub fn new(dimensions: Dimensions) -> (r: Self)
        ensures
            r.events().len() == 0,
            r.size() == dimensions,
            r.environment() is None,
    {
        SessionRecorder { events: Vec::new(), dimensions, env: None }
    }

    /// A recorder that also notes the environment of the session.
    pub fn with_env(dimensions: Dimensions, env: Vec<(String, String)>) -> (r: Self)
        ensures
            r.events().len() == 0,
            r.size() == dimensions,
            r.environment() == Some(pair_texts(env@)),
    {
        SessionRecorder { events: Vec::new(), dimensions, env: Some(env) }
    }

    /// Records the text `data` of kind `kind` at `elapsed_us` microseconds from the start:
    /// the event goes to the end of the recording.
    pub fn record_text(&mut self, kind: EventKind, data: String, elapsed_us: u64)
        ensures
            final(self).size() == old(self).size(),
            final(self).environment() == old(self).environment(),
            final(self).events() == old(self).events().push(
                RecordEvent { time_us: elapsed_us, kind, data },
            ),
    {
        self.events.push(RecordEvent { time_us: elapsed_us, kind, data });
    }

    /// Records `data` of kind `kind` at `elapsed_us` microseconds from the start, as text
    /// in which invalid sequences are replaced.
    pub fn record(&mut self, kind: EventKind, data: &[u8], elapsed_us: u64)
        ensures
            final(self).size() == old(self).size(),
            final(self).environment() == old(self).environment(),
            final(self).events().len() == old(self).events().len() + 1,
            final(self).events().drop_last() == old(self).events(),
            final(self).events().last().time_us == elapsed_us,
            final(self).events().last().kind == kind,
            final(self).events().last().data@ == utf8_lossy(data@),
    {
        let ghost before = self.events@;
        let text = lossy_text(data);
        self.record_text(kind, text, elapsed_us);
        assert(self.events@.drop_last() =~= before);
    }

    /// Records output of the terminal.
    pub fn record_output(&mut self, data: &[u8], elapsed_us: u64)
        ensures
            final(self).size() == old(self).size(),
            final(self).environment() == old(self).environment(),
            final(self).events().len() == old(self).events().len() + 1,
            final(self).events().drop_last() == old(self).events(),
            final(self).events().last().time_us == elapsed_us,
            final(self).events().last().kind == EventKind::Output,
            final(self).events().last().data@ == utf8_lossy(data@),
    {
        self.record(EventKind::Output, data, elapsed_us)
    }

    /// Records input to the terminal.
    pub fn record_input(&mut self, data: &[u8], elapsed_us: u64)
        ensures
            final(self).size() == old(self).size(),
            final(self).environment() == old(self).environment(),
            final(self).events().len() == old(self).events().len() + 1,
            final(self).events().drop_last() == old(self).events(),
            final(self).events().last().time_us == elapsed_us,
            final(self).events().last().kind == EventKind::Input,
            final(self).events().last().data@ == utf8_lossy(data@),
    {
        self.record(EventKind::Input, data, elapsed_us)
    }

    /// The number of events recorded.
    pub fn event_count(&self) -> (n: usize)
        ensures
            n == self.events().len(),
    {
        self.events.len()
    }

    /// The time of the last event, in microseconds; zero where nothing is recorded.
    pub fn duration_us(&self) -> (d: u64)
        ensures
            d == (if self.events().len() > 0 {
                self.events().last().time_us
            } else {
                0
            }),
    {
        if self.events.len() > 0 {
            self.events[self.events.len() - 1].time_us
        } else {
            0
        }
    }

    /// Event `i`.
    pub fn event(&self, i: usize) -> (e: &RecordEvent)
        requires
            i < self.events().len(),
        ensures
            *e == self.events()[i as int],
    {
        &self.events[i]
    }

    /// The header of the recording, made at `timestamp` seconds since the epoch: version
    /// 2, the width and height of the terminal.
    pub fn header(&self, timestamp: i64) -> (h: AsciinemaHeader)
        ensures
            h.version == 2,
            h.width == self.size().cols,
            h.height == self.size().rows,
            h.timestamp == Some(timestamp),
            match h.env {
                Some(pairs) => self.environment() == Some(pair_texts(pairs@)),
                None => self.environment() is None,
            },
    {
        let env = match &self.env {
            Some(pairs) => {
                let mut copy: Vec<(String, String)> = Vec::new();
                let mut i: usize = 0;
                while i < pairs.len()
                    invariant
                        i <= pairs.len(),
                        copy@.len() == i,
                        forall|k: int|
                            0 <= k < i ==> (#[trigger] copy@[k]).0@ == pairs@[k].0@ && copy@[k].1@
                                == pairs@[k].1@,
                    decreases pairs.len() - i,
                {
                    copy.push((pairs[i].0.clone(), pairs[i].1.clone()));
                    i += 1;
                }
                assert(pair_texts(copy@) =~= pair_texts(pairs@));
                Some(copy)
            },
            None => None,
        };
        AsciinemaHeader {
            version: 2,
            width: self.dimensions.cols,
            height: self.dimensions.rows,
            timestamp: Some(timestamp),
            env,
        }
    }
}

/// The first `n` lines, each followed by a line feed.
pub open spec fn joined(lines: Seq<Seq<char>>, n: int) -> Seq<char>
    decreases n,
{
    if n <= 0 || n > lines.len() {
        Seq::empty()
    } else {
        joined(lines, n - 1) + lines[n - 1] + seq!['\n']
    }
}

/// The line without a carriage return at its end.
pub open spec fn strip_cr(line: Seq<char>) -> Seq<char> {
    if line.len() > 0 && line.last() == '\r' {
        line.drop_last()
    } else {
        line
    }
}

/// The lines of `s` from index `from` on: the text is cut at each line feed, a carriage
/// return before a line feed goes with it, and nothing follows the last line feed of a
/// text that ends with one.
pub open spec fn lines_from(s: Seq<char>, from: int) -> Seq<Seq<char>>
    decreases s.len() - from,
{
    if from < 0 || from >= s.len() {
        Seq::empty()
    } else {
        match index_of(s, from, '\n') {
            Some(i) => if from <= i < s.len() {
                seq![strip_cr(s.subrange(from, i))] + lines_from(s, i + 1)
            } else {
                Seq::empty()
            },
            None => seq![strip_cr(s.subrange(from, s.len() as int))],
        }
    }
}

/// Those of the first `n` of `lines` that are not blank.
pub open spec fn filled(lines: Seq<Seq<char>>, n: int) -> Seq<Seq<char>>
    decreases n,
{
    if n <= 0 || n > lines.len() {
        Seq::empty()
    } else if is_blank(lines[n - 1]) {
        filled(lines, n - 1)
    } else {
        filled(lines, n - 1).push(lines[n - 1])
    }
}

/// The texts of the strings.
pub open spec fn line_texts(lines: Seq<String>) -> Seq<Seq<char>> {
    Seq::new(lines.len(), |i: int| lines[i]@)
}

/// Whether a line can stand in a file as it is: it holds no line feed and does not end
/// with a carriage return.
pub open spec fn is_plain_line(line: Seq<char>) -> bool {
    &&& forall|i: int| 0 <= i < line.len() ==> #[trigger] line[i] != '\n'
    &&& !(line.len() > 0 && line.last() == '\r')
}

/// The text of the first `a` lines begins the text of the first `b`.
proof fn lemma_joined_prefix(lines: Seq<Seq<char>>, a: int, b: int)
    requires
        0 <= a <= b <= lines.len(),
    ensures
        joined(lines, a).len() <= joined(lines, b).len(),
        joined(lines, b).take(joined(lines, a).len() as int) == joined(lines, a),
    decreases b - a,
{
    if a < b {
        lemma_joined_prefix(lines, a, b - 1);
        let shorter = joined(lines, b - 1);
        let longer = joined(lines, b);
        assert(longer =~= shorter + lines[b - 1] + seq!['\n']);
        assert(longer.take(joined(lines, a).len() as int) =~= shorter.take(
            joined(lines, a).len() as int,
        ));
    } else {
        assert(joined(lines, b).take(joined(lines, a).len() as int) =~= joined(lines, a));
    }
}

/// Taking apart the text of `n` plain lines from line `k` on gives the lines from `k` on.
proof fn lemma_lines_of_joined(lines: Seq<Seq<char>>, n: int, k: int)
    requires
        0 <= k <= n <= lines.len(),
        forall|i: int| 0 <= i < n ==> is_plain_line(#[trigger] lines[i]),
    ensures
        lines_from(joined(lines, n), joined(lines, k).len() as int) == lines.subrange(k, n),
    decreases n - k,
{
    let text = joined(lines, n);
    let at = joined(lines, k).len() as int;
    lemma_joined_prefix(lines, k, n);
    if k == n {
        assert(lines.subrange(k, n) =~= Seq::<Seq<char>>::empty());
    } else {
        lemma_joined_prefix(lines, k + 1, n);
        lemma_lines_of_joined(lines, n, k + 1);
        let line = lines[k];
        let next = joined(lines, k + 1);
        assert(next =~= joined(lines, k) + line + seq!['\n']);
        assert(is_plain_line(line));
        assert forall|j: int| 0 <= j < next.len() implies text[j] == next[j] by {
            assert(text.take(next.len() as int)[j] == text[j]);
        }
        assert forall|j: int| 0 <= j < line.len() implies text[at + j] == line[j] by {
            assert(next[at + j] == line[j]);
        }
        assert(text[at + line.len()] == '\n') by {
            assert(next[at + line.len()] == '\n');
        }
        lemma_index_of(text, at, '\n');
        let found = index_of(text, at, '\n');
        assert(found == Some(at + line.len())) by {
            match found {
                Some(i) => {
                    if i < at + line.len() {
                        assert(text[i] == line[i - at]);
                    }
                },
                None => {},
            }
        }
        assert(text.subrange(at, at + line.len()) =~= line);
        assert(lines.subrange(k, n) =~= seq![line] + lines.subrange(k + 1, n));
    }
}

/// Round trip of the lines of a recording: taking apart the text that plain lines were
/// put together to gives the lines back.
pub proof fn law_lines_round_trip(lines: Seq<Seq<char>>)
    requires
        forall|i: int| 0 <= i < lines.len() ==> is_plain_line(#[trigger] lines[i]),
    ensures
        lines_from(joined(lines, lines.len() as int), 0) == lines,
{
    lemma_lines_of_joined(lines, lines.len() as int, 0);
    assert(joined(lines, 0) =~= Seq::<char>::empty());
    assert(lines.subrange(0, lines.len() as int) =~= lines);
}

/// The text of a recording file: the line of the header and the lines of the events,
/// each followed by a line feed.
pub fn recording_text(header: &str, events: &Vec<String>) -> (text: String)
    ensures
        text@ == joined(seq![header@] + line_texts(events@), events@.len() as int + 1),
{
    let ghost lines = seq![header@] + line_texts(events@);
    let mut out = to_chars(header);
    out.push('\n');
    assert(joined(lines, 0) =~= Seq::<char>::empty());
    assert(out@ =~= joined(lines, 1));
    let mut i: usize = 0;
    while i < events.len()
        invariant
            i <= events.len(),
            lines == seq![header@] + line_texts(events@),
            out@ == joined(lines, i + 1),
        decreases events.len() - i,
    {
        let line = to_chars(events[i].as_str());
        assert(lines[i + 1] == events@[i as int]@);
        append_chars(&mut out, &line);
        out.push('\n');
        i += 1;
    }
    from_chars(&out)
}

/// The lines of `content`.
pub fn split_lines(content: &str) -> (lines: Vec<String>)
    ensures
        line_texts(lines@) == lines_from(content@, 0),
{
    let s = to_chars(content);
    let mut lines: Vec<String> = Vec::new();
    let mut from: usize = 0;
    assert(line_texts(lines@) =~= Seq::<Seq<char>>::empty());
    while from < s.len()
        invariant
            from <= s.len(),
            s@ == content@,
            line_texts(lines@) + lines_from(s@, from as int) == lines_from(s@, 0),
        decreases s.len() - from,
    {
        proof {
            lemma_index_of(s@, from as int, '\n');
        }
        let end = match find_char(&s, from, '\n') {
            Some(i) => i,
            None => s.len(),
        };
        let mut stop = end;
        if stop > from && s[stop - 1] == '\r' {
            stop -= 1;
        }
        let piece = subvec(&s, from, stop);
        let ghost before = line_texts(lines@);
        let ghost rest = lines_from(s@, from as int);
        assert(piece@ =~= strip_cr(s@.subrange(from as int, end as int)));
        lines.push(from_chars(&piece));
        proof {
            assert(line_texts(lines@) =~= before.push(piece@));
            if end < s.len() {
                assert(rest =~= seq![piece@] + lines_from(s@, end + 1));
                assert(before.push(piece@) + lines_from(s@, end + 1) =~= before + rest);
            } else {
                assert(rest =~= seq![piece@]);
                assert(lines_from(s@, s.len() as int) =~= Seq::<Seq<char>>::empty());
                assert(before.push(piece@) + lines_from(s@, s.len() as int) =~= before + rest);
            }
        }
        from = if end < s.len() {
            end + 1
        } else {
            s.len()
        };
    }
    assert(lines_from(s@, from as int) =~= Seq::<Seq<char>>::empty());
    assert(line_texts(lines@) + Seq::<Seq<char>>::empty() =~= line_texts(lines@));
    lines
}

/// The line of the header and the lines of the events of a recording file: the first
/// line, and those of the lines after it that are not blank. Fails with a parse error
/// exactly where the file has no line.
pub fn split_recording(content: &str) -> (r: Result<(String, Vec<String>), Error>)
    ensures
        match r {
            Ok((header, events)) => lines_from(content@, 0).len() > 0 && header@ == lines_from(
                content@,
                0,
            )[0] && line_texts(events@) == filled(
                lines_from(content@, 0).skip(1),
                lines_from(content@, 0).len() - 1,
            ),
            Err(e) => lines_from(content@, 0).len() == 0 && e is ParseError,
        },
{
    let lines = split_lines(content);
    if lines.len() == 0 {
        return Err(Error::ParseError(String::from_str("Empty recording file")));
    }
    let ghost all = lines_from(content@, 0);
    assert(all[0] == lines@[0]@);
    let header = lines[0].clone();
    let mut events: Vec<String> = Vec::new();
    let mut i: usize = 1;
    assert(line_texts(events@) =~= filled(all.skip(1), 0));
    while i < lines.len()
        invariant
            1 <= i <= lines.len(),
            all == line_texts(lines@),
            line_texts(events@) == filled(all.skip(1), i - 1),
        decreases lines.len() - i,
    {
        let chars = to_chars(lines[i].as_str());
        let ghost before = line_texts(events@);
        assert(all.skip(1)[i - 1] == lines@[i as int]@);
        if !is_blank_chars(&chars) {
            events.push(lines[i].clone());
            assert(line_texts(events@) =~= before.push(lines@[i as int]@));
        }
        i += 1;
    }
    Ok((header, events))
}

} // verus!
