//! What a session computes between reading from and writing to its terminal.

use vstd::prelude::*;
use crate::detection::DetectionPipeline;
use crate::element::TerminalStateTree;
use crate::error::Error;
use crate::geometry::{Bounds, Dimensions};
use crate::grid::{Grid, GridView};
use crate::key::{encodable, encoding, Key, parse_spec};
use crate::navigation::{NavigationCalculator, plan, PlanError};
use crate::output::{OutputBuffer, OutputRead, OutputView};
use crate::recording::{lossy_text, utf8_lossy};
use crate::parser::{Parser, vte_events};
use crate::snapshot::{found_by_run, take_snapshot};
use crate::text::{char_to_utf8, to_chars};

verus! {

/// The pause between two keys of a click where none is asked for, in milliseconds.
pub const DEFAULT_KEY_DELAY_MS: u64 = 50;

/// The pause after a key in visual mode, in milliseconds.
pub const VISUAL_KEY_SETTLE_MS: u64 = 10;

/// The screen and the raw output of a session.
#[derive(Debug)]
pub struct SessionCore {
    parser: Parser,
    output: OutputBuffer,
}

impl SessionCore {
    /// The screen.
    pub closed spec fn screen(&self) -> GridView {
        self.parser@
    }

    /// The raw output and its read mark.
    pub closed spec fn output(&self) -> OutputView {
        self.output@
    }

    /// The invariant of the core: that of its screen and of its output.
    pub closed spec fn wf(&self) -> bool {
        self.parser.wf() && self.output.wf()
    }

    /// The core of a session with a blank screen of the given size and no output.
    pub fn new(dimensions: Dimensions) -> (c: Self)
        ensures
            c.wf(),
            c.screen() == Grid::initial(dimensions),
            c.output().bytes.len() == 0,
            c.output().read == 0,
    {
        SessionCore { parser: Parser::new(Grid::new(dimensions)), output: OutputBuffer::new() }
    }

    /// Takes in what the terminal put out: the bytes are kept as raw output and fed to
    /// the emulator. Returns their number.
    pub fn absorb(&mut self, bytes: &[u8]) -> (count: usize)
        requires
            old(self).wf(),
        ensures
            final(self).wf(),
            count == bytes@.len(),
            final(self).output().bytes == old(self).output().bytes + bytes@,
            final(self).output().read == old(self).output().read,
            final(self).screen() == (if bytes@.len() > 0 {
                old(self).screen().apply_all(vte_events(bytes@))
            } else {
                old(self).screen()
            }),
    {
        let count = bytes.len();
        if count > 0 {
            self.output.append(bytes);
            self.parser.process(bytes);
        } else {
            assert(old(self).output().bytes + bytes@ =~= old(self).output().bytes);
        }
        count
    }

    /// Changes the size of the screen, keeping what both sizes have room for.
    pub fn resize(&mut self, dimensions: Dimensions)
        requires
            old(self).wf(),
        ensures
            final(self).wf(),
            final(self).screen() == old(self).screen().resized(dimensions),
            final(self).output() == old(self).output(),
    {
        self.parser.grid_mut().resize(dimensions);
    }

    /// Blanks the screen, as is done before a frame that redraws all of it.
    pub fn clear_screen(&mut self)
        requires
            old(self).wf(),
        ensures
            final(self).wf(),
            final(self).screen() == (GridView {
                cells: Seq::new(old(self).screen().cells.len(), |i: int| crate::cell::Cell::blank()),
                ..old(self).screen()
            }),
            final(self).output() == old(self).output(),
    {
        self.parser.grid_mut().clear();
    }

    /// The grid of the screen.
    pub fn grid(&self) -> (g: &Grid)
        ensures
            g@ == self.screen(),
    {
        self.parser.grid()
    }

    /// The tree of the screen as it stands.
    pub fn snapshot(&self, pipeline: &DetectionPipeline, session_id: String) -> (tree:
        TerminalStateTree)
        requires
            self.wf(),
        ensures
            tree.session_id == session_id,
            tree.dimensions == self.screen().dimensions,
            tree.cursor == self.screen().cursor.position,
            tree.raw_text@ == self.screen().region_text(
                Bounds {
                    row: 0,
                    col: 0,
                    width: self.screen().dimensions.cols,
                    height: self.screen().dimensions.rows,
                },
                self.screen().dimensions.rows as int,
            ),
            found_by_run(
                tree.elements@,
                pipeline.priorities().len(),
                self.screen().dimensions,
            ),
            pipeline.priorities().len() == 0 ==> tree.elements@.len() == 0,
            forall|i: int|
                0 <= i < tree.elements@.len() ==> (#[trigger] tree.elements@[i]).region().fits(
                    self.screen().dimensions,
                ),
            forall|i: int, j: int|
                0 <= i < j < tree.elements@.len() ==> (#[trigger] tree.elements@[i]).id() != (
                #[trigger] tree.elements@[j]).id(),
    {
        take_snapshot(self.parser.grid(), pipeline, session_id)
    }

    /// Reads the output: all of it or what has not been read yet, as text with its escape
    /// sequences, or else the text of the screen. Afterwards all of the output counts as
    /// read, so that nothing more is waiting.
    pub fn read_output(&mut self, since_last_read: bool, include_ansi: bool) -> (r: OutputRead)
        requires
            old(self).wf(),
        ensures
            final(self).wf(),
            r.bytes == (if since_last_read {
                old(self).output().bytes.len() - old(self).output().read
            } else {
                old(self).output().bytes.len() as int
            }),
            !r.has_more,
            r.output@ == (if include_ansi {
                utf8_lossy(
                    if since_last_read {
                        old(self).output().bytes.skip(old(self).output().read)
                    } else {
                        old(self).output().bytes
                    },
                )
            } else {
                old(self).screen().region_text(
                    Bounds {
                        row: 0,
                        col: 0,
                        width: old(self).screen().dimensions.cols,
                        height: old(self).screen().dimensions.rows,
                    },
                    old(self).screen().dimensions.rows as int,
                )
            }),
            final(self).output().bytes == old(self).output().bytes,
            final(self).output().read == old(self).output().bytes.len(),
            final(self).screen() == old(self).screen(),
    {
        let raw = self.read_raw(since_last_read);
        let has_more = self.output.unread_count() > 0;
        let output = if include_ansi {
            lossy_text(raw.as_slice())
        } else {
            self.parser.grid().to_plain_text()
        };
        OutputRead { output, bytes: raw.len(), has_more }
    }

    /// The raw output: all of it, or what has not been read yet. Afterwards all of it
    /// counts as read.
    pub fn read_raw(&mut self, since_last_read: bool) -> (bytes: Vec<u8>)
        requires
            old(self).wf(),
        ensures
            final(self).wf(),
            bytes@ == (if since_last_read {
                old(self).output().bytes.skip(old(self).output().read)
            } else {
                old(self).output().bytes
            }),
            final(self).output().bytes == old(self).output().bytes,
            final(self).output().read == old(self).output().bytes.len(),
            final(self).screen() == old(self).screen(),
    {
        if since_last_read {
            self.output.read_since_last()
        } else {
            self.output.read_all()
        }
    }
}

/// The bytes to write for the key that `text` names. Fails with invalid-key where the
/// text names no key, or a key that has no encoding.
pub fn key_bytes(text: &str) -> (r: Result<Vec<u8>, Error>)
    ensures
        match r {
            Ok(bytes) => parse_spec(text@) matches Some(k) && encodable(k) && bytes@
                == encoding(k),
            Err(e) => e is InvalidKey && match parse_spec(text@) {
                Some(k) => !encodable(k),
                None => true,
            },
        },
{
    match Key::parse(text) {
        Ok(key) => {
            if key.can_encode() {
                Ok(key.to_escape_sequence())
            } else {
                Err(Error::InvalidKey(String::from_str(text)))
            }
        },
        Err(e) => Err(e),
    }
}

/// The UTF-8 encodings of the characters, one for one.
pub open spec fn char_encodings(chars: Seq<char>) -> Seq<Seq<u8>> {
    Seq::new(chars.len(), |i: int| vstd::utf8::encode_utf8(seq![chars[i]]))
}

/// The bytes of a vector of byte vectors.
pub open spec fn byte_views(chunks: Seq<Vec<u8>>) -> Seq<Seq<u8>> {
    Seq::new(chunks.len(), |i: int| chunks[i]@)
}

/// What is written to type `text`: one write for each character where the typing is
/// paced, else a single write of the whole text. Returns the writes and the number of
/// characters.
pub fn text_writes(text: &str, paced: bool) -> (r: (Vec<Vec<u8>>, usize))
    ensures
        r.1 == text@.len(),
        byte_views(r.0@) == (if paced {
            char_encodings(text@)
        } else {
            seq![vstd::utf8::encode_utf8(text@)]
        }),
{
    let chars = to_chars(text);
    let mut writes: Vec<Vec<u8>> = Vec::new();
    if paced {
        let mut i: usize = 0;
        while i < chars.len()
            invariant
                i <= chars.len(),
                writes@.len() == i,
                forall|k: int|
                    0 <= k < i ==> (#[trigger] writes@[k])@ == vstd::utf8::encode_utf8(
                        seq![chars@[k]],
                    ),
            decreases chars.len() - i,
        {
            writes.push(char_to_utf8(chars[i]));
            i += 1;
        }
        assert(byte_views(writes@) =~= char_encodings(text@));
    } else {
        writes.push(text.as_bytes_vec());
        assert(byte_views(writes@) =~= seq![vstd::utf8::encode_utf8(text@)]);
    }
    (writes, chars.len())
}

/// One key of a click: its name and the bytes to write for it.
#[derive(Debug, Clone)]
pub struct KeyStroke {
    /// The name of the key.
    pub name: String,
    /// The bytes to write.
    pub bytes: Vec<u8>,
}

/// Whether the strokes are those of the keys, one for one.
pub open spec fn strokes_of(strokes: Seq<KeyStroke>, keys: Seq<Key>) -> bool {
    &&& strokes.len() == keys.len()
    &&& forall|i: int|
        0 <= i < strokes.len() ==> (#[trigger] strokes[i]).name@ == crate::key::display(keys[i])
            && strokes[i].bytes@ == encoding(keys[i])
}

/// The keys to send, with their bytes, to activate the element of `snapshot` with
/// reference `target_ref`. Fails as the plan does.
pub fn click_strokes(snapshot: &TerminalStateTree, target_ref: &str) -> (r: Result<
    Vec<KeyStroke>,
    Error,
>)
    ensures
        match r {
            Ok(strokes) => plan(snapshot.elements@, target_ref@) matches Ok(keys) && strokes_of(
                strokes@,
                keys,
            ),
            Err(e) => match plan(snapshot.elements@, target_ref@) {
                Err(PlanError::NotFound) => e matches Error::ElementNotFound(id) && id@
                    == target_ref@,
                Err(PlanError::NotClickable) => e matches Error::InvalidInput(text)
                    && crate::element::index_with_id(snapshot.elements@, 0, target_ref@)
                    matches Some(i) && text@ == crate::navigation::not_clickable(
                    snapshot.elements@[i].kind(),
                ),
                Ok(_) => false,
            },
        },
{
    let keys = match NavigationCalculator::new().calculate(snapshot, target_ref) {
        Ok(keys) => keys,
        Err(e) => {
            return Err(e);
        },
    };
    let mut strokes: Vec<KeyStroke> = Vec::new();
    let mut i: usize = 0;
    while i < keys.len()
        invariant
            i <= keys.len(),
            plan(snapshot.elements@, target_ref@) == Ok::<Seq<Key>, PlanError>(keys@),
            strokes_of(strokes@, keys@.take(i as int)),
        decreases keys.len() - i,
    {
        proof {
            lemma_plan_encodable(snapshot.elements@, target_ref@, i as int);
        }
        let stroke = KeyStroke { name: keys[i].to_string(), bytes: keys[i].to_escape_sequence() };
        strokes.push(stroke);
        i += 1;
    }
    assert(keys@.take(keys.len() as int) =~= keys@);
    Ok(strokes)
}

/// Every key of a plan has an encoding: plans hold arrows, Enter and Space only.
pub proof fn lemma_plan_encodable(elements: Seq<crate::element::Element>, target: Seq<char>, i: int)
    requires
        plan(elements, target) is Ok,
        0 <= i < plan(elements, target)->Ok_0.len(),
    ensures
        encodable(plan(elements, target)->Ok_0[i]),
{
}

/// Whether to pause after key `index` of `count`: after every key but the last, where
/// the pause is not zero.
pub fn pause_after(index: usize, count: usize, delay_ms: u64) -> (b: bool)
    ensures
        b == (index + 1 < count && delay_ms > 0),
{
    count > 0 && index < count - 1 && delay_ms > 0
}

/// The bytes written out for a reader: each as a backslash, an `x` and its two
/// hexadecimal digits.
pub open spec fn escaped(bytes: Seq<u8>, n: int) -> Seq<char>
    decreases n,
{
    if n <= 0 || n > bytes.len() {
        Seq::empty()
    } else {
        escaped(bytes, n - 1) + seq!['\\', 'x'] + crate::tmux::hex_pair(bytes[n - 1])
    }
}

/// The bytes written out for a reader.
pub fn escape_text(bytes: &[u8]) -> (text: String)
    ensures
        text@ == escaped(bytes@, bytes@.len() as int),
{
    let pairs = crate::tmux::hex_keys(bytes);
    let mut out: Vec<char> = Vec::new();
    let mut i: usize = 0;
    while i < bytes.len()
        invariant
            i <= bytes.len(),
            pairs@.len() == bytes@.len(),
            forall|k: int|
                0 <= k < pairs@.len() ==> (#[trigger] pairs@[k])@ == crate::tmux::hex_pair(bytes@[k]),
            out@ == escaped(bytes@, i as int),
        decreases bytes.len() - i,
    {
        out.push('\\');
        out.push('x');
        let pair = to_chars(pairs[i].as_str());
        crate::text::append_chars(&mut out, &pair);
        i += 1;
        assert(out@ =~= escaped(bytes@, i as int));
    }
    crate::text::from_chars(&out)
}

/// The stage of life of a running session.
#[derive(Debug, Clone, Copy, PartialEq, Eq, Structural)]
pub enum SessionStatus {
    /// The session runs.
    Running,
    /// The process of the session has ended by itself.
    Exited,
    /// The session was closed.
    Terminated,
}

impl SessionStatus {
    /// Whether the session takes operations: it does not once it is terminated, and the
    /// error then is session-terminated.
    pub fn check_open(&self) -> (r: Result<(), Error>)
        ensures
            r is Ok <==> *self != SessionStatus::Terminated,
            r matches Err(e) ==> e == Error::SessionTerminated,
    {
        match self {
            SessionStatus::Terminated => Err(Error::SessionTerminated),
            _ => Ok(()),
        }
    }
}

} // verus!
