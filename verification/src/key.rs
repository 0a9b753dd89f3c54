//! Keys: their textual names and the bytes a terminal receives for them.

use vstd::prelude::*;
use vstd::utf8::encode_utf8;
use crate::error::Error;
use crate::text::{
    append_bytes, ascii_lower, char_to_utf8, chars_are, from_chars, has_prefix, lemma_trim,
    starts_with, subvec, to_ascii_lower, to_chars, trim, trim_chars,
};

verus! {

/// A key of the keyboard, possibly with modifiers.
#[derive(Debug, PartialEq, Eq)]
pub enum Key {
    /// A character key.
    Char(char),
    /// Arrow up.
    Up,
    /// Arrow down.
    Down,
    /// Arrow left.
    Left,
    /// Arrow right.
    Right,
    /// Home.
    Home,
    /// End.
    End,
    /// Page up.
    PageUp,
    /// Page down.
    PageDown,
    /// Enter, also called Return.
    Enter,
    /// Tab.
    Tab,
    /// Escape.
    Escape,
    /// Backspace.
    Backspace,
    /// Delete.
    Delete,
    /// Space bar.
    Space,
    /// Insert.
    Insert,
    /// Function key 1.
    F1,
    /// Function key 2.
    F2,
    /// Function key 3.
    F3,
    /// Function key 4.
    F4,
    /// Function key 5.
    F5,
    /// Function key 6.
    F6,
    /// Function key 7.
    F7,
    /// Function key 8.
    F8,
    /// Function key 9.
    F9,
    /// Function key 10.
    F10,
    /// Function key 11.
    F11,
    /// Function key 12.
    F12,
    /// Control with a character.
    Ctrl(char),
    /// Alt with a character.
    Alt(char),
    /// Shift with another key.
    Shift(Box<Key>),
    /// Control and Alt with a character.
    CtrlAlt(char),
}

/// The key that a name denotes, aliases included; `None` for any other text.
pub open spec fn named_key(t: Seq<char>) -> Option<Key> {
    if t == "Enter"@ || t == "Return"@ {
        Some(Key::Enter)
    } else if t == "Tab"@ {
        Some(Key::Tab)
    } else if t == "Escape"@ || t == "Esc"@ {
        Some(Key::Escape)
    } else if t == "Backspace"@ {
        Some(Key::Backspace)
    } else if t == "Delete"@ || t == "Del"@ {
        Some(Key::Delete)
    } else if t == "Space"@ {
        Some(Key::Space)
    } else if t == "Insert"@ || t == "Ins"@ {
        Some(Key::Insert)
    } else if t == "Up"@ {
        Some(Key::Up)
    } else if t == "Down"@ {
        Some(Key::Down)
    } else if t == "Left"@ {
        Some(Key::Left)
    } else if t == "Right"@ {
        Some(Key::Right)
    } else if t == "Home"@ {
        Some(Key::Home)
    } else if t == "End"@ {
        Some(Key::End)
    } else if t == "PageUp"@ || t == "PgUp"@ {
        Some(Key::PageUp)
    } else if t == "PageDown"@ || t == "PgDn"@ {
        Some(Key::PageDown)
    } else if t == "F1"@ {
        Some(Key::F1)
    } else if t == "F2"@ {
        Some(Key::F2)
    } else if t == "F3"@ {
        Some(Key::F3)
    } else if t == "F4"@ {
        Some(Key::F4)
    } else if t == "F5"@ {
        Some(Key::F5)
    } else if t == "F6"@ {
        Some(Key::F6)
    } else if t == "F7"@ {
        Some(Key::F7)
    } else if t == "F8"@ {
        Some(Key::F8)
    } else if t == "F9"@ {
        Some(Key::F9)
    } else if t == "F10"@ {
        Some(Key::F10)
    } else if t == "F11"@ {
        Some(Key::F11)
    } else if t == "F12"@ {
        Some(Key::F12)
    } else {
        None
    }
}

/// The key that a text without surrounding white space denotes.
///
/// `Ctrl+` and `Alt+` take the character that follows; `Shift+` takes the key that the
/// rest of the text denotes; otherwise the text is a key's name or a single character.
pub open spec fn parse_trimmed(t: Seq<char>) -> Option<Key>
    decreases t.len(),
{
    if has_prefix(t, "Ctrl+"@) && t.len() >= 5 {
        if t.len() > 5 {
            Some(Key::Ctrl(ascii_lower(t[5])))
        } else {
            None
        }
    } else if has_prefix(t, "Alt+"@) && t.len() >= 4 {
        if t.len() > 4 {
            Some(Key::Alt(t[4]))
        } else {
            None
        }
    } else if has_prefix(t, "Shift+"@) && t.len() >= 6 {
        let rest = trim(t.skip(6));
        if rest.len() < t.len() {
            match parse_trimmed(rest) {
                Some(k) => Some(Key::Shift(Box::new(k))),
                None => None,
            }
        } else {
            None
        }
    } else {
        match named_key(t) {
            Some(k) => Some(k),
            None => if t.len() == 1 {
                Some(Key::Char(t[0]))
            } else {
                None
            },
        }
    }
}

/// The key that the text `s` denotes, if any. White space around the text is ignored.
pub open spec fn parse_spec(s: Seq<char>) -> Option<Key> {
    parse_trimmed(trim(s))
}

/// The byte that Control with `c` sends: `a` gives 1, `b` gives 2, and so on, upper-case
/// letters counting as lower-case.
pub open spec fn ctrl_code(c: char) -> u8 {
    (ascii_lower(c) as u32 - 0x61 + 1) as u8
}

/// Whether Control with `c` has a code: `c` is an ASCII character from `a` on, or an
/// upper-case letter.
pub open spec fn has_ctrl_code(c: char) -> bool {
    (c as u32) < 0x80 && ascii_lower(c) as u32 >= 0x61
}

/// Whether the key has an encoding: its Control characters, if any, have codes.
pub open spec fn encodable(k: Key) -> bool
    decreases k,
{
    match k {
        Key::Ctrl(c) => has_ctrl_code(c),
        Key::CtrlAlt(c) => has_ctrl_code(c),
        Key::Shift(inner) => encodable(*inner),
        _ => true,
    }
}

/// The bytes that a terminal receives for the key.
pub open spec fn encoding(k: Key) -> Seq<u8>
    decreases k,
{
    match k {
        Key::Char(c) => encode_utf8(seq![c]),
        Key::Enter => seq![0x0du8],
        Key::Tab => seq![0x09u8],
        Key::Escape => seq![0x1bu8],
        Key::Backspace => seq![0x7fu8],
        Key::Delete => seq![0x1bu8, 0x5b, 0x33, 0x7e],
        Key::Space => seq![0x20u8],
        Key::Insert => seq![0x1bu8, 0x5b, 0x32, 0x7e],
        Key::Up => seq![0x1bu8, 0x5b, 0x41],
        Key::Down => seq![0x1bu8, 0x5b, 0x42],
        Key::Right => seq![0x1bu8, 0x5b, 0x43],
        Key::Left => seq![0x1bu8, 0x5b, 0x44],
        Key::Home => seq![0x1bu8, 0x5b, 0x48],
        Key::End => seq![0x1bu8, 0x5b, 0x46],
        Key::PageUp => seq![0x1bu8, 0x5b, 0x35, 0x7e],
        Key::PageDown => seq![0x1bu8, 0x5b, 0x36, 0x7e],
        Key::F1 => seq![0x1bu8, 0x4f, 0x50],
        Key::F2 => seq![0x1bu8, 0x4f, 0x51],
        Key::F3 => seq![0x1bu8, 0x4f, 0x52],
        Key::F4 => seq![0x1bu8, 0x4f, 0x53],
        Key::F5 => seq![0x1bu8, 0x5b, 0x31, 0x35, 0x7e],
        Key::F6 => seq![0x1bu8, 0x5b, 0x31, 0x37, 0x7e],
        Key::F7 => seq![0x1bu8, 0x5b, 0x31, 0x38, 0x7e],
        Key::F8 => seq![0x1bu8, 0x5b, 0x31, 0x39, 0x7e],
        Key::F9 => seq![0x1bu8, 0x5b, 0x32, 0x30, 0x7e],
        Key::F10 => seq![0x1bu8, 0x5b, 0x32, 0x31, 0x7e],
        Key::F11 => seq![0x1bu8, 0x5b, 0x32, 0x33, 0x7e],
        Key::F12 => seq![0x1bu8, 0x5b, 0x32, 0x34, 0x7e],
        Key::Ctrl(c) => seq![ctrl_code(c)],
        Key::Alt(c) => seq![0x1bu8] + encode_utf8(seq![c]),
        Key::Shift(inner) => match *inner {
            Key::Tab => seq![0x1bu8, 0x5b, 0x5a],
            Key::Up => seq![0x1bu8, 0x5b, 0x31, 0x3b, 0x32, 0x41],
            Key::Down => seq![0x1bu8, 0x5b, 0x31, 0x3b, 0x32, 0x42],
            Key::Right => seq![0x1bu8, 0x5b, 0x31, 0x3b, 0x32, 0x43],
            Key::Left => seq![0x1bu8, 0x5b, 0x31, 0x3b, 0x32, 0x44],
            _ => encoding(*inner),
        },
        Key::CtrlAlt(c) => seq![0x1bu8, ctrl_code(c)],
    }
}

/// The text under which the key is shown.
pub open spec fn display(k: Key) -> Seq<char>
    decreases k,
{
    match k {
        Key::Char(c) => seq![c],
        Key::Up => "Up"@,
        Key::Down => "Down"@,
        Key::Left => "Left"@,
        Key::Right => "Right"@,
        Key::Home => "Home"@,
        Key::End => "End"@,
        Key::PageUp => "PageUp"@,
        Key::PageDown => "PageDown"@,
        Key::Enter => "Enter"@,
        Key::Tab => "Tab"@,
        Key::Escape => "Escape"@,
        Key::Backspace => "Backspace"@,
        Key::Delete => "Delete"@,
        Key::Space => "Space"@,
        Key::Insert => "Insert"@,
        Key::F1 => "F1"@,
        Key::F2 => "F2"@,
        Key::F3 => "F3"@,
        Key::F4 => "F4"@,
        Key::F5 => "F5"@,
        Key::F6 => "F6"@,
        Key::F7 => "F7"@,
        Key::F8 => "F8"@,
        Key::F9 => "F9"@,
        Key::F10 => "F10"@,
        Key::F11 => "F11"@,
        Key::F12 => "F12"@,
        Key::Ctrl(c) => "Ctrl+"@.push(c),
        Key::Alt(c) => "Alt+"@.push(c),
        Key::Shift(inner) => "Shift+"@ + display(*inner),
        Key::CtrlAlt(c) => "Ctrl+Alt+"@.push(c),
    }
}

/// Whether the key is one of the keys that have a name: a navigation key, an action key
/// or a function key.
pub open spec fn is_named(k: Key) -> bool {
    match k {
        Key::Char(_) | Key::Ctrl(_) | Key::Alt(_) | Key::Shift(_) | Key::CtrlAlt(_) => false,
        _ => true,
    }
}


/// A text that neither starts nor ends with white space is its own trimmed form.
pub proof fn lemma_trim_identity(s: Seq<char>)
    requires
        s.len() > 0,
        !crate::text::is_whitespace(s[0]),
        !crate::text::is_whitespace(s.last()),
    ensures
        trim(s) == s,
{
    assert(crate::text::skip_ws(s, 0) == 0);
    assert(crate::text::trim_start(s) =~= s);
    assert(crate::text::skip_ws_back(s, s.len() as int) == s.len());
    assert(trim(s) =~= s);
}

/// Where `p` is a prefix of `t`, the two agree on every index of `p`.
pub proof fn lemma_prefix_chars(t: Seq<char>, p: Seq<char>)
    requires
        has_prefix(t, p),
    ensures
        forall|i: int| 0 <= i < p.len() ==> t[i] == #[trigger] p[i],
{
    assert forall|i: int| 0 <= i < p.len() implies t[i] == #[trigger] p[i] by {
        assert(t.take(p.len() as int)[i] == t[i]);
    }
}

/// Round trip of the named keys: the text under which a navigation, action or function
/// key is shown denotes that key.
pub proof fn law_named_key_round_trip(k: Key)
    requires
        is_named(k),
    ensures
        parse_spec(display(k)) == Some(k),
{
    reveal_strlit("Ctrl+");
    reveal_strlit("Alt+");
    reveal_strlit("Shift+");
    reveal_strlit("Enter");
    reveal_strlit("Return");
    reveal_strlit("Tab");
    reveal_strlit("Escape");
    reveal_strlit("Esc");
    reveal_strlit("Backspace");
    reveal_strlit("Delete");
    reveal_strlit("Del");
    reveal_strlit("Space");
    reveal_strlit("Insert");
    reveal_strlit("Ins");
    reveal_strlit("Up");
    reveal_strlit("Down");
    reveal_strlit("Left");
    reveal_strlit("Right");
    reveal_strlit("Home");
    reveal_strlit("End");
    reveal_strlit("PageUp");
    reveal_strlit("PgUp");
    reveal_strlit("PageDown");
    reveal_strlit("PgDn");
    reveal_strlit("F1");
    reveal_strlit("F2");
    reveal_strlit("F3");
    reveal_strlit("F4");
    reveal_strlit("F5");
    reveal_strlit("F6");
    reveal_strlit("F7");
    reveal_strlit("F8");
    reveal_strlit("F9");
    reveal_strlit("F10");
    reveal_strlit("F11");
    reveal_strlit("F12");
    let t = display(k);
    lemma_trim_identity(t);
    if has_prefix(t, "Ctrl+"@) {
        lemma_prefix_chars(t, "Ctrl+"@);
    }
    if has_prefix(t, "Alt+"@) {
        lemma_prefix_chars(t, "Alt+"@);
    }
    if has_prefix(t, "Shift+"@) {
        lemma_prefix_chars(t, "Shift+"@);
    }
    assert(named_key(t) == Some(k));
}

/// The byte that Control with `c` sends.
fn ctrl_byte(c: char) -> (b: u8)
    requires
        has_ctrl_code(c),
    ensures
        b == ctrl_code(c),
{
    let lower = to_ascii_lower(c);
    (lower as u32 - 0x61 + 1) as u8
}

/// The key that a name denotes.
fn lookup_name(t: &Vec<char>) -> (r: Option<Key>)
    ensures
        r == named_key(t@),
{
    if chars_are(t, "Enter") || chars_are(t, "Return") {
        Some(Key::Enter)
    } else if chars_are(t, "Tab") {
        Some(Key::Tab)
    } else if chars_are(t, "Escape") || chars_are(t, "Esc") {
        Some(Key::Escape)
    } else if chars_are(t, "Backspace") {
        Some(Key::Backspace)
    } else if chars_are(t, "Delete") || chars_are(t, "Del") {
        Some(Key::Delete)
    } else if chars_are(t, "Space") {
        Some(Key::Space)
    } else if chars_are(t, "Insert") || chars_are(t, "Ins") {
        Some(Key::Insert)
    } else if chars_are(t, "Up") {
        Some(Key::Up)
    } else if chars_are(t, "Down") {
        Some(Key::Down)
    } else if chars_are(t, "Left") {
        Some(Key::Left)
    } else if chars_are(t, "Right") {
        Some(Key::Right)
    } else if chars_are(t, "Home") {
        Some(Key::Home)
    } else if chars_are(t, "End") {
        Some(Key::End)
    } else if chars_are(t, "PageUp") || chars_are(t, "PgUp") {
        Some(Key::PageUp)
    } else if chars_are(t, "PageDown") || chars_are(t, "PgDn") {
        Some(Key::PageDown)
    } else if chars_are(t, "F1") {
        Some(Key::F1)
    } else if chars_are(t, "F2") {
        Some(Key::F2)
    } else if chars_are(t, "F3") {
        Some(Key::F3)
    } else if chars_are(t, "F4") {
        Some(Key::F4)
    } else if chars_are(t, "F5") {
        Some(Key::F5)
    } else if chars_are(t, "F6") {
        Some(Key::F6)
    } else if chars_are(t, "F7") {
        Some(Key::F7)
    } else if chars_are(t, "F8") {
        Some(Key::F8)
    } else if chars_are(t, "F9") {
        Some(Key::F9)
    } else if chars_are(t, "F10") {
        Some(Key::F10)
    } else if chars_are(t, "F11") {
        Some(Key::F11)
    } else if chars_are(t, "F12") {
        Some(Key::F12)
    } else {
        None
    }
}

/// The key that a text without surrounding white space denotes.
fn parse_chars(t: &Vec<char>) -> (r: Option<Key>)
    ensures
        r == parse_trimmed(t@),
    decreases t@.len(),
{
    let ctrl = to_chars("Ctrl+");
    let alt = to_chars("Alt+");
    let shift = to_chars("Shift+");
    if starts_with(t, &ctrl) && t.len() >= 5 {
        if t.len() > 5 {
            Some(Key::Ctrl(to_ascii_lower(t[5])))
        } else {
            None
        }
    } else if starts_with(t, &alt) && t.len() >= 4 {
        if t.len() > 4 {
            Some(Key::Alt(t[4]))
        } else {
            None
        }
    } else if starts_with(t, &shift) && t.len() >= 6 {
        let tail = subvec(t, 6, t.len());
        let rest = trim_chars(&tail);
        proof {
            assert(tail@ =~= t@.skip(6));
            lemma_trim(tail@);
        }
        if rest.len() < t.len() {
            match parse_chars(&rest) {
                Some(k) => Some(Key::Shift(Box::new(k))),
                None => None,
            }
        } else {
            None
        }
    } else {
        match lookup_name(t) {
            Some(k) => Some(k),
            None => if t.len() == 1 {
                Some(Key::Char(t[0]))
            } else {
                None
            },
        }
    }
}

/// The byte vector holding `a`, `b`, `c`.
fn bytes3(a: u8, b: u8, c: u8) -> (v: Vec<u8>)
    ensures
        v@ == seq![a, b, c],
{
    let mut v: Vec<u8> = Vec::new();
    v.push(a);
    v.push(b);
    v.push(c);
    assert(v@ =~= seq![a, b, c]);
    v
}

/// The byte vector holding `a`, `b`, `c`, `d`.
fn bytes4(a: u8, b: u8, c: u8, d: u8) -> (v: Vec<u8>)
    ensures
        v@ == seq![a, b, c, d],
{
    let mut v = bytes3(a, b, c);
    v.push(d);
    assert(v@ =~= seq![a, b, c, d]);
    v
}

/// The byte vector holding `a`, `b`, `c`, `d`, `e`.
fn bytes5(a: u8, b: u8, c: u8, d: u8, e: u8) -> (v: Vec<u8>)
    ensures
        v@ == seq![a, b, c, d, e],
{
    let mut v = bytes4(a, b, c, d);
    v.push(e);
    assert(v@ =~= seq![a, b, c, d, e]);
    v
}

/// The byte vector holding the one byte `a`.
fn bytes1(a: u8) -> (v: Vec<u8>)
    ensures
        v@ == seq![a],
{
    let mut v: Vec<u8> = Vec::new();
    v.push(a);
    assert(v@ =~= seq![a]);
    v
}

/// The encoding of Shift with an arrow key whose final byte is `last`.
fn shifted_arrow(last: u8) -> (v: Vec<u8>)
    ensures
        v@ == seq![0x1bu8, 0x5b, 0x31, 0x3b, 0x32, last],
{
    let mut v = bytes5(0x1b, 0x5b, 0x31, 0x3b, 0x32);
    v.push(last);
    assert(v@ =~= seq![0x1bu8, 0x5b, 0x31, 0x3b, 0x32, last]);
    v
}

impl Clone for Key {
    /// A copy of the key.
    fn clone(&self) -> (k: Self)
        ensures
            k == *self,
    {
        self.duplicate()
    }
}

impl Key {
    /// A copy of the key.
    pub fn duplicate(&self) -> (k: Self)
        ensures
            k == *self,
        decreases *self,
    {
        match self {
            Key::Char(c) => Key::Char(*c),
            Key::Up => Key::Up,
            Key::Down => Key::Down,
            Key::Left => Key::Left,
            Key::Right => Key::Right,
            Key::Home => Key::Home,
            Key::End => Key::End,
            Key::PageUp => Key::PageUp,
            Key::PageDown => Key::PageDown,
            Key::Enter => Key::Enter,
            Key::Tab => Key::Tab,
            Key::Escape => Key::Escape,
            Key::Backspace => Key::Backspace,
            Key::Delete => Key::Delete,
            Key::Space => Key::Space,
            Key::Insert => Key::Insert,
            Key::F1 => Key::F1,
            Key::F2 => Key::F2,
            Key::F3 => Key::F3,
            Key::F4 => Key::F4,
            Key::F5 => Key::F5,
            Key::F6 => Key::F6,
            Key::F7 => Key::F7,
            Key::F8 => Key::F8,
            Key::F9 => Key::F9,
            Key::F10 => Key::F10,
            Key::F11 => Key::F11,
            Key::F12 => Key::F12,
            Key::Ctrl(c) => Key::Ctrl(*c),
            Key::Alt(c) => Key::Alt(*c),
            Key::Shift(inner) => Key::Shift(Box::new(inner.duplicate())),
            Key::CtrlAlt(c) => Key::CtrlAlt(*c),
        }
    }

    /// Whether the key has an encoding: its Control characters, if any, have codes.
    pub fn can_encode(&self) -> (b: bool)
        ensures
            b == encodable(*self),
        decreases *self,
    {
        match self {
            Key::Ctrl(c) => (*c as u32) < 0x80 && to_ascii_lower(*c) as u32 >= 0x61,
            Key::CtrlAlt(c) => (*c as u32) < 0x80 && to_ascii_lower(*c) as u32 >= 0x61,
            Key::Shift(inner) => inner.can_encode(),
            _ => true,
        }
    }

    /// The key that `s` denotes.
    ///
    /// Succeeds exactly on the texts that denote a key; any other text is refused as an
    /// invalid key, with the text as it stands without surrounding white space.
    pub fn parse(s: &str) -> (r: Result<Key, Error>)
        ensures
            match r {
                Ok(k) => parse_spec(s@) == Some(k),
                Err(e) => parse_spec(s@) is None && (e matches Error::InvalidKey(text)
                    && text@ == trim(s@)),
            },
    {
        let chars = to_chars(s);
        let t = trim_chars(&chars);
        match parse_chars(&t) {
            Some(k) => Ok(k),
            None => Err(Error::InvalidKey(from_chars(&t))),
        }
    }

    /// The bytes that a terminal receives for the key.
    pub fn to_escape_sequence(&self) -> (bytes: Vec<u8>)
        requires
            encodable(*self),
        ensures
            bytes@ == encoding(*self),
        decreases *self,
    {
        match self {
            Key::Char(c) => char_to_utf8(*c),
            Key::Enter => bytes1(0x0d),
            Key::Tab => bytes1(0x09),
            Key::Escape => bytes1(0x1b),
            Key::Backspace => bytes1(0x7f),
            Key::Delete => bytes4(0x1b, 0x5b, 0x33, 0x7e),
            Key::Space => bytes1(0x20),
            Key::Insert => bytes4(0x1b, 0x5b, 0x32, 0x7e),
            Key::Up => bytes3(0x1b, 0x5b, 0x41),
            Key::Down => bytes3(0x1b, 0x5b, 0x42),
            Key::Right => bytes3(0x1b, 0x5b, 0x43),
            Key::Left => bytes3(0x1b, 0x5b, 0x44),
            Key::Home => bytes3(0x1b, 0x5b, 0x48),
            Key::End => bytes3(0x1b, 0x5b, 0x46),
            Key::PageUp => bytes4(0x1b, 0x5b, 0x35, 0x7e),
            Key::PageDown => bytes4(0x1b, 0x5b, 0x36, 0x7e),
            Key::F1 => bytes3(0x1b, 0x4f, 0x50),
            Key::F2 => bytes3(0x1b, 0x4f, 0x51),
            Key::F3 => bytes3(0x1b, 0x4f, 0x52),
            Key::F4 => bytes3(0x1b, 0x4f, 0x53),
            Key::F5 => bytes5(0x1b, 0x5b, 0x31, 0x35, 0x7e),
            Key::F6 => bytes5(0x1b, 0x5b, 0x31, 0x37, 0x7e),
            Key::F7 => bytes5(0x1b, 0x5b, 0x31, 0x38, 0x7e),
            Key::F8 => bytes5(0x1b, 0x5b, 0x31, 0x39, 0x7e),
            Key::F9 => bytes5(0x1b, 0x5b, 0x32, 0x30, 0x7e),
            Key::F10 => bytes5(0x1b, 0x5b, 0x32, 0x31, 0x7e),
            Key::F11 => bytes5(0x1b, 0x5b, 0x32, 0x33, 0x7e),
            Key::F12 => bytes5(0x1b, 0x5b, 0x32, 0x34, 0x7e),
            Key::Ctrl(c) => bytes1(ctrl_byte(*c)),
            Key::Alt(c) => {
                let mut v = bytes1(0x1b);
                let tail = char_to_utf8(*c);
                append_bytes(&mut v, &tail);
                v
            },
            Key::Shift(inner) => match &**inner {
                Key::Tab => bytes3(0x1b, 0x5b, 0x5a),
                Key::Up => shifted_arrow(0x41),
                Key::Down => shifted_arrow(0x42),
                Key::Right => shifted_arrow(0x43),
                Key::Left => shifted_arrow(0x44),
                _ => inner.to_escape_sequence(),
            },
            Key::CtrlAlt(c) => {
                let mut v = bytes1(0x1b);
                v.push(ctrl_byte(*c));
                assert(v@ =~= seq![0x1bu8, ctrl_code(*c)]);
                v
            },
        }
    }

    /// The text under which the key is shown.
    pub fn to_string(&self) -> (text: String)
        ensures
            text@ == display(*self),
        decreases *self,
    {
        match self {
            Key::Char(c) => {
                let mut v: Vec<char> = Vec::new();
                v.push(*c);
                assert(v@ =~= seq![*c]);
                from_chars(&v)
            },
            Key::Up => String::from_str("Up"),
            Key::Down => String::from_str("Down"),
            Key::Left => String::from_str("Left"),
            Key::Right => String::from_str("Right"),
            Key::Home => String::from_str("Home"),
            Key::End => String::from_str("End"),
            Key::PageUp => String::from_str("PageUp"),
            Key::PageDown => String::from_str("PageDown"),
            Key::Enter => String::from_str("Enter"),
            Key::Tab => String::from_str("Tab"),
            Key::Escape => String::from_str("Escape"),
            Key::Backspace => String::from_str("Backspace"),
            Key::Delete => String::from_str("Delete"),
            Key::Space => String::from_str("Space"),
            Key::Insert => String::from_str("Insert"),
            Key::F1 => String::from_str("F1"),
            Key::F2 => String::from_str("F2"),
            Key::F3 => String::from_str("F3"),
            Key::F4 => String::from_str("F4"),
            Key::F5 => String::from_str("F5"),
            Key::F6 => String::from_str("F6"),
            Key::F7 => String::from_str("F7"),
            Key::F8 => String::from_str("F8"),
            Key::F9 => String::from_str("F9"),
            Key::F10 => String::from_str("F10"),
            Key::F11 => String::from_str("F11"),
            Key::F12 => String::from_str("F12"),
            Key::Ctrl(c) => {
                let mut v = to_chars("Ctrl+");
                v.push(*c);
                from_chars(&v)
            },
            Key::Alt(c) => {
                let mut v = to_chars("Alt+");
                v.push(*c);
                from_chars(&v)
            },
            Key::Shift(inner) => {
                let t = inner.to_string();
                String::from_str("Shift+").concat(t.as_str())
            },
            Key::CtrlAlt(c) => {
                let mut v = to_chars("Ctrl+Alt+");
                v.push(*c);
                from_chars(&v)
            },
        }
    }
}

} // verus!
