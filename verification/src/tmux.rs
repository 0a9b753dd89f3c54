//! Frames for a terminal that is read through a terminal multiplexer.
//!
//! The multiplexer is asked for the content of its pane again and again. A capture that
//! differs from the last one becomes a frame for the emulator: the cursor-home sequence
//! and then the capture. A capture that repeats the last one means that nothing happened.

use vstd::prelude::*;
use crate::session::hex_digit;

verus! {

/// The sequence that puts the cursor into the top-left corner: `ESC [ H`.
pub open spec fn cursor_home() -> Seq<u8> {
    seq![0x1bu8, 0x5b, 0x48]
}

/// Whether a capture shows nothing: it is empty or holds only line feeds, carriage
/// returns, spaces and tabs.
pub open spec fn is_blank_capture(bytes: Seq<u8>) -> bool {
    forall|i: int|
        0 <= i < bytes.len() ==> {
            let b = #[trigger] bytes[i];
            b == 0x0a || b == 0x0d || b == 0x20 || b == 0x09
        }
}

/// Whether a capture shows nothing.
pub fn capture_is_blank(bytes: &[u8]) -> (b: bool)
    ensures
        b == is_blank_capture(bytes@),
{
    let mut i: usize = 0;
    while i < bytes.len()
        invariant
            i <= bytes.len(),
            forall|k: int|
                0 <= k < i ==> {
                    let b = #[trigger] bytes@[k];
                    b == 0x0a || b == 0x0d || b == 0x20 || b == 0x09
                },
        decreases bytes.len() - i,
    {
        let b = bytes[i];
        if !(b == 0x0a || b == 0x0d || b == 0x20 || b == 0x09) {
            return false;
        }
        i += 1;
    }
    true
}

/// The frame for a capture, given the last capture kept: nothing where a capture is kept
/// and the new one repeats it; else the cursor-home sequence and the capture.
pub open spec fn frame(capture: Seq<u8>, last: Seq<u8>) -> Seq<u8> {
    if last.len() > 0 && capture == last {
        Seq::empty()
    } else {
        cursor_home() + capture
    }
}

/// Whether two byte vectors are equal.
fn same_bytes(a: &Vec<u8>, b: &Vec<u8>) -> (r: bool)
    ensures
        r == (a@ == b@),
{
    if a.len() != b.len() {
        return false;
    }
    let mut i: usize = 0;
    while i < a.len()
        invariant
            i <= a.len(),
            a.len() == b.len(),
            forall|k: int| 0 <= k < i ==> a@[k] == b@[k],
        decreases a.len() - i,
    {
        if a[i] != b[i] {
            return false;
        }
        i += 1;
    }
    assert(a@ =~= b@);
    true
}

/// Makes the frame for `capture` and keeps the capture as the last one. An empty `last`
/// means that no capture is kept, so that the next capture always makes a frame.
pub fn frame_capture(capture: Vec<u8>, last: &mut Vec<u8>) -> (out: Vec<u8>)
    ensures
        out@ == frame(capture@, old(last)@),
        final(last)@ == (if old(last)@.len() > 0 && capture@ == old(last)@ {
            old(last)@
        } else {
            capture@
        }),
{
    if last.len() > 0 && same_bytes(&capture, last) {
        return Vec::new();
    }
    let mut out: Vec<u8> = Vec::new();
    out.push(0x1b);
    out.push(0x5b);
    out.push(0x48);
    assert(out@ =~= cursor_home());
    crate::text::append_bytes(&mut out, &capture);
    *last = capture;
    out
}

/// The two lower-case hexadecimal digits of a byte.
pub open spec fn hex_pair(b: u8) -> Seq<char> {
    seq![hex_digit((b / 16) as int), hex_digit((b % 16) as int)]
}

/// The lower-case hexadecimal digit of `n`.
fn hex_char(n: u8) -> (c: char)
    requires
        n < 16,
    ensures
        c == hex_digit(n as int),
{
    if n < 10 {
        (0x30 + n) as char
    } else {
        (0x61 + n - 10) as char
    }
}

/// The keys of `data` as the multiplexer takes them: for each byte its two hexadecimal
/// digits.
pub fn hex_keys(data: &[u8]) -> (keys: Vec<String>)
    ensures
        keys@.len() == data@.len(),
        forall|i: int| 0 <= i < keys@.len() ==> (#[trigger] keys@[i])@ == hex_pair(data@[i]),
{
    let mut keys: Vec<String> = Vec::new();
    let mut i: usize = 0;
    while i < data.len()
        invariant
            i <= data.len(),
            keys@.len() == i,
            forall|k: int| 0 <= k < i ==> (#[trigger] keys@[k])@ == hex_pair(data@[k]),
        decreases data.len() - i,
    {
        let b = data[i];
        let mut pair: Vec<char> = Vec::new();
        pair.push(hex_char(b / 16));
        pair.push(hex_char(b % 16));
        assert(pair@ =~= hex_pair(b));
        keys.push(crate::text::from_chars(&pair));
        i += 1;
    }
    keys
}

} // verus!
