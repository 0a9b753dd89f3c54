//! The raw output of a session, with a mark at what has been read.

use vstd::prelude::*;

verus! {

/// Everything a session has put out, and how much of it has been read.
#[derive(Debug)]
pub struct OutputBuffer {
    raw_buffer: Vec<u8>,
    last_read_pos: usize,
}

/// What an output buffer holds, as mathematical values.
pub struct OutputView {
    /// Everything put out so far.
    pub bytes: Seq<u8>,
    /// How many of the bytes have been read.
    pub read: int,
}

impl View for OutputBuffer {
    type V = OutputView;

    closed spec fn view(&self) -> OutputView {
        OutputView { bytes: self.raw_buffer@, read: self.last_read_pos as int }
    }
}

impl OutputBuffer {
    /// The invariant of the buffer: the read mark lies within the output.
    pub open spec fn wf(&self) -> bool {
        0 <= self@.read <= self@.bytes.len()
    }

    /// An empty buffer.
    pub fn new() -> (b: Self)
        ensures
            b.wf(),
            b@.bytes.len() == 0,
            b@.read == 0,
    {
        OutputBuffer { raw_buffer: Vec::new(), last_read_pos: 0 }
    }

    /// Adds `bytes` at the end of the output.
    pub fn append(&mut self, bytes: &[u8])
        requires
            old(self).wf(),
        ensures
            final(self).wf(),
            final(self)@.bytes == old(self)@.bytes + bytes@,
            final(self)@.read == old(self)@.read,
    {
        let mut i: usize = 0;
        while i < bytes.len()
            invariant
                i <= bytes.len(),
                self.last_read_pos == old(self).last_read_pos,
                self.raw_buffer@ == old(self).raw_buffer@ + bytes@.take(i as int),
            decreases bytes.len() - i,
        {
            self.raw_buffer.push(bytes[i]);
            i += 1;
            assert(self.raw_buffer@ =~= old(self).raw_buffer@ + bytes@.take(i as int));
        }
        assert(bytes@.take(bytes.len() as int) =~= bytes@);
    }

    /// The whole output. Afterwards all of it counts as read.
    pub fn read_all(&mut self) -> (output: Vec<u8>)
        requires
            old(self).wf(),
        ensures
            final(self).wf(),
            output@ == old(self)@.bytes,
            final(self)@.bytes == old(self)@.bytes,
            final(self)@.read == old(self)@.bytes.len(),
    {
        let output = self.copy_from(0);
        self.last_read_pos = self.raw_buffer.len();
        assert(output@ =~= self.raw_buffer@);
        output
    }

    /// The output that has not been read yet. Afterwards all of it counts as read.
    pub fn read_since_last(&mut self) -> (output: Vec<u8>)
        requires
            old(self).wf(),
        ensures
            final(self).wf(),
            output@ == old(self)@.bytes.skip(old(self)@.read),
            final(self)@.bytes == old(self)@.bytes,
            final(self)@.read == old(self)@.bytes.len(),
    {
        let output = self.copy_from(self.last_read_pos);
        self.last_read_pos = self.raw_buffer.len();
        output
    }

    /// The output from index `from` on.
    fn copy_from(&self, from: usize) -> (output: Vec<u8>)
        requires
            from <= self.raw_buffer.len(),
        ensures
            output@ == self.raw_buffer@.skip(from as int),
    {
        let mut output: Vec<u8> = Vec::new();
        let mut i: usize = from;
        while i < self.raw_buffer.len()
            invariant
                from <= i <= self.raw_buffer.len(),
                output@ == self.raw_buffer@.subrange(from as int, i as int),
            decreases self.raw_buffer.len() - i,
        {
            output.push(self.raw_buffer[i]);
            i += 1;
            assert(output@ =~= self.raw_buffer@.subrange(from as int, i as int));
        }
        assert(output@ =~= self.raw_buffer@.skip(from as int));
        output
    }

    /// The number of bytes put out so far.
    pub fn size(&self) -> (n: usize)
        ensures
            n == self@.bytes.len(),
    {
        self.raw_buffer.len()
    }

    /// The number of bytes that have not been read yet.
    pub fn unread_count(&self) -> (n: usize)
        requires
            self.wf(),
        ensures
            n == self@.bytes.len() - self@.read,
    {
        self.raw_buffer.len() - self.last_read_pos
    }

    /// Forgets the output and the read mark.
    pub fn clear(&mut self)
        ensures
            final(self).wf(),
            final(self)@.bytes.len() == 0,
            final(self)@.read == 0,
    {
        self.raw_buffer.clear();
        self.last_read_pos = 0;
    }
}

impl Default for OutputBuffer {
    /// An empty buffer.
    fn default() -> (b: Self)
        ensures
            b.wf(),
            b@.bytes.len() == 0,
            b@.read == 0,
    {
        OutputBuffer::new()
    }
}

/// What reading the output of a session gives.
#[derive(Debug, Clone)]
pub struct OutputRead {
    /// The output as text.
    pub output: String,
    /// The number of bytes read.
    pub bytes: usize,
    /// Whether more output is waiting.
    pub has_more: bool,
}

} // verus!
