use vstd::prelude::*;
use vstd::string::*;
use vstd::utf8::*;

use crate::yuler::error::YulError;

verus! {

/// An output buffer that indents each line by the current block depth.
pub struct Writer {
    /// The bytes written so far.
    pub w: Vec<u8>,
    /// How many blocks deep the writer is.
    pub step: usize,
    /// The text of one indentation step.
    pub tab: String,
    /// Whether the next text starts a line.
    pub begin_line: bool,
}

/// What a writer holds: the text so far, the block depth, the text of one
/// indentation step, and whether the next text starts a line.
pub struct WriterView {
    pub buf: Seq<u8>,
    pub step: nat,
    pub tab: Seq<u8>,
    pub begin_line: bool,
}

/// `tab` written `n` times in a row.
pub open spec fn repeat(tab: Seq<u8>, n: nat) -> Seq<u8>
    decreases n,
{
    if n == 0 {
        Seq::empty()
    } else {
        repeat(tab, (n - 1) as nat) + tab
    }
}

impl WriterView {
    /// The writer after `bytes` went to the buffer as they are.
    pub open spec fn put_raw(self, bytes: Seq<u8>) -> WriterView {
        WriterView { buf: self.buf + bytes, ..self }
    }

    /// The writer after the text `s`: at the start of a line the indentation
    /// comes first.
    pub open spec fn put_str(self, s: Seq<char>) -> WriterView {
        WriterView {
            buf: self.buf + (if self.begin_line {
                repeat(self.tab, self.step)
            } else {
                Seq::empty()
            }) + encode_utf8(s),
            begin_line: false,
            ..self
        }
    }

    /// The writer after a line break.
    pub open spec fn put_end(self) -> WriterView {
        WriterView { buf: self.buf.push(0x0au8), begin_line: true, ..self }
    }

    /// The writer one block deeper, where the depth can still be counted.
    pub open spec fn enter(self) -> Option<WriterView> {
        if self.step < usize::MAX {
            Some(WriterView { step: self.step + 1, ..self })
        } else {
            None
        }
    }

    /// The writer one block less deep.
    pub open spec fn leave(self) -> WriterView {
        WriterView { step: (self.step - 1) as nat, ..self }
    }
}

impl View for Writer {
    type V = WriterView;

    open spec fn view(&self) -> WriterView {
        WriterView {
            buf: self.w@,
            step: self.step as nat,
            tab: encode_utf8(self.tab@),
            begin_line: self.begin_line,
        }
    }
}

impl Writer {
    /// A writer at depth 0 and at the start of a line, on top of the bytes in `w`.
    pub fn new(w: Vec<u8>, tab: &str) -> (r: Writer)
        ensures
            r@ == (WriterView { buf: w@, step: 0, tab: encode_utf8(tab@), begin_line: true }),
    {
        Writer { w, step: 0, tab: tab.to_owned(), begin_line: true }
    }

    /// Goes one block deeper. Fails, and changes nothing, where the depth
    /// counter is at its limit.
    pub fn enter_block(&mut self) -> (r: Result<(), YulError>)
        ensures
            match old(self)@.enter() {
                Some(v) => r is Ok && final(self)@ == v,
                None => r == Err::<(), YulError>(YulError::NestingTooDeep) && final(self)@ == old(
                    self,
                )@,
            },
    {
        if self.step == usize::MAX {
            return Err(YulError::NestingTooDeep);
        }
        self.step += 1;
        Ok(())
    }

    /// Leaves the innermost block.
    pub fn leave_block(&mut self)
        requires
            old(self)@.step > 0,
        ensures
            final(self)@ == old(self)@.leave(),
    {
        self.step -= 1;
    }

    /// Writes `s`, after the indentation where a line starts.
    pub fn write_str(&mut self, s: &str) -> (r: Result<(), YulError>)
        ensures
            r is Ok,
            final(self)@ == old(self)@.put_str(s@),
    {
        if self.begin_line {
            let mut i: usize = 0;
            while i < self.step
                invariant
                    i <= self.step,
                    self.step == old(self).step,
                    self.tab == old(self).tab,
                    self.begin_line == old(self).begin_line,
                    self.w@ == old(self).w@ + repeat(encode_utf8(self.tab@), i as nat),
                decreases self.step - i,
            {
                self.w.extend_from_slice(self.tab.as_str().as_bytes());
                i += 1;
                assert(self.w@ =~= old(self).w@ + repeat(encode_utf8(self.tab@), i as nat));
            }
        }
        self.w.extend_from_slice(s.as_bytes());
        self.begin_line = false;
        assert(self@.buf =~= old(self)@.put_str(s@).buf);
        Ok(())
    }

    /// Ends the line.
    pub fn write_end(&mut self) -> (r: Result<(), YulError>)
        ensures
            r is Ok,
            final(self)@ == old(self)@.put_end(),
    {
        self.w.push(0x0au8);
        self.begin_line = true;
        Ok(())
    }

    /// Appends `bytes` as they are, without indentation.
    pub fn write_raw(&mut self, bytes: &[u8])
        ensures
            final(self)@ == old(self)@.put_raw(bytes@),
    {
        self.w.extend_from_slice(bytes);
        assert(self@.buf =~= old(self)@.buf + bytes@);
    }
}

} // verus!
