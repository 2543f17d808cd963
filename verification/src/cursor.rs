//! A forward-only cursor over an in-memory byte stream.
//!
//! The whole format is read through [`ByteCursor::read_n`]: an exact-length
//! read that either returns all `n` requested bytes or fails with
//! `TruncatedInput` without consuming anything. There is no seeking and no
//! partial read.

use vstd::prelude::*;

use crate::error::ParseError;

verus! {

/// Abstract state of a cursor: the underlying bytes and the read position.
pub struct CursorView {
    pub data: Seq<u8>,
    pub pos: int,
}

/// Exclusively-owned cursor over a byte buffer, advancing strictly forward.
pub struct ByteCursor {
    data: Vec<u8>,
    pos: usize,
}

impl View for ByteCursor {
    type V = CursorView;

    closed spec fn view(&self) -> CursorView {
        CursorView { data: self.data@, pos: self.pos as int }
    }
}

impl ByteCursor {
    /// The position never runs past the end of the buffer.
    pub open spec fn wf(&self) -> bool {
        0 <= self@.pos <= self@.data.len()
    }

    /// Wraps a byte buffer, positioned at its start.
    pub fn new(data: Vec<u8>) -> (c: ByteCursor)
        ensures
            c.wf(),
            c@.data == data@,
            c@.pos == 0,
    {
        ByteCursor { data, pos: 0 }
    }

    /// Current read position, in bytes from the start of the buffer.
    pub fn position(&self) -> (r: usize)
        ensures
            r == self@.pos,
    {
        self.pos
    }

    /// Number of bytes not yet consumed.
    pub fn remaining(&self) -> (r: usize)
        requires
            self.wf(),
        ensures
            r == self@.data.len() - self@.pos,
    {
        self.data.len() - self.pos
    }

    /// Reads exactly `n` bytes, or fails with `TruncatedInput` leaving the
    /// position unchanged. All-or-nothing: no partial result leaks out.
    pub fn read_n(&mut self, n: usize) -> (r: Result<Vec<u8>, ParseError>)
        requires
            old(self).wf(),
        ensures
            final(self).wf(),
            final(self)@.data == old(self)@.data,
            match r {
                Ok(v) => old(self)@.pos + n <= old(self)@.data.len() && v@ == old(
                    self,
                )@.data.subrange(old(self)@.pos, old(self)@.pos + n) && final(self)@.pos == old(
                    self,
                )@.pos + n,
                Err(e) => old(self)@.pos + n > old(self)@.data.len() && (e@ matches
                    crate::error::ErrKind::TruncatedInput) && final(self)@.pos == old(self)@.pos,
            },
    {
        if n > self.data.len() - self.pos {
            return Err(ParseError::TruncatedInput);
        }
        let mut buf: Vec<u8> = Vec::new();
        let mut i: usize = 0;
        while i < n
            invariant
                i <= n,
                self.wf(),
                self@.pos + n <= self@.data.len(),
                buf@ == self@.data.subrange(self@.pos, self@.pos + i),
            decreases n - i,
        {
            let total: usize = self.data.len();
            proof {
                assert(self@.pos + i < total);
            }
            let b: u8 = self.data[self.pos + i];
            buf.push(b);
            proof {
                assert(self@.data.subrange(self@.pos, self@.pos + i + 1) =~= self@.data.subrange(
                    self@.pos,
                    self@.pos + i,
                ).push(self@.data[self@.pos + i]));
            }
            i = i + 1;
        }
        self.pos = self.pos + n;
        Ok(buf)
    }
}

} // verus!
