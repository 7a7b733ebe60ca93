//! A read position over bytes held in memory.

use vstd::prelude::*;
use vstd::slice::slice_subrange;

verus! {

/// Why a read from bytes in memory failed.
#[derive(Debug, Copy, Clone, PartialEq, Eq, Structural)]
pub enum IoErrorKind {
    /// The bytes ended before the value did.
    UnexpectedEof,
    /// The bytes do not spell a value of the kind asked for.
    InvalidData,
    /// The value handed in has no wire form.
    InvalidInput,
    /// A collaborator failed without saying more.
    Other,
}

/// Bytes and a position in them. Reads take bytes at the position and move
/// it forward; a position at or beyond the end leaves nothing to read.
#[derive(Debug, Clone, PartialEq, Eq)]
pub struct ByteCursor {
    pub data: Vec<u8>,
    pub position: usize,
}

impl ByteCursor {
    /// The bytes not read yet.
    pub open spec fn remaining(&self) -> Seq<u8> {
        if self.position <= self.data@.len() {
            self.data@.skip(self.position as int)
        } else {
            Seq::empty()
        }
    }

    /// A cursor at the start of `data`.
    pub fn new(data: Vec<u8>) -> (c: ByteCursor)
        ensures
            c.data == data,
            c.position == 0,
            c.remaining() == data@,
    {
        ByteCursor { data, position: 0 }
    }

    /// How many bytes are left to read.
    pub fn remaining_len(&self) -> (n: usize)
        ensures
            n == self.remaining().len(),
    {
        if self.position <= self.data.len() {
            self.data.len() - self.position
        } else {
            0
        }
    }

    /// The bytes not read yet.
    pub fn rest(&self) -> (s: &[u8])
        ensures
            s@ == self.remaining(),
    {
        let len = self.data.len();
        if self.position <= len {
            slice_subrange(self.data.as_slice(), self.position, len)
        } else {
            slice_subrange(self.data.as_slice(), len, len)
        }
    }

    /// Moves the position over `n` bytes that are there.
    pub fn advance(&mut self, n: usize)
        requires
            n <= old(self).remaining().len(),
        ensures
            final(self).data == old(self).data,
            final(self).position == old(self).position + n,
            final(self).remaining() == old(self).remaining().skip(n as int),
    {
        let len = self.data.len();
        assert(self.position + n <= usize::MAX) by {
            if self.position <= len {
                assert(self.remaining().len() == len - self.position);
            } else {
                assert(self.remaining().len() == 0);
            }
        }
        self.position = self.position + n;
        assert(self.remaining() =~= old(self).remaining().skip(n as int));
    }

    /// Reads the next `n` bytes, or fails and stays where it is if fewer
    /// are left.
    pub fn take(&mut self, n: usize) -> (r: Result<Vec<u8>, IoErrorKind>)
        ensures
            final(self).data == old(self).data,
            match r {
                Ok(bytes) => n <= old(self).remaining().len() && bytes@ == old(
                    self,
                ).remaining().take(n as int) && final(self).position == old(self).position + n
                    && final(self).remaining() == old(self).remaining().skip(n as int),
                Err(e) => n > old(self).remaining().len() && e == IoErrorKind::UnexpectedEof
                    && final(self).position == old(self).position,
            },
    {
        if n > self.remaining_len() {
            return Err(IoErrorKind::UnexpectedEof);
        }
        let mut out: Vec<u8> = Vec::new();
        crate::endian::append_bytes(&mut out, slice_subrange(self.rest(), 0, n));
        assert(out@ =~= self.remaining().take(n as int));
        self.advance(n);
        Ok(out)
    }
}

} // verus!
