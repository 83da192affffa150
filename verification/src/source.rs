//! The byte source that every reader consumes: a slice and a position in it.

use crate::error::{IoError, MatroskaError};
use vstd::prelude::*;
use vstd::slice::slice_subrange;

verus! {

/// A byte slice with a read position.
///
/// The position may lie beyond the end of the slice, as after a seek past
/// the end of a file: the next read then fails.
#[derive(Debug, Clone, Copy)]
pub struct Source<'a> {
    /// All bytes of the file.
    pub data: &'a [u8],
    /// Offset of the next byte to read.
    pub pos: u64,
}

impl<'a> Source<'a> {
    /// How many bytes lie between the position and the end.
    pub open spec fn left(&self) -> nat {
        if self.pos <= self.data@.len() {
            (self.data@.len() - self.pos) as nat
        } else {
            0
        }
    }

    /// The source with its position moved forward by `n` bytes.
    pub open spec fn advanced(&self, n: nat) -> Source<'a> {
        Source { data: self.data, pos: (self.pos + n) as u64 }
    }

    /// A source at the start of `data`.
    pub fn new(data: &'a [u8]) -> (r: Source<'a>)
        ensures
            r.data == data,
            r.pos == 0,
    {
        Source { data, pos: 0 }
    }

    /// The current position.
    pub fn position(&self) -> (pos: u64)
        ensures
            pos == self.pos,
    {
        self.pos
    }

    /// The number of bytes that can still be read.
    pub fn remaining(&self) -> (n: u64)
        ensures
            n == self.left(),
    {
        let len = self.data.len() as u64;
        if self.pos <= len {
            len - self.pos
        } else {
            0
        }
    }

    /// Moves the position to the absolute offset `pos`.
    pub fn seek(&mut self, pos: u64)
        ensures
            final(self).data == old(self).data,
            final(self).pos == pos,
    {
        self.pos = pos;
    }

    /// Moves the position forward by `n` bytes, also past the end.
    ///
    /// Fails, leaving the source as it was, when the new position does not
    /// fit in 64 bits.
    pub fn skip(&mut self, n: u64) -> (res: Result<(), MatroskaError>)
        ensures
            final(self).data == old(self).data,
            old(self).pos + n <= u64::MAX ==> res is Ok && final(self).pos == old(self).pos + n,
            old(self).pos + n > u64::MAX ==> res == Err::<(), MatroskaError>(
                MatroskaError::Io(IoError::InvalidSeek),
            ) && final(self).pos == old(self).pos,
    {
        match self.pos.checked_add(n) {
            Some(pos) => {
                self.pos = pos;
                Ok(())
            },
            None => Err(MatroskaError::Io(IoError::InvalidSeek)),
        }
    }

    /// The byte at the position, if there is one. Does not move.
    pub fn peek(&self) -> (byte: Option<u8>)
        ensures
            self.left() == 0 ==> byte is None,
            self.left() > 0 ==> byte == Some(self.data@[self.pos as int]),
    {
        if self.remaining() == 0 {
            None
        } else {
            Some(self.data[self.pos as usize])
        }
    }

    /// The next `n` bytes. Does not move.
    pub fn window(&self, n: u64) -> (bytes: &'a [u8])
        requires
            self.pos + n <= self.data@.len(),
        ensures
            bytes@ == self.data@.subrange(self.pos as int, self.pos + n),
    {
        let len = self.data.len();
        let start = self.pos as usize;
        slice_subrange(self.data, start, start + n as usize)
    }

    /// Moves the position forward by `n` bytes that are known to be there.
    pub fn consume(&mut self, n: u64)
        requires
            old(self).pos + n <= old(self).data@.len(),
        ensures
            *final(self) == old(self).advanced(n as nat),
            final(self).data == old(self).data,
            final(self).pos == old(self).pos + n,
    {
        let len = self.data.len();
        self.pos = self.pos + n;
    }
}

} // verus!
