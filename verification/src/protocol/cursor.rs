//! A read position in a borrowed byte buffer.

use vstd::prelude::*;

verus! {

/// A byte buffer that the caller owns, and the offset in it of the first
/// byte that has not been decoded yet.
///
/// The buffer is never written through the cursor. The position may lie at
/// or beyond the end of the buffer: nothing can be read there.
#[derive(Debug)]
pub struct Cursor<'a> {
    inner: &'a [u8],
    pos: u64,
}

/// What a [`Cursor`] stands for in contracts.
pub struct CursorView {
    /// The whole buffer, from its first byte.
    pub bytes: Seq<u8>,
    /// The offset of the next byte to read.
    pub position: nat,
}

impl CursorView {
    /// The same buffer, read from `position` on.
    pub open spec fn at(self, position: nat) -> CursorView {
        CursorView { bytes: self.bytes, position }
    }
}

impl<'a> View for Cursor<'a> {
    type V = CursorView;

    closed spec fn view(&self) -> CursorView {
        CursorView { bytes: self.inner@, position: self.pos as nat }
    }
}

impl<'a> Cursor<'a> {
    /// A cursor at the start of `inner`.
    pub fn new(inner: &'a [u8]) -> (cursor: Self)
        ensures
            cursor@ == (CursorView { bytes: inner@, position: 0 }),
    {
        Cursor { inner, pos: 0 }
    }

    /// The offset of the next byte to read.
    pub fn position(&self) -> (pos: u64)
        ensures
            pos == self@.position,
    {
        self.pos
    }

    /// Moves the cursor to `pos`, which may be any offset.
    pub fn set_position(&mut self, pos: u64)
        ensures
            final(self)@ == old(self)@.at(pos as nat),
    {
        self.pos = pos;
    }

    /// The whole buffer, whatever the position.
    pub fn get_ref(&self) -> (inner: &'a [u8])
        ensures
            inner@ == self@.bytes,
    {
        self.inner
    }
}

} // verus!
