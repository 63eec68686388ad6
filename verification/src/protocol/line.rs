//! Lines: runs of bytes that end in the two-byte delimiter.

use vstd::prelude::*;
use vstd::slice::slice_subrange;

use crate::protocol::cursor::{Cursor, CursorView};
use crate::protocol::error::{invalid_frame_format, FrameParsingError, FrameParsingErrorView};
use crate::protocol::text::{decode_text, text_of};
use crate::protocol::value::LineValue;

verus! {

/// Carriage return, the first byte of the delimiter.
pub const CR: u8 = 0x0d;

/// Line feed, the second byte of the delimiter.
pub const LF: u8 = 0x0a;

/// The delimiter stands at offset `at` of `bytes`, whole.
pub open spec fn delimiter_at(bytes: Seq<u8>, at: int) -> bool {
    &&& 0 <= at
    &&& at + 1 < bytes.len()
    &&& bytes[at] == CR
    &&& bytes[at + 1] == LF
}

/// The first delimiter at or after `start` stands at `end`.
pub open spec fn line_ends_at(bytes: Seq<u8>, start: int, end: int) -> bool {
    &&& start <= end
    &&& delimiter_at(bytes, end)
    &&& forall|at: int| start <= at < end ==> !delimiter_at(bytes, at)
}

/// A delimiter stands somewhere at or after `start`.
pub open spec fn has_line(bytes: Seq<u8>, start: int) -> bool {
    exists|end: int| line_ends_at(bytes, start, end)
}

/// Where the line that starts at `start` ends, if `has_line(bytes, start)`.
pub open spec fn line_end(bytes: Seq<u8>, start: int) -> int {
    choose|end: int| line_ends_at(bytes, start, end)
}

/// What a read found, and the offset of the first byte after it.
pub struct Read<V> {
    pub value: V,
    pub next: int,
}

/// `result` and the cursor that a read left behind are what `expected`
/// calls for: on success the value read and a cursor moved to the first byte
/// after it, on failure the error and a cursor that has not moved.
pub open spec fn agrees<T: View>(
    result: Result<T, FrameParsingError>,
    before: CursorView,
    after: CursorView,
    expected: Result<Read<T::V>, FrameParsingErrorView>,
) -> bool {
    match expected {
        Ok(read) => {
            &&& result matches Ok(value)
            &&& value@ == read.value
            &&& after == before.at(read.next as nat)
        },
        Err(error) => {
            &&& result matches Err(e)
            &&& e@ == error
            &&& after == before
        },
    }
}

/// Reading one byte at `position`: the byte there, or `Incomplete` where
/// the buffer has ended.
pub open spec fn byte_read(bytes: Seq<u8>, position: int) -> Result<
    Read<u8>,
    FrameParsingErrorView,
> {
    if 0 <= position < bytes.len() {
        Ok(Read { value: bytes[position], next: position + 1 })
    } else {
        Err(FrameParsingErrorView::Incomplete)
    }
}

/// Reading one line at `position`: the bytes from there up to the first
/// delimiter, or `Incomplete` while no delimiter follows.
pub open spec fn line_read(bytes: Seq<u8>, position: int) -> Result<
    Read<Seq<u8>>,
    FrameParsingErrorView,
> {
    if has_line(bytes, position) {
        let end = line_end(bytes, position);
        Ok(Read { value: bytes.subrange(position, end), next: end + 2 })
    } else {
        Err(FrameParsingErrorView::Incomplete)
    }
}

/// Reading one line of text at `position`: the characters of the line, the
/// error of `line_read`, or `Other` for a line that is not UTF-8.
pub open spec fn text_read(bytes: Seq<u8>, position: int) -> Result<
    Read<Seq<char>>,
    FrameParsingErrorView,
> {
    match line_read(bytes, position) {
        Ok(line) => match text_of(line.value) {
            Some(text) => Ok(Read { value: text, next: line.next }),
            None => Err(FrameParsingErrorView::Other(invalid_frame_format())),
        },
        Err(error) => Err(error),
    }
}

/// Reading one line at `position` as a value of type `T`: the value that
/// the line writes, the error of `text_read`, or `Other` with the cause that
/// `T` names for a line of text that writes no such value.
pub open spec fn value_read<T: LineValue>(bytes: Seq<u8>, position: int) -> Result<
    Read<T::V>,
    FrameParsingErrorView,
> {
    match line_read(bytes, position) {
        Ok(line) => if text_of(line.value) is None {
            Err(FrameParsingErrorView::Other(invalid_frame_format()))
        } else {
            match T::written(line.value) {
                Some(value) => Ok(Read { value, next: line.next }),
                None => Err(FrameParsingErrorView::Other(T::mismatch())),
            }
        },
        Err(error) => Err(error),
    }
}

/// A line has one end only.
pub proof fn lemma_line_end_unique(bytes: Seq<u8>, start: int, first: int, second: int)
    requires
        line_ends_at(bytes, start, first),
        line_ends_at(bytes, start, second),
    ensures
        first == second,
{
}

/// Whoever has found the first delimiter knows the line.
pub proof fn lemma_line_found(bytes: Seq<u8>, start: int, end: int)
    requires
        line_ends_at(bytes, start, end),
    ensures
        has_line(bytes, start),
        line_end(bytes, start) == end,
        line_read(bytes, start) == Ok::<_, FrameParsingErrorView>(
            Read { value: bytes.subrange(start, end), next: end + 2 },
        ),
{
    lemma_line_end_unique(bytes, start, end, line_end(bytes, start));
}

/// No line starts where no delimiter follows.
pub proof fn lemma_line_missing(bytes: Seq<u8>, start: int)
    requires
        forall|at: int| start <= at ==> !delimiter_at(bytes, at),
    ensures
        line_read(bytes, start) == Err::<Read<Seq<u8>>, _>(FrameParsingErrorView::Incomplete),
{
}

/// A line lies inside the buffer, is followed by its delimiter, and holds no
/// delimiter itself.
pub proof fn lemma_line_bounds(bytes: Seq<u8>, start: int)
    requires
        0 <= start,
        line_read(bytes, start) is Ok,
    ensures
        line_read(bytes, start) matches Ok(line) && {
            &&& start + line.value.len() + 2 == line.next
            &&& line.next <= bytes.len()
            &&& delimiter_at(bytes, line.next - 2)
            &&& forall|at: int| !delimiter_at(line.value, at)
        },
{
    let end = line_end(bytes, start);
    let text = bytes.subrange(start, end);
    assert forall|at: int| !delimiter_at(text, at) by {
        if delimiter_at(text, at) {
            assert(delimiter_at(bytes, start + at));
        }
    }
}

/// Reads the byte under the cursor and steps over it.
///
/// With nothing left to read the cursor stays where it is and the result is
/// `Incomplete`.
pub fn read_u8(buf: &mut Cursor<'_>) -> (r: Result<u8, FrameParsingError>)
    ensures
        agrees(r, old(buf)@, final(buf)@, byte_read(old(buf)@.bytes, old(buf)@.position as int)),
{
    let data = buf.get_ref();
    let pos = buf.position();
    if pos < data.len() as u64 {
        let byte = data[pos as usize];
        buf.set_position(pos + 1);
        Ok(byte)
    } else {
        Err(FrameParsingError::Incomplete)
    }
}

/// Reads the line that starts under the cursor and steps over it and its
/// delimiter. The line is a part of the buffer, not a copy.
///
/// While the buffer holds no delimiter from the cursor on, the cursor stays
/// where it is and the result is `Incomplete`.
pub fn read_line<'a>(buf: &mut Cursor<'a>) -> (r: Result<&'a [u8], FrameParsingError>)
    ensures
        agrees(r, old(buf)@, final(buf)@, line_read(old(buf)@.bytes, old(buf)@.position as int)),
{
    let data = buf.get_ref();
    let len = data.len();
    let pos = buf.position();
    if pos >= len as u64 {
        proof {
            lemma_line_missing(data@, pos as int);
        }
        return Err(FrameParsingError::Incomplete);
    }
    let start = pos as usize;
    let mut at: usize = start;
    while at + 1 < len
        invariant
            start <= at < len,
            len == data@.len(),
            data@ == old(buf)@.bytes,
            start == old(buf)@.position,
            buf@ == old(buf)@,
            forall|j: int| start <= j < at ==> !delimiter_at(data@, j),
        decreases len - at,
    {
        if data[at] == CR && data[at + 1] == LF {
            proof {
                lemma_line_found(data@, start as int, at as int);
            }
            buf.set_position((at + 2) as u64);
            return Ok(slice_subrange(data, start, at));
        }
        at += 1;
    }
    proof {
        lemma_line_missing(data@, start as int);
    }
    Err(FrameParsingError::Incomplete)
}

/// Reads the line that starts under the cursor as text, and steps over it
/// and its delimiter.
///
/// The cursor stays where it is when the line is not there yet
/// (`Incomplete`) and when it is there but is not UTF-8 (`Other`).
pub fn read_line_simple(buf: &mut Cursor<'_>) -> (r: Result<String, FrameParsingError>)
    ensures
        agrees(r, old(buf)@, final(buf)@, text_read(old(buf)@.bytes, old(buf)@.position as int)),
{
    let start = buf.position();
    let line = read_line(buf)?;
    match decode_text(line) {
        Some(text) => Ok(text),
        None => {
            buf.set_position(start);
            Err(FrameParsingError::from("invalid frame format"))
        },
    }
}

/// Reads the line that starts under the cursor as a value of type `T`, and
/// steps over it and its delimiter.
///
/// The cursor stays where it is when the line is not there yet
/// (`Incomplete`) and when it is there but is not UTF-8 or writes no value of
/// type `T` (`Other`).
pub fn read_from_line<T: LineValue>(buf: &mut Cursor<'_>) -> (r: Result<T, FrameParsingError>)
    ensures
        agrees(
            r,
            old(buf)@,
            final(buf)@,
            value_read::<T>(old(buf)@.bytes, old(buf)@.position as int),
        ),
{
    let start = buf.position();
    let line = read_line(buf)?;
    let value = match decode_text(line) {
        Some(text) => T::from_text(text.as_str()),
        None => Err(FrameParsingError::from("invalid frame format")),
    };
    if value.is_err() {
        buf.set_position(start);
    }
    value
}

} // verus!
