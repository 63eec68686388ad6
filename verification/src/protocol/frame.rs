//! Frames and the decoder that reads one from a cursor.

use bytes::Bytes;
use vstd::prelude::*;
use vstd::slice::slice_subrange;
use vstd::utf8::valid_utf8;

use crate::protocol::bulk::{bytes_of, copy_from_slice};
use crate::protocol::cursor::Cursor;
use crate::protocol::double::{is_double_text, DoubleText};
use crate::protocol::error::{
    invalid_bulk_end, invalid_bulk_size, unsupported_frame_type, FrameParsingError,
    FrameParsingErrorView,
};
use crate::protocol::laws::lemma_frame_bounds;
use crate::protocol::line::{
    agrees, byte_read, delimiter_at, line_read, read_from_line, read_line_simple, read_u8,
    text_read, value_read, Read, CR, LF,
};
use crate::protocol::tag::Tag;
use crate::protocol::text::holds_delimiter;
use crate::protocol::value::LineValue;

verus! {

/// One decoded protocol value. It owns its payload: nothing in it points
/// into the buffer that it was decoded from.
#[derive(Debug, PartialEq)]
pub enum Frame {
    /// A line of text.
    Simple(String),
    /// A line of text that reports an error.
    Error(String),
    /// A signed integer.
    Integer(i64),
    /// A floating-point number, as its text.
    Double(DoubleText),
    /// Raw bytes of a length that the frame declares.
    Bulk(Bytes),
    /// Nothing. Not the same as an empty `Bulk`.
    Null,
}

/// What a [`Frame`] stands for in contracts.
pub enum FrameView {
    /// The characters of the line.
    Simple(Seq<char>),
    /// The characters of the line.
    Error(Seq<char>),
    /// The integer.
    Integer(i64),
    /// The bytes of the number's text.
    Double(Seq<u8>),
    /// The payload.
    Bulk(Seq<u8>),
    Null,
}

impl View for Frame {
    type V = FrameView;

    open spec fn view(&self) -> FrameView {
        match self {
            Frame::Simple(text) => FrameView::Simple(text@),
            Frame::Error(text) => FrameView::Error(text@),
            Frame::Integer(value) => FrameView::Integer(*value),
            Frame::Double(number) => FrameView::Double(number@),
            Frame::Bulk(data) => FrameView::Bulk(bytes_of(*data)),
            Frame::Null => FrameView::Null,
        }
    }
}

impl FrameView {
    /// What holds of every frame that the decoder returns: a text holds no
    /// delimiter, a number's text obeys the grammar of numbers, and a
    /// payload is no longer than a length field can say.
    pub open spec fn well_formed(self) -> bool {
        match self {
            FrameView::Simple(text) => !holds_delimiter(text),
            FrameView::Error(text) => !holds_delimiter(text),
            FrameView::Integer(_) => true,
            FrameView::Double(text) => is_double_text(text),
            FrameView::Bulk(data) => data.len() <= i32::MAX,
            FrameView::Null => true,
        }
    }
}

/// Reading what follows the length line of a bulk frame, the line having
/// said `length` and having ended just before `position`.
///
/// A length of zero or more asks for that many bytes and the delimiter
/// after them: `Incomplete` until the buffer holds them all, `Other` when
/// what follows the payload is not the delimiter. Minus one is `Null`, with
/// nothing more to read. Any other length is `Other`.
pub open spec fn bulk_read(bytes: Seq<u8>, position: int, length: i32) -> Result<
    Read<FrameView>,
    FrameParsingErrorView,
> {
    if length >= 0 {
        let end = position + length;
        if bytes.len() < end + 2 {
            Err(FrameParsingErrorView::Incomplete)
        } else if !delimiter_at(bytes, end) {
            Err(FrameParsingErrorView::Other(invalid_bulk_end()))
        } else {
            Ok(Read { value: FrameView::Bulk(bytes.subrange(position, end)), next: end + 2 })
        }
    } else if length == -1 {
        Ok(Read { value: FrameView::Null, next: position })
    } else {
        Err(FrameParsingErrorView::Other(invalid_bulk_size()))
    }
}

/// Reading what follows the tag of a frame of kind `tag`, from `position`.
pub open spec fn body_read(tag: Tag, bytes: Seq<u8>, position: int) -> Result<
    Read<FrameView>,
    FrameParsingErrorView,
> {
    match tag {
        Tag::Simple => match text_read(bytes, position) {
            Ok(text) => Ok(Read { value: FrameView::Simple(text.value), next: text.next }),
            Err(error) => Err(error),
        },
        Tag::Error => match text_read(bytes, position) {
            Ok(text) => Ok(Read { value: FrameView::Error(text.value), next: text.next }),
            Err(error) => Err(error),
        },
        Tag::Integer => match value_read::<i64>(bytes, position) {
            Ok(integer) => Ok(
                Read { value: FrameView::Integer(integer.value), next: integer.next },
            ),
            Err(error) => Err(error),
        },
        Tag::Double => match value_read::<DoubleText>(bytes, position) {
            Ok(number) => Ok(Read { value: FrameView::Double(number.value), next: number.next }),
            Err(error) => Err(error),
        },
        Tag::Bulk => match value_read::<i32>(bytes, position) {
            Ok(length) => bulk_read(bytes, length.next, length.value),
            Err(error) => Err(error),
        },
        Tag::Null => Ok(Read { value: FrameView::Null, next: position }),
        _ => Err(FrameParsingErrorView::Other(unsupported_frame_type())),
    }
}

/// Reading one frame at `position`: what the whole decoder computes.
///
/// The byte at `position` is the tag; `Incomplete` if the buffer ends
/// before it. What follows is read as the tag's kind demands.
pub open spec fn frame_read(bytes: Seq<u8>, position: int) -> Result<
    Read<FrameView>,
    FrameParsingErrorView,
> {
    match byte_read(bytes, position) {
        Ok(tag) => body_read(Tag::of(tag.value), bytes, tag.next),
        Err(error) => Err(error),
    }
}

/// The lines that make a frame of kind `tag` invalid whatever follows them:
/// text that is not UTF-8, a number that is none, a bulk length that is no
/// integer or lies below minus one.
pub open spec fn invalid_line(tag: Tag, line: Seq<u8>) -> bool {
    match tag {
        Tag::Simple => !valid_utf8(line),
        Tag::Error => !valid_utf8(line),
        Tag::Integer => <i64 as LineValue>::written(line) is None,
        Tag::Double => !is_double_text(line),
        Tag::Bulk => match <i32 as LineValue>::written(line) {
            Some(length) => length < -1,
            None => true,
        },
        _ => false,
    }
}

/// At `position` stands a tag, behind it a whole line, and the line is
/// invalid for the tag.
pub open spec fn holds_invalid_line(bytes: Seq<u8>, position: int) -> bool {
    &&& byte_read(bytes, position) matches Ok(tag)
    &&& line_read(bytes, tag.next) matches Ok(line)
    &&& invalid_line(Tag::of(tag.value), line.value)
}

impl Frame {
    /// Decodes the frame that starts under the cursor.
    ///
    /// On success the cursor stands on the first byte after the frame. On
    /// failure it has not moved, so that after `Incomplete` the caller may
    /// append bytes to the buffer and decode again from the same position.
    ///
    /// The result is `frame_read` of the buffer and the position, exactly.
    /// The clauses after the first follow from it: every frame that comes
    /// back is well formed and was read from inside the buffer, forwards, and
    /// a line that is there and is invalid gives `Other`, never `Incomplete`.
    pub fn parse(buf: &mut Cursor<'_>) -> (r: Result<Frame, FrameParsingError>)
        ensures
            agrees(
                r,
                old(buf)@,
                final(buf)@,
                frame_read(old(buf)@.bytes, old(buf)@.position as int),
            ),
            r matches Ok(frame) ==> frame@.well_formed(),
            r is Ok ==> old(buf)@.position < final(buf)@.position <= old(buf)@.bytes.len(),
            holds_invalid_line(old(buf)@.bytes, old(buf)@.position as int) ==> r matches Err(
                FrameParsingError::Other(_),
            ),
    {
        let start = buf.position();
        let tag = Tag::from_byte(read_u8(buf)?);
        let frame = parse_body(tag, buf);
        if frame.is_err() {
            buf.set_position(start);
        }
        proof {
            if frame is Ok {
                lemma_frame_bounds(old(buf)@.bytes, old(buf)@.position as int);
            }
        }
        frame
    }
}

/// Decodes what follows the tag of a frame of kind `tag`.
fn parse_body(tag: Tag, buf: &mut Cursor<'_>) -> (r: Result<Frame, FrameParsingError>)
    ensures
        agrees(
            r,
            old(buf)@,
            final(buf)@,
            body_read(tag, old(buf)@.bytes, old(buf)@.position as int),
        ),
{
    match tag {
        Tag::Simple => Ok(Frame::Simple(read_line_simple(buf)?)),
        Tag::Error => Ok(Frame::Error(read_line_simple(buf)?)),
        Tag::Integer => Ok(Frame::Integer(read_from_line::<i64>(buf)?)),
        Tag::Double => Ok(Frame::Double(read_from_line::<DoubleText>(buf)?)),
        Tag::Bulk => {
            let start = buf.position();
            let length = read_from_line::<i32>(buf)?;
            let frame = parse_bulk(length, buf);
            if frame.is_err() {
                buf.set_position(start);
            }
            frame
        },
        Tag::Null => Ok(Frame::Null),
        Tag::Array
        | Tag::Boolean
        | Tag::BigNumber
        | Tag::BulkError
        | Tag::VerbatimString
        | Tag::Dictionary
        | Tag::Attribute
        | Tag::Push
        | Tag::Unknown => Err(FrameParsingError::from("unsupported frame type")),
    }
}

/// Decodes what follows the length line of a bulk frame that said `length`.
fn parse_bulk(length: i32, buf: &mut Cursor<'_>) -> (r: Result<Frame, FrameParsingError>)
    ensures
        agrees(
            r,
            old(buf)@,
            final(buf)@,
            bulk_read(old(buf)@.bytes, old(buf)@.position as int, length),
        ),
{
    if length >= 0 {
        let data = buf.get_ref();
        let len = data.len();
        let pos = buf.position();
        if pos > len as u64 {
            return Err(FrameParsingError::Incomplete);
        }
        let start = pos as usize;
        let size = length as usize;
        if len - start < size || len - start - size < 2 {
            return Err(FrameParsingError::Incomplete);
        }
        let end = start + size;
        if data[end] != CR || data[end + 1] != LF {
            return Err(FrameParsingError::from("invalid bulk string end"));
        }
        let payload = copy_from_slice(slice_subrange(data, start, end));
        buf.set_position((end + 2) as u64);
        Ok(Frame::Bulk(payload))
    } else if length == -1 {
        Ok(Frame::Null)
    } else {
        Err(FrameParsingError::from("invalid bulk string size"))
    }
}

} // verus!
