//! What holds of the decoder on every buffer.

use vstd::prelude::*;
use vstd::utf8::{decode_utf8, decode_utf8_encode_utf8};

use crate::protocol::cursor::CursorView;
use crate::protocol::error::{FrameParsingError, FrameParsingErrorView};
use crate::protocol::frame::{frame_read, holds_invalid_line, Frame, FrameView};
use crate::protocol::line::{
    agrees, byte_read, delimiter_at, has_line, lemma_line_bounds, lemma_line_found,
    lemma_line_missing, line_end, line_read, value_read, Read,
};
use crate::protocol::tag::Tag;
use crate::protocol::text::lemma_delimiter_in_text;

verus! {

/// Where a delimiter stands at or after `start`, a line starts at `start`
/// and ends no later than that delimiter.
pub proof fn lemma_delimiter_ends_line(bytes: Seq<u8>, start: int, at: int)
    requires
        start <= at,
        delimiter_at(bytes, at),
    ensures
        has_line(bytes, start),
        start <= line_end(bytes, start) <= at,
    decreases at - start,
{
    if forall|earlier: int| start <= earlier < at ==> !delimiter_at(bytes, earlier) {
        lemma_line_found(bytes, start, at);
    } else {
        let earlier = choose|earlier: int| start <= earlier < at && delimiter_at(bytes, earlier);
        lemma_delimiter_ends_line(bytes, start, earlier);
    }
}

/// A prefix of a buffer holds the lines of the buffer that end inside it,
/// and no others.
pub proof fn lemma_line_read_prefix(bytes: Seq<u8>, position: int, len: int)
    requires
        0 <= position,
        0 <= len <= bytes.len(),
    ensures
        line_read(bytes.take(len), position) == if line_read(bytes, position) matches Ok(line)
            && line.next <= len {
            line_read(bytes, position)
        } else {
            Err(FrameParsingErrorView::Incomplete)
        },
{
    let short = bytes.take(len);
    assert forall|at: int| delimiter_at(short, at) implies delimiter_at(bytes, at) by {}
    if has_line(bytes, position) && line_end(bytes, position) + 2 <= len {
        let end = line_end(bytes, position);
        lemma_line_found(short, position, end);
        assert(short.subrange(position, end) == bytes.subrange(position, end));
    } else {
        assert forall|at: int| position <= at implies !delimiter_at(short, at) by {
            if delimiter_at(short, at) {
                lemma_delimiter_ends_line(bytes, position, at);
            }
        }
        lemma_line_missing(short, position);
    }
}

/// A frame that was decoded lies inside the buffer, after the position, and
/// is well formed.
pub proof fn lemma_frame_bounds(bytes: Seq<u8>, position: int)
    requires
        0 <= position,
        frame_read(bytes, position) is Ok,
    ensures
        frame_read(bytes, position) matches Ok(frame) && {
            &&& position < frame.next <= bytes.len()
            &&& frame.value.well_formed()
        },
{
    let tag = Tag::of(bytes[position]);
    let start = position + 1;
    if tag is Null {
    } else {
        lemma_line_bounds(bytes, start);
        let line = line_read(bytes, start)->Ok_0;
        if tag is Simple || tag is Error {
            decode_utf8_encode_utf8(line.value);
            lemma_delimiter_in_text(decode_utf8(line.value));
        }
    }
}

/// Cutting a buffer short changes what is decoded from it in one way only:
/// the result may become `Incomplete`.
pub proof fn lemma_prefix_decides_alike(bytes: Seq<u8>, position: int, len: int)
    requires
        0 <= position,
        0 <= len <= bytes.len(),
    ensures
        frame_read(bytes.take(len), position) == frame_read(bytes, position) || frame_read(
            bytes.take(len),
            position,
        ) == Err::<Read<FrameView>, _>(FrameParsingErrorView::Incomplete),
{
    let short = bytes.take(len);
    if position < len {
        let tag = Tag::of(bytes[position]);
        let start = position + 1;
        lemma_line_read_prefix(bytes, start, len);
        if tag is Bulk && value_read::<i32>(short, start) is Ok {
            let length = value_read::<i32>(short, start)->Ok_0;
            lemma_line_bounds(short, start);
            if length.value >= 0 {
                let end = length.next + length.value;
                if short.len() >= end + 2 {
                    assert(short.subrange(length.next, end) == bytes.subrange(length.next, end));
                }
            }
        }
    }
}

/// A buffer cut anywhere before the end of a frame that it holds is
/// incomplete: it decodes to no frame, and to no other error.
pub proof fn lemma_truncated_is_incomplete(bytes: Seq<u8>, position: int, len: int)
    requires
        0 <= position,
        frame_read(bytes, position) matches Ok(frame) && 0 <= len < frame.next,
    ensures
        frame_read(bytes.take(len), position) == Err::<Read<FrameView>, _>(
            FrameParsingErrorView::Incomplete,
        ),
{
    lemma_frame_bounds(bytes, position);
    lemma_prefix_decides_alike(bytes, position, len);
    if frame_read(bytes.take(len), position) is Ok {
        lemma_frame_bounds(bytes.take(len), position);
    }
}

/// Bytes that arrive later change nothing that was decided: a buffer that
/// decodes to a frame or to `Other` decodes to the same once more bytes
/// have been appended to it.
pub proof fn lemma_appending_keeps_result(bytes: Seq<u8>, more: Seq<u8>, position: int)
    requires
        0 <= position,
        frame_read(bytes, position) != Err::<Read<FrameView>, _>(
            FrameParsingErrorView::Incomplete,
        ),
    ensures
        frame_read(bytes + more, position) == frame_read(bytes, position),
{
    let longer = bytes + more;
    assert(longer.take(bytes.len() as int) == bytes);
    lemma_prefix_decides_alike(longer, position, bytes.len() as int);
}

/// A frame whose line is there and is invalid decodes to `Other`, never to
/// `Incomplete` and never to a frame.
pub proof fn lemma_invalid_line_is_other(bytes: Seq<u8>, position: int)
    requires
        holds_invalid_line(bytes, position),
    ensures
        frame_read(bytes, position) matches Err(FrameParsingErrorView::Other(_)),
{
}

/// A tag that announces no frame that is decoded gives `Other` at once, with
/// no look at what follows it.
pub proof fn lemma_unknown_tag_is_other(bytes: Seq<u8>, position: int)
    requires
        byte_read(bytes, position) matches Ok(tag) && !Tag::of(tag.value).is_decoded(),
    ensures
        frame_read(bytes, position) matches Err(FrameParsingErrorView::Other(_)),
{
}

/// Decoding depends on the buffer and the position and on nothing else: two
/// runs of `Frame::parse` from the same cursor end alike, with equal frames
/// or equal errors and with the cursor in the same place.
pub proof fn lemma_parse_is_a_function(
    before: CursorView,
    first: Result<Frame, FrameParsingError>,
    after_first: CursorView,
    second: Result<Frame, FrameParsingError>,
    after_second: CursorView,
)
    requires
        agrees(first, before, after_first, frame_read(before.bytes, before.position as int)),
        agrees(second, before, after_second, frame_read(before.bytes, before.position as int)),
    ensures
        after_first == after_second,
        match (first, second) {
            (Ok(a), Ok(b)) => a@ == b@,
            (Err(a), Err(b)) => a@ == b@,
            _ => false,
        },
{
}

} // verus!
