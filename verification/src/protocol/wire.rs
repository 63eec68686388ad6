//! The bytes that stand for a frame on the wire, and the proof that the
//! decoder reads them back.

use vstd::prelude::*;
use vstd::utf8::{
    encode_utf8, encode_utf8_decode_utf8, encode_utf8_valid_utf8, is_leading_byte_width_1,
    partial_valid_utf8_extend_ascii_block, valid_utf8,
};

use crate::protocol::double::{is_double_text, is_special, number_splits_at, POINT};
use crate::protocol::error::FrameParsingErrorView;
use crate::protocol::frame::{bulk_read, frame_read, FrameView};
use crate::protocol::integer::{
    all_digits, digits_value, integer_value, is_digit, is_sign, is_signed, unsigned_part, MINUS,
    ZERO,
};
use crate::protocol::laws::{lemma_frame_bounds, lemma_truncated_is_incomplete};
use crate::protocol::line::{
    byte_read, delimiter_at, lemma_line_found, line_read, value_read, Read, CR, LF,
};
use crate::protocol::tag::{BULK, DOUBLE, ERROR, INTEGER, NULL, SIMPLE};
use crate::protocol::text::lemma_delimiter_in_text;

verus! {

/// The two bytes that end a line.
pub open spec fn delimiter() -> Seq<u8> {
    seq![CR, LF]
}

/// The digits of `value` in decimal, most significant first, with no zero
/// in front but for zero itself.
pub open spec fn decimal_digits(value: nat) -> Seq<u8>
    decreases value,
{
    if value < 10 {
        seq![(ZERO + value) as u8]
    } else {
        decimal_digits(value / 10).push((ZERO + value % 10) as u8)
    }
}

/// The shortest text that writes `value`: a minus sign if it is negative,
/// then its digits.
pub open spec fn decimal_text(value: int) -> Seq<u8> {
    if value < 0 {
        seq![MINUS] + decimal_digits((-value) as nat)
    } else {
        decimal_digits(value as nat)
    }
}

/// The bytes that stand for `frame` on the wire: its tag, then its payload
/// in lines. A number is written in its shortest form, a floating-point
/// number as the text that the frame keeps.
pub open spec fn wire_form(frame: FrameView) -> Seq<u8> {
    match frame {
        FrameView::Simple(text) => seq![SIMPLE] + encode_utf8(text) + delimiter(),
        FrameView::Error(text) => seq![ERROR] + encode_utf8(text) + delimiter(),
        FrameView::Integer(value) => seq![INTEGER] + decimal_text(value as int) + delimiter(),
        FrameView::Double(text) => seq![DOUBLE] + text + delimiter(),
        FrameView::Bulk(data) => seq![BULK] + decimal_text(data.len() as int) + delimiter()
            + data + delimiter(),
        FrameView::Null => seq![NULL] + delimiter(),
    }
}

/// How many bytes of its wire form the decoder takes for `frame`: all of
/// them, but for `Null`, of which it takes the tag alone.
pub open spec fn wire_len(frame: FrameView) -> int {
    if frame is Null {
        1
    } else {
        wire_form(frame).len() as int
    }
}

/// The digits of a number are digits, and write the number.
pub proof fn lemma_decimal_digits(value: nat)
    ensures
        decimal_digits(value).len() > 0,
        all_digits(decimal_digits(value)),
        digits_value(decimal_digits(value)) == value,
    decreases value,
{
    let digits = decimal_digits(value);
    if value < 10 {
        assert(digits_value(digits.drop_last()) == 0);
    } else {
        lemma_decimal_digits(value / 10);
        assert(digits.drop_last() == decimal_digits(value / 10));
    }
}

/// The shortest text of an integer writes that integer.
pub proof fn lemma_decimal_text(value: int)
    ensures
        integer_value(decimal_text(value)) == Some(value),
        forall|i: int|
            0 <= i < decimal_text(value).len() ==> is_digit(#[trigger] decimal_text(value)[i])
                || decimal_text(value)[i] == MINUS,
{
    let text = decimal_text(value);
    if value < 0 {
        let digits = decimal_digits((-value) as nat);
        lemma_decimal_digits((-value) as nat);
        assert(text.drop_first() == digits);
    } else {
        lemma_decimal_digits(value as nat);
    }
}

/// Bytes below 128 are UTF-8 as they are.
pub proof fn lemma_ascii_is_utf8(text: Seq<u8>)
    requires
        forall|i: int| 0 <= i < text.len() ==> #[trigger] text[i] < 0x80,
    ensures
        valid_utf8(text),
{
    assert forall|i: int| 0 <= 0 <= i < text.len() <= text.len() implies #[trigger]
        is_leading_byte_width_1(text[i]) by {}
    partial_valid_utf8_extend_ascii_block(text, 0, text.len() as int);
    assert(text.subrange(0, text.len() as int) == text);
}

/// A line that holds no delimiter, put behind a tag and before its
/// delimiter, is found where it was put, whatever surrounds the frame.
pub proof fn lemma_line_in_place(before: Seq<u8>, tag: u8, text: Seq<u8>, after: Seq<u8>)
    requires
        forall|at: int| !delimiter_at(text, at),
    ensures
        ({
            let bytes = before + seq![tag] + text + delimiter() + after;
            let start = before.len() as int + 1;
            &&& byte_read(bytes, before.len() as int) == Ok::<_, FrameParsingErrorView>(
                Read { value: tag, next: start },
            )
            &&& line_read(bytes, start) == Ok::<_, FrameParsingErrorView>(
                Read { value: text, next: start + text.len() + 2 },
            )
        }),
{
    let bytes = before + seq![tag] + text + delimiter() + after;
    let start = before.len() as int + 1;
    let end = start + text.len();
    assert forall|at: int| start <= at < end implies !delimiter_at(bytes, at) by {
        if at + 1 < end {
            assert(!delimiter_at(text, at - start));
        }
    }
    lemma_line_found(bytes, start, end);
    assert(bytes.subrange(start, end) == text);
}

/// `byte` may stand in the text of a floating-point number: a digit, a
/// sign, the point or a letter.
pub open spec fn is_number_byte(byte: u8) -> bool {
    is_digit(byte) || is_sign(byte) || byte == POINT || 0x41 <= byte <= 0x5a || 0x61 <= byte
        <= 0x7a
}

/// The text of a floating-point number is made of digits, signs, points and
/// letters, and of nothing else.
pub proof fn lemma_double_text_is_plain(text: Seq<u8>)
    requires
        is_double_text(text),
    ensures
        forall|i: int| 0 <= i < text.len() ==> is_number_byte(#[trigger] text[i]),
{
    let body = unsigned_part(text);
    assert forall|i: int| 0 <= i < body.len() implies is_number_byte(#[trigger] body[i]) by {
        if is_special(body) {
            reveal_strlit("inf");
            reveal_strlit("infinity");
            reveal_strlit("nan");
        } else {
            let split = choose|split: int| number_splits_at(body, split);
            if i < split {
                assert(body.take(split)[i] == body[i]);
            } else {
                let exponent = body.skip(split);
                let rest = exponent.drop_first();
                let digits = unsigned_part(rest);
                if i > split {
                    assert(rest[i - split - 1] == body[i]);
                    if is_signed(rest) && i > split + 1 {
                        assert(digits[i - split - 2] == body[i]);
                    }
                }
            }
        }
    }
    assert forall|i: int| 0 <= i < text.len() implies is_number_byte(#[trigger] text[i]) by {
        if is_signed(text) && i > 0 {
            assert(body[i - 1] == text[i]);
        }
    }
}

/// A frame of text in its wire form decodes to itself.
proof fn lemma_text_decodes(frame: FrameView, before: Seq<u8>, after: Seq<u8>)
    requires
        frame.well_formed(),
        frame is Simple || frame is Error,
    ensures
        frame_read(before + wire_form(frame) + after, before.len() as int) == Ok::<
            _,
            FrameParsingErrorView,
        >(Read { value: frame, next: before.len() + wire_len(frame) }),
{
    let text = if frame is Simple {
        frame->Simple_0
    } else {
        frame->Error_0
    };
    let tag = if frame is Simple {
        SIMPLE
    } else {
        ERROR
    };
    let line = encode_utf8(text);
    lemma_delimiter_in_text(text);
    lemma_line_in_place(before, tag, line, after);
    assert(before + wire_form(frame) + after == before + seq![tag] + line + delimiter() + after);
    encode_utf8_valid_utf8(text);
    encode_utf8_decode_utf8(text);
}

/// An integer frame in its wire form decodes to itself.
proof fn lemma_integer_decodes(value: i64, before: Seq<u8>, after: Seq<u8>)
    ensures
        frame_read(
            before + wire_form(FrameView::Integer(value)) + after,
            before.len() as int,
        ) == Ok::<_, FrameParsingErrorView>(
            Read {
                value: FrameView::Integer(value),
                next: before.len() + wire_len(FrameView::Integer(value)),
            },
        ),
{
    let frame = FrameView::Integer(value);
    let line = decimal_text(value as int);
    lemma_decimal_text(value as int);
    lemma_ascii_is_utf8(line);
    lemma_line_in_place(before, INTEGER, line, after);
    assert(before + wire_form(frame) + after == before + seq![INTEGER] + line + delimiter()
        + after);
}

/// A frame of a floating-point number in its wire form decodes to itself.
proof fn lemma_double_decodes(text: Seq<u8>, before: Seq<u8>, after: Seq<u8>)
    requires
        is_double_text(text),
    ensures
        frame_read(
            before + wire_form(FrameView::Double(text)) + after,
            before.len() as int,
        ) == Ok::<_, FrameParsingErrorView>(
            Read {
                value: FrameView::Double(text),
                next: before.len() + wire_len(FrameView::Double(text)),
            },
        ),
{
    let frame = FrameView::Double(text);
    lemma_double_text_is_plain(text);
    lemma_ascii_is_utf8(text);
    lemma_line_in_place(before, DOUBLE, text, after);
    assert(before + wire_form(frame) + after == before + seq![DOUBLE] + text + delimiter()
        + after);
}

/// A bulk frame in its wire form decodes to itself.
proof fn lemma_bulk_decodes(data: Seq<u8>, before: Seq<u8>, after: Seq<u8>)
    requires
        data.len() <= i32::MAX,
    ensures
        frame_read(before + wire_form(FrameView::Bulk(data)) + after, before.len() as int)
            == Ok::<_, FrameParsingErrorView>(
            Read {
                value: FrameView::Bulk(data),
                next: before.len() + wire_len(FrameView::Bulk(data)),
            },
        ),
{
    let frame = FrameView::Bulk(data);
    let bytes = before + wire_form(frame) + after;
    let line = decimal_text(data.len() as int);
    let rest = data + delimiter() + after;
    lemma_decimal_text(data.len() as int);
    lemma_ascii_is_utf8(line);
    lemma_line_in_place(before, BULK, line, rest);
    assert(bytes == before + seq![BULK] + line + delimiter() + rest);
    let position = before.len() as int;
    let start = position + 1 + line.len() + 2;
    let end = start + data.len();
    assert(value_read::<i32>(bytes, position + 1) == Ok::<_, FrameParsingErrorView>(
        Read { value: data.len() as i32, next: start },
    ));
    assert(bytes.subrange(start, end) == data);
    assert(bulk_read(bytes, start, data.len() as i32) == Ok::<_, FrameParsingErrorView>(
        Read { value: frame, next: end + 2 },
    ));
}

/// The wire form of a well-formed frame decodes to that frame, wherever in
/// a buffer it stands and whatever follows it, and the decoder stops at its
/// end, or, for `Null`, behind its tag.
pub proof fn lemma_wire_form_decodes(frame: FrameView, before: Seq<u8>, after: Seq<u8>)
    requires
        frame.well_formed(),
    ensures
        frame_read(before + wire_form(frame) + after, before.len() as int) == Ok::<
            _,
            FrameParsingErrorView,
        >(Read { value: frame, next: before.len() + wire_len(frame) }),
{
    match frame {
        FrameView::Simple(_) => lemma_text_decodes(frame, before, after),
        FrameView::Error(_) => lemma_text_decodes(frame, before, after),
        FrameView::Integer(value) => lemma_integer_decodes(value, before, after),
        FrameView::Double(text) => lemma_double_decodes(text, before, after),
        FrameView::Bulk(data) => lemma_bulk_decodes(data, before, after),
        FrameView::Null => {},
    }
}

/// A wire form cut short is incomplete: the bytes that stand for a
/// well-formed frame, without one or more of those at their end that the
/// decoder takes, decode to no frame and to no other error.
pub proof fn lemma_cut_wire_form_is_incomplete(frame: FrameView, len: int)
    requires
        frame.well_formed(),
        0 <= len < wire_len(frame),
    ensures
        frame_read(wire_form(frame).take(len), 0) == Err::<Read<FrameView>, _>(
            FrameParsingErrorView::Incomplete,
        ),
{
    lemma_wire_form_decodes(frame, Seq::empty(), Seq::empty());
    lemma_truncated_is_incomplete(wire_form(frame), 0, len);
}

/// Round trip: a frame that was decoded, written in its wire form, decodes
/// to an equal frame again.
pub proof fn lemma_round_trip(bytes: Seq<u8>, position: int)
    requires
        0 <= position,
        frame_read(bytes, position) is Ok,
    ensures
        frame_read(bytes, position) matches Ok(first) && frame_read(wire_form(first.value), 0)
            == Ok::<_, FrameParsingErrorView>(
            Read { value: first.value, next: wire_len(first.value) },
        ),
{
    lemma_frame_bounds(bytes, position);
    let frame = frame_read(bytes, position)->Ok_0.value;
    lemma_wire_form_decodes(frame, Seq::empty(), Seq::empty());
}

} // verus!
