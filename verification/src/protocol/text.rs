//! Text lines: bytes that must be UTF-8 before they are anything else.

use vstd::prelude::*;
use vstd::slice::slice_to_vec;
use vstd::utf8::{
    char_is_scalar, char_u32_cast, decode_utf8, encode_scalar, encode_utf8,
    encode_utf8_decode_utf8, valid_utf8,
};

use crate::protocol::line::delimiter_at;

verus! {

/// The characters that `line` encodes, if it is UTF-8.
pub open spec fn text_of(line: Seq<u8>) -> Option<Seq<char>> {
    if valid_utf8(line) {
        Some(decode_utf8(line))
    } else {
        None
    }
}

/// `text` holds a carriage return with a line feed right behind it.
pub open spec fn holds_delimiter(text: Seq<char>) -> bool {
    exists|i: int| 0 <= i && i + 1 < text.len() && #[trigger] text[i] == '\r' && text[i + 1] == '\n'
}

/// The bytes that encode one character: a single byte below 128 that is the
/// character's own number, or two to four bytes from 128 up.
pub proof fn lemma_scalar_bytes(c: char)
    ensures
        ({
            let bytes = encode_scalar(c as u32);
            if (c as u32) < 0x80 {
                bytes.len() == 1 && bytes[0] == c as u32
            } else {
                2 <= bytes.len() <= 4 && forall|k: int|
                    0 <= k < bytes.len() ==> #[trigger] bytes[k] >= 0x80
            }
        }),
{
    let scalar = c as u32;
    char_is_scalar(c);
    assert(scalar < 0x80 ==> ((scalar & 0x7F) as u8) as u32 == scalar) by (bit_vector);
    assert(0xC0u8 | ((scalar >> 6) & 0x1F) as u8 >= 0x80) by (bit_vector);
    assert(0xE0u8 | ((scalar >> 12) & 0x0F) as u8 >= 0x80) by (bit_vector);
    assert(0xF0u8 | ((scalar >> 18) & 0x7) as u8 >= 0x80) by (bit_vector);
    assert(0x80u8 | (scalar & 0x3F) as u8 >= 0x80) by (bit_vector);
    assert(0x80u8 | ((scalar >> 6) & 0x3F) as u8 >= 0x80) by (bit_vector);
    assert(0x80u8 | ((scalar >> 12) & 0x3F) as u8 >= 0x80) by (bit_vector);
}

/// A text holds the delimiter as characters exactly if its encoding holds it
/// as bytes.
pub proof fn lemma_delimiter_in_text(text: Seq<char>)
    ensures
        holds_delimiter(text) <==> exists|at: int| delimiter_at(encode_utf8(text), at),
    decreases text.len(),
{
    if text.len() > 0 {
        let bytes = encode_utf8(text);
        let first = encode_scalar(text[0] as u32);
        let rest = text.drop_first();
        let tail = encode_utf8(rest);
        lemma_scalar_bytes(text[0]);
        lemma_delimiter_in_text(rest);
        if rest.len() > 0 {
            lemma_scalar_bytes(rest[0]);
        }
        if holds_delimiter(text) {
            let i = choose|i: int|
                0 <= i && i + 1 < text.len() && #[trigger] text[i] == '\r' && text[i + 1] == '\n';
            if i == 0 {
                assert(delimiter_at(bytes, 0));
            } else {
                assert(rest[i - 1] == '\r' && rest[i] == '\n');
                let at = choose|at: int| delimiter_at(tail, at);
                assert(delimiter_at(bytes, first.len() + at));
            }
        }
        if exists|at: int| delimiter_at(bytes, at) {
            let at = choose|at: int| delimiter_at(bytes, at);
            if at < first.len() {
                char_u32_cast(text[0], 0x0d);
                char_u32_cast(rest[0], 0x0a);
            } else {
                assert(delimiter_at(tail, at - first.len()));
            }
        }
    }
}

/// Calls `String::from_utf8` and drops the error it may return.
///
/// Trusted: the call succeeds exactly on byte vectors that are UTF-8, and
/// the string it makes consists of the very bytes it was given.
#[verifier::external_body]
fn string_from_utf8(bytes: Vec<u8>) -> (text: Option<String>)
    ensures
        text is Some <==> valid_utf8(bytes@),
        text matches Some(s) ==> encode_utf8(s@) == bytes@,
{
    String::from_utf8(bytes).ok()
}

/// Turns a line into a string of its own, if the line is UTF-8.
pub fn decode_text(line: &[u8]) -> (text: Option<String>)
    ensures
        match text_of(line@) {
            Some(chars) => text matches Some(s) && s@ == chars && encode_utf8(s@) == line@,
            None => text is None,
        },
{
    let text = string_from_utf8(slice_to_vec(line));
    proof {
        if text is Some {
            encode_utf8_decode_utf8(text->0@);
        }
    }
    text
}

} // verus!
