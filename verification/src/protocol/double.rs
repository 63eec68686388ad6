//! Floating-point numbers as they stand on a line.
//!
//! A number is kept as its text. The text obeys the grammar below, which is
//! the one that the standard library reads a 64-bit floating-point number
//! from, so that turning a [`DoubleText`] into such a number cannot fail.
//!
//! ```text
//! Double   ::= Sign? ( 'inf' | 'infinity' | 'nan' | Number )
//! Number   ::= Mantissa Exponent?
//! Mantissa ::= digits and at most one point, one digit at least
//! Exponent ::= 'e' Sign? Digit+
//! ```
//!
//! Letters match in either case.

use vstd::prelude::*;
use vstd::slice::slice_subrange;
use vstd::string::StringSliceAdditionalSpecFns;
use vstd::utf8::encode_utf8;

use crate::protocol::integer::{all_digits, is_digit, unsigned_part, MINUS, PLUS, ZERO};

verus! {

/// The decimal point.
pub const POINT: u8 = 0x2e;

/// The small letter that starts an exponent.
pub const SMALL_E: u8 = 0x65;

/// The capital letter that starts an exponent.
pub const CAPITAL_E: u8 = 0x45;

/// `byte` is the letter that starts an exponent, in either case.
pub open spec fn is_exponent_mark(byte: u8) -> bool {
    byte == SMALL_E || byte == CAPITAL_E
}

/// `byte` as a small letter if it is a capital one, else as it is.
pub open spec fn lower(byte: u8) -> u8 {
    if 0x41 <= byte <= 0x5a {
        (byte + 0x20) as u8
    } else {
        byte
    }
}

/// `text` is `word`, letter by letter, in whatever case.
pub open spec fn spells(text: Seq<u8>, word: Seq<char>) -> bool {
    &&& text.len() == word.len()
    &&& forall|i: int| 0 <= i < text.len() ==> lower(#[trigger] text[i]) == word[i] as u8
}

/// `text` names an infinity or the absence of a number.
pub open spec fn is_special(text: Seq<u8>) -> bool {
    spells(text, "inf"@) || spells(text, "infinity"@) || spells(text, "nan"@)
}

/// `text` is made of digits and at most one point, and holds a digit.
pub open spec fn is_mantissa(text: Seq<u8>) -> bool {
    &&& forall|i: int| 0 <= i < text.len() ==> is_digit(#[trigger] text[i]) || text[i] == POINT
    &&& forall|i: int, j: int|
        0 <= i < j < text.len() ==> !(#[trigger] text[i] == POINT && #[trigger] text[j] == POINT)
    &&& exists|i: int| 0 <= i < text.len() && is_digit(#[trigger] text[i])
}

/// `text` is an exponent: its mark, an optional sign, and digits.
pub open spec fn is_exponent(text: Seq<u8>) -> bool {
    &&& text.len() > 0
    &&& is_exponent_mark(text[0])
    &&& unsigned_part(text.drop_first()).len() > 0
    &&& all_digits(unsigned_part(text.drop_first()))
}

/// `text` splits at `split` into a mantissa and, unless nothing is left, an
/// exponent.
pub open spec fn number_splits_at(text: Seq<u8>, split: int) -> bool {
    &&& 0 <= split <= text.len()
    &&& is_mantissa(text.take(split))
    &&& split == text.len() || is_exponent(text.skip(split))
}

/// `text` is an unsigned decimal number.
pub open spec fn is_number(text: Seq<u8>) -> bool {
    exists|split: int| number_splits_at(text, split)
}

/// `text` is a floating-point number by the grammar of this module.
pub open spec fn is_double_text(text: Seq<u8>) -> bool {
    is_special(unsigned_part(text)) || is_number(unsigned_part(text))
}

/// Where the run of digits that starts at `from` ends.
fn digit_run(text: &[u8], from: usize) -> (end: usize)
    requires
        from <= text@.len(),
    ensures
        from <= end <= text@.len(),
        forall|i: int| from <= i < end ==> is_digit(#[trigger] text@[i]),
        end < text@.len() ==> !is_digit(text@[end as int]),
{
    let len = text.len();
    let mut end = from;
    while end < len && ZERO <= text[end] && text[end] <= ZERO + 9
        invariant
            from <= end <= len,
            len == text@.len(),
            forall|i: int| from <= i < end ==> is_digit(#[trigger] text@[i]),
        decreases len - end,
    {
        end += 1;
    }
    end
}

/// Tells whether `text` is an unsigned decimal number.
fn check_number(text: &[u8]) -> (ok: bool)
    ensures
        ok == is_number(text@),
{
    let len = text.len();
    let whole_end = digit_run(text, 0);
    let pointed = whole_end < len && text[whole_end] == POINT;
    let end = if pointed {
        digit_run(text, whole_end + 1)
    } else {
        whole_end
    };
    let some_digit = whole_end > 0 || (pointed && end > whole_end + 1);
    let ghost mantissa = text@.take(end as int);
    proof {
        // The scan stops where every split must lie.
        assert forall|split: int| number_splits_at(text@, split) implies split == end by {
            if split > end {
                let head = text@.take(split);
                assert(head[end as int] == text@[end as int]);
                if pointed {
                    assert(head[whole_end as int] == POINT);
                }
            }
        }
        if some_digit {
            let witness: int = if whole_end > 0 {
                0
            } else {
                whole_end + 1
            };
            assert(is_digit(mantissa[witness]));
        }
    }
    if !some_digit {
        return false;
    }
    if end == len {
        assert(number_splits_at(text@, end as int));
        return true;
    }
    if text[end] != SMALL_E && text[end] != CAPITAL_E {
        return false;
    }
    let after_mark = end + 1;
    let signed = after_mark < len && (text[after_mark] == PLUS || text[after_mark] == MINUS);
    let from = if signed {
        after_mark + 1
    } else {
        after_mark
    };
    let exponent_end = digit_run(text, from);
    proof {
        let digits = unsigned_part(text@.skip(end as int).drop_first());
        assert forall|i: int| 0 <= i < digits.len() implies digits[i] == text@[from + i] by {}
        if exponent_end > from && exponent_end == len {
            assert(number_splits_at(text@, end as int));
        } else if exponent_end < len {
            assert(!is_digit(digits[exponent_end - from]));
        }
    }
    exponent_end > from && exponent_end == len
}

/// `byte` as a small letter if it is a capital one.
fn to_lower(byte: u8) -> (small: u8)
    ensures
        small == lower(byte),
{
    if 0x41 <= byte && byte <= 0x5a {
        byte + 0x20
    } else {
        byte
    }
}

/// Tells whether `text` is one of the three words that stand for a value
/// which is no decimal number.
fn check_special(text: &[u8]) -> (ok: bool)
    ensures
        ok == is_special(text@),
{
    proof {
        reveal_strlit("inf");
        reveal_strlit("infinity");
        reveal_strlit("nan");
    }
    let len = text.len();
    if len == 3 {
        let a = to_lower(text[0]);
        let b = to_lower(text[1]);
        let c = to_lower(text[2]);
        (a == 0x69 && b == 0x6e && c == 0x66) || (a == 0x6e && b == 0x61 && c == 0x6e)
    } else if len == 8 {
        to_lower(text[0]) == 0x69 && to_lower(text[1]) == 0x6e && to_lower(text[2]) == 0x66
            && to_lower(text[3]) == 0x69 && to_lower(text[4]) == 0x6e && to_lower(text[5]) == 0x69
            && to_lower(text[6]) == 0x74 && to_lower(text[7]) == 0x79
    } else {
        false
    }
}

/// Tells whether `text` is a floating-point number by the grammar of this
/// module.
pub fn check_double(text: &[u8]) -> (ok: bool)
    ensures
        ok == is_double_text(text@),
{
    let len = text.len();
    let signed = len > 0 && (text[0] == PLUS || text[0] == MINUS);
    let body = if signed {
        slice_subrange(text, 1, len)
    } else {
        text
    };
    check_special(body) || check_number(body)
}

/// The text of a floating-point number, as it stood on the wire.
///
/// Two of them are equal when they are the same text: a zero more or less
/// at the end of a fraction makes a difference here that it would not make
/// between the numbers.
#[derive(Debug, PartialEq, Eq)]
pub struct DoubleText {
    text: String,
}

impl View for DoubleText {
    type V = Seq<u8>;

    /// The bytes of the text.
    closed spec fn view(&self) -> Seq<u8> {
        encode_utf8(self.text@)
    }
}

impl DoubleText {
    #[verifier::type_invariant]
    spec fn well_formed(self) -> bool {
        is_double_text(self@)
    }

    /// Keeps `text`, if it is a floating-point number by the grammar of this
    /// module.
    pub fn new(text: &str) -> (number: Option<DoubleText>)
        ensures
            match number {
                Some(n) => n@ == text.spec_bytes() && is_double_text(n@),
                None => !is_double_text(text.spec_bytes()),
            },
    {
        if check_double(text.as_bytes()) {
            Some(DoubleText { text: text.to_owned() })
        } else {
            None
        }
    }

    /// The text, which always obeys the grammar.
    pub fn as_str(&self) -> (text: &str)
        ensures
            text.spec_bytes() == self@,
            is_double_text(self@),
    {
        proof {
            use_type_invariant(self);
        }
        self.text.as_str()
    }
}

} // verus!
