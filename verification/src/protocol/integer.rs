//! Decimal integers as they stand on a line.

use vstd::prelude::*;
use vstd::slice::slice_subrange;

verus! {

/// The plus sign.
pub const PLUS: u8 = 0x2b;

/// The minus sign.
pub const MINUS: u8 = 0x2d;

/// The digit zero; the other nine follow it.
pub const ZERO: u8 = 0x30;

/// `byte` is one of the ten decimal digits.
pub open spec fn is_digit(byte: u8) -> bool {
    ZERO <= byte <= ZERO + 9
}

/// `byte` is a plus or a minus sign.
pub open spec fn is_sign(byte: u8) -> bool {
    byte == PLUS || byte == MINUS
}

/// Every byte of `text` is a digit.
pub open spec fn all_digits(text: Seq<u8>) -> bool {
    forall|i: int| 0 <= i < text.len() ==> is_digit(#[trigger] text[i])
}

/// The number that a run of digits writes, most significant digit first.
pub open spec fn digits_value(digits: Seq<u8>) -> nat
    decreases digits.len(),
{
    if digits.len() == 0 {
        0
    } else {
        (10 * digits_value(digits.drop_last()) + (digits.last() - ZERO)) as nat
    }
}

/// `text` starts with a sign.
pub open spec fn is_signed(text: Seq<u8>) -> bool {
    text.len() > 0 && is_sign(text[0])
}

/// `text` without the sign it may start with.
pub open spec fn unsigned_part(text: Seq<u8>) -> Seq<u8> {
    if is_signed(text) {
        text.drop_first()
    } else {
        text
    }
}

/// The integer that `text` writes: an optional sign, then one digit or more,
/// and nothing before, between or after. `None` for every other text.
pub open spec fn integer_value(text: Seq<u8>) -> Option<int> {
    let digits = unsigned_part(text);
    if digits.len() > 0 && all_digits(digits) {
        if text[0] == MINUS {
            Some(-(digits_value(digits) as int))
        } else {
            Some(digits_value(digits) as int)
        }
    } else {
        None
    }
}

/// The integer that `text` writes, if it writes one from `min` to `max`.
pub open spec fn integer_within(text: Seq<u8>, min: int, max: int) -> Option<int> {
    match integer_value(text) {
        Some(value) => if min <= value <= max {
            Some(value)
        } else {
            None
        },
        None => None,
    }
}

/// Appending digits never makes the number smaller.
pub proof fn lemma_digits_value_grows(digits: Seq<u8>, len: int)
    requires
        0 <= len <= digits.len(),
        all_digits(digits),
    ensures
        digits_value(digits.take(len)) <= digits_value(digits),
    decreases digits.len(),
{
    if len == digits.len() {
        assert(digits.take(len) == digits);
    } else {
        let shorter = digits.drop_last();
        assert(shorter.take(len) == digits.take(len));
        lemma_digits_value_grows(shorter, len);
    }
}

/// One more digit multiplies by ten and adds the digit.
pub proof fn lemma_digits_value_step(digits: Seq<u8>, len: int)
    requires
        0 <= len < digits.len(),
        is_digit(digits[len]),
    ensures
        digits_value(digits.take(len + 1)) == 10 * digits_value(digits.take(len)) + (digits[len]
            - ZERO),
{
    let longer = digits.take(len + 1);
    assert(longer.drop_last() == digits.take(len));
}

/// The largest magnitude that a 64-bit signed integer can have: that of the
/// least one.
pub const MAGNITUDE_LIMIT: u64 = 0x8000_0000_0000_0000;

/// Reads a run of digits as a number that does not exceed `limit`.
fn parse_magnitude(digits: &[u8], limit: u64) -> (magnitude: Option<u64>)
    requires
        limit <= MAGNITUDE_LIMIT,
    ensures
        magnitude == if digits@.len() > 0 && all_digits(digits@) && digits_value(digits@)
            <= limit {
            Some(digits_value(digits@) as u64)
        } else {
            None
        },
{
    let len = digits.len();
    if len == 0 {
        return None;
    }
    let mut value: u64 = 0;
    let mut at: usize = 0;
    while at < len
        invariant
            at <= len,
            len == digits@.len(),
            limit <= MAGNITUDE_LIMIT,
            all_digits(digits@.take(at as int)),
            value == digits_value(digits@.take(at as int)),
            value <= limit,
        decreases len - at,
    {
        let byte = digits[at];
        if byte < ZERO || byte > ZERO + 9 {
            return None;
        }
        let next: u128 = value as u128 * 10 + (byte - ZERO) as u128;
        proof {
            lemma_digits_value_step(digits@, at as int);
        }
        if next > limit as u128 {
            proof {
                if all_digits(digits@) {
                    lemma_digits_value_grows(digits@, at + 1);
                }
            }
            return None;
        }
        value = next as u64;
        at += 1;
    }
    assert(digits@.take(len as int) == digits@);
    Some(value)
}

/// Reads `text` as a signed 64-bit integer in decimal.
///
/// The text is an optional sign and then digits only; a text that is
/// anything else, or writes a number out of range, gives `None`.
pub fn parse_i64(text: &[u8]) -> (value: Option<i64>)
    ensures
        match integer_within(text@, i64::MIN as int, i64::MAX as int) {
            Some(v) => value == Some(v as i64),
            None => value is None,
        },
{
    let len = text.len();
    if len == 0 {
        return None;
    }
    let negative = text[0] == MINUS;
    let signed = negative || text[0] == PLUS;
    let digits = if signed {
        slice_subrange(text, 1, len)
    } else {
        text
    };
    let limit: u64 = if negative {
        MAGNITUDE_LIMIT
    } else {
        MAGNITUDE_LIMIT - 1
    };
    match parse_magnitude(digits, limit) {
        None => None,
        Some(magnitude) => {
            if !negative {
                Some(magnitude as i64)
            } else if magnitude == MAGNITUDE_LIMIT {
                Some(i64::MIN)
            } else {
                Some(-(magnitude as i64))
            }
        },
    }
}

/// Reads `text` as a signed 32-bit integer in decimal, as [`parse_i64`] does
/// for 64 bits.
pub fn parse_i32(text: &[u8]) -> (value: Option<i32>)
    ensures
        match integer_within(text@, i32::MIN as int, i32::MAX as int) {
            Some(v) => value == Some(v as i32),
            None => value is None,
        },
{
    match parse_i64(text) {
        Some(wide) => {
            if i32::MIN as i64 <= wide && wide <= i32::MAX as i64 {
                Some(wide as i32)
            } else {
                None
            }
        },
        None => None,
    }
}

} // verus!
