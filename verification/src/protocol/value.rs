//! The kinds of value that a line can write.

use vstd::prelude::*;
use vstd::string::StringSliceAdditionalSpecFns;

use crate::protocol::double::{is_double_text, DoubleText};
use crate::protocol::error::{
    invalid_double_format, invalid_integer_format, FrameParsingError, FrameParsingErrorView,
};
use crate::protocol::integer::{integer_within, parse_i32, parse_i64};

verus! {

/// A type whose values can be written as one line of text.
pub trait LineValue: Sized + View {
    /// The value that `text` writes, if it writes one of this type.
    spec fn written(text: Seq<u8>) -> Option<Self::V>;

    /// The cause given for a text that writes no value of this type.
    spec fn mismatch() -> Seq<char>;

    /// Reads `text` as a value of this type.
    fn from_text(text: &str) -> (r: Result<Self, FrameParsingError>)
        ensures
            match Self::written(text.spec_bytes()) {
                Some(value) => r matches Ok(v) && v@ == value,
                None => r matches Err(e) && e@ == FrameParsingErrorView::Other(Self::mismatch()),
            },
    ;
}

impl LineValue for i64 {
    open spec fn written(text: Seq<u8>) -> Option<i64> {
        match integer_within(text, i64::MIN as int, i64::MAX as int) {
            Some(value) => Some(value as i64),
            None => None,
        }
    }

    open spec fn mismatch() -> Seq<char> {
        invalid_integer_format()
    }

    fn from_text(text: &str) -> (r: Result<i64, FrameParsingError>) {
        match parse_i64(text.as_bytes()) {
            Some(value) => Ok(value),
            None => Err(FrameParsingError::from("invalid integer format")),
        }
    }
}

impl LineValue for i32 {
    open spec fn written(text: Seq<u8>) -> Option<i32> {
        match integer_within(text, i32::MIN as int, i32::MAX as int) {
            Some(value) => Some(value as i32),
            None => None,
        }
    }

    open spec fn mismatch() -> Seq<char> {
        invalid_integer_format()
    }

    fn from_text(text: &str) -> (r: Result<i32, FrameParsingError>) {
        match parse_i32(text.as_bytes()) {
            Some(value) => Ok(value),
            None => Err(FrameParsingError::from("invalid integer format")),
        }
    }
}

impl LineValue for DoubleText {
    open spec fn written(text: Seq<u8>) -> Option<Seq<u8>> {
        if is_double_text(text) {
            Some(text)
        } else {
            None
        }
    }

    open spec fn mismatch() -> Seq<char> {
        invalid_double_format()
    }

    fn from_text(text: &str) -> (r: Result<DoubleText, FrameParsingError>) {
        match DoubleText::new(text) {
            Some(number) => Ok(number),
            None => Err(FrameParsingError::from("invalid double format")),
        }
    }
}

} // verus!
