//! The two ways in which a decode attempt ends without a frame.

use vstd::prelude::*;
use vstd::std_specs::convert::FromSpecImpl;

verus! {

/// Why no frame was decoded.
#[derive(Debug, PartialEq, Eq)]
pub enum FrameParsingError {
    /// The buffer ends before the frame does. Appending bytes and decoding
    /// again from the same position may succeed.
    Incomplete,
    /// The bytes at the position cannot start a valid frame, however many
    /// bytes follow. Carries the cause in words.
    Other(String),
}

/// What a [`FrameParsingError`] stands for in contracts.
pub enum FrameParsingErrorView {
    Incomplete,
    Other(Seq<char>),
}

impl View for FrameParsingError {
    type V = FrameParsingErrorView;

    open spec fn view(&self) -> FrameParsingErrorView {
        match self {
            FrameParsingError::Incomplete => FrameParsingErrorView::Incomplete,
            FrameParsingError::Other(cause) => FrameParsingErrorView::Other(cause@),
        }
    }
}

/// The cause given for a line that is not UTF-8.
pub open spec fn invalid_frame_format() -> Seq<char> {
    "invalid frame format"@
}

/// The cause given for a line that should be an integer and is not.
pub open spec fn invalid_integer_format() -> Seq<char> {
    "invalid integer format"@
}

/// The cause given for a line that should be a floating-point number and is
/// not.
pub open spec fn invalid_double_format() -> Seq<char> {
    "invalid double format"@
}

/// The cause given for a bulk length below minus one.
pub open spec fn invalid_bulk_size() -> Seq<char> {
    "invalid bulk string size"@
}

/// The cause given for a bulk payload that its delimiter does not follow.
pub open spec fn invalid_bulk_end() -> Seq<char> {
    "invalid bulk string end"@
}

/// The cause given for a tag byte that starts no frame this decoder knows.
pub open spec fn unsupported_frame_type() -> Seq<char> {
    "unsupported frame type"@
}

/// The text that describes an incomplete buffer.
pub open spec fn incomplete_message() -> Seq<char> {
    "Incomplete buffer to parse message"@
}

impl FrameParsingErrorView {
    /// The text that describes the error to a person.
    pub open spec fn message(self) -> Seq<char> {
        match self {
            FrameParsingErrorView::Incomplete => incomplete_message(),
            FrameParsingErrorView::Other(cause) => cause,
        }
    }
}

impl FrameParsingError {
    /// The text that describes the error to a person: a fixed sentence for
    /// `Incomplete`, the cause itself for `Other`.
    pub fn message(&self) -> (text: String)
        ensures
            text@ == self@.message(),
    {
        match self {
            FrameParsingError::Incomplete => "Incomplete buffer to parse message".to_owned(),
            FrameParsingError::Other(cause) => cause.clone(),
        }
    }
}

impl From<String> for FrameParsingError {
    fn from(value: String) -> (error: Self) {
        FrameParsingError::Other(value)
    }
}

impl FromSpecImpl<String> for FrameParsingError {
    open spec fn obeys_from_spec() -> bool {
        true
    }

    open spec fn from_spec(value: String) -> Self {
        FrameParsingError::Other(value)
    }
}

impl<'a> From<&'a str> for FrameParsingError {
    fn from(value: &'a str) -> (error: Self)
        ensures
            error@ == FrameParsingErrorView::Other(value@),
    {
        FrameParsingError::Other(value.to_owned())
    }
}

/// No string can be named in a contract by its characters alone, so the
/// result of `from` is stated by its view, in the `ensures` above.
impl<'a> FromSpecImpl<&'a str> for FrameParsingError {
    open spec fn obeys_from_spec() -> bool {
        false
    }

    open spec fn from_spec(value: &'a str) -> Self {
        FrameParsingError::Other(choose|cause: String| cause@ == value@)
    }
}

} // verus!
