//! The byte that opens a frame and says of which kind it is.

use vstd::prelude::*;

verus! {

/// `+`, the tag of a line of text.
pub const SIMPLE: u8 = 0x2b;

/// `-`, the tag of a line of text that reports an error.
pub const ERROR: u8 = 0x2d;

/// `:`, the tag of a signed integer.
pub const INTEGER: u8 = 0x3a;

/// `.`, the tag of a floating-point number.
pub const DOUBLE: u8 = 0x2e;

/// `$`, the tag of a length and as many raw bytes.
pub const BULK: u8 = 0x24;

/// `_`, the tag of nothing.
pub const NULL: u8 = 0x5f;

/// `*`, set aside for arrays.
pub const ARRAY: u8 = 0x2a;

/// `#`, set aside for truth values.
pub const BOOLEAN: u8 = 0x23;

/// `(`, set aside for integers of any size.
pub const BIG_NUMBER: u8 = 0x28;

/// `!`, set aside for errors of a declared length.
pub const BULK_ERROR: u8 = 0x21;

/// `=`, set aside for text of a declared length and form.
pub const VERBATIM_STRING: u8 = 0x3d;

/// `%`, set aside for maps.
pub const DICTIONARY: u8 = 0x25;

/// `|`, set aside for attributes.
pub const ATTRIBUTE: u8 = 0x7c;

/// `>`, set aside for what a peer sends unasked.
pub const PUSH: u8 = 0x3e;

/// The kinds of frame that a first byte can announce.
///
/// The first six are decoded. The next eight are set aside by the protocol
/// for kinds that this decoder does not know yet; `Unknown` is every other
/// byte.
#[derive(Debug, Clone, Copy, PartialEq, Eq)]
pub enum Tag {
    Simple,
    Error,
    Integer,
    Double,
    Bulk,
    Null,
    Array,
    Boolean,
    BigNumber,
    BulkError,
    VerbatimString,
    Dictionary,
    Attribute,
    Push,
    /// A byte that announces nothing.
    Unknown,
}

impl Tag {
    /// The kind that `byte` announces.
    pub open spec fn of(byte: u8) -> Tag {
        if byte == SIMPLE {
            Tag::Simple
        } else if byte == ERROR {
            Tag::Error
        } else if byte == INTEGER {
            Tag::Integer
        } else if byte == DOUBLE {
            Tag::Double
        } else if byte == BULK {
            Tag::Bulk
        } else if byte == NULL {
            Tag::Null
        } else if byte == ARRAY {
            Tag::Array
        } else if byte == BOOLEAN {
            Tag::Boolean
        } else if byte == BIG_NUMBER {
            Tag::BigNumber
        } else if byte == BULK_ERROR {
            Tag::BulkError
        } else if byte == VERBATIM_STRING {
            Tag::VerbatimString
        } else if byte == DICTIONARY {
            Tag::Dictionary
        } else if byte == ATTRIBUTE {
            Tag::Attribute
        } else if byte == PUSH {
            Tag::Push
        } else {
            Tag::Unknown
        }
    }

    /// Frames of this kind are decoded.
    pub open spec fn is_decoded(self) -> bool {
        self is Simple || self is Error || self is Integer || self is Double || self is Bulk
            || self is Null
    }

    /// The kind that `byte` announces.
    pub fn from_byte(byte: u8) -> (tag: Tag)
        ensures
            tag == Tag::of(byte),
    {
        if byte == SIMPLE {
            Tag::Simple
        } else if byte == ERROR {
            Tag::Error
        } else if byte == INTEGER {
            Tag::Integer
        } else if byte == DOUBLE {
            Tag::Double
        } else if byte == BULK {
            Tag::Bulk
        } else if byte == NULL {
            Tag::Null
        } else if byte == ARRAY {
            Tag::Array
        } else if byte == BOOLEAN {
            Tag::Boolean
        } else if byte == BIG_NUMBER {
            Tag::BigNumber
        } else if byte == BULK_ERROR {
            Tag::BulkError
        } else if byte == VERBATIM_STRING {
            Tag::VerbatimString
        } else if byte == DICTIONARY {
            Tag::Dictionary
        } else if byte == ATTRIBUTE {
            Tag::Attribute
        } else if byte == PUSH {
            Tag::Push
        } else {
            Tag::Unknown
        }
    }
}

} // verus!
