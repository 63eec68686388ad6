//! Frames, the cursor they are decoded from, and the decoder.

pub mod bulk;
pub mod cursor;
pub mod double;
pub mod error;
pub mod frame;
pub mod integer;
pub mod laws;
pub mod line;
pub mod tag;
pub mod text;
pub mod value;
pub mod wire;

pub use cursor::Cursor;
pub use double::DoubleText;
pub use error::FrameParsingError;
pub use frame::Frame;
pub use line::{read_from_line, read_line, read_line_simple, read_u8};
pub use tag::Tag;
pub use value::LineValue;
