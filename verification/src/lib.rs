//! Incremental decoding of frames of a line-delimited wire protocol.
//!
//! A caller accumulates bytes read from a peer in a buffer and asks
//! [`protocol::Frame::parse`] for the frame that starts at a cursor into it.
//! The answer is a frame, the signal that the frame is not complete yet, or
//! the finding that the bytes cannot be a frame at all.

pub mod protocol;
