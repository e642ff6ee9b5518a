//! Streaming decoder for PBZX payloads: the chunked, optionally
//! XZ-compressed stream found inside `.xip` archives.
//!
//! `frame` holds the wire format, `chunk` the reader of one chunk's content,
//! and `reader` the decoder that owns the source and hands out the decoded
//! bytes in order.

pub mod chunk;
pub mod error;
pub mod frame;
pub mod reader;
