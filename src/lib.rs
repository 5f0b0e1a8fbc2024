//! SHA-256 over the meaningful prefix of a byte stream.
//!
//! A filesystem image is usually padded up to a block or sector boundary; the
//! digest computed here covers only the first `max` bytes of the stream, read
//! in fixed-size chunks with the last chunk cut exactly at the boundary.

pub mod sha;
pub mod bounded;
pub mod laws;
pub mod hex;
