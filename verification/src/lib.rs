//! On-the-fly Opus-in-Ogg byte stream with random access.
//!
//! Given the two Opus header blobs and a sequence of fixed-size encoded
//! packets, the library produces the Ogg-framed output byte stream and
//! supports seeking to an arbitrary output byte position: the bytes emitted
//! after a seek are exactly the suffix of the straight-read output.
//! Decoding and encoding of the audio itself is the caller's concern; the
//! library receives packets as plain byte vectors.

pub mod cursor;
pub mod errors;
pub mod header_cache;
pub mod laws;
pub mod model;
pub mod offset_map;
pub mod opus_spec;
pub mod packetizer;
pub mod page;
pub mod stream;
