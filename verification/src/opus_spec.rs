//! The fixed encoding parameters of the output stream.
//!
//! The byte-to-time seek arithmetic relies on every audio packet having the
//! same size and duration, so that whole pages have a fixed byte size and a
//! fixed duration.  These values are contractual: the encoder feeding the
//! stream must be configured to match them.

use vstd::prelude::*;

verus! {

/// Size in bytes of one encoded audio packet.
pub const PACKET_SIZE: u32 = 160;

/// Duration in milliseconds of one encoded audio packet.
pub const PACKET_LENGTH_MS: u32 = 20;

/// Output sample rate in Hz.
pub const RATE: u32 = 48_000;

/// Samples of audio per packet at [`RATE`]: `RATE / (1000 / PACKET_LENGTH_MS)`.
pub const SAMPLES_PER_PACKET: u32 = 960;

/// Ogg page header size in bytes for a full audio page:
/// 27 fixed bytes plus one lacing byte per packet.
pub const PAGE_HEADER_SIZE: u32 = 53;

/// Ogg page body size in bytes for a full audio page.
pub const PAGE_BODY_SIZE: u32 = 4160;

/// Packets in a full audio page: `PAGE_BODY_SIZE / PACKET_SIZE`.
pub const PACKETS_PER_PAGE: u32 = 26;

/// Total bytes of a full audio page: header plus body.
pub const PAGE_TOTAL_SIZE: u32 = 4213;

/// Duration in milliseconds of a full audio page:
/// `PACKETS_PER_PAGE * PACKET_LENGTH_MS`.
pub const PAGE_DURATION_MS: u32 = 520;

/// The stream serial number written into every page.
pub const STREAM_SERIAL: u32 = 0xF01353;

/// The encoding parameters a stream is built with.
pub struct OpusSpec {
    pub page_header_size: u32,
    pub page_body_size: u32,
    pub packet_size: u32,
    pub packet_length_ms: u32,
    pub rate: u32,
}

impl OpusSpec {
    /// The one parameter set the stream supports; see the module doc.
    pub open spec fn is_contractual(self) -> bool {
        &&& self.page_header_size == PAGE_HEADER_SIZE
        &&& self.page_body_size == PAGE_BODY_SIZE
        &&& self.packet_size == PACKET_SIZE
        &&& self.packet_length_ms == PACKET_LENGTH_MS
        &&& self.rate == RATE
    }

    /// Duration in milliseconds of the audio held by one full page.
    pub fn page_duration_ms(&self) -> (d: u32)
        requires
            self.is_contractual(),
        ensures
            d == PAGE_DURATION_MS,
    {
        (self.page_body_size / self.packet_size) * self.packet_length_ms
    }
}

impl Default for OpusSpec {
    /// The contractual parameter set.
    fn default() -> (s: Self)
        ensures
            s.is_contractual(),
    {
        OpusSpec {
            page_header_size: PAGE_HEADER_SIZE,
            page_body_size: PAGE_BODY_SIZE,
            packet_size: PACKET_SIZE,
            packet_length_ms: PACKET_LENGTH_MS,
            rate: RATE,
        }
    }
}

} // verus!
