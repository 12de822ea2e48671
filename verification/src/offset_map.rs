//! Mapping an output byte position to a decoding position.
//!
//! Past the header, the output is a run of fixed-size pages, so a byte
//! position determines the page it falls in, the time at which that page's
//! audio starts, the index of its first packet, and how many bytes of the
//! page precede the position.

use crate::errors::EncoderError;
use crate::opus_spec::{OpusSpec, PACKETS_PER_PAGE, PAGE_DURATION_MS, PAGE_TOTAL_SIZE};
use vstd::prelude::*;

verus! {

/// Where a seek target lands: the millisecond to re-seek the decoder to,
/// the canonical index of the first packet of the target page, and the
/// bytes of the target page that precede the target.
#[derive(Clone, Copy, PartialEq, Eq, Debug)]
pub struct Offset {
    pub millis: u32,
    pub packet: u32,
    pub extra_bytes: u32,
}

/// True when the millisecond value for `position` fits in the 32-bit field
/// of [`Offset`]; the bound a caller of [`byte_to_offset`] must respect.
pub open spec fn offset_in_range(position: u64, header_len: int) -> bool {
    position >= header_len ==> (position - header_len) / (PAGE_TOTAL_SIZE as int) * (
    PAGE_DURATION_MS as int) <= u32::MAX
}

/// Maps the output byte position `position` to a decoding position.
///
/// Positions inside the header region `[0, header_len)` are rejected with
/// `SeekIntoHeader`; every other position in range succeeds.  On success,
/// with `rel = position - header_len`:
/// `millis = rel / 4213 * 520`, `packet = rel / 4213 * 26`,
/// `extra_bytes = rel % 4213`, and the position can be reassembled as
/// `header_len + packet / 26 * 4213 + extra_bytes`.
pub fn byte_to_offset(position: u64, header_len: usize, spec: &OpusSpec) -> (r: Result<
    Offset,
    EncoderError,
>)
    requires
        spec.is_contractual(),
        offset_in_range(position, header_len as int),
    ensures
        match r {
            Ok(o) => {
                let rel = position - header_len;
                &&& position >= header_len
                &&& o.millis == rel / (PAGE_TOTAL_SIZE as int) * (PAGE_DURATION_MS as int)
                &&& o.packet == rel / (PAGE_TOTAL_SIZE as int) * (PACKETS_PER_PAGE as int)
                &&& o.extra_bytes == rel % (PAGE_TOTAL_SIZE as int)
                &&& o.packet as int % (PACKETS_PER_PAGE as int) == 0
                &&& header_len + o.packet as int / (PACKETS_PER_PAGE as int) * (PAGE_TOTAL_SIZE as int)
                    + o.extra_bytes == position
            },
            Err(e) => e == EncoderError::SeekIntoHeader && position < header_len,
        },
{
    if position < header_len as u64 {
        return Err(EncoderError::SeekIntoHeader);
    }
    let rel = position - header_len as u64;
    let pg_size = (spec.page_header_size + spec.page_body_size) as u64;
    let pages = rel / pg_size;
    let extra = rel % pg_size;
    let duration = spec.page_duration_ms() as u64;
    proof {
        assert(pages * 26 <= pages * 520) by (nonlinear_arith)
            requires
                pages >= 0,
        ;
        vstd::arithmetic::div_mod::lemma_fundamental_div_mod(rel as int, 4213);
        assert(pages * 26 / 26 == pages && (pages * 26) % 26 == 0) by (nonlinear_arith);
        assert(pages * 26 / 26 * 4213 == pages * 4213) by (nonlinear_arith)
            requires
                pages * 26 / 26 == pages,
        ;
    }
    let millis = pages * duration;
    let packet = pages * (spec.page_body_size / spec.packet_size) as u64;
    Ok(Offset { millis: millis as u32, packet: packet as u32, extra_bytes: extra as u32 })
}

} // verus!
