//! The canonical output: what the whole stream looks like as a function of
//! the header blobs and the audio packet sequence.
//!
//! Audio packets are numbered from 0.  Packet `k` carries the samples up to
//! granule position `(k + 1) * 960`.  Packets are grouped 26 to a page; the
//! final page holds the remainder.  Audio page `i` carries page sequence
//! number `2 + i` (the two header pages are 0 and 1) and the last-page flag
//! exactly on the final page.

use crate::header_cache::header_pages_bytes;
use crate::opus_spec::{PACKETS_PER_PAGE, PACKET_SIZE, SAMPLES_PER_PACKET, STREAM_SERIAL};
use crate::page::{concat_of, lacing_of, page_bytes, seg_count};
use vstd::prelude::*;

verus! {

/// Streams are bounded so that page sequence numbers fit in their 32-bit
/// field: at most `26 * (u32::MAX - 2)` packets.
pub const MAX_PACKETS: u64 = 26 * 4294967293;

/// Every audio packet has exactly [`PACKET_SIZE`] bytes, and there are not
/// more of them than the page counter can number.
pub open spec fn pkts_wf(pkts: Seq<Seq<u8>>) -> bool {
    &&& forall|i: int| 0 <= i < pkts.len() ==> (#[trigger] pkts[i]).len() == PACKET_SIZE as int
    &&& pkts.len() <= MAX_PACKETS
}

/// The number of audio pages framing `n` packets.
pub open spec fn num_audio_pages(n: int) -> int {
    (n + PACKETS_PER_PAGE - 1) / (PACKETS_PER_PAGE as int)
}

/// The canonical packet index just after audio page `i`.
pub open spec fn group_end(n: int, i: int) -> int {
    if (PACKETS_PER_PAGE as int) * (i + 1) <= n {
        (PACKETS_PER_PAGE as int) * (i + 1)
    } else {
        n
    }
}

/// The packets framed by audio page `i`.
pub open spec fn page_group(pkts: Seq<Seq<u8>>, i: int) -> Seq<Seq<u8>> {
    pkts.subrange((PACKETS_PER_PAGE as int) * i, group_end(pkts.len() as int, i))
}

/// The granule position of audio page `i`: that of its last packet.
pub open spec fn page_granule(n: int, i: int) -> int {
    group_end(n, i) * (SAMPLES_PER_PACKET as int)
}

/// The bytes of audio page `i`.
pub open spec fn audio_page(pkts: Seq<Seq<u8>>, i: int) -> Seq<u8> {
    page_bytes(
        page_group(pkts, i),
        page_granule(pkts.len() as int, i) as u64,
        (2 + i) as u32,
        false,
        i == num_audio_pages(pkts.len() as int) - 1,
        STREAM_SERIAL,
    )
}

/// The bytes of audio pages `i` onward.
pub open spec fn audio_from(pkts: Seq<Seq<u8>>, i: int) -> Seq<u8>
    decreases num_audio_pages(pkts.len() as int) - i,
{
    if 0 <= i < num_audio_pages(pkts.len() as int) {
        audio_page(pkts, i) + audio_from(pkts, i + 1)
    } else {
        Seq::empty()
    }
}

/// The whole canonical output: the two header pages, then the audio pages.
pub open spec fn stream_bytes(id: Seq<u8>, com: Seq<u8>, pkts: Seq<Seq<u8>>) -> Seq<u8> {
    header_pages_bytes(id, com, STREAM_SERIAL) + audio_from(pkts, 0)
}

/// A group of same-size packets below the chunk limit has one lacing byte
/// per packet and a body of their concatenation.
pub proof fn lemma_uniform_group(datas: Seq<Seq<u8>>)
    requires
        forall|i: int| 0 <= i < datas.len() ==> (#[trigger] datas[i]).len() == PACKET_SIZE as int,
    ensures
        lacing_of(datas).len() == datas.len(),
        seg_count(datas) == datas.len(),
        concat_of(datas).len() == (PACKET_SIZE as int) * datas.len(),
    decreases datas.len(),
{
    if datas.len() > 0 {
        lemma_uniform_group(datas.drop_last());
    }
}

/// The length of an audio page framing `m` packets is `27 + m + 160 * m`;
/// a full page is [`crate::opus_spec::PAGE_TOTAL_SIZE`] bytes.
pub proof fn lemma_audio_page_len(pkts: Seq<Seq<u8>>, i: int)
    requires
        pkts_wf(pkts),
        0 <= i < num_audio_pages(pkts.len() as int),
    ensures
        audio_page(pkts, i).len() == 27 + 161 * (group_end(pkts.len() as int, i) - (
        PACKETS_PER_PAGE as int) * i),
        i < num_audio_pages(pkts.len() as int) - 1 ==> audio_page(pkts, i).len() == 4213,
{
    let n = pkts.len() as int;
    let g = page_group(pkts, i);
    assert(forall|j: int|
        0 <= j < g.len() ==> (#[trigger] g[j]).len() == PACKET_SIZE as int);
    lemma_uniform_group(g);
    crate::page::lemma_page_bytes_len(
        g,
        page_granule(n, i) as u64,
        (2 + i) as u32,
        false,
        i == num_audio_pages(n) - 1,
        STREAM_SERIAL,
    );
    if i < num_audio_pages(n) - 1 {
        let q = (n + 25) / 26;
        assert(26 * (i + 1) <= n) by {
            assert(i + 1 <= q - 1);
            assert(26 * (i + 1) <= 26 * (q - 1)) by (nonlinear_arith)
                requires
                    i + 1 <= q - 1,
            ;
            assert(26 * q <= n + 25) by (nonlinear_arith)
                requires
                    n >= 0,
                    q == (n + 25) / 26,
            ;
        }
    }
}

} // verus!
