//! The stream-level laws: how the canonical output decomposes.
//!
//! Everything here is about [`crate::model::stream_bytes`], the canonical
//! output for a packet sequence.  The central fact is the suffix law: the
//! output past the header is a run of fixed-size pages, so dropping
//! `k * 4213` bytes of the audio region lands exactly on audio page `k`.
//! Together with the offset map's arithmetic this is what makes seeking
//! byte-exact: the bytes emitted after a seek are the canonical suffix.

use crate::header_cache::header_pages_bytes;
use crate::model::{
    audio_from, audio_page, group_end, lemma_audio_page_len, num_audio_pages, page_group, pkts_wf,
    stream_bytes,
};
use crate::opus_spec::STREAM_SERIAL;
use crate::page::{flags_byte, le32, page_bytes, page_pre_bytes};
use crate::stream::TranscodeStream;
use vstd::arithmetic::div_mod::lemma_fundamental_div_mod;
use vstd::prelude::*;

verus! {

/// Page counting: with `n` packets (`n >= 1`) the final audio page is not
/// empty and not overfull: `26 * (num - 1) < n <= 26 * num`.
pub proof fn lemma_num_pages_bounds(n: int)
    requires
        n >= 1,
    ensures
        num_audio_pages(n) >= 1,
        26 * (num_audio_pages(n) - 1) < n <= 26 * num_audio_pages(n),
{
    lemma_fundamental_div_mod(n + 25, 26);
}

/// The length of the audio region from page `i` on: all pages before the
/// last are 4213 bytes, the last holds the remaining packets.
pub proof fn lemma_audio_from_len(pkts: Seq<Seq<u8>>, i: int)
    requires
        pkts_wf(pkts),
        0 <= i <= num_audio_pages(pkts.len() as int),
    ensures
        audio_from(pkts, i).len() == ({
            let n = pkts.len() as int;
            let num = num_audio_pages(n);
            if i == num {
                0
            } else {
                (num - 1 - i) * 4213 + 27 + 161 * (n - 26 * (num - 1))
            }
        }),
    decreases num_audio_pages(pkts.len() as int) - i,
{
    let n = pkts.len() as int;
    let num = num_audio_pages(n);
    if i < num {
        lemma_num_pages_bounds(n);
        lemma_audio_page_len(pkts, i);
        lemma_audio_from_len(pkts, i + 1);
        if i == num - 1 {
            assert(group_end(n, i) == n);
        }
    }
}

/// The total canonical output length: the header, one full-page stride for
/// every page but the last, and the final page's own size.
pub proof fn lemma_stream_total_len(id: Seq<u8>, com: Seq<u8>, pkts: Seq<Seq<u8>>)
    requires
        pkts_wf(pkts),
    ensures
        stream_bytes(id, com, pkts).len() == ({
            let n = pkts.len() as int;
            let num = num_audio_pages(n);
            let h = header_pages_bytes(id, com, STREAM_SERIAL).len() as int;
            if n == 0 {
                h
            } else {
                h + (num - 1) * 4213 + 27 + 161 * (n - 26 * (num - 1))
            }
        }),
{
    lemma_audio_from_len(pkts, 0);
}

/// The suffix law: dropping `4213 * k` bytes of the audio region lands on
/// audio page `k`.
pub proof fn lemma_audio_suffix(pkts: Seq<Seq<u8>>, k: int)
    requires
        pkts_wf(pkts),
        0 <= k < num_audio_pages(pkts.len() as int),
    ensures
        audio_from(pkts, 0).skip(4213 * k) == audio_from(pkts, k),
        audio_from(pkts, 0).len() >= 4213 * k,
    decreases k,
{
    let n = pkts.len() as int;
    let num = num_audio_pages(n);
    lemma_audio_from_len(pkts, 0);
    lemma_audio_from_len(pkts, k);
    if k == 0 {
        assert(audio_from(pkts, 0).skip(0) =~= audio_from(pkts, 0));
    } else {
        lemma_audio_suffix(pkts, k - 1);
        lemma_audio_page_len(pkts, k - 1);
        lemma_audio_from_len(pkts, k - 1);
        let s = audio_from(pkts, 0);
        let tail = audio_from(pkts, k - 1);
        assert(tail == audio_page(pkts, k - 1) + audio_from(pkts, k));
        assert(tail.skip(4213) =~= audio_from(pkts, k));
        assert(s.skip(4213 * (k - 1)).skip(4213) =~= s.skip(4213 * k));
    }
}

/// The seek law (seek-read equivalence at the model level): for a target
/// `pos` past the header and inside the stream, with `rel = pos - h`,
/// the canonical suffix at `pos` is audio page `rel / 4213` minus its
/// first `rel % 4213` bytes — exactly what a stream primed by the offset
/// map emits.
pub proof fn lemma_seek_suffix(id: Seq<u8>, com: Seq<u8>, pkts: Seq<Seq<u8>>, pos: int)
    requires
        pkts_wf(pkts),
        header_pages_bytes(id, com, STREAM_SERIAL).len() <= pos < stream_bytes(
            id,
            com,
            pkts,
        ).len(),
    ensures
        ({
            let h = header_pages_bytes(id, com, STREAM_SERIAL).len() as int;
            let rel = pos - h;
            let k = rel / 4213;
            let extra = rel % 4213;
            &&& 0 <= k < num_audio_pages(pkts.len() as int)
            &&& 0 <= extra < audio_from(pkts, k).len()
            &&& stream_bytes(id, com, pkts).skip(pos) == audio_from(pkts, k).skip(extra)
        }),
{
    let h = header_pages_bytes(id, com, STREAM_SERIAL).len() as int;
    let n = pkts.len() as int;
    let num = num_audio_pages(n);
    let rel = pos - h;
    let k = rel / 4213;
    let extra = rel % 4213;
    lemma_fundamental_div_mod(rel, 4213);
    lemma_audio_from_len(pkts, 0);
    assert(n >= 1);
    lemma_num_pages_bounds(n);
    let total_audio = audio_from(pkts, 0).len() as int;
    // rel < total_audio <= num * 4213, so k < num
    assert(total_audio <= num * 4213);
    assert(4213 * k <= rel);
    if k >= num {
        assert(4213 * num <= 4213 * k) by (nonlinear_arith)
            requires
                num <= k,
        ;
        assert(false);
    }
    lemma_audio_suffix(pkts, k);
    lemma_audio_from_len(pkts, k);
    assert(extra < audio_from(pkts, k).len());
    let s = stream_bytes(id, com, pkts);
    assert(s.skip(h) =~= audio_from(pkts, 0));
    assert(s.skip(pos) =~= s.skip(h).skip(rel));
    assert(audio_from(pkts, 0).skip(rel) =~= audio_from(pkts, 0).skip(4213 * k).skip(extra));
    assert(s.skip(pos) =~= audio_from(pkts, k).skip(extra));
}

/// Audio page `j` occupies bytes `h + 4213 * j` onward of the canonical
/// output, where `h` is the header length.
pub proof fn lemma_page_at(id: Seq<u8>, com: Seq<u8>, pkts: Seq<Seq<u8>>, j: int)
    requires
        pkts_wf(pkts),
        0 <= j < num_audio_pages(pkts.len() as int),
    ensures
        ({
            let h = header_pages_bytes(id, com, STREAM_SERIAL).len() as int;
            let s = stream_bytes(id, com, pkts);
            let p = audio_page(pkts, j);
            &&& s.len() >= h + 4213 * j + p.len()
            &&& forall|u: int| 0 <= u < p.len() ==> #[trigger] s[h + 4213 * j + u] == p[u]
        }),
{
    let h = header_pages_bytes(id, com, STREAM_SERIAL).len() as int;
    let s = stream_bytes(id, com, pkts);
    let p = audio_page(pkts, j);
    let a0 = audio_from(pkts, 0);
    lemma_audio_suffix(pkts, j);
    lemma_audio_from_len(pkts, j);
    lemma_audio_from_len(pkts, 0);
    lemma_audio_page_len(pkts, j);
    assert(audio_from(pkts, j) == p + audio_from(pkts, j + 1));
    assert(s.len() == h + a0.len());
    assert forall|u: int| 0 <= u < p.len() implies #[trigger] s[h + 4213 * j + u] == p[u] by {
        assert(s[h + 4213 * j + u] == a0[4213 * j + u]);
        assert(a0[4213 * j + u] == a0.skip(4213 * j)[u]);
    }
}

/// Determinism: the whole output is a function of the header blobs and
/// the packet sequence alone — no clock, no randomness.  Two byte runs
/// taken from the canonical output at the same position are equal, so two
/// streams over the same input emit identical bytes run for run.
pub proof fn lemma_deterministic(
    id: Seq<u8>,
    com: Seq<u8>,
    pkts: Seq<Seq<u8>>,
    lo: int,
    n: int,
    a: Seq<u8>,
    b: Seq<u8>,
)
    requires
        a == stream_bytes(id, com, pkts).subrange(lo, lo + n),
        b == stream_bytes(id, com, pkts).subrange(lo, lo + n),
    ensures
        a == b,
{
}

/// Seeking is idempotent: two streams that have just sought to the same
/// target, whatever their earlier histories, agree on every observable
/// component of the seek state — so seeking twice is seeking once.
pub proof fn lemma_seek_idempotent(s1: TranscodeStream, s2: TranscodeStream, h: int, p: int)
    requires
        s1.post_seek_state(h, p),
        s2.post_seek_state(h, p),
    ensures
        s1.position_spec() == s2.position_spec(),
        s1.pkts_seen_spec() == s2.pkts_seen_spec(),
        s1.pages_out_spec() == s2.pages_out_spec(),
        s1.discard_spec() == s2.discard_spec(),
        s1.finished_spec() == s2.finished_spec(),
        s1.has_page_spec() == s2.has_page_spec(),
{
}

/// Every page begins with the capture pattern and carries its flags at
/// offset 5.
pub proof fn lemma_page_markers(
    datas: Seq<Seq<u8>>,
    granule: u64,
    seqno: u32,
    first: bool,
    last: bool,
    serial: u32,
)
    ensures
        ({
            let p = page_bytes(datas, granule, seqno, first, last, serial);
            &&& p[0] == 79
            &&& p[1] == 103
            &&& p[2] == 103
            &&& p[3] == 83
            &&& p[4] == 0
            &&& p[5] == flags_byte(first, last)
        }),
{
    reveal(crate::page::page_bytes);
    let pre = page_pre_bytes(datas, granule, seqno, first, last, serial);
    assert(pre.take(22)[0] == pre[0]);
    assert(pre.take(22)[1] == pre[1]);
    assert(pre.take(22)[2] == pre[2]);
    assert(pre.take(22)[3] == pre[3]);
    assert(pre.take(22)[4] == pre[4]);
    assert(pre.take(22)[5] == pre[5]);
}

/// The straight-read output carries the begin-of-stream flag exactly on
/// its first page and, when any packets exist, the end-of-stream flag
/// exactly on its final page; every page opens with the capture pattern:
/// the flag discipline of a valid Ogg encapsulation.
pub proof fn lemma_stream_markers(id: Seq<u8>, com: Seq<u8>, pkts: Seq<Seq<u8>>)
    requires
        pkts_wf(pkts),
    ensures
        stream_bytes(id, com, pkts)[5] == 2,
        stream_bytes(id, com, pkts).subrange(0, 4) == seq![79u8, 103u8, 103u8, 83u8],
        ({
            let len1 = page_bytes(seq![id], 0, 0, true, false, STREAM_SERIAL).len() as int;
            &&& stream_bytes(id, com, pkts)[len1] == 79
            &&& stream_bytes(id, com, pkts)[len1 + 5] == 0
        }),
        forall|i: int|
            0 <= i < num_audio_pages(pkts.len() as int) ==> {
                &&& #[trigger] stream_bytes(id, com, pkts)[header_pages_bytes(
                    id,
                    com,
                    STREAM_SERIAL,
                ).len() + 4213 * i] == 79
                &&& stream_bytes(id, com, pkts)[header_pages_bytes(id, com, STREAM_SERIAL).len()
                    + 4213 * i + 5] == flags_byte(
                    false,
                    i == num_audio_pages(pkts.len() as int) - 1,
                )
            },
{
    let h = header_pages_bytes(id, com, STREAM_SERIAL).len() as int;
    let s = stream_bytes(id, com, pkts);
    let num = num_audio_pages(pkts.len() as int);
    lemma_page_markers(seq![id], 0, 0, true, false, STREAM_SERIAL);
    lemma_page_markers(seq![com], 0, 1, false, false, STREAM_SERIAL);
    crate::page::lemma_page_bytes_len(seq![id], 0, 0, true, false, STREAM_SERIAL);
    crate::page::lemma_page_bytes_len(seq![com], 0, 1, false, false, STREAM_SERIAL);
    assert(s.subrange(0, 4) =~= seq![79u8, 103u8, 103u8, 83u8]);
    let len1 = page_bytes(seq![id], 0, 0, true, false, STREAM_SERIAL).len() as int;
    let p2 = page_bytes(seq![com], 0, 1, false, false, STREAM_SERIAL);
    assert(s[len1] == p2[0]);
    assert(s[len1 + 5] == p2[5]);
    lemma_audio_from_len(pkts, 0);
    assert forall|i: int| 0 <= i < num implies #[trigger] s[h + 4213 * i] == 79 && s[h + 4213 * i
        + 5] == flags_byte(false, i == num - 1) by {
        lemma_audio_suffix(pkts, i);
        lemma_audio_from_len(pkts, i);
        lemma_audio_page_len(pkts, i);
        lemma_page_markers(
            page_group(pkts, i),
            (group_end(pkts.len() as int, i) * 960) as u64,
            (2 + i) as u32,
            false,
            i == num - 1,
            STREAM_SERIAL,
        );
        assert(s.skip(h) =~= audio_from(pkts, 0));
        assert(s[h + 4213 * i] == audio_from(pkts, 0).skip(4213 * i)[0]);
        assert(s[h + 4213 * i + 5] == audio_from(pkts, 0).skip(4213 * i)[5]);
    }
}

} // verus!
