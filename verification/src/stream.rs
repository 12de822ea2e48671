//! The seekable transcoded byte stream.
//!
//! A `TranscodeStream` is driven by its owner: the owner feeds it encoded
//! packets pulled from the decoding backend and drains output bytes.  The
//! stream itself owns every byte-level decision: header first, then pages,
//! byte positions, and the discard bookkeeping after a seek.
//!
//! The contracts are stated against the canonical output
//! [`crate::model::stream_bytes`]: whatever full packet sequence the decoder
//! produces, if the packets fed so far agree with it
//! ([`TranscodeStream::consistent_with`]), then every emitted byte run is
//! exactly the canonical bytes at the stream's position.  Feeding a packet
//! at a canonical index that was already fed once requires the same bytes
//! again: that the decoder re-delivers identical packets after a time seek
//! is the one assumption the caller brings.

use crate::cursor::PageCursor;
use crate::errors::EncoderError;
use crate::header_cache::{build_header_bytes, header_pages_bytes, HeaderCache};
use crate::model::{
    audio_from, audio_page, group_end, num_audio_pages, pkts_wf, stream_bytes, MAX_PACKETS,
};
use crate::offset_map::{byte_to_offset, offset_in_range};
use crate::opus_spec::{OpusSpec, PACKET_SIZE, SAMPLES_PER_PACKET, STREAM_SERIAL};
use crate::packetizer::OggPacketizer;
use crate::page::page_bytes;
use vstd::prelude::*;

verus! {

/// Learning one more packet refines consistency in exactly one way: the
/// canonical sequence must hold that packet at that index.
proof fn lemma_feed_consistency(s0: TranscodeStream, s1: TranscodeStream, i: int, dv: Seq<u8>)
    requires
        0 <= i,
        s1.known_map() == s0.known_map().insert(i, dv),
        i == s0.pkts_seen_spec(),
        s1.pkts_seen_spec() == i + 1,
        !s0.finished_spec(),
        !s1.finished_spec(),
        s0.known_map().dom().contains(i) ==> s0.known_map()[i] == dv,
    ensures
        forall|pkts: Seq<Seq<u8>>|
            #[trigger] s1.consistent_with(pkts) <==> (s0.consistent_with(pkts) && i < pkts.len()
                && pkts[i] == dv),
{
    assert forall|pkts: Seq<Seq<u8>>|
        #[trigger] s1.consistent_with(pkts) <==> (s0.consistent_with(pkts) && i < pkts.len()
            && pkts[i] == dv) by {
        if s1.consistent_with(pkts) {
            assert(s1.known_map().dom().contains(i));
            assert forall|k: int| #[trigger] s0.known_map().dom().contains(k) implies 0 <= k
                < pkts.len() && pkts[k] == s0.known_map()[k] by {
                assert(s1.known_map().dom().contains(k));
            }
        }
        if s0.consistent_with(pkts) && i < pkts.len() && pkts[i] == dv {
            assert forall|k: int| #[trigger] s1.known_map().dom().contains(k) implies 0 <= k
                < pkts.len() && pkts[k] == s1.known_map()[k] by {
                if k != i {
                    assert(s0.known_map().dom().contains(k));
                }
            }
        }
    }
}

/// A learned window agrees with the canonical packets it covers.
proof fn lemma_window_is_group(m: Map<int, Seq<u8>>, pkts: Seq<Seq<u8>>, j: int, ge: int)
    requires
        j >= 0,
        26 * j < ge <= pkts.len(),
        forall|i: int| #[trigger] m.dom().contains(i) ==> 0 <= i < pkts.len() && pkts[i] == m[i],
        forall|i: int| 26 * j <= i < ge ==> #[trigger] m.dom().contains(i),
    ensures
        window(m, 26 * j, ge) == pkts.subrange(26 * j, ge),
{
    assert forall|t: int| 0 <= t < ge - 26 * j implies #[trigger] window(m, 26 * j, ge)[t]
        == pkts[26 * j + t] by {
        assert(m.dom().contains(26 * j + t));
    }
    assert(window(m, 26 * j, ge) =~= pkts.subrange(26 * j, ge));
}

/// What every stream operation leaves alone: the identity of the stream
/// and what it has learned; only the position, the page in flight and the
/// end-of-stream flag move.
pub open spec fn unchanged_but_position(s0: TranscodeStream, s1: TranscodeStream) -> bool {
    &&& s1.header_len_spec() == s0.header_len_spec()
    &&& s1.id_blob() == s0.id_blob()
    &&& s1.com_blob() == s0.com_blob()
    &&& s1.known_map() == s0.known_map()
    &&& s1.pkts_seen_spec() == s0.pkts_seen_spec()
    &&& s1.finished_spec() == s0.finished_spec()
    &&& s1.failed_spec() == s0.failed_spec()
}

/// The packets a stream has learned, keyed by canonical packet index.
pub open spec fn window(m: Map<int, Seq<u8>>, a: int, b: int) -> Seq<Seq<u8>> {
    Seq::new(if b >= a {
        (b - a) as nat
    } else {
        0
    }, |t: int| m[a + t])
}

/// A seek request, mirroring the three ways a byte-stream consumer can
/// name a target position.
pub enum SeekTarget {
    /// An absolute position from the stream start: the one supported form.
    Start(u64),
    /// Relative to the current position: not supported.
    Current(i64),
    /// Relative to the stream end: not supported, the length is unknown.
    End(i64),
}

/// A seekable Opus-in-Ogg byte stream over externally supplied packets.
pub struct TranscodeStream {
    spec_cfg: OpusSpec,
    header: HeaderCache,
    packetizer: OggPacketizer,
    cursor: PageCursor,
    byte_offset: u64,
    failed: Option<String>,
    canon: Ghost<Map<int, Seq<u8>>>,
    id_hdr: Ghost<Seq<u8>>,
    com_hdr: Ghost<Seq<u8>>,
}

impl TranscodeStream {
    /// The ID header blob the stream was built from.
    pub closed spec fn id_blob(self) -> Seq<u8> {
        self.id_hdr@
    }

    /// The comment header blob the stream was built from.
    pub closed spec fn com_blob(self) -> Seq<u8> {
        self.com_hdr@
    }

    /// The output byte position of the next byte to emit.
    pub closed spec fn position_spec(self) -> int {
        self.byte_offset as int
    }

    /// The length of the header region.
    pub closed spec fn header_len_spec(self) -> int {
        self.header.bytes().len() as int
    }

    /// The packets learned so far, by canonical index.
    pub closed spec fn known_map(self) -> Map<int, Seq<u8>> {
        self.canon@
    }

    /// The canonical index of the next packet to feed.
    pub closed spec fn pkts_seen_spec(self) -> int {
        self.packetizer.pkts_seen()
    }

    /// Whether end of stream has been declared.
    pub closed spec fn finished_spec(self) -> bool {
        self.packetizer.is_finished()
    }

    /// The canonical index of the next audio page to frame.
    pub closed spec fn pages_out_spec(self) -> int {
        self.packetizer.pages_out()
    }

    /// Whether a page is currently loaded for emission.
    pub closed spec fn has_page_spec(self) -> bool {
        self.cursor.has_page()
    }

    /// Whether a decoding failure has been latched.
    pub closed spec fn failed_spec(self) -> bool {
        self.failed is Some
    }

    /// Bytes still to drop from the front of the next page after a seek.
    pub closed spec fn discard_spec(self) -> int {
        self.cursor.discard()
    }

    /// True once the stream has delivered everything: end of stream was
    /// declared and the last page is drained.
    pub open spec fn exhausted(self) -> bool {
        self.finished_spec() && !self.has_page_spec()
    }

    /// Every packet the stream has learned is the one `pkts` holds at the
    /// same canonical index.
    pub open spec fn agrees_with(self, pkts: Seq<Seq<u8>>) -> bool {
        forall|i: int|
            #[trigger] self.known_map().dom().contains(i) ==> 0 <= i < pkts.len() && pkts[i]
                == self.known_map()[i]
    }

    /// The stream agrees with the full canonical packet sequence `pkts`:
    /// every packet learned is the one at its index, and the stream has not
    /// run past the end (nor, once finished, short of it).
    pub open spec fn consistent_with(self, pkts: Seq<Seq<u8>>) -> bool {
        &&& pkts_wf(pkts)
        &&& self.agrees_with(pkts)
        &&& pkts.len() >= self.pkts_seen_spec()
        &&& (self.finished_spec() ==> pkts.len() == self.pkts_seen_spec())
    }

    /// The state a seek to output position `position` leaves behind, given
    /// header length `h`: everything observable is a function of the target
    /// alone, which is what makes seeking idempotent.
    pub open spec fn post_seek_state(self, h: int, position: int) -> bool {
        &&& self.position_spec() == position
        &&& !self.finished_spec()
        &&& !self.has_page_spec()
        &&& self.pkts_seen_spec() == (position - h) / 4213 * 26
        &&& self.pages_out_spec() == (position - h) / 4213
        &&& self.discard_spec() == (position - h) % 4213
    }

    /// The canonical output determined by a packet sequence and this
    /// stream's header blobs.
    pub open spec fn canonical(self, pkts: Seq<Seq<u8>>) -> Seq<u8> {
        stream_bytes(self.id_blob(), self.com_blob(), pkts)
    }

    /// The internal invariant.
    #[verifier::opaque]
    pub closed spec fn inv(self) -> bool {
        let h = self.header_len_spec();
        let seen = self.packetizer.pkts_seen();
        let pout = self.packetizer.pages_out();
        &&& self.spec_cfg.is_contractual()
        &&& self.header.is_built()
        &&& self.header.bytes() == header_pages_bytes(self.id_hdr@, self.com_hdr@, STREAM_SERIAL)
        &&& self.id_hdr@.len() < 65025
        &&& self.com_hdr@.len() < 65025
        &&& h <= 131000
        &&& self.packetizer.wf()
        &&& self.packetizer.serial_of() == STREAM_SERIAL
        &&& self.cursor.wf()
        &&& self.cursor.discard() < 4213
        // every learned packet has the contractual size
        &&& forall|i: int|
            #[trigger] self.canon@.dom().contains(i) ==> self.canon@[i].len() == PACKET_SIZE as int
        // the pending packets are the learned tail of the accepted run
        &&& forall|t: int|
            0 <= t < self.packetizer.pending_pkts().len() ==> {
                &&& #[trigger] self.canon@.dom().contains(26 * self.packetizer.pages_out() + t)
                &&& self.canon@[26 * self.packetizer.pages_out() + t]
                    == self.packetizer.pending_pkts()[t]
            }
        // the loaded page is the audio page before the accepted run
        &&& match self.cursor.cached_page() {
            Some(p) => {
                let j = pout - 1;
                let ge = if self.packetizer.is_finished() {
                    seen
                } else {
                    26 * (j + 1)
                };
                &&& pout >= 1
                &&& (if self.packetizer.is_finished() {
                    26 * j < seen <= 26 * (j + 1)
                } else {
                    seen >= 26 * (j + 1) + 1
                })
                &&& forall|i: int| 26 * j <= i < ge ==> #[trigger] self.canon@.dom().contains(i)
                &&& p.bytes() == page_bytes(
                    window(self.canon@, 26 * j, ge),
                    (ge * SAMPLES_PER_PACKET) as u64,
                    (2 + j) as u32,
                    false,
                    self.packetizer.is_finished(),
                    STREAM_SERIAL,
                )
                &&& p.bytes().len() == 27 + 161 * (ge - 26 * j)
                &&& self.byte_offset == h + j * 4213 + self.cursor.progress() + self.cursor.discard()
            },
            None => {
                ||| (self.byte_offset <= h && pout == 0 && self.cursor.discard() == 0)
                ||| (self.byte_offset == h + pout * 4213 + self.cursor.discard())
                ||| (self.packetizer.is_finished() && pout >= 1 && seen > 26 * (pout - 1)
                    && self.byte_offset == h + (pout - 1) * 4213 + 27 + 161 * (seen - 26 * (pout
                        - 1)) + self.cursor.discard())
            },
        }
    }

    /// The well-formedness a caller sees.
    pub open spec fn wf(self) -> bool {
        self.inv()
    }

    /// Builds a stream from the two Opus header blobs the encoder produced.
    ///
    /// Fails with `NoStreamHeader` exactly when the ID header is missing
    /// (empty) or either blob is too large for a single page.
    pub fn new(id_header: Vec<u8>, comment_header: Vec<u8>) -> (r: Result<
        TranscodeStream,
        EncoderError,
    >)
        ensures
            match r {
                Ok(s) => {
                    &&& s.wf()
                    &&& id_header@.len() > 0
                    &&& id_header@.len() < 65025
                    &&& comment_header@.len() < 65025
                    &&& s.id_blob() == id_header@
                    &&& s.com_blob() == comment_header@
                    &&& s.position_spec() == 0
                    &&& s.header_len_spec() == header_pages_bytes(
                        id_header@,
                        comment_header@,
                        STREAM_SERIAL,
                    ).len()
                    &&& s.known_map() == Map::<int, Seq<u8>>::empty()
                    &&& s.pkts_seen_spec() == 0
                    &&& !s.finished_spec()
                    &&& !s.has_page_spec()
                    &&& !s.failed_spec()
                },
                Err(e) => {
                    &&& e == EncoderError::NoStreamHeader
                    &&& (id_header@.len() == 0 || id_header@.len() >= 65025
                        || comment_header@.len() >= 65025)
                },
            },
    {
        if id_header.len() == 0 || id_header.len() >= 65025 || comment_header.len() >= 65025 {
            return Err(EncoderError::NoStreamHeader);
        }
        let ghost idv = id_header@;
        let ghost comv = comment_header@;
        proof {
            crate::header_cache::lemma_single_seg_count(idv);
            crate::header_cache::lemma_single_seg_count(comv);
            crate::page::lemma_page_bytes_len(seq![idv], 0, 0, true, false, STREAM_SERIAL);
            crate::page::lemma_page_bytes_len(seq![comv], 0, 1, false, false, STREAM_SERIAL);
        }
        let bytes = build_header_bytes(id_header, comment_header, STREAM_SERIAL);
        let mut header = HeaderCache::new();
        header.init(bytes);
        let s = TranscodeStream {
            spec_cfg: OpusSpec::default(),
            header,
            packetizer: OggPacketizer::new(STREAM_SERIAL),
            cursor: PageCursor::new(),
            byte_offset: 0,
            failed: None,
            canon: Ghost(Map::empty()),
            id_hdr: Ghost(idv),
            com_hdr: Ghost(comv),
        };
        proof {
            reveal(TranscodeStream::inv);
            assert(s.known_map() =~= Map::<int, Seq<u8>>::empty());
        }
        Ok(s)
    }

    /// The length of the stream header in bytes: the region a seek may not
    /// enter.
    pub fn header_len(&self) -> (n: usize)
        requires
            self.wf(),
        ensures
            n == self.header_len_spec(),
    {
        proof {
            reveal(TranscodeStream::inv);
        }
        self.header.len()
    }

    /// The output byte position of the next byte [`Self::emit`] will
    /// deliver.
    pub fn position(&self) -> (p: u64)
        requires
            self.wf(),
        ensures
            p == self.position_spec(),
    {
        self.byte_offset
    }

    /// Whether the stream can accept a packet right now: streaming, the
    /// header region behind us, and no page waiting to drain.
    pub fn wants_packet(&self) -> (b: bool)
        requires
            self.wf(),
        ensures
            b == (!self.failed_spec() && !self.finished_spec() && !self.has_page_spec()
                && self.position_spec() >= self.header_len_spec()),
    {
        proof {
            reveal(TranscodeStream::inv);
        }
        self.failed.is_none() && !self.packetizer.is_done() && self.cursor.is_empty()
            && self.byte_offset >= self.header.len() as u64
    }

    /// The canonical index of the next packet the stream expects: how many
    /// packets of the canonical sequence are already accounted for, by
    /// feeding or by seeking past them.
    pub fn next_packet_index(&self) -> (k: u64)
        requires
            self.wf(),
        ensures
            k == self.pkts_seen_spec(),
    {
        proof {
            reveal(TranscodeStream::inv);
        }
        self.packetizer.packets_accepted()
    }

    /// Whether the stream has delivered everything.
    pub fn is_exhausted(&self) -> (b: bool)
        requires
            self.wf(),
        ensures
            b == self.exhausted(),
    {
        self.packetizer.is_done() && self.cursor.is_empty()
    }

    /// Accepts the next encoded packet from the decoder.
    ///
    /// Packets carry canonical indexes: the caller promises that a packet
    /// re-fed at an index the stream has already learned (after a seek) is
    /// byte-identical, which is what a deterministic decoder delivers.
    /// May load the previous group's page for emission, so the cursor must
    /// be drained first; see [`Self::wants_packet`].
    #[verifier::spinoff_prover]
    #[verifier::rlimit(100)]
    pub fn feed_packet(&mut self, data: Vec<u8>)
        requires
            old(self).wf(),
            !old(self).finished_spec(),
            !old(self).has_page_spec(),
            old(self).position_spec() >= old(self).header_len_spec(),
            data@.len() == PACKET_SIZE as int,
            old(self).pkts_seen_spec() < MAX_PACKETS,
            old(self).known_map().dom().contains(old(self).pkts_seen_spec()) ==> old(
                self,
            ).known_map()[old(self).pkts_seen_spec()] == data@,
        ensures
            final(self).wf(),
            final(self).position_spec() == old(self).position_spec(),
            final(self).header_len_spec() == old(self).header_len_spec(),
            final(self).id_blob() == old(self).id_blob(),
            final(self).com_blob() == old(self).com_blob(),
            final(self).failed_spec() == old(self).failed_spec(),
            !final(self).finished_spec(),
            final(self).pkts_seen_spec() == old(self).pkts_seen_spec() + 1,
            final(self).known_map() == old(self).known_map().insert(
                old(self).pkts_seen_spec(),
                data@,
            ),
            forall|pkts: Seq<Seq<u8>>|
                #[trigger] final(self).consistent_with(pkts) <==> (old(self).consistent_with(pkts)
                    && old(self).pkts_seen_spec() < pkts.len() && pkts[old(
                    self,
                ).pkts_seen_spec()] == data@),
    {
        proof {
            reveal(TranscodeStream::inv);
        }
        let ghost i = self.packetizer.pkts_seen();
        let ghost dv = data@;
        let ghost old_pending = self.packetizer.pending_pkts();
        let ghost pout = self.packetizer.pages_out();
        let page_opt = self.packetizer.submit(data);
        proof {
            self.canon@ = self.canon@.insert(i, dv);
        }
        match page_opt {
            Some(p) => {
                proof {
                    crate::model::lemma_uniform_group(old_pending);
                    crate::page::lemma_page_bytes_len(
                        old_pending,
                        (i * SAMPLES_PER_PACKET) as u64,
                        (2 + pout) as u32,
                        false,
                        false,
                        STREAM_SERIAL,
                    );
                }
                self.cursor.put_page(p);
                proof {
                    assert forall|t: int| 0 <= t < 26 implies self.canon@.dom().contains(
                        26 * pout + t,
                    ) && self.canon@[26 * pout + t] == old_pending[t] by {
                        assert(old(self).canon@.dom().contains(26 * pout + t));
                    }
                    assert(window(self.canon@, 26 * pout, 26 * (pout + 1)) =~= old_pending);
                    assert forall|k: int| 26 * pout <= k < 26 * (pout + 1) implies self.canon@.dom()
                        .contains(k) by {
                        let t = k - 26 * pout;
                        assert(old(self).canon@.dom().contains(26 * pout + t));
                    }
                    assert(self.inv());
                }
            },
            None => {
                proof {
                    assert(self.inv());
                }
            },
        }
        proof {
            lemma_feed_consistency(*old(self), *self, i, dv);
        }
    }

    /// Declares end of stream, as the decoder reported it: the pending
    /// packets, if any, become the final page, marked last.
    #[verifier::spinoff_prover]
    #[verifier::rlimit(100)]
    pub fn finish(&mut self)
        requires
            old(self).wf(),
            !old(self).finished_spec(),
            !old(self).has_page_spec(),
            old(self).position_spec() >= old(self).header_len_spec(),
        ensures
            final(self).wf(),
            final(self).finished_spec(),
            final(self).position_spec() == old(self).position_spec(),
            final(self).header_len_spec() == old(self).header_len_spec(),
            final(self).id_blob() == old(self).id_blob(),
            final(self).com_blob() == old(self).com_blob(),
            final(self).failed_spec() == old(self).failed_spec(),
            final(self).pkts_seen_spec() == old(self).pkts_seen_spec(),
            final(self).known_map() == old(self).known_map(),
            final(self).has_page_spec() <==> old(self).pkts_seen_spec() > 26 * old(
                self,
            ).pages_out_spec(),
            forall|pkts: Seq<Seq<u8>>|
                #[trigger] final(self).consistent_with(pkts) <==> (old(self).consistent_with(pkts)
                    && pkts.len() == old(self).pkts_seen_spec()),
    {
        proof {
            reveal(TranscodeStream::inv);
        }
        let ghost i = self.packetizer.pkts_seen();
        let ghost old_pending = self.packetizer.pending_pkts();
        let ghost pout = self.packetizer.pages_out();
        let page_opt = self.packetizer.finish();
        match page_opt {
            Some(p) => {
                proof {
                    crate::model::lemma_uniform_group(old_pending);
                    crate::page::lemma_page_bytes_len(
                        old_pending,
                        (i * SAMPLES_PER_PACKET) as u64,
                        (2 + pout) as u32,
                        false,
                        true,
                        STREAM_SERIAL,
                    );
                }
                self.cursor.put_page(p);
                proof {
                    assert forall|t: int| 0 <= t < old_pending.len() implies self.canon@.dom()
                        .contains(26 * pout + t) && self.canon@[26 * pout + t] == old_pending[t] by {
                        assert(old(self).canon@.dom().contains(26 * pout + t));
                    }
                    assert(window(self.canon@, 26 * pout, i) =~= old_pending);
                    assert forall|k: int| 26 * pout <= k < i implies self.canon@.dom().contains(
                        k,
                    ) by {
                        let t = k - 26 * pout;
                        assert(old(self).canon@.dom().contains(26 * pout + t));
                    }
                }
            },
            None => {},
        }
    }

    /// While a page is loaded, any consistent canonical sequence frames the
    /// same page, and the page sits at byte `h + 4213 * j` of the canonical
    /// output.
    #[verifier::spinoff_prover]
    #[verifier::rlimit(100)]
    proof fn lemma_page_at_position(self, pkts: Seq<Seq<u8>>)
        requires
            self.inv(),
            self.has_page_spec(),
            self.consistent_with(pkts),
        ensures
            ({
                let p = self.cursor.cached_page()->0;
                let j = self.packetizer.pages_out() - 1;
                let h = self.header_len_spec();
                let s = stream_bytes(self.id_blob(), self.com_blob(), pkts);
                &&& 0 <= j < num_audio_pages(pkts.len() as int)
                &&& s.len() >= h + 4213 * j + p.bytes().len()
                &&& forall|u: int|
                    0 <= u < p.bytes().len() ==> #[trigger] s[h + 4213 * j + u] == p.bytes()[u]
            }),
    {
        reveal(TranscodeStream::inv);
        let p = self.cursor.cached_page()->0;
        let j = self.packetizer.pages_out() - 1;
        let seen = self.packetizer.pkts_seen();
        let fin = self.packetizer.is_finished();
        let n = pkts.len() as int;
        let num = num_audio_pages(n);
        let ge = if fin {
            seen
        } else {
            26 * (j + 1)
        };
        assert forall|i: int| #[trigger] self.canon@.dom().contains(i) implies 0 <= i < pkts.len()
            && pkts[i] == self.canon@[i] by {
            assert(self.known_map().dom().contains(i));
        }
        lemma_window_is_group(self.canon@, pkts, j, ge);
        if fin {
            assert(group_end(n, j) == ge);
            assert(j == num - 1);
        } else {
            assert(num >= j + 2) by {
                assert((n + 25) / 26 >= j + 2) by (nonlinear_arith)
                    requires
                        n + 25 >= 26 * (j + 2),
                ;
            }
            assert(group_end(n, j) == ge);
        }
        assert(p.bytes() == audio_page(pkts, j));
        crate::laws::lemma_page_at(self.id_blob(), self.com_blob(), pkts, j);
    }

    /// Emits header bytes: the phase while the position is inside the
    /// header region.
    fn emit_header_run(&mut self, budget: usize) -> (out: Vec<u8>)
        requires
            old(self).wf(),
            old(self).position_spec() < old(self).header_len_spec(),
        ensures
            final(self).wf(),
            unchanged_but_position(*old(self), *final(self)),
            out@.len() <= budget,
            final(self).position_spec() == old(self).position_spec() + out@.len(),
            out@.len() < budget ==> final(self).position_spec() == final(self).header_len_spec(),
            !final(self).has_page_spec(),
            forall|pkts: Seq<Seq<u8>>|
                #[trigger] old(self).consistent_with(pkts) && old(self).position_spec()
                    + out@.len() <= old(self).canonical(pkts).len() ==> out@ == old(
                    self,
                ).canonical(pkts).subrange(
                    old(self).position_spec(),
                    old(self).position_spec() + out@.len(),
                ),
    {
        proof {
            reveal(TranscodeStream::inv);
            // inside the header region no page is loaded and no discard is
            // pending
            if self.cursor.cached_page() is Some {
                assert(self.byte_offset >= self.header_len_spec());
                assert(false);
            }
            assert(self.packetizer.pages_out() == 0);
            assert(self.cursor.discard() == 0);
        }
        let ghost s0 = *old(self);
        let ghost pos0 = self.byte_offset as int;
        let h = self.header.len();
        let from = self.byte_offset as usize;
        let rem = h - from;
        let w = if budget < rem {
            budget
        } else {
            rem
        };
        let mut out: Vec<u8> = Vec::new();
        let hdr = self.header.get();
        out.extend_from_slice(vstd::slice::slice_subrange(hdr.as_slice(), from, from + w));
        proof {
            assert(out@ =~= self.header.bytes().subrange(pos0, pos0 + w));
        }
        self.byte_offset = self.byte_offset + w as u64;
        proof {
            assert(self.inv());
            assert forall|pkts: Seq<Seq<u8>>|
                #[trigger] s0.consistent_with(pkts) && pos0 + out@.len() <= s0.canonical(
                    pkts,
                ).len() implies out@ == s0.canonical(pkts).subrange(pos0, pos0 + out@.len()) by {
                let s = s0.canonical(pkts);
                assert(s =~= s0.header.bytes() + audio_from(pkts, 0));
                assert(out@ =~= s.subrange(pos0, pos0 + out@.len()));
            }
        }
        out
    }

    /// Emits bytes of the loaded page: the phase past the header region.
    #[verifier::spinoff_prover]
    #[verifier::rlimit(100)]
    fn emit_page_run(&mut self, budget: usize) -> (out: Vec<u8>)
        requires
            old(self).wf(),
            old(self).has_page_spec(),
        ensures
            final(self).wf(),
            unchanged_but_position(*old(self), *final(self)),
            out@.len() <= budget,
            final(self).position_spec() == old(self).position_spec() + out@.len(),
            out@.len() < budget ==> !final(self).has_page_spec(),
            forall|pkts: Seq<Seq<u8>>|
                #[trigger] old(self).consistent_with(pkts) && old(self).position_spec()
                    + out@.len() <= old(self).canonical(pkts).len() ==> out@ == old(
                    self,
                ).canonical(pkts).subrange(
                    old(self).position_spec(),
                    old(self).position_spec() + out@.len(),
                ),
    {
        proof {
            reveal(TranscodeStream::inv);
        }
        let ghost s0 = *old(self);
        let ghost pos0 = self.byte_offset as int;
        let mut out: Vec<u8> = Vec::new();
        let n = self.cursor.emit_into(&mut out, budget);
        proof {
            if n > 0 {
                assert(s0.cursor.skip_len() == s0.cursor.discard());
            }
        }
        self.byte_offset = self.byte_offset + n as u64;
        proof {
            assert(self.inv());
            assert forall|pkts: Seq<Seq<u8>>|
                #[trigger] s0.consistent_with(pkts) && pos0 + out@.len() <= s0.canonical(
                    pkts,
                ).len() implies out@ == s0.canonical(pkts).subrange(pos0, pos0 + out@.len()) by {
                let s = s0.canonical(pkts);
                if out@.len() > 0 {
                    s0.lemma_page_at_position(pkts);
                    let p = s0.cursor.cached_page()->0;
                    let j = s0.packetizer.pages_out() - 1;
                    let start = s0.cursor.progress() + s0.cursor.discard();
                    assert(pos0 == s0.header_len_spec() + 4213 * j + start);
                    assert(out@ == p.bytes().subrange(start, start + out@.len()));
                    assert forall|v: int| 0 <= v < out@.len() implies s[pos0 + v] == out@[v] by {
                        assert(s[s0.header_len_spec() + 4213 * j + (start + v)] == p.bytes()[start
                            + v]);
                    }
                    assert(out@ =~= s.subrange(pos0, pos0 + out@.len()));
                } else {
                    assert(out@ =~= s.subrange(pos0, pos0));
                }
            }
        }
        out
    }

    /// Emits up to `budget` bytes at the current position: header bytes
    /// while the position is inside the header region, bytes of the loaded
    /// page otherwise.
    ///
    /// The returned run is exactly the canonical bytes at the old position,
    /// for every canonical packet sequence consistent with what has been
    /// fed.  A run shorter than the budget means the stream needs a packet
    /// ([`Self::wants_packet`]) or is done ([`Self::exhausted`]).  Once a
    /// failure is latched, emission fails with it instead.
    pub fn emit(&mut self, budget: usize) -> (r: Result<Vec<u8>, EncoderError>)
        requires
            old(self).wf(),
        ensures
            unchanged_but_position(*old(self), *final(self)),
            match r {
                Ok(out) => {
                    &&& final(self).wf()
                    &&& !old(self).failed_spec()
                    &&& out@.len() <= budget
                    &&& final(self).position_spec() == old(self).position_spec() + out@.len()
                    &&& (out@.len() < budget ==> final(self).position_spec() >= final(self).header_len_spec()
                        && !final(self).has_page_spec())
                    &&& forall|pkts: Seq<Seq<u8>>|
                        #[trigger] old(self).consistent_with(pkts) && old(self).position_spec()
                            + out@.len() <= old(self).canonical(pkts).len() ==> out@ == old(
                            self,
                        ).canonical(pkts).subrange(
                            old(self).position_spec(),
                            old(self).position_spec() + out@.len(),
                        )
                },
                Err(e) => {
                    &&& old(self).failed_spec()
                    &&& e is DecoderFailure
                    &&& *final(self) == *old(self)
                },
            },
    {
        match &self.failed {
            Some(m) => {
                return Err(EncoderError::DecoderFailure(m.clone()));
            },
            None => {},
        }
        proof {
            reveal(TranscodeStream::inv);
        }
        let ghost s0 = *old(self);
        let h = self.header.len();
        if self.byte_offset < h as u64 {
            let out = self.emit_header_run(budget);
            return Ok(out);
        }
        if !self.cursor.is_empty() {
            let out = self.emit_page_run(budget);
            return Ok(out);
        }
        let out: Vec<u8> = Vec::new();
        proof {
            let pos0 = s0.position_spec();
            assert forall|pkts: Seq<Seq<u8>>|
                #[trigger] s0.consistent_with(pkts) && pos0 + out@.len() <= s0.canonical(
                    pkts,
                ).len() implies out@ == s0.canonical(pkts).subrange(pos0, pos0 + out@.len()) by {
                assert(out@ =~= s0.canonical(pkts).subrange(pos0, pos0));
            }
        }
        Ok(out)
    }

    /// Repositions the stream to output byte `position`, counted from the
    /// stream start.
    ///
    /// Targets inside the header region are rejected with `SeekIntoHeader`
    /// and the stream is left untouched.  On success the returned value is
    /// the millisecond the caller must re-seek the decoder to before
    /// feeding packets again; the stream has dropped any loaded page, will
    /// discard the leading `(position - header_len) % 4213` bytes of the
    /// next page, and reports `position` as its position.
    pub fn seek_to(&mut self, position: u64) -> (r: Result<u32, EncoderError>)
        requires
            old(self).wf(),
            offset_in_range(position, old(self).header_len_spec()),
        ensures
            final(self).header_len_spec() == old(self).header_len_spec(),
            final(self).id_blob() == old(self).id_blob(),
            final(self).com_blob() == old(self).com_blob(),
            final(self).known_map() == old(self).known_map(),
            final(self).failed_spec() == old(self).failed_spec(),
            match r {
                Ok(millis) => {
                    let h = old(self).header_len_spec();
                    &&& final(self).wf()
                    &&& position >= h
                    &&& millis == (position - h) / 4213 * 520
                    &&& final(self).post_seek_state(h, position as int)
                },
                Err(e) => {
                    &&& e == EncoderError::SeekIntoHeader
                    &&& position < old(self).header_len_spec()
                    &&& *final(self) == *old(self)
                },
            },
    {
        proof {
            reveal(TranscodeStream::inv);
        }
        let hl = self.header.len();
        let off = match byte_to_offset(position, hl, &self.spec_cfg) {
            Ok(o) => o,
            Err(e) => {
                return Err(e);
            },
        };
        let ghost pages = (position - hl) as int / 4213;
        proof {
            assert(pages * 26 <= pages * 520) by (nonlinear_arith)
                requires
                    pages >= 0,
            ;
        }
        self.packetizer.reset(off.packet as u64);
        self.cursor.reset_for_seek(off.extra_bytes as usize);
        self.byte_offset = position;
        proof {
            assert((pages * 26) / 26 == pages) by (nonlinear_arith);
            assert(self.inv());
        }
        Ok(off.millis)
    }

    /// Seeks as a byte-stream consumer asks: only absolute targets are
    /// supported; relative ones fail with `SeekNotSupported` and leave the
    /// stream untouched.
    pub fn seek(&mut self, from: SeekTarget) -> (r: Result<u64, EncoderError>)
        requires
            old(self).wf(),
            (from matches SeekTarget::Start(p) ==> offset_in_range(
                p,
                old(self).header_len_spec(),
            )),
        ensures
            final(self).header_len_spec() == old(self).header_len_spec(),
            final(self).id_blob() == old(self).id_blob(),
            final(self).com_blob() == old(self).com_blob(),
            final(self).known_map() == old(self).known_map(),
            final(self).failed_spec() == old(self).failed_spec(),
            match from {
                SeekTarget::Start(p) => match r {
                    Ok(got) => {
                        &&& final(self).wf()
                        &&& got == p >= old(self).header_len_spec()
                        &&& final(self).post_seek_state(old(self).header_len_spec(), p as int)
                    },
                    Err(e) => {
                        &&& e == EncoderError::SeekIntoHeader
                        &&& p < old(self).header_len_spec()
                        &&& *final(self) == *old(self)
                    },
                },
                _ => r == Err::<u64, EncoderError>(EncoderError::SeekNotSupported) && *final(self)
                    == *old(self),
            },
    {
        match from {
            SeekTarget::Start(p) => {
                match self.seek_to(p) {
                    Ok(_) => Ok(p),
                    Err(e) => Err(e),
                }
            },
            SeekTarget::Current(_) => Err(EncoderError::SeekNotSupported),
            SeekTarget::End(_) => Err(EncoderError::SeekNotSupported),
        }
    }

    /// Latches a decoding failure: every later emission fails with it.
    pub fn fail(&mut self, reason: String)
        requires
            old(self).wf(),
        ensures
            final(self).wf(),
            final(self).failed_spec(),
    {
        proof {
            reveal(TranscodeStream::inv);
        }
        self.failed = Some(reason);
    }
}

} // verus!
