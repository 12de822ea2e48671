//! Grouping encoded packets into Ogg pages.
//!
//! Packets arrive one at a time; every 26 of them become one page.  A full
//! group is framed only when the first packet of the next group arrives, so
//! that the packetizer always knows whether a page is the stream's last:
//! end of stream is declared by [`OggPacketizer::finish`], which frames
//! whatever is pending as the final page with the last-page flag set.
//!
//! Granule positions follow the fixed packet duration: the page holding
//! packets up to canonical index `k - 1` carries granule position `k * 960`.

use crate::model::{num_audio_pages, MAX_PACKETS};
use crate::opus_spec::{PACKET_SIZE, SAMPLES_PER_PACKET};
use crate::page::{build_page, page_bytes, Page};
use vstd::prelude::*;

verus! {

/// Turns a run of fixed-size packets into a run of pages.
pub struct OggPacketizer {
    serial: u32,
    packet_count: u64,
    pages_done: u32,
    pending: Vec<Vec<u8>>,
    finished: bool,
}

impl OggPacketizer {
    /// The serial number written into every page.
    pub closed spec fn serial_of(self) -> u32 {
        self.serial
    }

    /// How many packets have been accepted, counted canonically: a reset
    /// pretends the packets before the reset point were accepted here.
    pub closed spec fn pkts_seen(self) -> int {
        self.packet_count as int
    }

    /// How many audio pages have been handed out, counted canonically.
    pub closed spec fn pages_out(self) -> int {
        self.pages_done as int
    }

    /// The packets accepted but not yet framed, oldest first.
    pub closed spec fn pending_pkts(self) -> Seq<Seq<u8>> {
        self.pending.deep_view()
    }

    /// Whether end of stream has been declared.
    pub closed spec fn is_finished(self) -> bool {
        self.finished
    }

    /// The bookkeeping invariant: pending packets are the tail of the
    /// accepted run, a group never exceeds a page, and the counters stay
    /// inside their number ranges.
    pub open spec fn wf(self) -> bool {
        &&& if self.is_finished() {
            &&& self.pending_pkts().len() == 0
            &&& self.pages_out() == num_audio_pages(self.pkts_seen())
        } else {
            &&& self.pkts_seen() == 26 * self.pages_out() + self.pending_pkts().len()
            &&& self.pending_pkts().len() <= 26
        }
        &&& forall|i: int|
            0 <= i < self.pending_pkts().len() ==> (#[trigger] self.pending_pkts()[i]).len()
                == PACKET_SIZE as int
        &&& self.pkts_seen() <= MAX_PACKETS
        &&& 0 <= self.pages_out() <= MAX_PACKETS
    }

    /// How many packets have been accepted, counted canonically.
    pub fn packets_accepted(&self) -> (k: u64)
        ensures
            k == self.pkts_seen(),
    {
        self.packet_count
    }

    /// Whether end of stream has been declared.
    pub fn is_done(&self) -> (b: bool)
        ensures
            b == self.is_finished(),
    {
        self.finished
    }

    /// A fresh packetizer at the stream start.
    pub fn new(serial: u32) -> (z: OggPacketizer)
        ensures
            z.wf(),
            z.serial_of() == serial,
            z.pkts_seen() == 0,
            z.pages_out() == 0,
            z.pending_pkts() == Seq::<Seq<u8>>::empty(),
            !z.is_finished(),
    {
        let z = OggPacketizer {
            serial,
            packet_count: 0,
            pages_done: 0,
            pending: Vec::new(),
            finished: false,
        };
        proof {
            assert(z.pending_pkts() =~~= Seq::<Seq<u8>>::empty());
        }
        z
    }

    /// Accepts the next packet; hands out the previous group's page when
    /// this packet starts a new group.
    ///
    /// The page handed out frames the 26 packets before this one, is never
    /// marked last, and carries the granule position of the packets accepted
    /// before this call.
    pub fn submit(&mut self, data: Vec<u8>) -> (out: Option<Page>)
        requires
            old(self).wf(),
            !old(self).is_finished(),
            data@.len() == PACKET_SIZE as int,
            old(self).pkts_seen() < MAX_PACKETS,
        ensures
            final(self).wf(),
            !final(self).is_finished(),
            final(self).serial_of() == old(self).serial_of(),
            final(self).pkts_seen() == old(self).pkts_seen() + 1,
            match out {
                Some(p) => {
                    &&& old(self).pending_pkts().len() == 26
                    &&& final(self).pages_out() == old(self).pages_out() + 1
                    &&& final(self).pending_pkts() == seq![data@]
                    &&& p.bytes() == page_bytes(
                        old(self).pending_pkts(),
                        (old(self).pkts_seen() * SAMPLES_PER_PACKET) as u64,
                        (2 + old(self).pages_out()) as u32,
                        false,
                        false,
                        old(self).serial_of(),
                    )
                },
                None => {
                    &&& old(self).pending_pkts().len() < 26
                    &&& final(self).pages_out() == old(self).pages_out()
                    &&& final(self).pending_pkts() == old(self).pending_pkts().push(data@)
                },
            },
    {
        let out = if self.pending.len() == 26 {
            proof {
                crate::model::lemma_uniform_group(self.pending.deep_view());
            }
            let granule = self.packet_count * (SAMPLES_PER_PACKET as u64);
            let seqno = 2 + self.pages_done;
            let page = build_page(&self.pending, granule, seqno, false, false, self.serial);
            self.pending.clear();
            self.pages_done = self.pages_done + 1;
            Some(page)
        } else {
            None
        };
        let ghost mid = self.pending.deep_view();
        let ghost dv = data@;
        self.pending.push(data);
        self.packet_count = self.packet_count + 1;
        proof {
            assert(self.pending.deep_view() =~~= mid.push(dv));
            if out is Some {
                assert(mid =~~= Seq::<Seq<u8>>::empty());
                assert(self.pending.deep_view() =~~= seq![dv]);
            }
        }
        out
    }

    /// Declares end of stream: frames the pending packets, if any, as the
    /// final page with the last-page flag set and the closing granule
    /// position.
    pub fn finish(&mut self) -> (out: Option<Page>)
        requires
            old(self).wf(),
            !old(self).is_finished(),
        ensures
            final(self).wf(),
            final(self).is_finished(),
            final(self).serial_of() == old(self).serial_of(),
            final(self).pkts_seen() == old(self).pkts_seen(),
            final(self).pending_pkts() == Seq::<Seq<u8>>::empty(),
            final(self).pages_out() == num_audio_pages(old(self).pkts_seen()),
            match out {
                Some(p) => {
                    &&& old(self).pending_pkts().len() > 0
                    &&& final(self).pages_out() == old(self).pages_out() + 1
                    &&& p.bytes() == page_bytes(
                        old(self).pending_pkts(),
                        (old(self).pkts_seen() * SAMPLES_PER_PACKET) as u64,
                        (2 + old(self).pages_out()) as u32,
                        false,
                        true,
                        old(self).serial_of(),
                    )
                },
                None => {
                    &&& old(self).pending_pkts().len() == 0
                    &&& final(self).pages_out() == old(self).pages_out()
                },
            },
    {
        let ghost n = self.packet_count as int;
        let ghost p = self.pages_done as int;
        if self.pending.len() == 0 {
            self.finished = true;
            proof {
                assert(self.pending.deep_view() =~~= Seq::<Seq<u8>>::empty());
                vstd::arithmetic::div_mod::lemma_fundamental_div_mod_converse(n + 25, 26, p, 25);
            }
            return None;
        }
        proof {
            crate::model::lemma_uniform_group(self.pending.deep_view());
        }
        let granule = self.packet_count * (SAMPLES_PER_PACKET as u64);
        let seqno = 2 + self.pages_done;
        let page = build_page(&self.pending, granule, seqno, false, true, self.serial);
        let ghost m = self.pending.deep_view().len() as int;
        self.pending.clear();
        self.pages_done = self.pages_done + 1;
        self.finished = true;
        proof {
            assert(self.pending.deep_view() =~~= Seq::<Seq<u8>>::empty());
            vstd::arithmetic::div_mod::lemma_fundamental_div_mod_converse(
                n + 25,
                26,
                p + 1,
                m - 1,
            );
        }
        Some(page)
    }

    /// Repositions the packetizer after a seek: the stream continues as if
    /// `packet` packets had already been accepted and framed.
    pub fn reset(&mut self, packet: u64)
        requires
            packet as int % 26 == 0,
            packet <= MAX_PACKETS,
        ensures
            final(self).wf(),
            !final(self).is_finished(),
            final(self).serial_of() == old(self).serial_of(),
            final(self).pkts_seen() == packet,
            final(self).pages_out() == packet as int / 26,
            final(self).pending_pkts() == Seq::<Seq<u8>>::empty(),
    {
        proof {
            vstd::arithmetic::div_mod::lemma_fundamental_div_mod(packet as int, 26);
        }
        self.packet_count = packet;
        self.pages_done = (packet / 26) as u32;
        self.pending.clear();
        self.finished = false;
        proof {
            assert(self.pending.deep_view() =~~= Seq::<Seq<u8>>::empty());
        }
    }
}

} // verus!
