//! The memoised stream header.
//!
//! The two Opus header blobs are framed once, each on a page of its own, and
//! the resulting bytes are kept for the stream's lifetime: they are the
//! leading bytes of the output, re-served on every read below their length
//! and never rebuilt.

use crate::page::{build_page, lacing_of, page_bytes, seg_count};
use vstd::prelude::*;

verus! {

/// The bytes of the two header pages: the first page frames the ID header
/// blob alone with the first-page flag set, the second frames the comment
/// header blob.
pub open spec fn header_pages_bytes(id: Seq<u8>, com: Seq<u8>, serial: u32) -> Seq<u8> {
    page_bytes(seq![id], 0, 0, true, false, serial) + page_bytes(seq![com], 0, 1, false, false, serial)
}

/// A single blob framed as a page has one lacing segment per started
/// 255-byte chunk.
pub proof fn lemma_single_seg_count(blob: Seq<u8>)
    ensures
        seg_count(seq![blob]) == blob.len() / 255 + 1,
        crate::page::concat_of(seq![blob]).len() == blob.len(),
{
    let s = seq![blob];
    assert(s.drop_last() =~= Seq::<Seq<u8>>::empty());
    assert(lacing_of(Seq::<Seq<u8>>::empty()) == Seq::<u8>::empty());
    assert(lacing_of(s) == Seq::<u8>::empty() + crate::page::lacing_one(blob.len() as int));
    assert(Seq::<u8>::empty() + crate::page::lacing_one(blob.len() as int) =~= crate::page::lacing_one(
        blob.len() as int,
    ));
    assert(crate::page::concat_of(Seq::<Seq<u8>>::empty()) == Seq::<u8>::empty());
    assert(crate::page::concat_of(s) == Seq::<u8>::empty() + blob);
    assert(Seq::<u8>::empty() + blob =~= blob);
}

/// Frames the two header blobs.
pub fn build_header_bytes(id: Vec<u8>, com: Vec<u8>, serial: u32) -> (out: Vec<u8>)
    requires
        id@.len() < 65025,
        com@.len() < 65025,
    ensures
        out@ == header_pages_bytes(id@, com@, serial),
{
    let ghost idv = id@;
    let ghost comv = com@;
    let mut group: Vec<Vec<u8>> = Vec::new();
    group.push(id);
    proof {
        assert(group.deep_view() =~~= seq![idv]);
        lemma_single_seg_count(idv);
    }
    let first = build_page(&group, 0, 0, true, false, serial);

    let mut group2: Vec<Vec<u8>> = Vec::new();
    group2.push(com);
    proof {
        assert(group2.deep_view() =~~= seq![comv]);
        lemma_single_seg_count(comv);
    }
    let second = build_page(&group2, 0, 1, false, false, serial);

    let mut out = first.header;
    let mut rest = first.body;
    out.append(&mut rest);
    let mut h2 = second.header;
    let mut b2 = second.body;
    out.append(&mut h2);
    out.append(&mut b2);
    proof {
        assert(out@ =~= header_pages_bytes(idv, comv, serial));
    }
    out
}

/// A write-once cell holding the framed header bytes.
pub struct HeaderCache {
    data: Option<Vec<u8>>,
}

impl HeaderCache {
    /// Whether the header has been built.
    pub closed spec fn is_built(self) -> bool {
        self.data is Some
    }

    /// The cached bytes.
    pub closed spec fn bytes(self) -> Seq<u8> {
        self.data->0@
    }

    /// An empty cache.
    pub fn new() -> (c: HeaderCache)
        ensures
            !c.is_built(),
    {
        HeaderCache { data: None }
    }

    /// Stores the header bytes; the one mutation the cache allows.
    pub fn init(&mut self, bytes: Vec<u8>)
        requires
            !old(self).is_built(),
        ensures
            final(self).is_built(),
            final(self).bytes() == bytes@,
    {
        self.data = Some(bytes);
    }

    /// The cached bytes, by reference: nothing is recomputed.
    pub fn get(&self) -> (b: &Vec<u8>)
        requires
            self.is_built(),
        ensures
            b@ == self.bytes(),
    {
        match &self.data {
            Some(b) => b,
            None => unreached(),
        }
    }

    /// The header length in bytes.
    pub fn len(&self) -> (n: usize)
        requires
            self.is_built(),
        ensures
            n == self.bytes().len(),
    {
        self.get().len()
    }
}

} // verus!
