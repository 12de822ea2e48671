//! Partial emission of a page into caller buffers.
//!
//! The cursor owns the page currently being emitted and two progress
//! counters, one for the header and one for the body.  A seek primes the
//! cursor with a count of bytes to drop from the front of the next page;
//! dropped bytes are consumed by the progress counters but never emitted.

use crate::page::Page;
use vstd::math::min;
use vstd::prelude::*;

verus! {

/// Emits the current page piecewise: discarded prefix first, then bytes
/// into the caller's buffer.
pub struct PageCursor {
    cached: Option<Page>,
    wrote_page_header: usize,
    wrote_page_body: usize,
    to_discard: usize,
}

impl PageCursor {
    /// The page being emitted, if any.
    pub closed spec fn cached_page(self) -> Option<Page> {
        self.cached
    }

    /// Bytes of the current page's header already consumed.
    pub closed spec fn hdr_done(self) -> int {
        self.wrote_page_header as int
    }

    /// Bytes of the current page's body already consumed.
    pub closed spec fn body_done(self) -> int {
        self.wrote_page_body as int
    }

    /// Bytes still to drop before emission resumes.
    pub closed spec fn discard(self) -> int {
        self.to_discard as int
    }

    /// Whether a page is loaded.
    pub open spec fn has_page(self) -> bool {
        self.cached_page() is Some
    }

    /// Consumed bytes of the current page, discarded or emitted.
    pub open spec fn progress(self) -> int {
        self.hdr_done() + self.body_done()
    }

    /// The counters always point inside the page, the header is consumed
    /// before the body, and a spent page is never kept.
    pub open spec fn wf(self) -> bool {
        &&& self.hdr_done() >= 0
        &&& self.body_done() >= 0
        &&& self.discard() >= 0
        &&& match self.cached_page() {
            Some(p) => {
                &&& self.hdr_done() <= p.header@.len()
                &&& self.body_done() <= p.body@.len()
                &&& (self.body_done() > 0 ==> self.hdr_done() == p.header@.len())
                &&& self.progress() < p.bytes().len()
            },
            None => self.hdr_done() == 0 && self.body_done() == 0,
        }
    }

    /// How many bytes the next emission will drop: the pending discard,
    /// capped by what is left of the page.
    pub open spec fn skip_len(self) -> int {
        min(self.discard(), self.cached_page()->0.bytes().len() - self.progress())
    }

    /// An empty cursor.
    pub fn new() -> (c: PageCursor)
        ensures
            c.wf(),
            !c.has_page(),
            c.discard() == 0,
    {
        PageCursor { cached: None, wrote_page_header: 0, wrote_page_body: 0, to_discard: 0 }
    }

    /// Whether the cursor needs a new page before it can make progress.
    pub fn is_empty(&self) -> (b: bool)
        ensures
            b == !self.has_page(),
    {
        self.cached.is_none()
    }

    /// Loads the next page; the previous one must be spent.
    pub fn put_page(&mut self, p: Page)
        requires
            old(self).wf(),
            !old(self).has_page(),
            p.bytes().len() > 0,
        ensures
            final(self).wf(),
            final(self).has_page(),
            final(self).cached_page() == Some(p),
            final(self).progress() == 0,
            final(self).discard() == old(self).discard(),
    {
        self.cached = Some(p);
    }

    /// Drops any loaded page and primes the cursor to drop `d` bytes from
    /// the front of the next page: the seek entry point.
    pub fn reset_for_seek(&mut self, d: usize)
        ensures
            final(self).wf(),
            !final(self).has_page(),
            final(self).discard() == d,
    {
        self.cached = None;
        self.wrote_page_header = 0;
        self.wrote_page_body = 0;
        self.to_discard = d;
    }

    /// Emits up to `budget` bytes of the current page into `out`, after
    /// dropping the pending discard from the front of what is left.
    ///
    /// Returns the number of bytes appended to `out`.  The page is unloaded
    /// exactly when its last byte has been consumed.
    #[verifier::rlimit(60)]
    pub fn emit_into(&mut self, out: &mut Vec<u8>, budget: usize) -> (n: usize)
        requires
            old(self).wf(),
            old(self).has_page(),
        ensures
            final(self).wf(),
            ({
                let p = old(self).cached_page()->0;
                let start = old(self).progress() + old(self).skip_len();
                let m = min(budget as int, p.bytes().len() - start);
                &&& n == m
                &&& final(out)@ == old(out)@ + p.bytes().subrange(start, start + m)
                &&& final(self).discard() == old(self).discard() - old(self).skip_len()
                &&& (final(self).has_page() <==> start + m < p.bytes().len())
                &&& (final(self).has_page() ==> final(self).cached_page() == old(
                    self,
                ).cached_page() && final(self).progress() == start + m)
            }),
    {
        let page = match self.cached.take() {
            Some(p) => p,
            None => unreached(),
        };
        let ghost pb = page.bytes();
        let hlen = page.header.len();
        let blen = page.body.len();
        let ghost out0 = out@;

        // drop from the header
        if self.to_discard > 0 && self.wrote_page_header < hlen {
            let rem = hlen - self.wrote_page_header;
            let d = if self.to_discard < rem {
                self.to_discard
            } else {
                rem
            };
            self.wrote_page_header = self.wrote_page_header + d;
            self.to_discard = self.to_discard - d;
        }
        // emit from the header
        let mut wrote: usize = 0;
        if self.to_discard == 0 && self.wrote_page_header < hlen {
            let rem = hlen - self.wrote_page_header;
            let w = if budget < rem {
                budget
            } else {
                rem
            };
            let from = self.wrote_page_header;
            out.extend_from_slice(vstd::slice::slice_subrange(page.header.as_slice(), from, from + w));
            proof {
                assert(out@ =~= out0 + page.header@.subrange(from as int, from as int + w as int));
            }
            self.wrote_page_header = self.wrote_page_header + w;
            wrote = w;
        }
        // drop from the body
        if self.wrote_page_header == hlen && self.to_discard > 0 && self.wrote_page_body < blen {
            let rem = blen - self.wrote_page_body;
            let d = if self.to_discard < rem {
                self.to_discard
            } else {
                rem
            };
            self.wrote_page_body = self.wrote_page_body + d;
            self.to_discard = self.to_discard - d;
        }
        // emit from the body
        if self.wrote_page_header == hlen && self.to_discard == 0 && wrote < budget
            && self.wrote_page_body < blen {
            let rem = blen - self.wrote_page_body;
            let left = budget - wrote;
            let w = if left < rem {
                left
            } else {
                rem
            };
            let from = self.wrote_page_body;
            let ghost out1 = out@;
            out.extend_from_slice(vstd::slice::slice_subrange(page.body.as_slice(), from, from + w));
            proof {
                assert(out@ =~= out1 + page.body@.subrange(from as int, from as int + w as int));
            }
            self.wrote_page_body = self.wrote_page_body + w;
            wrote = wrote + w;
        }

        proof {
            let start = old(self).progress() + old(self).skip_len();
            assert(pb.len() == hlen + blen);
            assert(out@ =~= out0 + pb.subrange(start, start + wrote));
        }
        if self.wrote_page_header == hlen && self.wrote_page_body == blen {
            self.wrote_page_header = 0;
            self.wrote_page_body = 0;
        } else {
            self.cached = Some(page);
        }
        wrote
    }
}

} // verus!
