//! Ogg page framing.
//!
//! An Ogg page is a fixed-layout header followed by the packet payloads:
//!
//! ```text
//! offset  0..4   magic "OggS"
//! offset  4      version 0
//! offset  5      flags: 0x01 continued, 0x02 first page (BOS), 0x04 last page (EOS)
//! offset  6..14  granule position, little endian
//! offset 14..18  stream serial, little endian
//! offset 18..22  page sequence number, little endian
//! offset 22..26  CRC over the whole page with this field zeroed
//! offset 26      segment count
//! offset 27..    lacing values: each payload contributes one byte per started
//!                255-byte chunk, then the payloads themselves
//! ```
//!
//! The layout is stated below as spec functions on byte sequences; the only
//! part that is not written out is the checksum, which an outside CRC crate
//! computes and [`crc32_of`] names.

use vstd::prelude::*;

verus! {

/// The checksum of the given bytes under the Ogg page CRC: polynomial
/// 0x04c11db7, initial value 0, no reflection, no final xor.
pub uninterp spec fn crc32_of(data: Seq<u8>) -> u32;

/// Relies on `crc_any::CRCu32` parameterised with the Ogg page polynomial
/// (0x04c11db7, width 32, initial value 0, final xor 0, no reflection);
/// the checksum is a function of the input bytes alone.
#[verifier::external_body]
fn ogg_crc2(a: &Vec<u8>, b: &Vec<u8>) -> (r: u32)
    ensures
        r == crc32_of(a@ + b@),
{
    let mut crc = crc_any::CRCu32::create_crc(0x04c11db7, 32, 0, 0, false);
    crc.digest(a.as_slice());
    crc.digest(b.as_slice());
    crc.get_crc()
}

/// The little-endian bytes of a 32-bit value.
pub open spec fn le32(x: u32) -> Seq<u8> {
    seq![
        (x % 256) as u8,
        ((x / 256) % 256) as u8,
        ((x / 65536) % 256) as u8,
        ((x / 16777216) % 256) as u8,
    ]
}

/// The little-endian bytes of a 64-bit value.
pub open spec fn le64(x: u64) -> Seq<u8> {
    seq![
        (x % 256) as u8,
        ((x / 256) % 256) as u8,
        ((x / 65536) % 256) as u8,
        ((x / 16777216) % 256) as u8,
        ((x / 4294967296) % 256) as u8,
        ((x / 1099511627776) % 256) as u8,
        ((x / 281474976710656) % 256) as u8,
        ((x / 72057594037927936) % 256) as u8,
    ]
}

/// The flags byte of a page.
pub open spec fn flags_byte(first: bool, last: bool) -> u8 {
    if first && last {
        6u8
    } else if first {
        2u8
    } else if last {
        4u8
    } else {
        0u8
    }
}

/// The lacing values of one payload of `len` bytes: one 255 for every full
/// 255-byte chunk, then the remainder.
pub open spec fn lacing_one(len: int) -> Seq<u8> {
    Seq::new((len / 255 + 1) as nat, |i: int| if i < len / 255 { 255u8 } else { (len % 255) as u8 })
}

/// The concatenated lacing values of a payload group.
pub open spec fn lacing_of(datas: Seq<Seq<u8>>) -> Seq<u8>
    decreases datas.len(),
{
    if datas.len() == 0 {
        Seq::empty()
    } else {
        lacing_of(datas.drop_last()) + lacing_one(datas.last().len() as int)
    }
}

/// The number of lacing segments of a payload group.
pub open spec fn seg_count(datas: Seq<Seq<u8>>) -> int {
    lacing_of(datas).len() as int
}

/// The concatenated payloads of a group: the page body.
pub open spec fn concat_of(datas: Seq<Seq<u8>>) -> Seq<u8>
    decreases datas.len(),
{
    if datas.len() == 0 {
        Seq::empty()
    } else {
        concat_of(datas.drop_last()) + datas.last()
    }
}

/// The page bytes with the CRC field still zero: what the checksum is
/// computed over.
pub open spec fn page_pre_bytes(
    datas: Seq<Seq<u8>>,
    granule: u64,
    seqno: u32,
    first: bool,
    last: bool,
    serial: u32,
) -> Seq<u8> {
    seq![79u8, 103u8, 103u8, 83u8, 0u8, flags_byte(first, last)] + le64(granule) + le32(serial)
        + le32(seqno) + le32(0) + seq![seg_count(datas) as u8] + lacing_of(datas)
        + concat_of(datas)
}

/// The complete bytes of one Ogg page framing the given payload group.
#[verifier::opaque]
pub open spec fn page_bytes(
    datas: Seq<Seq<u8>>,
    granule: u64,
    seqno: u32,
    first: bool,
    last: bool,
    serial: u32,
) -> Seq<u8> {
    let pre = page_pre_bytes(datas, granule, seqno, first, last, serial);
    pre.take(22) + le32(crc32_of(pre)) + pre.skip(26)
}

/// A page split the way it is emitted: the header runs up to and including
/// the lacing values, the body is the payload bytes.
pub struct Page {
    pub header: Vec<u8>,
    pub body: Vec<u8>,
}

impl Page {
    /// All bytes of the page in output order.
    pub open spec fn bytes(self) -> Seq<u8> {
        self.header@ + self.body@
    }
}

/// The length of a framed page: 27 fixed header bytes, one byte per lacing
/// segment, and the payload bytes.
pub proof fn lemma_page_bytes_len(
    datas: Seq<Seq<u8>>,
    granule: u64,
    seqno: u32,
    first: bool,
    last: bool,
    serial: u32,
)
    ensures
        page_bytes(datas, granule, seqno, first, last, serial).len() == 27 + seg_count(datas)
            + concat_of(datas).len(),
{
    reveal(page_bytes);
    let pre = page_pre_bytes(datas, granule, seqno, first, last, serial);
    assert(pre.len() == 27 + seg_count(datas) + concat_of(datas).len());
}

/// Appends the little-endian bytes of `x`.
fn push_le32(v: &mut Vec<u8>, x: u32)
    ensures
        final(v)@ == old(v)@ + le32(x),
{
    v.push((x % 256) as u8);
    v.push(((x / 256) % 256) as u8);
    v.push(((x / 65536) % 256) as u8);
    v.push(((x / 16777216) % 256) as u8);
    assert(v@ =~= old(v)@ + le32(x));
}

/// Appends the little-endian bytes of `x`.
fn push_le64(v: &mut Vec<u8>, x: u64)
    ensures
        final(v)@ == old(v)@ + le64(x),
{
    v.push((x % 256) as u8);
    v.push(((x / 256) % 256) as u8);
    v.push(((x / 65536) % 256) as u8);
    v.push(((x / 16777216) % 256) as u8);
    v.push(((x / 4294967296) % 256) as u8);
    v.push(((x / 1099511627776) % 256) as u8);
    v.push(((x / 281474976710656) % 256) as u8);
    v.push(((x / 72057594037927936) % 256) as u8);
    assert(v@ =~= old(v)@ + le64(x));
}

/// Appends the lacing values of one payload of `len` bytes.
fn push_lacing(v: &mut Vec<u8>, len: usize)
    ensures
        final(v)@ == old(v)@ + lacing_one(len as int),
{
    let mut rem: usize = len;
    let mut full: usize = 0;
    while rem >= 255
        invariant
            rem == len - 255 * full,
            v@ == old(v)@ + Seq::new(full as nat, |i: int| 255u8),
        decreases rem,
    {
        v.push(255u8);
        full = full + 1;
        rem = rem - 255;
        assert(v@ =~= old(v)@ + Seq::new(full as nat, |i: int| 255u8));
    }
    v.push(rem as u8);
    proof {
        vstd::arithmetic::div_mod::lemma_fundamental_div_mod_converse(
            len as int,
            255,
            full as int,
            rem as int,
        );
        assert(v@ =~= old(v)@ + lacing_one(len as int));
    }
}

/// Frames one group of payloads as an Ogg page.
///
/// The group must fit in a single page: at most 255 lacing segments.
pub fn build_page(
    datas: &Vec<Vec<u8>>,
    granule: u64,
    seqno: u32,
    first: bool,
    last: bool,
    serial: u32,
) -> (p: Page)
    requires
        datas@.len() >= 1,
        seg_count(datas.deep_view()) <= 255,
    ensures
        p.bytes() == page_bytes(datas.deep_view(), granule, seqno, first, last, serial),
        p.header@.len() == 27 + seg_count(datas.deep_view()),
        p.body@ == concat_of(datas.deep_view()),
{
    let ghost d = datas.deep_view();
    let ghost pre = page_pre_bytes(d, granule, seqno, first, last, serial);

    let mut lacing: Vec<u8> = Vec::new();
    let mut body: Vec<u8> = Vec::new();
    let mut i: usize = 0;
    while i < datas.len()
        invariant
            i <= datas@.len(),
            d == datas.deep_view(),
            lacing@ == lacing_of(d.take(i as int)),
            body@ == concat_of(d.take(i as int)),
        decreases datas@.len() - i,
    {
        push_lacing(&mut lacing, datas[i].len());
        body.extend_from_slice(datas[i].as_slice());
        proof {
            assert(d[i as int] =~= datas@[i as int]@);
            assert(d.take(i + 1).drop_last() =~= d.take(i as int));
            assert(d.take(i + 1).last() == d[i as int]);
            assert(body@ =~= concat_of(d.take(i as int)) + d[i as int]);
        }
        i = i + 1;
    }
    proof {
        assert(d.take(d.len() as int) =~= d);
    }

    let nsegs = lacing.len();
    let mut header: Vec<u8> = Vec::new();
    header.push(79u8);
    header.push(103u8);
    header.push(103u8);
    header.push(83u8);
    header.push(0u8);
    if first && last {
        header.push(6u8);
    } else if first {
        header.push(2u8);
    } else if last {
        header.push(4u8);
    } else {
        header.push(0u8);
    }
    push_le64(&mut header, granule);
    push_le32(&mut header, serial);
    push_le32(&mut header, seqno);
    push_le32(&mut header, 0);
    header.push(nsegs as u8);
    header.extend_from_slice(lacing.as_slice());
    proof {
        assert(header@ + body@ =~= pre);
    }

    let crc = ogg_crc2(&header, &body);
    assert(crc == crc32_of(pre));

    header.set(22, (crc % 256) as u8);
    header.set(23, ((crc / 256) % 256) as u8);
    header.set(24, ((crc / 65536) % 256) as u8);
    header.set(25, ((crc / 16777216) % 256) as u8);

    let p = Page { header, body };
    proof {
        reveal(page_bytes);
        assert(p.bytes() =~= pre.take(22) + le32(crc32_of(pre)) + pre.skip(26));
    }
    p
}

} // verus!
