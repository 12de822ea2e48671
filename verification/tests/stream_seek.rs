//! Seeks: the offset map, page boundaries, and seek-read equivalence.

use opus_stream::errors::EncoderError;
use opus_stream::offset_map::byte_to_offset;
use opus_stream::opus_spec::OpusSpec;
use opus_stream::stream::{SeekTarget, TranscodeStream};

fn pkt(k: u64) -> Vec<u8> {
    let mut v = Vec::new();
    for j in 0..160u64 {
        v.push(((k + j) % 256) as u8);
    }
    v
}

fn id_blob() -> Vec<u8> {
    vec![
        0x4F, 0x70, 0x75, 0x73, 0x48, 0x65, 0x61, 0x64, 0x01, 0x02, 0x38, 0x01, 0x40, 0x1F, 0x00,
        0x00, 0x00, 0x00, 0x00,
    ]
}

fn comment_blob() -> Vec<u8> {
    let mut v = b"OpusTags".to_vec();
    while v.len() < 100 {
        v.push(0);
    }
    v
}

fn new_stream() -> TranscodeStream {
    TranscodeStream::new(id_blob(), comment_blob()).unwrap()
}

fn drive(s: &mut TranscodeStream, total_pkts: u64, want: usize) -> Vec<u8> {
    let mut out = Vec::new();
    while out.len() < want {
        let chunk = s.emit(want - out.len()).unwrap();
        let short = chunk.len() < want - out.len();
        out.extend_from_slice(&chunk);
        if short {
            if s.wants_packet() {
                let k = s.next_packet_index();
                if k < total_pkts {
                    s.feed_packet(pkt(k));
                } else {
                    s.finish();
                }
            } else if s.is_exhausted() {
                break;
            } else if chunk.is_empty() {
                break;
            }
        }
    }
    out
}

#[test]
fn byte_offset() {
    // 122 is the framed header length of the sample input these expected
    // values were taken from
    let offset = byte_to_offset(150_000, 122, &OpusSpec::default()).unwrap();
    assert_eq!(offset.millis, 18_200);
    assert_eq!(offset.extra_bytes, 2423);
    assert_eq!(offset.packet, 910);
    let full_page_bytes = (offset.packet / 26) as u64 * 4213;
    assert_eq!(full_page_bytes + 122 + offset.extra_bytes as u64, 150_000);
}

#[test]
fn byte_offset_rejects_header_region() {
    match byte_to_offset(174, 175, &OpusSpec::default()) {
        Err(EncoderError::SeekIntoHeader) => {}
        _ => panic!("a target inside the header region must be rejected"),
    }
}

#[test]
fn hit_page_boundary() {
    // 35 full pages after the header end exactly at a page boundary
    let total_pkts: u64 = 40 * 26;
    let sector_size: usize = 175 + 35 * 4213;

    let mut s = new_stream();
    let data = drive(&mut s, total_pkts, sector_size);
    assert_eq!(data.len(), sector_size);
    let ogg_ident = drive(&mut s, total_pkts, 4);
    assert_eq!(std::str::from_utf8(&ogg_ident).unwrap(), "OggS");

    let mut seeked = new_stream();
    let got = seeked.seek(SeekTarget::Start(sector_size as u64)).unwrap();
    assert_eq!(got, sector_size as u64);
    let ogg_ident_seek = drive(&mut seeked, total_pkts, 4);
    assert_eq!(std::str::from_utf8(&ogg_ident_seek).unwrap(), "OggS");
}

#[test]
fn just_before_page_boundary() {
    let total_pkts: u64 = 40 * 26;
    let sector_size: usize = 175 + 35 * 4213 - 1;

    let mut s = new_stream();
    let data = drive(&mut s, total_pkts, sector_size);
    assert_eq!(data.len(), sector_size);
    let tail = drive(&mut s, total_pkts, 5);
    assert_eq!(std::str::from_utf8(&tail[1..]).unwrap(), "OggS");

    let mut seeked = new_stream();
    let got = seeked.seek(SeekTarget::Start(sector_size as u64)).unwrap();
    assert_eq!(got, sector_size as u64);
    let tail_seek = drive(&mut seeked, total_pkts, 5);
    assert_eq!(std::str::from_utf8(&tail_seek[1..]).unwrap(), "OggS");
    assert_eq!(tail, tail_seek);
}

#[test]
fn seek_is_the_same() {
    // the bytes after a seek are the suffix of the straight read
    let total_pkts: u64 = 60 * 26;
    let mut straight = new_stream();
    let all = drive(&mut straight, total_pkts, 1_000_000);
    assert!(all.len() > 250_000);

    let mut seeked = new_stream();
    seeked.seek(SeekTarget::Start(150_000)).unwrap();
    let suffix = drive(&mut seeked, total_pkts, 100_000);
    assert_eq!(&all[150_000..250_000], &suffix[..]);
}

#[test]
fn seek_first_audio_byte() {
    // seeking to the header end lands on the first byte of the first
    // audio page: the capture pattern
    let mut s = new_stream();
    let h = s.header_len() as u64;
    s.seek(SeekTarget::Start(h)).unwrap();
    assert_eq!(s.position(), h);
    let first = drive(&mut s, 30, 4);
    assert_eq!(std::str::from_utf8(&first).unwrap(), "OggS");
}

#[test]
fn seek_position_and_idempotence() {
    let total_pkts: u64 = 60 * 26;
    let p: u64 = 150_000;

    let mut once = new_stream();
    once.seek(SeekTarget::Start(p)).unwrap();
    assert_eq!(once.position(), p);
    let after_once = drive(&mut once, total_pkts, 20_000);

    let mut twice = new_stream();
    twice.seek(SeekTarget::Start(p)).unwrap();
    twice.seek(SeekTarget::Start(p)).unwrap();
    assert_eq!(twice.position(), p);
    let after_twice = drive(&mut twice, total_pkts, 20_000);

    assert_eq!(after_once, after_twice);
}

#[test]
fn seek_into_header_is_rejected() {
    let mut s = new_stream();
    match s.seek(SeekTarget::Start(10)) {
        Err(EncoderError::SeekIntoHeader) => {}
        _ => panic!("a seek into the header region must be rejected"),
    }
    assert_eq!(s.position(), 0);
}

#[test]
fn relative_seeks_are_rejected() {
    let mut s = new_stream();
    match s.seek(SeekTarget::Current(5)) {
        Err(EncoderError::SeekNotSupported) => {}
        _ => panic!("relative seeks are not supported"),
    }
    match s.seek(SeekTarget::End(-5)) {
        Err(EncoderError::SeekNotSupported) => {}
        _ => panic!("end-relative seeks are not supported"),
    }
    assert_eq!(s.position(), 0);
}

#[test]
fn seek_many() {
    // walk the stream in strides, each stride from a fresh seek, and check
    // against the straight read
    let total_pkts: u64 = 40 * 26;
    let mut straight = new_stream();
    let all = drive(&mut straight, total_pkts, 1_000_000);

    let stride: usize = 15_000;
    let mut at: usize = 175;
    while at < all.len() {
        let mut s = new_stream();
        s.seek(SeekTarget::Start(at as u64)).unwrap();
        let want = stride.min(all.len() - at);
        let piece = drive(&mut s, total_pkts, want);
        assert_eq!(&all[at..at + want], &piece[..]);
        at += stride;
    }
}
