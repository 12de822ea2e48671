//! Straight reads: header bytes, buffer filling, determinism, totals.

use opus_stream::errors::EncoderError;
use opus_stream::stream::TranscodeStream;

/// The synthetic deterministic packet source: packet `k` is the 160 bytes
/// `(k + j) % 256`.
fn pkt(k: u64) -> Vec<u8> {
    let mut v = Vec::new();
    for j in 0..160u64 {
        v.push(((k + j) % 256) as u8);
    }
    v
}

/// The 19-byte Opus ID header of an 8 kHz stereo stream with pre-skip 312.
fn id_blob() -> Vec<u8> {
    vec![
        0x4F, 0x70, 0x75, 0x73, 0x48, 0x65, 0x61, 0x64, 0x01, 0x02, 0x38, 0x01, 0x40, 0x1F, 0x00,
        0x00, 0x00, 0x00, 0x00,
    ]
}

/// A 100-byte comment header, so the framed header region is 175 bytes.
fn comment_blob() -> Vec<u8> {
    let mut v = b"OpusTags".to_vec();
    while v.len() < 100 {
        v.push(0);
    }
    v
}

fn new_stream() -> TranscodeStream {
    TranscodeStream::new(id_blob(), comment_blob()).unwrap()
}

/// Reads up to `want` bytes, feeding synthetic packets below `total_pkts`
/// on demand and declaring end of stream after them.
fn drive(s: &mut TranscodeStream, total_pkts: u64, want: usize) -> Vec<u8> {
    let mut out = Vec::new();
    while out.len() < want {
        let chunk = s.emit(want - out.len()).unwrap();
        let short = chunk.len() < want - out.len();
        out.extend_from_slice(&chunk);
        if short {
            if s.wants_packet() {
                let k = s.next_packet_index();
                if k < total_pkts {
                    s.feed_packet(pkt(k));
                } else {
                    s.finish();
                }
            } else if s.is_exhausted() {
                break;
            } else if chunk.is_empty() {
                break;
            }
        }
    }
    out
}

#[test]
fn read_header() {
    let mut s = new_stream();
    let data = drive(&mut s, 60, 2048);
    let header_target = [
        79, 103, 103, 83, 0, 2, 0, 0, 0, 0, 0, 0, 0, 0, 83, 19, 240, 0, 0, 0, 0, 0, 171, 204, 149,
        10, 1, 19, 79, 112, 117, 115, 72, 101, 97, 100, 1, 2, 56, 1, 64, 31, 0, 0, 0, 0, 0,
    ];
    for i in 0..header_target.len() {
        assert_eq!(header_target[i], data[i]);
    }
}

#[test]
fn fill_up_buffer() {
    let mut s = new_stream();
    let data = drive(&mut s, 60, 400);
    assert_eq!(data.len(), 400);
}

#[test]
fn reproducible_encodes() {
    let mut a = new_stream();
    let mut b = new_stream();
    let data_a = drive(&mut a, 120, 1_000_000);
    let data_b = drive(&mut b, 120, 1_000_000);
    assert_eq!(data_a.len(), data_b.len());
    assert_eq!(data_a, data_b);
}

#[test]
fn header_region_is_memoised() {
    let mut a = new_stream();
    let mut b = new_stream();
    assert_eq!(a.header_len(), 175);
    let first = drive(&mut a, 0, 175);
    let second = drive(&mut b, 0, 175);
    assert_eq!(first, second);
    assert_eq!(first.len(), 175);
}

#[test]
fn header_only_stream() {
    // no audio at all: the output is exactly the header region
    let mut s = new_stream();
    let data = drive(&mut s, 0, 10_000);
    assert_eq!(data.len(), 175);
    assert!(s.is_exhausted());
}

#[test]
fn total_length_matches_page_arithmetic() {
    // 30 packets: one full page and a final page of 4 packets, so the
    // total is 175 + 4213 + 27 + 4 + 4 * 160 bytes
    let mut s = new_stream();
    let data = drive(&mut s, 30, 1_000_000);
    assert_eq!(data.len(), 175 + 4213 + 27 + 4 + 4 * 160);
    assert!(s.is_exhausted());
}

#[test]
fn position_tracks_reads() {
    let mut s = new_stream();
    assert_eq!(s.position(), 0);
    let data = drive(&mut s, 60, 5000);
    assert_eq!(s.position(), data.len() as u64);
}

#[test]
fn missing_id_header_is_rejected() {
    match TranscodeStream::new(Vec::new(), comment_blob()) {
        Err(EncoderError::NoStreamHeader) => {}
        _ => panic!("an empty ID header must be rejected"),
    }
}

#[test]
fn oversized_header_is_rejected() {
    let huge = vec![0u8; 70_000];
    match TranscodeStream::new(id_blob(), huge) {
        Err(EncoderError::NoStreamHeader) => {}
        _ => panic!("an oversized comment header must be rejected"),
    }
}

#[test]
fn latched_failure_surfaces_on_read() {
    let mut s = new_stream();
    s.fail("decoder went away".to_string());
    match s.emit(16) {
        Err(EncoderError::DecoderFailure(_)) => {}
        _ => panic!("a latched failure must surface on the next read"),
    }
}

#[test]
fn error_messages_are_nonempty() {
    assert!(!EncoderError::InvalidState.message().is_empty());
    assert!(!EncoderError::NoAudioStream.message().is_empty());
    assert!(!EncoderError::NoStreamHeader.message().is_empty());
    assert!(!EncoderError::DecoderFailure("x".to_string()).message().is_empty());
    assert!(!EncoderError::SeekIntoHeader.message().is_empty());
    assert!(!EncoderError::SeekNotSupported.message().is_empty());
}
