//! The emitted bytes parse as a valid Ogg stream under an independent
//! reader: begin-of-stream on the first packet, end-of-stream on the last,
//! the fixed serial, the granule rule, and the packet payloads themselves.

use opus_stream::stream::TranscodeStream;
use std::io::Cursor;

fn pkt(k: u64) -> Vec<u8> {
    let mut v = Vec::new();
    for j in 0..160u64 {
        v.push(((k + j) % 256) as u8);
    }
    v
}

fn id_blob() -> Vec<u8> {
    vec![
        0x4F, 0x70, 0x75, 0x73, 0x48, 0x65, 0x61, 0x64, 0x01, 0x02, 0x38, 0x01, 0x40, 0x1F, 0x00,
        0x00, 0x00, 0x00, 0x00,
    ]
}

fn comment_blob() -> Vec<u8> {
    let mut v = b"OpusTags".to_vec();
    while v.len() < 100 {
        v.push(0);
    }
    v
}

fn drive(s: &mut TranscodeStream, total_pkts: u64, want: usize) -> Vec<u8> {
    let mut out = Vec::new();
    while out.len() < want {
        let chunk = s.emit(want - out.len()).unwrap();
        let short = chunk.len() < want - out.len();
        out.extend_from_slice(&chunk);
        if short {
            if s.wants_packet() {
                let k = s.next_packet_index();
                if k < total_pkts {
                    s.feed_packet(pkt(k));
                } else {
                    s.finish();
                }
            } else if s.is_exhausted() {
                break;
            } else if chunk.is_empty() {
                break;
            }
        }
    }
    out
}

#[test]
fn parses_as_valid_ogg_stream() {
    let total_pkts: u64 = 60;
    let mut s = TranscodeStream::new(id_blob(), comment_blob()).unwrap();
    let bytes = drive(&mut s, total_pkts, 1_000_000);
    assert!(s.is_exhausted());

    let mut reader = ogg::PacketReader::new(Cursor::new(bytes));

    let first = reader.read_packet().unwrap().unwrap();
    assert!(first.first_in_stream());
    assert_eq!(first.data, id_blob());
    assert_eq!(first.stream_serial(), 0xF01353);
    assert_eq!(first.absgp_page(), 0);

    let second = reader.read_packet().unwrap().unwrap();
    assert_eq!(second.data, comment_blob());
    assert!(!second.first_in_stream());

    let mut k: u64 = 0;
    loop {
        let packet = match reader.read_packet().unwrap() {
            Some(p) => p,
            None => break,
        };
        assert_eq!(packet.data, pkt(k), "audio packet {} round-trips", k);
        if packet.last_in_page() {
            // the granule rule: a page closing with packet k carries
            // (k + 1) * 960 samples
            assert_eq!(packet.absgp_page(), (k + 1) * 960);
        }
        if k + 1 == total_pkts {
            assert!(packet.last_in_stream());
        } else {
            assert!(!packet.last_in_stream());
        }
        k += 1;
    }
    assert_eq!(k, total_pkts);
}

#[test]
fn seeked_tail_parses_as_pages() {
    // bytes from a mid-stream seek at a page boundary parse as pages of
    // the same serial with continuing sequence numbers
    let total_pkts: u64 = 3 * 26;
    let mut s = TranscodeStream::new(id_blob(), comment_blob()).unwrap();
    let h = s.header_len() as u64;
    s.seek(opus_stream::stream::SeekTarget::Start(h + 4213)).unwrap();
    let tail = drive(&mut s, total_pkts, 1_000_000);

    // an Ogg reader needs the leading header pages; prepend a straight
    // read of the header region and the first audio page
    let mut head_stream = TranscodeStream::new(id_blob(), comment_blob()).unwrap();
    let mut whole = drive(&mut head_stream, total_pkts, (h + 4213) as usize);
    whole.extend_from_slice(&tail);

    let mut reader = ogg::PacketReader::new(Cursor::new(whole));
    let mut packets: u64 = 0;
    while let Some(p) = reader.read_packet().unwrap() {
        if packets >= 2 {
            assert_eq!(p.data, pkt(packets - 2));
        }
        packets += 1;
    }
    assert_eq!(packets, 2 + total_pkts);
}
