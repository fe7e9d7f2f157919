use fm_network::jpeg_decoder::{HeaderError, JPEGHeader};
use fm_network::packet::FMPacket;

fn header_bytes(label: i32, id: i32, length: i32, offset: i32, gzip: u8, color: u8) -> Vec<u8> {
    let mut v = Vec::new();
    v.extend_from_slice(&label.to_le_bytes());
    v.extend_from_slice(&id.to_le_bytes());
    v.extend_from_slice(&length.to_le_bytes());
    v.extend_from_slice(&offset.to_le_bytes());
    v.push(gzip);
    v.push(color);
    v
}

#[test]
fn one_byte_is_a_heartbeat() {
    assert_eq!(FMPacket::new(&[1]), FMPacket::Heartbeat);
    assert_eq!(FMPacket::new(&[0]), FMPacket::Heartbeat);
    assert_eq!(FMPacket::new(&[255]), FMPacket::Heartbeat);
}

#[test]
fn empty_and_two_bytes_are_unknown() {
    assert_eq!(FMPacket::new(&[]), FMPacket::Unknown);
    assert_eq!(FMPacket::new(&[1, 0]), FMPacket::Unknown);
    assert_eq!(FMPacket::new(&[0, 0]), FMPacket::Unknown);
    assert_eq!(FMPacket::new(&[2, 7]), FMPacket::Unknown);
}

#[test]
fn tag_one_is_a_text_message() {
    assert_eq!(
        FMPacket::new(&[1, 0, b'h', b'i']),
        FMPacket::StringPacket { data: "hi".to_string() }
    );
    // the second byte is reserved and ignored
    assert_eq!(
        FMPacket::new(&[1, 9, b'x']),
        FMPacket::StringPacket { data: "x".to_string() }
    );
}

#[test]
fn text_keeps_multibyte_characters() {
    let mut raw = vec![1u8, 0];
    raw.extend_from_slice("héllo ✓".as_bytes());
    assert_eq!(
        FMPacket::new(&raw),
        FMPacket::StringPacket { data: "héllo ✓".to_string() }
    );
}

#[test]
fn invalid_utf8_is_replaced() {
    assert_eq!(
        FMPacket::new(&[1, 0, b'a', 0xff, b'b']),
        FMPacket::StringPacket { data: "a\u{fffd}b".to_string() }
    );
    assert_eq!(
        FMPacket::decode_string(&[0xc3]),
        FMPacket::StringPacket { data: "\u{fffd}".to_string() }
    );
}

#[test]
fn tag_two_is_a_play_history() {
    let mut raw = vec![2u8, 0];
    raw.extend_from_slice(b"{\"userId\":\"p1\"}");
    assert_eq!(
        FMPacket::new(&raw),
        FMPacket::PlayHistoryPacket { json: "{\"userId\":\"p1\"}".to_string() }
    );
    assert_eq!(
        FMPacket::decode_play_history(b"{}"),
        FMPacket::PlayHistoryPacket { json: "{}".to_string() }
    );
}

#[test]
fn other_tags_are_unknown() {
    assert_eq!(FMPacket::new(&[3, 0, 1]), FMPacket::Unknown);
    assert_eq!(FMPacket::new(&[255, 0, 1, 2, 3]), FMPacket::Unknown);
}

#[test]
fn tag_zero_is_an_image_fragment() {
    let mut raw = vec![0u8, 0];
    raw.extend_from_slice(&header_bytes(1, 7, 10, 5, 0, 3));
    raw.extend_from_slice(&[9, 8, 7]);
    match FMPacket::new(&raw) {
        FMPacket::JPEGPacket { header, data } => {
            assert_eq!(header.label, 1);
            assert_eq!(header.id, 7);
            assert_eq!(header.length, 10);
            assert_eq!(header.offset, 5);
            assert!(!header.gzip);
            assert_eq!(header.color_reduction, 3);
            assert_eq!(data, vec![9, 8, 7]);
        }
        other => panic!("not an image fragment: {:?}", other),
    }
}

#[test]
fn image_fragment_may_have_no_payload() {
    let mut raw = vec![0u8, 0];
    raw.extend_from_slice(&header_bytes(0, 1, 0, 0, 1, 0));
    assert_eq!(raw.len(), 20);
    match FMPacket::new(&raw) {
        FMPacket::JPEGPacket { header, data } => {
            assert!(header.gzip);
            assert!(data.is_empty());
        }
        other => panic!("not an image fragment: {:?}", other),
    }
}

#[test]
fn truncated_image_fragment_is_unknown() {
    assert_eq!(FMPacket::new(&[0, 0, 1]), FMPacket::Unknown);
    let mut raw = vec![0u8, 0];
    raw.extend_from_slice(&header_bytes(0, 1, 4, 0, 0, 0)[..17]);
    assert_eq!(raw.len(), 19);
    assert_eq!(FMPacket::new(&raw), FMPacket::Unknown);
}

#[test]
fn heartbeat_encodes_to_one_byte() {
    assert_eq!(FMPacket::Heartbeat.to_bytes(), Some(vec![1]));
}

#[test]
fn text_encodes_with_two_leading_bytes() {
    let p = FMPacket::StringPacket { data: "hi".to_string() };
    assert_eq!(p.to_bytes(), Some(vec![1, 0, 104, 105]));
    let e = FMPacket::StringPacket { data: "é".to_string() };
    assert_eq!(e.to_bytes(), Some(vec![1, 0, 0xc3, 0xa9]));
    let empty = FMPacket::StringPacket { data: String::new() };
    assert_eq!(empty.to_bytes(), Some(vec![1, 0]));
}

#[test]
fn inbound_kinds_do_not_encode() {
    assert_eq!(FMPacket::Unknown.to_bytes(), None);
    assert_eq!(FMPacket::PlayHistoryPacket { json: "{}".to_string() }.to_bytes(), None);
    let header = JPEGHeader::new(&header_bytes(0, 1, 2, 0, 0, 0)).unwrap();
    assert_eq!(FMPacket::JPEGPacket { header, data: vec![1, 2] }.to_bytes(), None);
}

#[test]
fn heartbeat_and_text_round_trip() {
    let hb = FMPacket::Heartbeat;
    assert_eq!(FMPacket::new(&hb.to_bytes().unwrap()), hb);
    for text in ["a", "hello world", "héllo ✓", "\u{10348}"] {
        let p = FMPacket::StringPacket { data: text.to_string() };
        assert_eq!(FMPacket::new(&p.to_bytes().unwrap()), p);
    }
}

#[test]
fn empty_text_does_not_round_trip() {
    let p = FMPacket::StringPacket { data: String::new() };
    assert_eq!(FMPacket::new(&p.to_bytes().unwrap()), FMPacket::Unknown);
}

#[test]
fn header_reads_little_endian_fields() {
    let bytes = [
        0x01, 0x02, 0x03, 0x04, // label
        0xff, 0xff, 0xff, 0xff, // id
        0x00, 0x00, 0x00, 0x80, // length
        0x10, 0x27, 0x00, 0x00, // offset
        0x02, 0x2a,
    ];
    let h = JPEGHeader::new(&bytes).unwrap();
    assert_eq!(h.label, 0x04030201);
    assert_eq!(h.id, -1);
    assert_eq!(h.length, i32::MIN);
    assert_eq!(h.offset, 10000);
    assert!(h.gzip);
    assert_eq!(h.color_reduction, 42);
}

#[test]
fn header_reads_extreme_values() {
    let h = JPEGHeader::new(&header_bytes(i32::MAX, i32::MIN, -2, 0x7fff_fffe, 0, 255)).unwrap();
    assert_eq!(h.label, i32::MAX);
    assert_eq!(h.id, i32::MIN);
    assert_eq!(h.length, -2);
    assert_eq!(h.offset, 0x7fff_fffe);
    assert!(!h.gzip);
    assert_eq!(h.color_reduction, 255);
}

#[test]
fn header_ignores_bytes_after_the_eighteenth() {
    let mut bytes = header_bytes(1, 2, 3, 4, 1, 6);
    bytes.extend_from_slice(&[7, 7, 7]);
    let h = JPEGHeader::new(&bytes).unwrap();
    assert_eq!((h.label, h.id, h.length, h.offset), (1, 2, 3, 4));
    assert!(h.gzip);
    assert_eq!(h.color_reduction, 6);
}

#[test]
fn short_header_is_malformed() {
    assert_eq!(JPEGHeader::new(&[]), Err(HeaderError::MalformedHeader));
    assert_eq!(JPEGHeader::new(&[0u8; 17]), Err(HeaderError::MalformedHeader));
    assert!(JPEGHeader::new(&[0u8; 18]).is_ok());
}
