use wmproxy::frames::{ProtClose, ProtData, ProtFrame};
use wmproxy::header::{ProtError, ProtFlag, ProtFrameHeader, ProtKind, HEADER_LEN};

#[test]
fn close_new_keeps_sock_map() {
    assert_eq!(ProtClose::new(7).sock_map(), 7);
}

#[test]
fn close_encode_writes_header_only() {
    let mut buf = Vec::new();
    let n = ProtClose::new(0x01020304).encode(&mut buf);
    assert_eq!(n, HEADER_LEN);
    assert_eq!(buf, vec![3, 0, 1, 2, 3, 4, 0, 0, 0, 0]);
}

#[test]
fn close_round_trip_any_sock_map() {
    for sm in [0u32, 1, 255, 256, 65535, 0x8000_0000, u32::MAX] {
        let mut buf = Vec::new();
        ProtClose::new(sm).encode(&mut buf);
        let header = ProtFrameHeader::parse(&buf).unwrap();
        assert_eq!(header.length, 0);
        assert_eq!(header.kind, ProtKind::Close);
        match ProtFrame::decode(&buf).unwrap() {
            (ProtFrame::Close(c), used) => {
                assert_eq!(c.sock_map(), sm);
                assert_eq!(used, HEADER_LEN);
            }
            other => panic!("unexpected frame {:?}", other),
        }
    }
}

#[test]
fn close_encode_appends_to_existing_bytes() {
    let mut buf = vec![9, 9];
    ProtClose::new(1).encode(&mut buf);
    assert_eq!(buf, vec![9, 9, 3, 0, 0, 0, 0, 1, 0, 0, 0, 0]);
}

#[test]
fn close_parse_uses_header_sock_map() {
    let header = ProtFrameHeader::new(ProtKind::Close, ProtFlag::zero(), 42);
    let c = ProtClose::parse(header, &[]).unwrap();
    assert_eq!(c.sock_map(), 42);
}

#[test]
fn close_parse_refuses_missing_payload() {
    let mut header = ProtFrameHeader::new(ProtKind::Close, ProtFlag::zero(), 42);
    header.length = 3;
    assert_eq!(ProtClose::parse(header, &[1, 2]).unwrap_err(), ProtError::MalformedFrame);
}

#[test]
fn header_parse_refuses_short_input() {
    assert_eq!(ProtFrameHeader::parse(&[3, 0, 0]).unwrap_err(), ProtError::MalformedFrame);
    assert_eq!(ProtFrameHeader::parse(&[]).unwrap_err(), ProtError::MalformedFrame);
}

#[test]
fn header_encode_parse_round_trip() {
    let mut header = ProtFrameHeader::new(ProtKind::Ping, ProtFlag::new(0x81), 0xdead_beef);
    header.length = 0x0102_0304;
    let mut buf = Vec::new();
    assert_eq!(header.encode(&mut buf), HEADER_LEN);
    assert_eq!(buf, vec![4, 0x81, 0xde, 0xad, 0xbe, 0xef, 1, 2, 3, 4]);
    assert_eq!(ProtFrameHeader::parse(&buf).unwrap(), header);
}

#[test]
fn unknown_kind_header_still_parses() {
    let buf = [200u8, 0, 0, 0, 0, 5, 0, 0, 0, 0];
    let header = ProtFrameHeader::parse(&buf).unwrap();
    assert_eq!(header.kind, ProtKind::Unregistered(200));
    assert_eq!(header.sock_map(), 5);
}

#[test]
fn data_round_trip() {
    let mut buf = Vec::new();
    let n = ProtData::new(9, vec![10, 20, 30]).encode(&mut buf).unwrap();
    assert_eq!(n, HEADER_LEN + 3);
    assert_eq!(buf, vec![2, 0, 0, 0, 0, 9, 0, 0, 0, 3, 10, 20, 30]);
    match ProtFrame::decode(&buf).unwrap() {
        (ProtFrame::Data(d), used) => {
            assert_eq!(d.sock_map(), 9);
            assert_eq!(d.data(), &vec![10, 20, 30]);
            assert_eq!(used, 13);
        }
        other => panic!("unexpected frame {:?}", other),
    }
}

#[test]
fn decode_consumes_exactly_declared_length() {
    let mut buf = Vec::new();
    ProtData::new(1, vec![5, 6]).encode(&mut buf).unwrap();
    ProtClose::new(2).encode(&mut buf);
    let (first, used) = ProtFrame::decode(&buf).unwrap();
    assert_eq!(used, 12);
    assert!(matches!(first, ProtFrame::Data(_)));
    let (second, used2) = ProtFrame::decode(&buf[used..]).unwrap();
    assert_eq!(used2, HEADER_LEN);
    match second {
        ProtFrame::Close(c) => assert_eq!(c.sock_map(), 2),
        other => panic!("unexpected frame {:?}", other),
    }
}

#[test]
fn decode_skips_unknown_kind_by_length() {
    let mut buf = vec![77u8, 1, 0, 0, 0, 3, 0, 0, 0, 2, 0xaa, 0xbb];
    ProtClose::new(3).encode(&mut buf);
    let (frame, used) = ProtFrame::decode(&buf).unwrap();
    assert_eq!(used, 12);
    match frame {
        ProtFrame::Skipped(h) => {
            assert_eq!(h.kind, ProtKind::Unregistered(77));
            assert_eq!(h.length, 2);
        }
        other => panic!("unexpected frame {:?}", other),
    }
    let (next, _) = ProtFrame::decode(&buf[used..]).unwrap();
    assert!(matches!(next, ProtFrame::Close(_)));
}

#[test]
fn decode_refuses_truncated_payload() {
    let buf = [2u8, 0, 0, 0, 0, 1, 0, 0, 0, 4, 1, 2, 3];
    assert_eq!(ProtFrame::decode(&buf).unwrap_err(), ProtError::MalformedFrame);
}

#[test]
fn decode_refuses_truncated_header() {
    assert_eq!(ProtFrame::decode(&[3, 0, 0, 0]).unwrap_err(), ProtError::MalformedFrame);
}

#[test]
fn data_parse_takes_only_declared_bytes() {
    let mut header = ProtFrameHeader::new(ProtKind::Data, ProtFlag::zero(), 4);
    header.length = 2;
    let d = ProtData::parse(header, &[1, 2, 3, 4]).unwrap();
    assert_eq!(d.data(), &vec![1, 2]);
    assert_eq!(ProtData::parse(header, &[1]).unwrap_err(), ProtError::MalformedFrame);
}

#[test]
fn kind_bytes_round_trip() {
    for b in 0u8..=255 {
        assert_eq!(ProtKind::from_u8(b).to_u8(), b);
    }
    assert_eq!(ProtKind::from_u8(3), ProtKind::Close);
    assert_eq!(ProtKind::from_u8(1), ProtKind::Open);
}
