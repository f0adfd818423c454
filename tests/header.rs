use bgp::header::{BgpHeader, BgpHeaderError, BgpMessageType, HeaderParseError};
use bytes::Bytes;

fn header_bytes(length: u16, kind: u8) -> Vec<u8> {
    let mut v = vec![0xFFu8; 16];
    v.push((length >> 8) as u8);
    v.push(length as u8);
    v.push(kind);
    v
}

#[test]
fn header_new_in_range() {
    let h = BgpHeader::new(19, BgpMessageType::Keepalive).unwrap();
    assert_eq!(h.marker, [0xFF; 16]);
    assert_eq!(h.length, 19);
    assert_eq!(h.message_type, BgpMessageType::Keepalive);
    assert!(BgpHeader::new(4096, BgpMessageType::Update).is_ok());
}

#[test]
fn header_new_out_of_range() {
    match BgpHeader::new(18, BgpMessageType::Open) {
        Err(BgpHeaderError::LengthFieldOutOfRange { min, max, actual }) => {
            assert_eq!((min, max, actual), (19, 4096, 18));
        }
        _ => panic!("length 18 accepted"),
    }
    assert!(BgpHeader::new(4097, BgpMessageType::Open).is_err());
}

#[test]
fn header_read_and_written() {
    let mut raw = header_bytes(23, 2);
    raw.extend_from_slice(&[0, 0, 0, 0]);
    let mut input = Bytes::from(raw);
    let h = BgpHeader::try_from_bytes(&mut input).unwrap();
    assert_eq!(h.length, 23);
    assert_eq!(h.message_type, BgpMessageType::Update);
    assert_eq!(input.len(), 4);
    assert_eq!(h.to_bytes(), Bytes::from(header_bytes(23, 2)));
}

#[test]
fn header_unknown_type_round_trips() {
    let mut input = Bytes::from(header_bytes(100, 9));
    let h = BgpHeader::try_from_bytes(&mut input).unwrap();
    assert_eq!(h.message_type, BgpMessageType::Unknown(9));
    assert!(input.is_empty());
    assert_eq!(h.to_bytes(), Bytes::from(header_bytes(100, 9)));
}

#[test]
fn header_read_errors() {
    let mut short = Bytes::from(vec![0xFFu8; 18]);
    assert_eq!(
        BgpHeader::try_from_bytes(&mut short).unwrap_err(),
        HeaderParseError::InputLengthOutOfRange(19, 18)
    );
    let mut bad_marker = header_bytes(19, 4);
    bad_marker[7] = 0;
    let mut input = Bytes::from(bad_marker.clone());
    assert_eq!(
        BgpHeader::try_from_bytes(&mut input).unwrap_err(),
        HeaderParseError::MalformedMarkerField
    );
    assert_eq!(input, Bytes::from(bad_marker));
    let mut input = Bytes::from(header_bytes(5000, 1));
    assert_eq!(
        BgpHeader::try_from_bytes(&mut input).unwrap_err(),
        HeaderParseError::LengthFieldOutOfRange { min: 19, max: 4096, actual: 5000 }
    );
}

#[test]
fn message_type_codes() {
    assert_eq!(BgpMessageType::from(1), BgpMessageType::Open);
    assert_eq!(BgpMessageType::from(3), BgpMessageType::Notification);
    assert_eq!(BgpMessageType::from(0), BgpMessageType::Unknown(0));
    assert_eq!(u8::from(&BgpMessageType::Keepalive), 4);
    assert_eq!(u8::from(&BgpMessageType::Unknown(77)), 77);
}
