use bgp::attribute::{
    Aggregator, AsPathSegmentType, AttributeType, AttributeValue, Communities, Community, LocalPref,
    MultiExitDisc, NextHop, Origin, OriginType, PathAttribute,
};
use bgp::error::ErrorKind;
use bgp::ip::Ipv4Addr;
use bytes::Bytes;

#[test]
fn test_decode_origin() {
    let mut data = Bytes::from_static(&[0x40, 0x01, 0x01, 0x00]); // Flags, Type, Length, Value (IGP)
    let attr = PathAttribute::try_decode(&mut data).unwrap();
    assert_eq!(attr.flags.transitive, true);
    assert_eq!(attr.flags.optional, false);
    assert_eq!(attr.type_code, AttributeType::Origin);
    assert_eq!(
        attr.value,
        AttributeValue::Origin(Origin {
            origin_type: OriginType::Igp
        })
    );
}

#[test]
fn test_decode_as_path() {
    // AS_SEQUENCE with two 4-byte ASNs
    let mut data = Bytes::from_static(&[
        0x40, 0x02, 0x0A, // Flags, Type, Length (10)
        0x02, 0x02, // Segment Type (SEQ), Count (2)
        0x00, 0x01, 0x00, 0x01, // 65537
        0x00, 0x01, 0x00, 0x02, // 65538
    ]);
    let attr = PathAttribute::try_decode(&mut data).unwrap();
    assert_eq!(attr.type_code, AttributeType::AsPath);
    match attr.value {
        AttributeValue::AsPath(as_path) => {
            assert_eq!(as_path.segments.len(), 1);
            assert_eq!(
                as_path.segments[0].segment_type,
                AsPathSegmentType::AsSequence
            );
            assert_eq!(as_path.segments[0].asns, vec![65537, 65538]);
        }
        _ => panic!("Incorrect attribute value type"),
    }
}

#[test]
fn test_decode_next_hop() {
    let mut data = Bytes::from_static(&[0x40, 0x03, 0x04, 192, 168, 1, 1]);
    let attr = PathAttribute::try_decode(&mut data).unwrap();
    assert_eq!(attr.type_code, AttributeType::NextHop);
    assert_eq!(
        attr.value,
        AttributeValue::NextHop(NextHop {
            ip: Ipv4Addr::new(192, 168, 1, 1)
        })
    );
}

#[test]
fn test_decode_med() {
    let mut data = Bytes::from_static(&[0x80, 0x04, 0x04, 0x00, 0x00, 0x00, 0x64]); // MED 100
    let attr = PathAttribute::try_decode(&mut data).unwrap();
    assert_eq!(attr.flags.optional, true);
    assert_eq!(attr.type_code, AttributeType::MultiExitDisc);
    assert_eq!(
        attr.value,
        AttributeValue::MultiExitDisc(MultiExitDisc { med: 100 })
    );
}

#[test]
fn test_decode_atomic_aggregate() {
    // Note: Length is 0
    let mut data = Bytes::from_static(&[0x40, 0x06, 0x00]);
    let attr = PathAttribute::try_decode(&mut data).unwrap();
    assert_eq!(attr.type_code, AttributeType::AtomicAggregate);
    assert_eq!(attr.value, AttributeValue::AtomicAggregate);
}

#[test]
fn test_decode_aggregator_4_byte_asn() {
    // 4-byte ASN, so length is 8
    let mut data = Bytes::from_static(&[
        0xC0, 0x07, 0x08, // Flags (Optional, Transitive), Type, Length
        0x00, 0x01, 0x00, 0x01, // ASN 65537
        10, 20, 30, 40, // IP
    ]);
    let attr = PathAttribute::try_decode(&mut data).unwrap();
    assert_eq!(attr.type_code, AttributeType::Aggregator);
    assert_eq!(
        attr.value,
        AttributeValue::Aggregator(Aggregator {
            asn: 65537,
            ip: Ipv4Addr::new(10, 20, 30, 40)
        })
    );
}

#[test]
fn test_decode_communities() {
    // Two communities: NO_EXPORT (65535:65281) and NO_ADVERTISE (65535:65282)
    let mut data = Bytes::from_static(&[
        0xC0, 0x08, 0x08, // Flags, Type, Length
        0xFF, 0xFF, 0xFF, 0x01, // NO_EXPORT (FFFF:FF01)
        0xFF, 0xFF, 0xFF, 0x02, // NO_ADVERTISE (FFFF:FF02)
    ]);
    let attr = PathAttribute::try_decode(&mut data).unwrap();
    assert_eq!(attr.flags.optional, true);
    assert_eq!(attr.flags.transitive, true);
    assert_eq!(attr.type_code, AttributeType::Communities);
    assert_eq!(
        attr.value,
        AttributeValue::Communities(Communities {
            communities: vec![
                Community {
                    asn: 65535,
                    value: 65281
                },
                Community {
                    asn: 65535,
                    value: 65282
                },
            ]
        })
    );
}

#[test]
fn test_decode_extended_length() {
    // Create a dummy attribute with a value > 255 bytes to test extended length
    let mut raw_data = vec![0x50, 0x99, 0x01, 0x05]; // Flags (Ext Length), Type (Unknown 153), Length (261)
    raw_data.extend_from_slice(&[0; 261]);
    let mut data = Bytes::from(raw_data);

    let attr = PathAttribute::try_decode(&mut data).unwrap();
    assert_eq!(attr.flags.extended_length, true);
    assert_eq!(attr.type_code, AttributeType::Unknown(153));
    match attr.value {
        AttributeValue::Unknown(val) => assert_eq!(val.len(), 261),
        _ => panic!("Incorrect attribute value type"),
    }
}

#[test]
fn test_error_insufficient_data() {
    let mut data = Bytes::from_static(&[0x40, 0x01]); // Header only, no length or value
    let result = PathAttribute::try_decode(&mut data);
    assert!(result.is_err());
    assert_eq!(result.unwrap_err().kind, ErrorKind::AttributeLengthErr);
}

fn decode(bytes: &[u8]) -> Result<PathAttribute, bgp::error::Error> {
    let mut data = Bytes::copy_from_slice(bytes);
    PathAttribute::try_decode(&mut data)
}

fn decode_value(t: AttributeType, bytes: &[u8]) -> Result<AttributeValue, ErrorKind> {
    AttributeValue::try_decode(&t, &Bytes::copy_from_slice(bytes))
}

#[test]
fn attribute_decode_advances_past_one_record() {
    let mut data = Bytes::from_static(&[0x40, 0x01, 0x01, 0x02, 0xAA, 0xBB]);
    let attr = PathAttribute::try_decode(&mut data).unwrap();
    assert_eq!(
        attr.value,
        AttributeValue::Origin(Origin { origin_type: OriginType::Incomplete })
    );
    assert_eq!(data, Bytes::from_static(&[0xAA, 0xBB]));
}

#[test]
fn attribute_error_leaves_buffer_and_keeps_snapshot() {
    let raw = [0x40, 0x01, 0x05, 0x00, 0x00];
    let mut data = Bytes::copy_from_slice(&raw);
    let err = PathAttribute::try_decode(&mut data).unwrap_err();
    assert_eq!(err.kind, ErrorKind::AttributeLengthErr);
    assert_eq!(err.data, Some(Bytes::copy_from_slice(&raw)));
    assert_eq!(data, Bytes::copy_from_slice(&raw));
}

#[test]
fn attribute_overrun_with_extended_length_keeps_snapshot() {
    let raw = [0x50, 0x02, 0x01, 0x00, 0x02, 0x01];
    let err = decode(&raw).unwrap_err();
    assert_eq!(err.kind, ErrorKind::AttributeLengthErr);
    assert_eq!(err.data, Some(Bytes::copy_from_slice(&raw)));
}

#[test]
fn attribute_of_one_byte_is_attribute_length_error() {
    assert_eq!(decode(&[0x40]).unwrap_err().kind, ErrorKind::AttributeLengthErr);
    assert_eq!(decode(&[]).unwrap_err().kind, ErrorKind::AttributeLengthErr);
}

#[test]
fn attribute_flags_are_read_most_significant_first() {
    let attr = decode(&[0xB0, 0x06, 0x00, 0x00]).unwrap();
    assert_eq!(attr.flags.optional, true);
    assert_eq!(attr.flags.transitive, false);
    assert_eq!(attr.flags.partial, true);
    assert_eq!(attr.flags.extended_length, true);
    let attr = decode(&[0x20, 0x06, 0x00]).unwrap();
    assert_eq!(attr.flags.partial, true);
    assert_eq!(attr.flags.optional, false);
}

#[test]
fn value_error_carries_the_whole_record() {
    let raw = [0x40, 0x02, 0x02, 0x03, 0x00];
    let err = decode(&raw).unwrap_err();
    assert_eq!(err.kind, ErrorKind::MalformedAsPath);
    assert_eq!(err.data, Some(Bytes::copy_from_slice(&raw)));
}

#[test]
fn origin_values() {
    assert_eq!(
        decode_value(AttributeType::Origin, &[1]),
        Ok(AttributeValue::Origin(Origin { origin_type: OriginType::Egp }))
    );
    assert_eq!(decode_value(AttributeType::Origin, &[3]), Err(ErrorKind::InvalidOrigin));
    assert_eq!(decode_value(AttributeType::Origin, &[]), Err(ErrorKind::InvalidOrigin));
    assert_eq!(decode_value(AttributeType::Origin, &[0, 0]), Err(ErrorKind::InvalidOrigin));
}

#[test]
fn as_path_with_two_segments() {
    let v = decode_value(
        AttributeType::AsPath,
        &[1, 1, 0, 0, 0, 7, 2, 0],
    )
    .unwrap();
    match v {
        AttributeValue::AsPath(p) => {
            assert_eq!(p.segments.len(), 2);
            assert_eq!(p.segments[0].segment_type, AsPathSegmentType::AsSet);
            assert_eq!(p.segments[0].asns, vec![7]);
            assert_eq!(p.segments[1].segment_type, AsPathSegmentType::AsSequence);
            assert!(p.segments[1].asns.is_empty());
        }
        _ => panic!("Incorrect attribute value type"),
    }
}

#[test]
fn as_path_errors() {
    assert_eq!(decode_value(AttributeType::AsPath, &[3, 0]), Err(ErrorKind::MalformedAsPath));
    assert_eq!(decode_value(AttributeType::AsPath, &[2, 1, 0, 0]), Err(ErrorKind::MalformedAsPath));
    assert_eq!(decode_value(AttributeType::AsPath, &[2]), Err(ErrorKind::MalformedAsPath));
}

#[test]
fn next_hop_ignores_trailing_bytes() {
    assert_eq!(
        decode_value(AttributeType::NextHop, &[1, 2, 3, 4, 5]),
        Ok(AttributeValue::NextHop(NextHop { ip: Ipv4Addr::new(1, 2, 3, 4) }))
    );
    assert_eq!(decode_value(AttributeType::NextHop, &[1, 2, 3]), Err(ErrorKind::AttributeLengthErr));
}

#[test]
fn med_needs_exactly_four_bytes() {
    assert_eq!(
        decode_value(AttributeType::MultiExitDisc, &[0, 0, 1, 0]),
        Ok(AttributeValue::MultiExitDisc(MultiExitDisc { med: 256 }))
    );
    assert_eq!(
        decode_value(AttributeType::MultiExitDisc, &[0, 0, 1, 0, 0]),
        Err(ErrorKind::AttributeLengthErr)
    );
    assert_eq!(decode_value(AttributeType::MultiExitDisc, &[0, 0, 1]), Err(ErrorKind::AttributeLengthErr));
}

#[test]
fn local_pref_ignores_trailing_bytes() {
    assert_eq!(
        decode_value(AttributeType::LocalPref, &[0, 0, 0, 100, 9]),
        Ok(AttributeValue::LocalPref(LocalPref { pref: 100 }))
    );
    assert_eq!(decode_value(AttributeType::LocalPref, &[0, 0, 0]), Err(ErrorKind::AttributeLengthErr));
}

#[test]
fn atomic_aggregate_must_be_empty() {
    assert_eq!(decode_value(AttributeType::AtomicAggregate, &[]), Ok(AttributeValue::AtomicAggregate));
    assert_eq!(decode_value(AttributeType::AtomicAggregate, &[0]), Err(ErrorKind::AttributeLengthErr));
}

#[test]
fn aggregator_lengths() {
    assert_eq!(
        decode_value(AttributeType::Aggregator, &[0xFD, 0xE8, 10, 0, 0, 1]),
        Ok(AttributeValue::Aggregator(Aggregator { asn: 65000, ip: Ipv4Addr::new(10, 0, 0, 1) }))
    );
    assert_eq!(
        decode_value(AttributeType::Aggregator, &[0, 1, 0, 1, 10, 20, 30, 40]),
        Ok(AttributeValue::Aggregator(Aggregator { asn: 65537, ip: Ipv4Addr::new(10, 20, 30, 40) }))
    );
    for len in [0usize, 4, 5, 7, 9] {
        let bytes = vec![1u8; len];
        assert_eq!(decode_value(AttributeType::Aggregator, &bytes), Err(ErrorKind::AttributeLengthErr));
    }
}

#[test]
fn communities_misaligned_is_optional_attribute_error() {
    for len in [1usize, 2, 3, 5, 7] {
        let bytes = vec![0xFFu8; len];
        assert_eq!(decode_value(AttributeType::Communities, &bytes), Err(ErrorKind::OptionalAttributeError));
    }
    let raw = [0xC0, 0x08, 0x03, 0xFF, 0xFF, 0xFF];
    let err = decode(&raw).unwrap_err();
    assert_eq!(err.kind, ErrorKind::OptionalAttributeError);
    assert_eq!(err.data, Some(Bytes::copy_from_slice(&raw)));
}

#[test]
fn communities_empty_value_is_empty() {
    assert_eq!(
        decode_value(AttributeType::Communities, &[]),
        Ok(AttributeValue::Communities(Communities { communities: vec![] }))
    );
}

#[test]
fn unknown_value_is_kept_verbatim() {
    assert_eq!(
        decode_value(AttributeType::Unknown(42), &[9, 8, 7]),
        Ok(AttributeValue::Unknown(Bytes::from_static(&[9, 8, 7])))
    );
    let attr = decode(&[0x80, 0x63, 0x02, 0xDE, 0xAD]).unwrap();
    assert_eq!(attr.type_code, AttributeType::Unknown(0x63));
    assert_eq!(attr.value, AttributeValue::Unknown(Bytes::from_static(&[0xDE, 0xAD])));
}

#[test]
fn type_codes_map_to_types() {
    assert_eq!(AttributeType::from(1), AttributeType::Origin);
    assert_eq!(AttributeType::from(5), AttributeType::LocalPref);
    assert_eq!(AttributeType::from(8), AttributeType::Communities);
    assert_eq!(AttributeType::from(0), AttributeType::Unknown(0));
    assert_eq!(AttributeType::from(9), AttributeType::Unknown(9));
}
