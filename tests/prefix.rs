use bgp::error::ErrorKind;
use bgp::prefix::IpAddrPrefix;

#[test]
fn prefix_entry_is_padded_and_masked() {
    let v = IpAddrPrefix::decode_stream(&[20, 0xAB, 0xCD, 0xFF], 4).unwrap();
    assert_eq!(v.len(), 1);
    assert_eq!(v[0].length, 20);
    assert_eq!(v[0].prefix, vec![0xAB, 0xCD, 0xF0, 0x00]);
}

#[test]
fn prefix_of_length_zero_is_all_zero() {
    let v = IpAddrPrefix::decode_stream(&[0], 4).unwrap();
    assert_eq!(v, vec![IpAddrPrefix { length: 0, prefix: vec![0, 0, 0, 0] }]);
}

#[test]
fn prefix_of_full_length_keeps_every_bit() {
    let v = IpAddrPrefix::decode_stream(&[32, 0xFF, 0xFF, 0xFF, 0xFF, 1, 0xFF], 4).unwrap();
    assert_eq!(v.len(), 2);
    assert_eq!(v[0].prefix, vec![0xFF, 0xFF, 0xFF, 0xFF]);
    assert_eq!(v[1].length, 1);
    assert_eq!(v[1].prefix, vec![0x80, 0, 0, 0]);
}

#[test]
fn empty_prefix_stream_is_empty() {
    assert_eq!(IpAddrPrefix::decode_stream(&[], 4).unwrap(), vec![]);
}

#[test]
fn truncated_prefix_stream_is_refused() {
    // The second entry needs two address bytes and has one.
    let err = IpAddrPrefix::decode_stream(&[8, 10, 16, 192], 4).unwrap_err();
    assert_eq!(err.kind, ErrorKind::InvalidNetworkField);
    assert_eq!(err.data, None);
}

#[test]
fn prefix_longer_than_address_is_refused() {
    let err = IpAddrPrefix::decode_stream(&[33, 1, 2, 3, 4, 5], 4).unwrap_err();
    assert_eq!(err.kind, ErrorKind::InvalidNetworkField);
}
