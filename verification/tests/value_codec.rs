use radius_rust::dictionary::SupportedAttributeTypes;
use radius_rust::error::RadiusError;
use radius_rust::tools::{
    bytes_to_integer, bytes_to_ipv4_string, bytes_to_ipv6_string, integer_to_bytes,
    ipv6_prefix_to_string,
};
use radius_rust::value::{decode_value, encode_value, TypedValue};

// The sixteen bytes of the address written fc66::1.
fn fc66_address() -> Vec<u8> {
    let mut address = vec![0u8; 16];
    address[0] = 0xfc;
    address[1] = 0x66;
    address[15] = 0x01;
    address
}

#[test]
fn test_integer_round_trip() {
    let encoded = encode_value(
        SupportedAttributeTypes::Integer,
        &TypedValue::Unsigned(0x12345678),
    )
    .unwrap();
    assert_eq!(vec![0x12, 0x34, 0x56, 0x78], encoded);
    match decode_value(SupportedAttributeTypes::Integer, &encoded).unwrap() {
        TypedValue::Unsigned(number) => assert_eq!(0x12345678, number),
        _ => assert!(false),
    }
}

#[test]
fn test_integer_to_bytes_round_trip() {
    assert_eq!(vec![0, 0, 0, 0], integer_to_bytes(0));
    assert_eq!(vec![255, 255, 255, 255], integer_to_bytes(u32::MAX));
    assert_eq!(0xdeadbeef, bytes_to_integer(&integer_to_bytes(0xdeadbeef)));
}

#[test]
fn test_date_requires_four_bytes() {
    match decode_value(SupportedAttributeTypes::Date, &[1, 2, 3]) {
        Err(RadiusError::MalformedAttributeError { .. }) => {},
        _ => assert!(false),
    }
    match decode_value(SupportedAttributeTypes::Date, &[0, 0, 1, 0]).unwrap() {
        TypedValue::Unsigned(number) => assert_eq!(256, number),
        _ => assert!(false),
    }
}

#[test]
fn test_text_round_trip() {
    let encoded = encode_value(
        SupportedAttributeTypes::AsciiString,
        &TypedValue::Text(String::from("testing")),
    )
    .unwrap();
    assert_eq!(String::from("testing").into_bytes(), encoded);
    match decode_value(SupportedAttributeTypes::AsciiString, &encoded).unwrap() {
        TypedValue::Text(text) => assert_eq!(String::from("testing"), text),
        _ => assert!(false),
    }
}

#[test]
fn test_text_rejects_invalid_utf8() {
    match decode_value(SupportedAttributeTypes::AsciiString, &[0xff, 0xfe]) {
        Err(RadiusError::MalformedAttributeError { .. }) => {},
        _ => assert!(false),
    }
}

#[test]
fn test_octets_round_trip() {
    let data = vec![0u8, 255, 1, 254];
    let encoded = encode_value(
        SupportedAttributeTypes::ByteString,
        &TypedValue::Octets(data.clone()),
    )
    .unwrap();
    assert_eq!(data, encoded);
    match decode_value(SupportedAttributeTypes::ByteString, &encoded).unwrap() {
        TypedValue::Octets(back) => assert_eq!(data, back),
        _ => assert!(false),
    }
}

#[test]
fn test_ipv4_round_trip_and_errors() {
    let encoded = encode_value(
        SupportedAttributeTypes::IPv4Addr,
        &TypedValue::Ipv4(vec![192, 168, 0, 1]),
    )
    .unwrap();
    assert_eq!(vec![192, 168, 0, 1], encoded);
    match decode_value(SupportedAttributeTypes::IPv4Addr, &encoded).unwrap() {
        TypedValue::Ipv4(address) => assert_eq!(vec![192, 168, 0, 1], address),
        _ => assert!(false),
    }
    match decode_value(SupportedAttributeTypes::IPv4Addr, &[192, 168, 0]) {
        Err(RadiusError::MalformedIpAddrError { .. }) => {},
        _ => assert!(false),
    }
}

#[test]
fn test_interface_id_requires_eight_bytes() {
    match decode_value(SupportedAttributeTypes::InterfaceId, &[1, 2, 3]) {
        Err(RadiusError::MalformedIfIdError { .. }) => {},
        _ => assert!(false),
    }
    match decode_value(SupportedAttributeTypes::InterfaceId, &[1, 2, 3, 4, 5, 6, 7, 8]).unwrap() {
        TypedValue::InterfaceIdVal(interface) => assert_eq!(vec![1, 2, 3, 4, 5, 6, 7, 8], interface),
        _ => assert!(false),
    }
}

// The IPv6 prefix round trip: encoding the address fc66::1 with prefix
// length 64 zeroes every bit beyond the first 64, and decoding yields
// prefix length 64 with an address whose first 64 bits read fc66:: and
// whose remaining bits are zero.
#[test]
fn test_ipv6_prefix_round_trip() {
    let encoded = encode_value(
        SupportedAttributeTypes::IPv6Prefix,
        &TypedValue::Ipv6PrefixVal { prefix_length: 64, address: fc66_address() },
    )
    .unwrap();
    assert_eq!(vec![0, 64, 0xfc, 0x66, 0, 0, 0, 0, 0, 0], encoded);
    match decode_value(SupportedAttributeTypes::IPv6Prefix, &encoded).unwrap() {
        TypedValue::Ipv6PrefixVal { prefix_length, address } => {
            assert_eq!(64, prefix_length);
            let mut expected = vec![0u8; 16];
            expected[0] = 0xfc;
            expected[1] = 0x66;
            assert_eq!(expected, address);
        },
        _ => assert!(false),
    }
}

#[test]
fn test_ipv6_prefix_masks_partial_byte() {
    // A /12 prefix keeps the first twelve bits: 0xfc and the high
    // nibble of 0x66.
    let encoded = encode_value(
        SupportedAttributeTypes::IPv6Prefix,
        &TypedValue::Ipv6PrefixVal { prefix_length: 12, address: fc66_address() },
    )
    .unwrap();
    assert_eq!(vec![0, 12, 0xfc, 0x60], encoded);
}

#[test]
fn test_ipv6_prefix_rejects_bad_lengths() {
    match decode_value(SupportedAttributeTypes::IPv6Prefix, &[0, 129, 0, 0]) {
        Err(RadiusError::MalformedIpAddrError { .. }) => {},
        _ => assert!(false),
    }
    // Nine address bytes disagree with a /64 prefix length.
    match decode_value(SupportedAttributeTypes::IPv6Prefix, &[0, 64, 1, 2, 3, 4, 5, 6, 7, 8, 9]) {
        Err(RadiusError::MalformedIpAddrError { .. }) => {},
        _ => assert!(false),
    }
    match decode_value(SupportedAttributeTypes::IPv6Prefix, &[0]) {
        Err(RadiusError::MalformedIpAddrError { .. }) => {},
        _ => assert!(false),
    }
}

#[test]
fn test_ipv6_round_trip() {
    let encoded = encode_value(
        SupportedAttributeTypes::IPv6Addr,
        &TypedValue::Ipv6(fc66_address()),
    )
    .unwrap();
    assert_eq!(fc66_address(), encoded);
    match decode_value(SupportedAttributeTypes::IPv6Addr, &encoded).unwrap() {
        TypedValue::Ipv6(address) => assert_eq!(fc66_address(), address),
        _ => assert!(false),
    }
}

#[test]
fn test_mismatched_variant_is_rejected() {
    match encode_value(SupportedAttributeTypes::Integer, &TypedValue::Text(String::from("5"))) {
        Err(RadiusError::MalformedAttributeError { .. }) => {},
        _ => assert!(false),
    }
}

#[test]
fn test_ipv4_text() {
    assert_eq!(String::from("192.168.0.1"), bytes_to_ipv4_string(&[192, 168, 0, 1]));
    assert_eq!(String::from("0.0.0.0"), bytes_to_ipv4_string(&[0, 0, 0, 0]));
    assert_eq!(String::from("255.255.255.255"), bytes_to_ipv4_string(&[255, 255, 255, 255]));
}

#[test]
fn test_ipv6_text() {
    assert_eq!(
        String::from("fc66:0:0:0:0:0:0:1"),
        bytes_to_ipv6_string(&fc66_address())
    );
    assert_eq!(
        String::from("fc66:0:0:0:0:0:0:0/64"),
        ipv6_prefix_to_string(64, &[0xfc, 0x66, 0, 0, 0, 0, 0, 0, 0, 0, 0, 0, 0, 0, 0, 0])
    );
}
