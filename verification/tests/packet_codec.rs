use radius_rust::client::Client;
use radius_rust::dictionary::{AttributeDefinition, Dictionary, SupportedAttributeTypes};
use radius_rust::error::RadiusError;
use radius_rust::radius_packet::{RadiusPacket, TypeCode};

fn test_dictionary() -> Dictionary {
    Dictionary::from_attributes(vec![
        AttributeDefinition {
            id: 1,
            name: String::from("User-Name"),
            code_type: SupportedAttributeTypes::AsciiString,
            vendor_id: None,
        },
        AttributeDefinition {
            id: 6,
            name: String::from("Service-Type"),
            code_type: SupportedAttributeTypes::Integer,
            vendor_id: None,
        },
    ])
}

fn test_client() -> Client {
    Client::initialise_client(
        1812,
        1813,
        3799,
        test_dictionary(),
        String::from("127.0.0.1"),
        String::from("secret"),
        1,
        2,
    )
    .unwrap()
}

// The packet round trip on concrete values: code, identifier,
// authenticator and attributes all survive serialization and parsing.
#[test]
fn test_packet_round_trip() {
    let client = test_client();
    let attributes = vec![
        client
            .create_attribute_by_name("User-Name", String::from("alice").into_bytes())
            .unwrap(),
        client.create_attribute_by_name("Service-Type", vec![0, 0, 0, 2]).unwrap(),
    ];
    let mut packet = client.create_auth_packet(attributes);
    packet.override_id(42);
    packet.override_authenticator((0u8..16u8).collect());

    let wire = packet.to_bytes();
    assert_eq!(wire[0], 1);
    assert_eq!(wire[1], 42);
    let declared = (wire[2] as usize) * 256 + wire[3] as usize;
    assert_eq!(declared, wire.len());
    assert_eq!(declared, 20 + 2 + 5 + 2 + 4);

    let parsed = RadiusPacket::initialise_packet_from_bytes(&wire).unwrap();
    assert!(matches!(parsed.code(), TypeCode::AccessRequest));
    assert_eq!(42, parsed.id());
    assert_eq!((0u8..16u8).collect::<Vec<u8>>(), parsed.authenticator().clone());
    assert_eq!(2, parsed.attributes().len());
    assert_eq!(1, parsed.attributes()[0].id());
    assert_eq!(String::from("alice").into_bytes(), parsed.attributes()[0].value().clone());
    assert_eq!(6, parsed.attributes()[1].id());
    assert_eq!(vec![0, 0, 0, 2], parsed.attributes()[1].value().clone());

    // Re-serializing the parsed packet yields the same buffer.
    assert_eq!(wire, parsed.to_bytes());
}

#[test]
fn test_empty_packet_round_trip() {
    let client = test_client();
    let packet = client.create_acct_packet(Vec::new());
    let wire = packet.to_bytes();
    assert_eq!(20, wire.len());
    let parsed = RadiusPacket::initialise_packet_from_bytes(&wire).unwrap();
    assert!(matches!(parsed.code(), TypeCode::AccountingRequest));
    assert_eq!(0, parsed.id());
    assert_eq!(vec![0u8; 16], parsed.authenticator().clone());
    assert_eq!(0, parsed.attributes().len());
}

// A buffer shorter than the 20-byte header is a malformed packet.
#[test]
fn test_from_bytes_rejects_short_buffer() {
    let result = RadiusPacket::initialise_packet_from_bytes(&[1, 7, 0, 19]);
    match result {
        Err(RadiusError::MalformedPacketError { .. }) => {},
        _ => assert!(false),
    }
}

// A declared length that disagrees with the buffer size is a malformed
// packet.
#[test]
fn test_from_bytes_rejects_length_mismatch() {
    let mut wire = vec![0u8; 20];
    wire[0] = 1;
    wire[2] = 0;
    wire[3] = 21;
    match RadiusPacket::initialise_packet_from_bytes(&wire) {
        Err(RadiusError::MalformedPacketError { .. }) => {},
        _ => assert!(false),
    }
}

// A code byte outside the closed set is an unsupported type code, never
// a guess.
#[test]
fn test_from_bytes_rejects_unknown_code() {
    let mut wire = vec![0u8; 20];
    wire[0] = 99;
    wire[3] = 20;
    match RadiusPacket::initialise_packet_from_bytes(&wire) {
        Err(RadiusError::UnsupportedTypeCodeError { .. }) => {},
        _ => assert!(false),
    }
}

// An attribute whose declared length is below 2 or reads past the
// buffer end is a malformed packet.
#[test]
fn test_from_bytes_rejects_bad_attribute_length() {
    let mut wire = vec![0u8; 23];
    wire[0] = 2;
    wire[3] = 23;
    wire[20] = 1;
    wire[21] = 1; // length below 2
    wire[22] = 0;
    match RadiusPacket::initialise_packet_from_bytes(&wire) {
        Err(RadiusError::MalformedPacketError { .. }) => {},
        _ => assert!(false),
    }

    let mut wire = vec![0u8; 23];
    wire[0] = 2;
    wire[3] = 23;
    wire[20] = 1;
    wire[21] = 9; // reads past the end
    wire[22] = 0;
    match RadiusPacket::initialise_packet_from_bytes(&wire) {
        Err(RadiusError::MalformedPacketError { .. }) => {},
        _ => assert!(false),
    }
}

// A truncated attribute header (a single trailing byte) is rejected.
#[test]
fn test_from_bytes_rejects_truncated_attribute() {
    let mut wire = vec![0u8; 21];
    wire[0] = 3;
    wire[3] = 21;
    wire[20] = 1;
    match RadiusPacket::initialise_packet_from_bytes(&wire) {
        Err(RadiusError::MalformedPacketError { .. }) => {},
        _ => assert!(false),
    }
}
