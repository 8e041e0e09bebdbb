use radius_rust::hash::{hmac_md5_bytes, md5_bytes};
use radius_rust::radius_packet::RadiusPacket;

// The digest wrappers against published test vectors: a wrapper that
// returned its input, or the wrong digest, would fail here.
#[test]
fn test_md5_known_vectors() {
    let empty: Vec<u8> = vec![
        0xd4, 0x1d, 0x8c, 0xd9, 0x8f, 0x00, 0xb2, 0x04, 0xe9, 0x80, 0x09, 0x98, 0xec, 0xf8, 0x42,
        0x7e,
    ];
    assert_eq!(empty, md5_bytes(b""));

    let abc: Vec<u8> = vec![
        0x90, 0x01, 0x50, 0x98, 0x3c, 0xd2, 0x4f, 0xb0, 0xd6, 0x96, 0x3f, 0x7d, 0x28, 0xe1, 0x7f,
        0x72,
    ];
    assert_eq!(abc, md5_bytes(b"abc"));
}

#[test]
fn test_hmac_md5_known_vector() {
    let expected: Vec<u8> = vec![
        0x75, 0x0c, 0x78, 0x3e, 0x6a, 0xb0, 0xb5, 0x03, 0xea, 0xa8, 0x6e, 0x31, 0x0a, 0x5d, 0xb7,
        0x38,
    ];
    assert_eq!(expected, hmac_md5_bytes(b"Jefe", b"what do ya want for nothing?"));
}

// A packet near the larger end: a hundred attributes survive the byte
// round trip in order.
#[test]
fn test_large_packet_round_trip() {
    let mut attributes = Vec::new();
    for k in 0..100u8 {
        let parsed = radius_rust::radius_packet::RadiusAttribute::from_parts(
            k,
            vec![k; 100],
        )
        .unwrap();
        attributes.push(parsed);
    }
    let mut packet = RadiusPacket::initialise_packet(
        radius_rust::radius_packet::TypeCode::AccountingRequest,
        attributes,
    );
    packet.override_id(200);
    packet.override_authenticator(vec![7u8; 16]);
    let wire = packet.to_bytes();
    assert_eq!(20 + 100 * 102, wire.len());

    let parsed = RadiusPacket::initialise_packet_from_bytes(&wire).unwrap();
    assert_eq!(100, parsed.attributes().len());
    for k in 0..100usize {
        assert_eq!(k as u8, parsed.attributes()[k].id());
        assert_eq!(vec![k as u8; 100], parsed.attributes()[k].value().clone());
    }
    assert_eq!(wire, parsed.to_bytes());
}
