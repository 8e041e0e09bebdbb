use radius_rust::client::Client;
use radius_rust::dictionary::{AttributeDefinition, Dictionary, SupportedAttributeTypes};
use radius_rust::error::RadiusError;
use radius_rust::radius_packet::{RadiusPacket, TypeCode};
use radius_rust::server::Server;

fn test_dictionary() -> Dictionary {
    Dictionary::from_attributes(vec![
        AttributeDefinition {
            id: 1,
            name: String::from("User-Name"),
            code_type: SupportedAttributeTypes::AsciiString,
            vendor_id: None,
        },
        AttributeDefinition {
            id: 6,
            name: String::from("Service-Type"),
            code_type: SupportedAttributeTypes::Integer,
            vendor_id: None,
        },
        AttributeDefinition {
            id: 80,
            name: String::from("Message-Authenticator"),
            code_type: SupportedAttributeTypes::ByteString,
            vendor_id: None,
        },
    ])
}

fn test_client() -> Client {
    Client::initialise_client(
        1812,
        1813,
        3799,
        test_dictionary(),
        String::from("127.0.0.1"),
        String::from("secret"),
        1,
        2,
    )
    .unwrap()
}

fn test_server() -> Server {
    Server::initialise_server(
        1812,
        1813,
        3799,
        test_dictionary(),
        String::from("127.0.0.1"),
        String::from("secret"),
        1,
        2,
    )
    .unwrap()
}

// The end-to-end exchange: the client builds an access request with
// identifier 7 and User-Name "alice"; the server answers with an
// access accept carrying a Service-Type attribute and the echoed
// User-Name, overrides the reply identifier to the request's, and
// seals it with the response authenticator; the client then accepts
// the reply and reads "alice" back from the echoed attribute.
#[test]
fn test_end_to_end_exchange() {
    let client = test_client();
    let server = test_server();

    let mut request = client.create_auth_packet(vec![
        client
            .create_attribute_by_name("User-Name", String::from("alice").into_bytes())
            .unwrap(),
    ]);
    request.override_id(7);
    request.override_authenticator((100u8..116u8).collect());
    let request_bytes = request.to_bytes();

    // The server side: handle the raw request bytes.
    let received = RadiusPacket::initialise_packet_from_bytes(&request_bytes).unwrap();
    assert!(matches!(received.code(), TypeCode::AccessRequest));
    let mut reply = RadiusPacket::initialise_packet(
        TypeCode::AccessAccept,
        vec![
            server.create_attribute_by_name("Service-Type", vec![0, 0, 0, 2]).unwrap(),
            server
                .create_attribute_by_name("User-Name", String::from("alice").into_bytes())
                .unwrap(),
        ],
    );
    reply.override_id(received.id());
    let authenticator =
        server.create_reply_authenticator(&reply.to_bytes(), &request_bytes[4..20]);
    reply.override_authenticator(authenticator);
    let reply_bytes = reply.to_bytes();

    // The client side: the reply must verify against the request.
    assert!(client.verify_reply(&request, &reply_bytes).is_ok());
    assert!(client.verify_packet_attributes(&reply_bytes).is_ok());

    let parsed_reply = client.initialise_packet_from_bytes(&reply_bytes).unwrap();
    assert_eq!(7, parsed_reply.id());
    let echoed = &parsed_reply.attributes()[1];
    assert_eq!(
        String::from("alice"),
        client.radius_attr_original_string_value(echoed).unwrap()
    );
}

// The response authenticator is deterministic in its inputs, and
// simple perturbations of any input change the digest.
#[test]
fn test_reply_authenticator_deterministic() {
    let server = test_server();
    let other_secret = Server::initialise_server(
        1812,
        1813,
        3799,
        test_dictionary(),
        String::from("127.0.0.1"),
        String::from("other"),
        1,
        2,
    )
    .unwrap();

    let mut reply_bytes = vec![0u8; 22];
    reply_bytes[0] = 2;
    reply_bytes[1] = 7;
    reply_bytes[3] = 22;
    reply_bytes[20] = 6;
    reply_bytes[21] = 2;
    let request_authenticator = vec![9u8; 16];

    let first = server.create_reply_authenticator(&reply_bytes, &request_authenticator);
    let second = server.create_reply_authenticator(&reply_bytes, &request_authenticator);
    assert_eq!(first, second);
    assert_eq!(16, first.len());

    let mut changed_id = reply_bytes.clone();
    changed_id[1] = 8;
    assert_ne!(first, server.create_reply_authenticator(&changed_id, &request_authenticator));

    let mut changed_attr = reply_bytes.clone();
    changed_attr[21] = 3;
    assert_ne!(first, server.create_reply_authenticator(&changed_attr, &request_authenticator));

    let changed_request_auth = vec![8u8; 16];
    assert_ne!(first, server.create_reply_authenticator(&reply_bytes, &changed_request_auth));

    assert_ne!(
        first,
        other_secret.create_reply_authenticator(&reply_bytes, &request_authenticator)
    );
}

// A reply whose identifier differs from the request's is rejected even
// when its authenticator bytes are the ones a server would compute for
// it.
#[test]
fn test_verify_reply_rejects_identifier_mismatch() {
    let client = test_client();
    let server = test_server();

    let mut request = client.create_auth_packet(Vec::new());
    request.override_id(7);
    request.override_authenticator(vec![5u8; 16]);
    let request_bytes = request.to_bytes();

    let mut reply = RadiusPacket::initialise_packet(TypeCode::AccessAccept, Vec::new());
    reply.override_id(8); // differs from the request's 7
    let authenticator =
        server.create_reply_authenticator(&reply.to_bytes(), &request_bytes[4..20]);
    reply.override_authenticator(authenticator);
    let reply_bytes = reply.to_bytes();

    match client.verify_reply(&request, &reply_bytes) {
        Err(RadiusError::ValidationError { .. }) => {},
        _ => assert!(false),
    }
}

#[test]
fn test_verify_reply_rejects_wrong_authenticator() {
    let client = test_client();

    let mut request = client.create_auth_packet(Vec::new());
    request.override_id(7);
    request.override_authenticator(vec![5u8; 16]);

    let mut reply = RadiusPacket::initialise_packet(TypeCode::AccessAccept, Vec::new());
    reply.override_id(7);
    reply.override_authenticator(vec![1u8; 16]);
    let reply_bytes = reply.to_bytes();

    match client.verify_reply(&request, &reply_bytes) {
        Err(RadiusError::ValidationError { .. }) => {},
        _ => assert!(false),
    }
}

// The message-authenticator digest is the keyed hash of the packet
// bytes as received; the attribute's own bytes are not zeroed first,
// so a stored digest that disagrees with the recomputation is
// rejected, and a packet without the attribute is an error.
#[test]
fn test_verify_message_authenticator_mismatch() {
    let client = test_client();

    let mut packet = client.create_auth_packet(vec![
        client.create_attribute_by_id(80, vec![0u8; 16]).unwrap(),
    ]);
    packet.override_id(3);
    packet.override_authenticator(vec![2u8; 16]);
    let wire = packet.to_bytes();

    match client.verify_message_authenticator(&wire) {
        Err(RadiusError::ValidationError { .. }) => {},
        _ => assert!(false),
    }
}

#[test]
fn test_verify_message_authenticator_missing_attribute() {
    let client = test_client();
    let mut packet = client.create_auth_packet(Vec::new());
    packet.override_authenticator(vec![2u8; 16]);
    let wire = packet.to_bytes();

    match client.verify_message_authenticator(&wire) {
        Err(RadiusError::MalformedAttributeError { .. }) => {},
        _ => assert!(false),
    }
}

// The keyed hash is deterministic and sixteen bytes long.
#[test]
fn test_generate_message_hash() {
    let client = test_client();
    let mut packet = client.create_auth_packet(Vec::new());
    packet.override_id(1);
    packet.override_authenticator(vec![3u8; 16]);
    let first = client.generate_message_hash(&packet);
    let second = client.generate_message_hash(&packet);
    assert_eq!(first, second);
    assert_eq!(16, first.len());

    packet.override_id(2);
    let third = client.generate_message_hash(&packet);
    assert_ne!(first, third);
}

// Attribute validation walks every attribute against the dictionary.
#[test]
fn test_verify_packet_attributes() {
    let client = test_client();

    // Service-Type with four bytes decodes; with three it does not.
    let mut good = client.create_auth_packet(vec![
        client.create_attribute_by_name("Service-Type", vec![0, 0, 0, 2]).unwrap(),
    ]);
    good.override_authenticator(vec![1u8; 16]);
    assert!(client.verify_packet_attributes(&good.to_bytes()).is_ok());

    let mut bad = client.create_auth_packet(vec![
        client.create_attribute_by_name("Service-Type", vec![0, 0, 2]).unwrap(),
    ]);
    bad.override_authenticator(vec![1u8; 16]);
    match client.verify_packet_attributes(&bad.to_bytes()) {
        Err(RadiusError::MalformedAttributeError { .. }) => {},
        _ => assert!(false),
    }

    // An attribute id the dictionary does not know is rejected.
    let mut unknown = client.create_auth_packet(vec![
        RadiusPacket::initialise_packet_from_bytes(&{
            let mut wire = vec![0u8; 23];
            wire[0] = 1;
            wire[3] = 23;
            wire[20] = 200;
            wire[21] = 3;
            wire[22] = 9;
            wire
        })
        .unwrap()
        .attributes()[0]
            .clone(),
    ]);
    unknown.override_authenticator(vec![1u8; 16]);
    match client.verify_packet_attributes(&unknown.to_bytes()) {
        Err(RadiusError::MalformedAttributeError { .. }) => {},
        _ => assert!(false),
    }
}
