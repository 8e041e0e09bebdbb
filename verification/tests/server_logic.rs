use radius_rust::dictionary::{AttributeDefinition, Dictionary, SupportedAttributeTypes};
use radius_rust::error::RadiusError;
use radius_rust::radius_packet::TypeCode;
use radius_rust::server::{RadiusMsgType, Server};

fn test_dictionary() -> Dictionary {
    Dictionary::from_attributes(vec![AttributeDefinition {
        id: 1,
        name: String::from("User-Name"),
        code_type: SupportedAttributeTypes::AsciiString,
        vendor_id: None,
    }])
}

fn test_server() -> Server {
    Server::initialise_server(
        1812,
        1813,
        3799,
        test_dictionary(),
        String::from("127.0.0.1"),
        String::from("secret"),
        1,
        2,
    )
    .unwrap()
}

// A datagram from an address absent from the allow-list is dropped:
// the decision the transport loop acts on answers false, so no reply
// is sent; a listed address passes whatever its source port.
#[test]
fn test_host_allowed_decides_drop() {
    let mut server = test_server();
    server.add_allowed_hosts(String::from("127.0.0.1"));
    server.add_allowed_hosts(String::from("192.168.1.10"));

    assert!(server.host_allowed("127.0.0.1:49152"));
    assert!(server.host_allowed("192.168.1.10:1812"));
    assert!(server.host_allowed("127.0.0.1:1"));
    assert!(!server.host_allowed("10.0.0.1:49152"));
    assert!(!server.host_allowed("127.0.0.2:49152"));
    assert!(!server.host_allowed("127.0.0:49152"));
}

// Only the trailing port is ignored: an IPv6 sender's bracketed text
// keeps its inner colons, so the bracketed address in the allow-list
// matches it exactly.
#[test]
fn test_host_allowed_ipv6_sender() {
    let mut server = test_server();
    server.add_allowed_hosts(String::from("[fc66::1]"));
    server.add_allowed_hosts(String::from("[::1]"));

    assert!(server.host_allowed("[fc66::1]:1812"));
    assert!(server.host_allowed("[::1]:49152"));
    assert!(!server.host_allowed("[fc66::2]:1812"));
    assert!(!server.host_allowed("[::2]:49152"));
}

#[test]
fn test_host_allowed_with_empty_allow_list() {
    let server = test_server();
    assert!(!server.host_allowed("127.0.0.1:49152"));
}

#[test]
fn test_server_ports() {
    let server = test_server();
    assert_eq!(1812, server.port(&TypeCode::AccessRequest));
    assert_eq!(1812, server.port(&TypeCode::AccessChallenge));
    assert_eq!(1813, server.port(&TypeCode::AccountingResponse));
    assert_eq!(3799, server.port(&TypeCode::CoARequest));
}

#[test]
fn test_msg_type_names() {
    assert_eq!(String::from("Auth"), RadiusMsgType::AUTH.to_string());
    assert_eq!(String::from("Acct"), RadiusMsgType::ACCT.to_string());
    assert_eq!(String::from("CoA"), RadiusMsgType::COA.to_string());
}

#[test]
fn test_server_attribute_creation() {
    let server = test_server();
    let attribute = server
        .create_attribute_by_name("User-Name", String::from("bob").into_bytes())
        .unwrap();
    assert_eq!(1, attribute.id());
    match server.create_attribute_by_name("Missing", vec![]) {
        Err(RadiusError::MalformedAttributeError { .. }) => {},
        _ => assert!(false),
    }
}

#[test]
fn test_error_messages() {
    let validation = RadiusError::ValidationError { error: String::from("detail") };
    assert_eq!(
        String::from("Verification failed for incoming Radius packet"),
        validation.to_string()
    );
    let malformed_packet = RadiusError::MalformedPacketError { error: String::from("detail") };
    assert_eq!(String::from("Radius packet is malformed"), malformed_packet.to_string());
    let malformed_attribute =
        RadiusError::MalformedAttributeError { error: String::from("detail") };
    assert_eq!(
        String::from("Radius packet attribute is malformed"),
        malformed_attribute.to_string()
    );
    let malformed_ip = RadiusError::MalformedIpAddrError { error: String::from("detail") };
    assert_eq!(String::from("Provided IP Address is malformed"), malformed_ip.to_string());
    let unsupported = RadiusError::UnsupportedTypeCodeError { error: String::from("detail") };
    assert_eq!(
        String::from("Supplied RADIUS Code is not supported by this library"),
        unsupported.to_string()
    );
}
