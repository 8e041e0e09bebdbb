use radius_rust::client::Client;
use radius_rust::dictionary::{AttributeDefinition, Dictionary, SupportedAttributeTypes};
use radius_rust::tools::integer_to_bytes;

// The attribute definitions the integration dictionary provides, built
// by calls instead of being read from a file.
fn test_dictionary() -> Dictionary {
    Dictionary::from_attributes(vec![
        AttributeDefinition {
            id: 1,
            name: String::from("User-Name"),
            code_type: SupportedAttributeTypes::AsciiString,
            vendor_id: None,
        },
        AttributeDefinition {
            id: 6,
            name: String::from("Service-Type"),
            code_type: SupportedAttributeTypes::Integer,
            vendor_id: None,
        },
        AttributeDefinition {
            id: 87,
            name: String::from("NAS-Port-Id"),
            code_type: SupportedAttributeTypes::Integer,
            vendor_id: None,
        },
    ])
}

fn test_client() -> Client {
    Client::initialise_client(
        1812,
        1813,
        3799,
        test_dictionary(),
        String::from("127.0.0.1"),
        String::from("secret"),
        1,
        2,
    )
    .unwrap()
}

#[test]
fn test_get_radius_attr_original_string_value() {
    let client = test_client();

    let attributes = vec![
        client
            .create_attribute_by_name("User-Name", String::from("testing").into_bytes())
            .unwrap(),
    ];

    match client.radius_attr_original_string_value(&attributes[0]) {
        Ok(value) => assert_eq!(String::from("testing"), value),
        _ => assert!(false),
    }
}

#[test]
fn test_get_radius_attr_original_string_value_error() {
    let client = test_client();

    let invalid_string = vec![215, 189, 213, 172, 57, 94, 141, 70, 134, 121, 101, 57, 187, 220, 227, 73];
    let attributes = vec![client.create_attribute_by_name("User-Name", invalid_string).unwrap()];

    match client.radius_attr_original_string_value(&attributes[0]) {
        Ok(_) => assert!(false),
        Err(error) => assert_eq!(String::from("Radius packet attribute is malformed"), error.to_string()),
    }
}

#[test]
fn test_get_radius_attr_original_integer_value() {
    let client = test_client();

    let attributes = vec![client.create_attribute_by_name("NAS-Port-Id", integer_to_bytes(0)).unwrap()];

    match client.radius_attr_original_integer_value(&attributes[0]) {
        Ok(value) => assert_eq!(0, value),
        _ => assert!(false),
    }
}

#[test]
fn test_get_radius_attr_original_integer_value_error() {
    let client = test_client();

    let invalid_integer = vec![215, 189, 213, 172, 57, 94, 141, 70, 134, 121, 101, 57, 187, 220, 227, 73];
    let attributes = vec![client.create_attribute_by_name("NAS-Port-Id", invalid_integer).unwrap()];

    match client.radius_attr_original_integer_value(&attributes[0]) {
        Ok(_) => assert!(false),
        Err(error) => assert_eq!(String::from("Radius packet attribute is malformed"), error.to_string()),
    }
}

#[test]
fn test_attribute_by_unknown_name_is_rejected() {
    let client = test_client();
    let result = client.create_attribute_by_name("No-Such-Attribute", vec![1, 2, 3]);
    match result {
        Ok(_) => assert!(false),
        Err(error) => assert_eq!(String::from("Radius packet attribute is malformed"), error.to_string()),
    }
}

#[test]
fn test_attribute_by_id_known_and_unknown() {
    let client = test_client();
    let attribute = client.create_attribute_by_id(1, vec![97, 98]).unwrap();
    assert_eq!(1, attribute.id());
    assert_eq!(vec![97, 98], attribute.value().clone());
    assert!(client.create_attribute_by_id(200, vec![1]).is_err());
}

#[test]
fn test_oversize_attribute_value_is_rejected() {
    let client = test_client();
    let oversize = vec![0u8; 254];
    assert!(client.create_attribute_by_name("User-Name", oversize).is_err());
    let largest = vec![0u8; 253];
    assert!(client.create_attribute_by_name("User-Name", largest).is_ok());
}

#[test]
fn test_remote_address_text() {
    let client = test_client();
    let auth = client.remote_address_for(&radius_rust::radius_packet::TypeCode::AccessRequest);
    assert_eq!(String::from("127.0.0.1:1812"), auth);
    let acct = client.remote_address_for(&radius_rust::radius_packet::TypeCode::AccountingRequest);
    assert_eq!(String::from("127.0.0.1:1813"), acct);
    let coa = client.remote_address_for(&radius_rust::radius_packet::TypeCode::CoANAK);
    assert_eq!(String::from("127.0.0.1:3799"), coa);
}
