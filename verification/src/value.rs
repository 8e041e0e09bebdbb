//! Interpretation of raw attribute bytes under a dictionary-declared
//! value type: decoding bytes to a semantic value, encoding a semantic
//! value to bytes, and the round-trip law between the two.
//!
//! Addresses are modelled by their bytes: an IPv4 address is four
//! bytes, an IPv6 address sixteen, an interface id eight. An IPv6
//! prefix is a prefix length together with a full sixteen-byte address
//! whose bits beyond the prefix length are zero (the canonical form);
//! the wire layout is a reserved zero byte, the prefix length, and the
//! address truncated to the bytes the prefix length covers.

use vstd::prelude::*;
use vstd::slice::{slice_subrange, slice_to_vec};
use vstd::string::StringExecFns;
use vstd::utf8::{
    decode_utf8, encode_utf8, encode_utf8_decode_utf8, encode_utf8_valid_utf8, valid_utf8,
};

use crate::dictionary::SupportedAttributeTypes;
use crate::error::RadiusError;
use crate::tools::{
    bytes_to_integer, bytes_to_string, integer_to_bytes, lemma_u32_be_round_trip,
    spec_be_bytes_to_u32, spec_ipv4_text, spec_ipv6_prefix_text, spec_ipv6_text,
    spec_u32_to_be_bytes, string_to_bytes,
};

verus! {

/// The mathematical model of a semantic attribute value.
pub enum SpecTypedValue {
    /// Text, for the string value type.
    Text(Seq<char>),
    /// An unsigned 32-bit number, for the integer and date value types.
    Unsigned(u32),
    /// The four bytes of an IPv4 address.
    Ipv4(Seq<u8>),
    /// The sixteen bytes of an IPv6 address.
    Ipv6(Seq<u8>),
    /// A prefix length and the sixteen bytes of an IPv6 address.
    Ipv6PrefixVal { prefix_length: u8, address: Seq<u8> },
    /// The eight bytes of an interface id.
    InterfaceIdVal(Seq<u8>),
    /// Raw octets, passed through verbatim.
    Octets(Seq<u8>),
}

/// A semantic attribute value: what raw attribute bytes stand for under
/// a dictionary-declared value type.
#[derive(Clone, Debug)]
pub enum TypedValue {
    /// Text, for the string value type.
    Text(String),
    /// An unsigned 32-bit number, for the integer and date value types.
    Unsigned(u32),
    /// The four bytes of an IPv4 address.
    Ipv4(Vec<u8>),
    /// The sixteen bytes of an IPv6 address.
    Ipv6(Vec<u8>),
    /// A prefix length and the sixteen bytes of an IPv6 address.
    Ipv6PrefixVal { prefix_length: u8, address: Vec<u8> },
    /// The eight bytes of an interface id.
    InterfaceIdVal(Vec<u8>),
    /// Raw octets, passed through verbatim.
    Octets(Vec<u8>),
}

impl View for TypedValue {
    type V = SpecTypedValue;

    open spec fn view(&self) -> SpecTypedValue {
        match self {
            TypedValue::Text(text) => SpecTypedValue::Text(text@),
            TypedValue::Unsigned(number) => SpecTypedValue::Unsigned(*number),
            TypedValue::Ipv4(address) => SpecTypedValue::Ipv4(address@),
            TypedValue::Ipv6(address) => SpecTypedValue::Ipv6(address@),
            TypedValue::Ipv6PrefixVal { prefix_length, address } => SpecTypedValue::Ipv6PrefixVal {
                prefix_length: *prefix_length,
                address: address@,
            },
            TypedValue::InterfaceIdVal(interface) => SpecTypedValue::InterfaceIdVal(interface@),
            TypedValue::Octets(data) => SpecTypedValue::Octets(data@),
        }
    }
}

/// A byte with all but its `keep` highest bits cleared. `keep` at or
/// below zero clears the byte; `keep` of eight or more keeps it whole.
pub open spec fn spec_mask_byte(byte: u8, keep: int) -> u8 {
    if keep <= 0 {
        0
    } else if keep == 1 {
        ((byte / 128) * 128) as u8
    } else if keep == 2 {
        ((byte / 64) * 64) as u8
    } else if keep == 3 {
        ((byte / 32) * 32) as u8
    } else if keep == 4 {
        ((byte / 16) * 16) as u8
    } else if keep == 5 {
        ((byte / 8) * 8) as u8
    } else if keep == 6 {
        ((byte / 4) * 4) as u8
    } else if keep == 7 {
        ((byte / 2) * 2) as u8
    } else {
        byte
    }
}

/// A sixteen-byte address with every bit beyond the prefix length
/// cleared: the canonical form of a prefix's address.
pub open spec fn spec_mask_address(address: Seq<u8>, prefix_length: int) -> Seq<u8> {
    Seq::new(16, |i: int| spec_mask_byte(address[i], prefix_length - 8 * i))
}

/// The number of address bytes a prefix length covers.
pub open spec fn spec_prefix_byte_count(prefix_length: int) -> int {
    (prefix_length + 7) / 8
}

/// Whether a semantic value fits a declared value type, so that it can
/// be encoded: the variant matches and address byte counts are exact.
pub open spec fn spec_value_in_domain(
    code_type: SupportedAttributeTypes,
    value: SpecTypedValue,
) -> bool {
    match code_type {
        SupportedAttributeTypes::AsciiString => value is Text,
        SupportedAttributeTypes::ByteString => value is Octets,
        SupportedAttributeTypes::Integer => value is Unsigned,
        SupportedAttributeTypes::Date => value is Unsigned,
        SupportedAttributeTypes::IPv4Addr => value matches SpecTypedValue::Ipv4(address)
            && address.len() == 4,
        SupportedAttributeTypes::IPv6Addr => value matches SpecTypedValue::Ipv6(address)
            && address.len() == 16,
        SupportedAttributeTypes::IPv6Prefix => value matches SpecTypedValue::Ipv6PrefixVal {
            prefix_length,
            address,
        } && prefix_length <= 128 && address.len() == 16,
        SupportedAttributeTypes::InterfaceId => value matches SpecTypedValue::InterfaceIdVal(
            interface,
        ) && interface.len() == 8,
    }
}

/// The wire bytes of an in-domain semantic value under a declared value
/// type. An IPv6 prefix is canonicalized: bits beyond the prefix length
/// are cleared before the address is truncated to the covered bytes.
pub open spec fn spec_encode_value(
    code_type: SupportedAttributeTypes,
    value: SpecTypedValue,
) -> Seq<u8> {
    match value {
        SpecTypedValue::Text(text) => encode_utf8(text),
        SpecTypedValue::Unsigned(number) => spec_u32_to_be_bytes(number),
        SpecTypedValue::Ipv4(address) => address,
        SpecTypedValue::Ipv6(address) => address,
        SpecTypedValue::Ipv6PrefixVal { prefix_length, address } => seq![0u8, prefix_length]
            + spec_mask_address(address, prefix_length as int).take(
            spec_prefix_byte_count(prefix_length as int),
        ),
        SpecTypedValue::InterfaceIdVal(interface) => interface,
        SpecTypedValue::Octets(data) => data,
    }
}

/// The semantic value that raw bytes stand for under a declared value
/// type, or nothing when the bytes do not fit the type: text that is
/// not valid UTF-8, a number that is not exactly four bytes, an address
/// with the wrong byte count, a prefix length above 128 or with a byte
/// count that disagrees with it. A prefix's leading reserved byte is
/// carried but not examined.
pub open spec fn spec_decode_value(
    code_type: SupportedAttributeTypes,
    data: Seq<u8>,
) -> Option<SpecTypedValue> {
    match code_type {
        SupportedAttributeTypes::AsciiString => if valid_utf8(data) {
            Some(SpecTypedValue::Text(decode_utf8(data)))
        } else {
            None
        },
        SupportedAttributeTypes::ByteString => Some(SpecTypedValue::Octets(data)),
        SupportedAttributeTypes::Integer => if data.len() == 4 {
            Some(SpecTypedValue::Unsigned(spec_be_bytes_to_u32(data) as u32))
        } else {
            None
        },
        SupportedAttributeTypes::Date => if data.len() == 4 {
            Some(SpecTypedValue::Unsigned(spec_be_bytes_to_u32(data) as u32))
        } else {
            None
        },
        SupportedAttributeTypes::IPv4Addr => if data.len() == 4 {
            Some(SpecTypedValue::Ipv4(data))
        } else {
            None
        },
        SupportedAttributeTypes::IPv6Addr => if data.len() == 16 {
            Some(SpecTypedValue::Ipv6(data))
        } else {
            None
        },
        SupportedAttributeTypes::IPv6Prefix => if data.len() >= 2 && (data[1] as int) <= 128
            && data.len() - 2 == spec_prefix_byte_count(data[1] as int) {
            Some(
                SpecTypedValue::Ipv6PrefixVal {
                    prefix_length: data[1],
                    address: data.skip(2) + Seq::new((16 - (data.len() - 2)) as nat, |i: int| 0u8),
                },
            )
        } else {
            None
        },
        SupportedAttributeTypes::InterfaceId => if data.len() == 8 {
            Some(SpecTypedValue::InterfaceIdVal(data))
        } else {
            None
        },
    }
}

/// The canonical form of an in-domain value: the identity, except that
/// an IPv6 prefix's address has its bits beyond the prefix length
/// cleared.
pub open spec fn spec_canonical_value(value: SpecTypedValue) -> SpecTypedValue {
    match value {
        SpecTypedValue::Ipv6PrefixVal { prefix_length, address } => SpecTypedValue::Ipv6PrefixVal {
            prefix_length,
            address: spec_mask_address(address, prefix_length as int),
        },
        _ => value,
    }
}

/// Law: decoding the encoding of any in-domain value yields the value
/// back in canonical form; for a value already canonical the round trip
/// is the identity.
pub proof fn lemma_value_round_trip(code_type: SupportedAttributeTypes, value: SpecTypedValue)
    requires
        spec_value_in_domain(code_type, value),
    ensures
        spec_decode_value(code_type, spec_encode_value(code_type, value)) == Some(
            spec_canonical_value(value),
        ),
{
    match value {
        SpecTypedValue::Text(text) => {
            encode_utf8_valid_utf8(text);
            encode_utf8_decode_utf8(text);
        },
        SpecTypedValue::Unsigned(number) => {
            lemma_u32_be_round_trip(number);
        },
        SpecTypedValue::Ipv6PrefixVal { prefix_length, address } => {
            lemma_prefix_round_trip(prefix_length, address);
        },
        _ => {},
    }
}

/// Round trip of the IPv6 prefix wire layout: the decoded prefix length
/// is the encoded one and the decoded address is the masked address.
proof fn lemma_prefix_round_trip(prefix_length: u8, address: Seq<u8>)
    requires
        prefix_length <= 128,
        address.len() == 16,
    ensures
        spec_decode_value(
            SupportedAttributeTypes::IPv6Prefix,
            spec_encode_value(
                SupportedAttributeTypes::IPv6Prefix,
                SpecTypedValue::Ipv6PrefixVal { prefix_length, address },
            ),
        ) == Some(
            SpecTypedValue::Ipv6PrefixVal {
                prefix_length,
                address: spec_mask_address(address, prefix_length as int),
            },
        ),
{
    let plen = prefix_length as int;
    let masked = spec_mask_address(address, plen);
    let count = spec_prefix_byte_count(plen);
    assert(0 <= count <= 16);
    let encoded = spec_encode_value(
        SupportedAttributeTypes::IPv6Prefix,
        SpecTypedValue::Ipv6PrefixVal { prefix_length, address },
    );
    assert(encoded.len() == 2 + count);
    assert(encoded[1] == prefix_length);
    assert(encoded.len() - 2 == spec_prefix_byte_count(encoded[1] as int));
    assert(8 * count >= plen) by {
        assert(plen + 7 == 8 * ((plen + 7) / 8) + (plen + 7) % 8);
    }
    assert(forall|i: int| count <= i < 16 ==> spec_mask_byte(address[i], plen - 8 * i) == 0);
    assert(encoded.skip(2) =~= masked.take(count));
    assert(encoded.skip(2) + Seq::new((16 - count) as nat, |i: int| 0u8) =~= masked);
}

/// Clears all but the `keep` highest bits of a byte.
fn mask_byte(byte: u8, keep: u8) -> (result: u8)
    ensures
        result == spec_mask_byte(byte, keep as int),
{
    if keep == 0 {
        0
    } else if keep == 1 {
        (byte / 128) * 128
    } else if keep == 2 {
        (byte / 64) * 64
    } else if keep == 3 {
        (byte / 32) * 32
    } else if keep == 4 {
        (byte / 16) * 16
    } else if keep == 5 {
        (byte / 8) * 8
    } else if keep == 6 {
        (byte / 4) * 4
    } else if keep == 7 {
        (byte / 2) * 2
    } else {
        byte
    }
}

/// Clears every bit beyond the prefix length of a sixteen-byte address.
fn mask_address(address: &Vec<u8>, prefix_length: u8) -> (result: Vec<u8>)
    requires
        address@.len() == 16,
        prefix_length <= 128,
    ensures
        result@ == spec_mask_address(address@, prefix_length as int),
{
    let mut result: Vec<u8> = Vec::new();
    let mut i: usize = 0;
    while i < 16
        invariant
            i <= 16,
            address@.len() == 16,
            prefix_length <= 128,
            result@.len() == i,
            forall|j: int|
                0 <= j < i ==> result@[j] == spec_mask_byte(
                    address@[j],
                    prefix_length as int - 8 * j,
                ),
        decreases 16 - i,
    {
        let keep: u8 = if prefix_length as usize >= 8 * (i + 1) {
            8
        } else if prefix_length as usize <= 8 * i {
            0
        } else {
            prefix_length - (8 * i) as u8
        };
        assert(keep as int == if prefix_length as int - 8 * (i as int) >= 8 {
            8int
        } else if prefix_length as int - 8 * (i as int) <= 0 {
            0int
        } else {
            prefix_length as int - 8 * (i as int)
        });
        result.push(mask_byte(address[i], keep));
        i = i + 1;
    }
    proof {
        assert(result@ =~= spec_mask_address(address@, prefix_length as int));
    }
    result
}

/// Decodes raw attribute bytes under a declared value type. Fails with
/// a malformed-attribute error for text and number types, a
/// malformed-address error for the address families, and a
/// malformed-interface-id error for interface ids, exactly when the
/// bytes do not fit the type.
pub fn decode_value(code_type: SupportedAttributeTypes, data: &[u8]) -> (result: Result<
    TypedValue,
    RadiusError,
>)
    ensures
        result is Ok <==> spec_decode_value(code_type, data@) is Some,
        result matches Ok(value) ==> Some(value@) == spec_decode_value(code_type, data@),
        result matches Err(e) ==> (match code_type {
            SupportedAttributeTypes::AsciiString
            | SupportedAttributeTypes::ByteString
            | SupportedAttributeTypes::Integer
            | SupportedAttributeTypes::Date => e matches RadiusError::MalformedAttributeError {
                ..
            },
            SupportedAttributeTypes::IPv4Addr
            | SupportedAttributeTypes::IPv6Addr
            | SupportedAttributeTypes::IPv6Prefix => e matches RadiusError::MalformedIpAddrError {
                ..
            },
            SupportedAttributeTypes::InterfaceId => e matches RadiusError::MalformedIfIdError {
                ..
            },
        }),
{
    match code_type {
        SupportedAttributeTypes::AsciiString => {
            match bytes_to_string(data) {
                Some(text) => Ok(TypedValue::Text(text)),
                None => Err(RadiusError::MalformedAttributeError {
                    error: String::from_str("attribute bytes are not valid UTF-8 text"),
                }),
            }
        },
        SupportedAttributeTypes::ByteString => Ok(TypedValue::Octets(slice_to_vec(data))),
        SupportedAttributeTypes::Integer | SupportedAttributeTypes::Date => {
            if data.len() == 4 {
                Ok(TypedValue::Unsigned(bytes_to_integer(data)))
            } else {
                Err(RadiusError::MalformedAttributeError {
                    error: String::from_str("number attribute is not exactly four bytes"),
                })
            }
        },
        SupportedAttributeTypes::IPv4Addr => {
            if data.len() == 4 {
                Ok(TypedValue::Ipv4(slice_to_vec(data)))
            } else {
                Err(RadiusError::MalformedIpAddrError {
                    error: String::from_str("IPv4 address is not exactly four bytes"),
                })
            }
        },
        SupportedAttributeTypes::IPv6Addr => {
            if data.len() == 16 {
                Ok(TypedValue::Ipv6(slice_to_vec(data)))
            } else {
                Err(RadiusError::MalformedIpAddrError {
                    error: String::from_str("IPv6 address is not exactly sixteen bytes"),
                })
            }
        },
        SupportedAttributeTypes::IPv6Prefix => {
            if data.len() < 2 {
                return Err(RadiusError::MalformedIpAddrError {
                    error: String::from_str("IPv6 prefix is shorter than two bytes"),
                });
            }
            let prefix_length = *vstd::slice::slice_index_get(data, 1);
            if prefix_length > 128 {
                return Err(RadiusError::MalformedIpAddrError {
                    error: String::from_str("IPv6 prefix length is above 128"),
                });
            }
            let count: usize = (prefix_length as usize + 7) / 8;
            if data.len() - 2 != count {
                return Err(RadiusError::MalformedIpAddrError {
                    error: String::from_str(
                        "IPv6 prefix byte count disagrees with the prefix length",
                    ),
                });
            }
            let mut address = slice_to_vec(slice_subrange(data, 2, data.len()));
            while address.len() < 16
                invariant
                    count <= address@.len() <= 16,
                    address@ == data@.skip(2) + Seq::new(
                        (address@.len() - count) as nat,
                        |i: int| 0u8,
                    ),
                decreases 16 - address@.len(),
            {
                address.push(0u8);
                proof {
                    assert(address@ =~= data@.skip(2) + Seq::new(
                        (address@.len() - count) as nat,
                        |i: int| 0u8,
                    ));
                }
            }
            proof {
                assert(data@.skip(2) + Seq::new((16 - count) as nat, |i: int| 0u8) == address@);
            }
            Ok(TypedValue::Ipv6PrefixVal { prefix_length, address })
        },
        SupportedAttributeTypes::InterfaceId => {
            if data.len() == 8 {
                Ok(TypedValue::InterfaceIdVal(slice_to_vec(data)))
            } else {
                Err(RadiusError::MalformedIfIdError {
                    error: String::from_str("interface id is not exactly eight bytes"),
                })
            }
        },
    }
}

/// Encodes a semantic value under a declared value type. Fails with a
/// malformed-attribute error exactly when the value does not fit the
/// type: a mismatched variant or a wrong address byte count. An IPv6
/// prefix is canonicalized: bits beyond the prefix length are cleared
/// before the address is truncated to the covered bytes.
pub fn encode_value(code_type: SupportedAttributeTypes, value: &TypedValue) -> (result: Result<
    Vec<u8>,
    RadiusError,
>)
    ensures
        result is Ok <==> spec_value_in_domain(code_type, value@),
        result matches Ok(data) ==> data@ == spec_encode_value(code_type, value@),
        result matches Err(e) ==> e matches RadiusError::MalformedAttributeError { .. },
{
    match (code_type, value) {
        (SupportedAttributeTypes::AsciiString, TypedValue::Text(text)) => {
            Ok(string_to_bytes(text.as_str()))
        },
        (SupportedAttributeTypes::ByteString, TypedValue::Octets(data)) => {
            Ok(data.clone())
        },
        (SupportedAttributeTypes::Integer, TypedValue::Unsigned(number))
        | (SupportedAttributeTypes::Date, TypedValue::Unsigned(number)) => {
            Ok(integer_to_bytes(*number))
        },
        (SupportedAttributeTypes::IPv4Addr, TypedValue::Ipv4(address)) => {
            if address.len() == 4 {
                Ok(address.clone())
            } else {
                Err(RadiusError::MalformedAttributeError {
                    error: String::from_str("IPv4 address is not exactly four bytes"),
                })
            }
        },
        (SupportedAttributeTypes::IPv6Addr, TypedValue::Ipv6(address)) => {
            if address.len() == 16 {
                Ok(address.clone())
            } else {
                Err(RadiusError::MalformedAttributeError {
                    error: String::from_str("IPv6 address is not exactly sixteen bytes"),
                })
            }
        },
        (
            SupportedAttributeTypes::IPv6Prefix,
            TypedValue::Ipv6PrefixVal { prefix_length, address },
        ) => {
            if *prefix_length > 128 {
                return Err(RadiusError::MalformedAttributeError {
                    error: String::from_str("IPv6 prefix length is above 128"),
                });
            }
            if address.len() != 16 {
                return Err(RadiusError::MalformedAttributeError {
                    error: String::from_str("IPv6 prefix address is not exactly sixteen bytes"),
                });
            }
            let masked = mask_address(address, *prefix_length);
            let count: usize = (*prefix_length as usize + 7) / 8;
            let mut data: Vec<u8> = Vec::new();
            data.push(0u8);
            data.push(*prefix_length);
            let truncated = slice_subrange(masked.as_slice(), 0, count);
            data.extend_from_slice(truncated);
            proof {
                assert(data@ =~= spec_encode_value(code_type, value@));
            }
            Ok(data)
        },
        (SupportedAttributeTypes::InterfaceId, TypedValue::InterfaceIdVal(interface)) => {
            if interface.len() == 8 {
                Ok(interface.clone())
            } else {
                Err(RadiusError::MalformedAttributeError {
                    error: String::from_str("interface id is not exactly eight bytes"),
                })
            }
        },
        _ => Err(RadiusError::MalformedAttributeError {
            error: String::from_str("value variant does not fit the declared attribute type"),
        }),
    }
}

/// The text rendering of a decoded semantic value, for the value types
/// that have one: text itself, and the three address shapes.
pub open spec fn spec_value_text(value: SpecTypedValue) -> Option<Seq<char>> {
    match value {
        SpecTypedValue::Text(text) => Some(text),
        SpecTypedValue::Ipv4(address) => Some(spec_ipv4_text(address)),
        SpecTypedValue::Ipv6(address) => Some(spec_ipv6_text(address)),
        SpecTypedValue::Ipv6PrefixVal { prefix_length, address } => Some(
            spec_ipv6_prefix_text(prefix_length, address),
        ),
        SpecTypedValue::Unsigned(_) => None,
        SpecTypedValue::InterfaceIdVal(_) => None,
        SpecTypedValue::Octets(_) => None,
    }
}

} // verus!
