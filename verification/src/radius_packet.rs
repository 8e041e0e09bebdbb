//! The RADIUS packet and attribute codec: the wire format of a packet
//! (a 20-byte header followed by type-length-value attributes), its
//! serializer and parser, and the round-trip laws between them.

use vstd::prelude::*;
use vstd::slice::{slice_index_get, slice_subrange, slice_to_vec};
use vstd::string::StringExecFns;

use crate::dictionary::SupportedAttributeTypes;
use crate::error::RadiusError;
use crate::tools::{bytes_to_ipv4_string, bytes_to_ipv6_string, ipv6_prefix_to_string};
use crate::value::{decode_value, spec_decode_value, spec_value_text, SpecTypedValue, TypedValue};

verus! {

/// The closed set of RADIUS packet codes this library handles. A wire
/// code outside this set is a hard error, never a silent pass-through.
#[derive(Clone, Copy, Debug, PartialEq, Eq, Structural)]
pub enum TypeCode {
    AccessRequest,
    AccessAccept,
    AccessReject,
    AccountingRequest,
    AccountingResponse,
    AccessChallenge,
    CoARequest,
    CoAACK,
    CoANAK,
}

/// The wire value of each packet code.
pub open spec fn spec_type_code_value(code: TypeCode) -> u8 {
    match code {
        TypeCode::AccessRequest => 1,
        TypeCode::AccessAccept => 2,
        TypeCode::AccessReject => 3,
        TypeCode::AccountingRequest => 4,
        TypeCode::AccountingResponse => 5,
        TypeCode::AccessChallenge => 11,
        TypeCode::CoARequest => 43,
        TypeCode::CoAACK => 44,
        TypeCode::CoANAK => 45,
    }
}

/// The packet code a wire byte stands for, if any.
pub open spec fn spec_type_code_from(value: u8) -> Option<TypeCode> {
    if value == 1 {
        Some(TypeCode::AccessRequest)
    } else if value == 2 {
        Some(TypeCode::AccessAccept)
    } else if value == 3 {
        Some(TypeCode::AccessReject)
    } else if value == 4 {
        Some(TypeCode::AccountingRequest)
    } else if value == 5 {
        Some(TypeCode::AccountingResponse)
    } else if value == 11 {
        Some(TypeCode::AccessChallenge)
    } else if value == 43 {
        Some(TypeCode::CoARequest)
    } else if value == 44 {
        Some(TypeCode::CoAACK)
    } else if value == 45 {
        Some(TypeCode::CoANAK)
    } else {
        None
    }
}

impl TypeCode {
    /// The wire value of this packet code.
    pub fn to_u8(&self) -> (result: u8)
        ensures
            result == spec_type_code_value(*self),
    {
        match self {
            TypeCode::AccessRequest => 1,
            TypeCode::AccessAccept => 2,
            TypeCode::AccessReject => 3,
            TypeCode::AccountingRequest => 4,
            TypeCode::AccountingResponse => 5,
            TypeCode::AccessChallenge => 11,
            TypeCode::CoARequest => 43,
            TypeCode::CoAACK => 44,
            TypeCode::CoANAK => 45,
        }
    }

    /// The packet code a wire byte stands for, if any.
    pub fn from_u8(value: u8) -> (result: Option<TypeCode>)
        ensures
            result == spec_type_code_from(value),
    {
        if value == 1 {
            Some(TypeCode::AccessRequest)
        } else if value == 2 {
            Some(TypeCode::AccessAccept)
        } else if value == 3 {
            Some(TypeCode::AccessReject)
        } else if value == 4 {
            Some(TypeCode::AccountingRequest)
        } else if value == 5 {
            Some(TypeCode::AccountingResponse)
        } else if value == 11 {
            Some(TypeCode::AccessChallenge)
        } else if value == 43 {
            Some(TypeCode::CoARequest)
        } else if value == 44 {
            Some(TypeCode::CoAACK)
        } else if value == 45 {
            Some(TypeCode::CoANAK)
        } else {
            None
        }
    }
}

/// Reading back the wire value of a code yields that code again.
pub proof fn lemma_type_code_round_trip(code: TypeCode)
    ensures
        spec_type_code_from(spec_type_code_value(code)) == Some(code),
{
}

/// The mathematical model of one attribute: its numeric id and its raw
/// value bytes.
pub struct SpecAttribute {
    pub id: u8,
    pub value: Seq<u8>,
}

/// An attribute's value must leave room for the two-byte type-length
/// header inside the one-byte length field: at most 253 value bytes.
pub open spec fn spec_attribute_wf(attribute: SpecAttribute) -> bool {
    attribute.value.len() <= 253
}

/// One attribute on the wire: id, length (two more than the value), value.
pub open spec fn spec_encode_attribute(attribute: SpecAttribute) -> Seq<u8> {
    seq![attribute.id, (attribute.value.len() + 2) as u8] + attribute.value
}

/// The attributes of a packet on the wire, in stored order.
pub open spec fn spec_encode_attributes(attributes: Seq<SpecAttribute>) -> Seq<u8>
    decreases attributes.len(),
{
    if attributes.len() == 0 {
        Seq::empty()
    } else {
        spec_encode_attribute(attributes[0]) + spec_encode_attributes(attributes.drop_first())
    }
}

/// Parses a byte region as a sequence of attributes. `None` when an
/// attribute's declared length is below 2 or reads past the region end.
pub open spec fn spec_parse_attributes(bytes: Seq<u8>) -> Option<Seq<SpecAttribute>>
    decreases bytes.len(),
{
    if bytes.len() == 0 {
        Some(Seq::empty())
    } else if bytes.len() < 2 {
        None
    } else {
        let length = bytes[1] as int;
        if length < 2 || length > bytes.len() {
            None
        } else {
            match spec_parse_attributes(bytes.skip(length)) {
                None => None,
                Some(rest) => Some(
                    seq![SpecAttribute { id: bytes[0], value: bytes.subrange(2, length) }] + rest,
                ),
            }
        }
    }
}

/// A single attribute of a RADIUS packet: a numeric id and raw value
/// bytes, at most 253 of them.
#[derive(Clone, Debug)]
pub struct RadiusAttribute {
    id: u8,
    value: Vec<u8>,
}

impl View for RadiusAttribute {
    type V = SpecAttribute;

    closed spec fn view(&self) -> SpecAttribute {
        SpecAttribute { id: self.id, value: self.value@ }
    }
}

impl RadiusAttribute {
    /// Builds an attribute from an id and raw value bytes; rejects a
    /// value too long for the one-byte length field.
    pub fn from_parts(id: u8, value: Vec<u8>) -> (result: Result<RadiusAttribute, RadiusError>)
        ensures
            value@.len() <= 253 <==> result is Ok,
            result matches Ok(attribute) ==> attribute@ == (SpecAttribute { id: id, value: value@ }),
            result matches Err(e) ==> e matches RadiusError::MalformedAttributeError { .. },
    {
        if value.len() <= 253 {
            Ok(RadiusAttribute { id, value })
        } else {
            Err(RadiusError::MalformedAttributeError {
                error: String::from_str("attribute value longer than 253 bytes"),
            })
        }
    }

    /// The attribute's numeric id.
    pub fn id(&self) -> (result: u8)
        ensures
            result == self@.id,
    {
        self.id
    }

    /// The attribute's raw value bytes.
    pub fn value(&self) -> (result: &Vec<u8>)
        ensures
            result@ == self@.value,
    {
        &self.value
    }

    /// The attribute's value rendered as text under a declared value
    /// type: the decoded text for the string type, dotted decimal for
    /// an IPv4 address, colon-separated groups for an IPv6 address, and
    /// address-slash-length for an IPv6 prefix. Fails when the bytes do
    /// not decode under the type, or when the type has no text form.
    pub fn original_string_value(&self, code_type: SupportedAttributeTypes) -> (result: Result<
        String,
        RadiusError,
    >)
        ensures
            result is Ok <==> (spec_decode_value(code_type, self@.value) matches Some(decoded)
                && spec_value_text(decoded) is Some),
            result matches Ok(text) ==> Some(text@) == spec_value_text(
                spec_decode_value(code_type, self@.value).unwrap(),
            ),
            result matches Err(e) ==> (match code_type {
                SupportedAttributeTypes::AsciiString
                | SupportedAttributeTypes::ByteString
                | SupportedAttributeTypes::Integer
                | SupportedAttributeTypes::Date => e
                    matches RadiusError::MalformedAttributeError { .. },
                SupportedAttributeTypes::IPv4Addr
                | SupportedAttributeTypes::IPv6Addr
                | SupportedAttributeTypes::IPv6Prefix => e
                    matches RadiusError::MalformedIpAddrError { .. },
                SupportedAttributeTypes::InterfaceId => e
                    matches RadiusError::MalformedIfIdError { .. } || e
                    matches RadiusError::MalformedAttributeError { .. },
            }),
    {
        match decode_value(code_type, self.value.as_slice()) {
            Err(e) => Err(e),
            Ok(TypedValue::Text(text)) => Ok(text),
            Ok(TypedValue::Ipv4(address)) => Ok(bytes_to_ipv4_string(address.as_slice())),
            Ok(TypedValue::Ipv6(address)) => Ok(bytes_to_ipv6_string(address.as_slice())),
            Ok(TypedValue::Ipv6PrefixVal { prefix_length, address }) => Ok(
                ipv6_prefix_to_string(prefix_length, address.as_slice()),
            ),
            Ok(_) => Err(RadiusError::MalformedAttributeError {
                error: String::from_str("attribute type has no text rendering"),
            }),
        }
    }

    /// The attribute's value as a number, for the integer and date
    /// value types: exactly four big-endian bytes. Fails otherwise.
    pub fn original_integer_value(&self, code_type: SupportedAttributeTypes) -> (result: Result<
        u64,
        RadiusError,
    >)
        ensures
            result is Ok <==> (spec_decode_value(code_type, self@.value) matches Some(decoded)
                && decoded is Unsigned),
            result matches Ok(number) ==> spec_decode_value(code_type, self@.value) == Some(
                SpecTypedValue::Unsigned(number as u32),
            ) && number <= u32::MAX,
            result matches Err(e) ==> (match code_type {
                SupportedAttributeTypes::AsciiString
                | SupportedAttributeTypes::ByteString
                | SupportedAttributeTypes::Integer
                | SupportedAttributeTypes::Date => e
                    matches RadiusError::MalformedAttributeError { .. },
                SupportedAttributeTypes::IPv4Addr
                | SupportedAttributeTypes::IPv6Addr
                | SupportedAttributeTypes::IPv6Prefix => e
                    matches RadiusError::MalformedIpAddrError { .. } || e
                    matches RadiusError::MalformedAttributeError { .. },
                SupportedAttributeTypes::InterfaceId => e
                    matches RadiusError::MalformedIfIdError { .. } || e
                    matches RadiusError::MalformedAttributeError { .. },
            }),
    {
        match decode_value(code_type, self.value.as_slice()) {
            Err(e) => Err(e),
            Ok(TypedValue::Unsigned(number)) => Ok(number as u64),
            Ok(_) => Err(RadiusError::MalformedAttributeError {
                error: String::from_str("attribute type is not a number"),
            }),
        }
    }
}

/// The mathematical model of a packet: code, identifier, the sixteen
/// authenticator bytes, and the attributes in wire order.
pub struct SpecPacket {
    pub code: TypeCode,
    pub identifier: u8,
    pub authenticator: Seq<u8>,
    pub attributes: Seq<SpecAttribute>,
}

/// Every attribute fits its length byte.
pub open spec fn spec_attributes_wf(attributes: Seq<SpecAttribute>) -> bool {
    forall|i: int| 0 <= i < attributes.len() ==> spec_attribute_wf(#[trigger] attributes[i])
}

/// The derived total length of a packet: the 20-byte header plus the
/// encoded attributes.
pub open spec fn spec_packet_length(packet: SpecPacket) -> int {
    20 + spec_encode_attributes(packet.attributes).len() as int
}

/// A well-formed packet: a sixteen-byte authenticator, well-formed
/// attributes, and a total length that fits the two-byte length field.
pub open spec fn spec_packet_wf(packet: SpecPacket) -> bool {
    &&& packet.authenticator.len() == 16
    &&& spec_attributes_wf(packet.attributes)
    &&& spec_packet_length(packet) <= 0xffff
}

/// A packet on the wire: code, identifier, big-endian total length, the
/// sixteen authenticator bytes, then the attributes in stored order.
pub open spec fn spec_to_bytes(packet: SpecPacket) -> Seq<u8> {
    let length = spec_packet_length(packet);
    seq![
        spec_type_code_value(packet.code),
        packet.identifier,
        (length / 256) as u8,
        (length % 256) as u8,
    ] + packet.authenticator + spec_encode_attributes(packet.attributes)
}

/// The header is present and the declared length equals the buffer size.
pub open spec fn spec_header_ok(raw: Seq<u8>) -> bool {
    &&& raw.len() >= 20
    &&& (raw[2] as int) * 256 + (raw[3] as int) == raw.len()
}

/// The whole buffer parses as a packet: header consistent, known code,
/// attribute region well-formed.
pub open spec fn spec_wire_ok(raw: Seq<u8>) -> bool {
    &&& spec_header_ok(raw)
    &&& spec_type_code_from(raw[0]) is Some
    &&& spec_parse_attributes(raw.skip(20)) is Some
}

/// The packet a well-formed buffer stands for.
pub open spec fn spec_parse_packet(raw: Seq<u8>) -> SpecPacket {
    SpecPacket {
        code: spec_type_code_from(raw[0]).unwrap(),
        identifier: raw[1],
        authenticator: raw.subrange(4, 20),
        attributes: spec_parse_attributes(raw.skip(20)).unwrap(),
    }
}

/// A RADIUS packet held in memory: code, identifier, the sixteen
/// authenticator bytes, and the attributes in wire order.
#[derive(Clone, Debug)]
pub struct RadiusPacket {
    code: TypeCode,
    identifier: u8,
    authenticator: Vec<u8>,
    attributes: Vec<RadiusAttribute>,
}

/// The models of a sequence of attributes.
pub open spec fn spec_attribute_views(attributes: Seq<RadiusAttribute>) -> Seq<SpecAttribute> {
    attributes.map_values(|attribute: RadiusAttribute| attribute@)
}

impl View for RadiusPacket {
    type V = SpecPacket;

    closed spec fn view(&self) -> SpecPacket {
        SpecPacket {
            code: self.code,
            identifier: self.identifier,
            authenticator: self.authenticator@,
            attributes: spec_attribute_views(self.attributes@),
        }
    }
}

/// Encoding a sequence extended by one attribute appends that
/// attribute's encoding.
pub proof fn lemma_encode_attributes_push(attributes: Seq<SpecAttribute>, attribute: SpecAttribute)
    ensures
        spec_encode_attributes(attributes.push(attribute)) == spec_encode_attributes(attributes)
            + spec_encode_attribute(attribute),
    decreases attributes.len(),
{
    if attributes.len() == 0 {
        let pushed = attributes.push(attribute);
        assert(pushed[0] == attribute);
        assert(pushed.drop_first() =~= Seq::<SpecAttribute>::empty());
        assert(spec_encode_attributes(pushed) == spec_encode_attribute(attribute)
            + spec_encode_attributes(pushed.drop_first()));
        assert(spec_encode_attribute(attribute) + Seq::<u8>::empty() =~= spec_encode_attribute(
            attribute,
        ));
        assert(spec_encode_attributes(attributes) + spec_encode_attribute(attribute)
            =~= spec_encode_attribute(attribute));
    } else {
        assert(attributes.push(attribute).drop_first() =~= attributes.drop_first().push(attribute));
        lemma_encode_attributes_push(attributes.drop_first(), attribute);
        assert(spec_encode_attributes(attributes.push(attribute)) =~= spec_encode_attributes(
            attributes,
        ) + spec_encode_attribute(attribute));
    }
}

/// Parsing the encoding of well-formed attributes yields them back.
pub proof fn lemma_parse_encode_attributes(attributes: Seq<SpecAttribute>)
    requires
        spec_attributes_wf(attributes),
    ensures
        spec_parse_attributes(spec_encode_attributes(attributes)) == Some(attributes),
    decreases attributes.len(),
{
    if attributes.len() == 0 {
    } else {
        let first = attributes[0];
        let encoded = spec_encode_attributes(attributes);
        let length: int = first.value.len() as int + 2;
        assert(spec_attribute_wf(first));
        assert(encoded[1] == length as u8);
        assert(encoded[1] as int == length);
        assert(encoded.len() == length + spec_encode_attributes(attributes.drop_first()).len());
        assert(encoded.skip(length) =~= spec_encode_attributes(attributes.drop_first()));
        assert(spec_attributes_wf(attributes.drop_first()));
        lemma_parse_encode_attributes(attributes.drop_first());
        assert(encoded.subrange(2, length) =~= first.value);
        assert(SpecAttribute { id: encoded[0], value: encoded.subrange(2, length) } == first);
        assert(seq![first] + attributes.drop_first() =~= attributes);
    }
}

/// Re-encoding a parsed attribute region yields the region back; in
/// particular the parsed attributes are well-formed.
pub proof fn lemma_encode_parse_attributes(bytes: Seq<u8>)
    requires
        spec_parse_attributes(bytes) is Some,
    ensures
        spec_attributes_wf(spec_parse_attributes(bytes).unwrap()),
        spec_encode_attributes(spec_parse_attributes(bytes).unwrap()) == bytes,
    decreases bytes.len(),
{
    if bytes.len() == 0 {
        assert(spec_encode_attributes(Seq::<SpecAttribute>::empty()) =~= bytes);
    } else {
        let length = bytes[1] as int;
        let rest = spec_parse_attributes(bytes.skip(length)).unwrap();
        lemma_encode_parse_attributes(bytes.skip(length));
        let first = SpecAttribute { id: bytes[0], value: bytes.subrange(2, length) };
        let parsed = spec_parse_attributes(bytes).unwrap();
        assert(parsed == seq![first] + rest);
        assert(spec_attribute_wf(first));
        assert(parsed.drop_first() =~= rest);
        assert(parsed[0] == first);
        assert(spec_attributes_wf(parsed));
        assert(spec_encode_attribute(first) =~= bytes.take(length));
        assert(spec_encode_attributes(parsed) == spec_encode_attribute(first)
            + spec_encode_attributes(rest));
        assert(bytes.take(length) + bytes.skip(length) =~= bytes);
    }
}

/// Round trip of a whole packet: serializing a well-formed packet gives
/// a buffer that parses, and parsing gives the packet back with code,
/// identifier, authenticator and attributes all preserved.
pub proof fn lemma_packet_round_trip(packet: SpecPacket)
    requires
        spec_packet_wf(packet),
    ensures
        spec_wire_ok(spec_to_bytes(packet)),
        spec_parse_packet(spec_to_bytes(packet)) == packet,
{
    let raw = spec_to_bytes(packet);
    let length = spec_packet_length(packet);
    assert(raw.len() == length);
    assert(raw[2] as int == length / 256 && raw[3] as int == length % 256);
    assert((length / 256) * 256 + length % 256 == length);
    lemma_type_code_round_trip(packet.code);
    assert(raw.subrange(4, 20) =~= packet.authenticator);
    assert(raw.skip(20) =~= spec_encode_attributes(packet.attributes));
    lemma_parse_encode_attributes(packet.attributes);
}

/// Re-serializing a parsed buffer yields the buffer back.
pub proof fn lemma_packet_reserialize(raw: Seq<u8>)
    requires
        spec_wire_ok(raw),
    ensures
        spec_packet_wf(spec_parse_packet(raw)),
        spec_to_bytes(spec_parse_packet(raw)) == raw,
{
    let packet = spec_parse_packet(raw);
    lemma_encode_parse_attributes(raw.skip(20));
    assert(spec_encode_attributes(packet.attributes) == raw.skip(20));
    let length = spec_packet_length(packet);
    assert(length == raw.len());
    assert((raw[2] as int) * 256 + (raw[3] as int) == length);
    assert(raw[2] as int == length / 256 && raw[3] as int == length % 256);
    lemma_type_code_round_trip(packet.code);
    assert(spec_to_bytes(packet) =~= raw);
}

impl RadiusPacket {
    /// Builds a packet with identifier 0 and an all-zero authenticator;
    /// the caller overrides both before transmission.
    pub fn initialise_packet(code: TypeCode, attributes: Vec<RadiusAttribute>) -> (result:
        RadiusPacket)
        requires
            spec_attributes_wf(spec_attribute_views(attributes@)),
            20 + spec_encode_attributes(spec_attribute_views(attributes@)).len() <= 0xffff,
        ensures
            result@.code == code,
            result@.identifier == 0,
            result@.authenticator == Seq::<u8>::new(16, |i: int| 0u8),
            result@.attributes == spec_attribute_views(attributes@),
            spec_packet_wf(result@),
    {
        let mut authenticator: Vec<u8> = Vec::new();
        let mut k: usize = 0;
        while k < 16
            invariant
                k <= 16,
                authenticator@ =~= Seq::<u8>::new(k as nat, |i: int| 0u8),
            decreases 16 - k,
        {
            authenticator.push(0u8);
            k = k + 1;
        }
        proof {
            assert(authenticator@ =~= Seq::<u8>::new(16, |i: int| 0u8));
        }
        RadiusPacket { code, identifier: 0, authenticator, attributes }
    }

    /// The packet's code.
    pub fn code(&self) -> (result: &TypeCode)
        ensures
            *result == self@.code,
    {
        &self.code
    }

    /// The packet's identifier.
    pub fn id(&self) -> (result: u8)
        ensures
            result == self@.identifier,
    {
        self.identifier
    }

    /// The packet's sixteen authenticator bytes.
    pub fn authenticator(&self) -> (result: &Vec<u8>)
        ensures
            result@ == self@.authenticator,
    {
        &self.authenticator
    }

    /// The packet's attributes in wire order.
    pub fn attributes(&self) -> (result: &Vec<RadiusAttribute>)
        ensures
            spec_attribute_views(result@) == self@.attributes,
    {
        &self.attributes
    }

    /// Replaces the identifier, typically to echo a request's framing.
    pub fn override_id(&mut self, new_id: u8)
        ensures
            final(self)@ == (SpecPacket { identifier: new_id, ..old(self)@ }),
    {
        self.identifier = new_id;
    }

    /// Replaces the authenticator, typically with a freshly computed
    /// digest; it must be exactly sixteen bytes.
    pub fn override_authenticator(&mut self, new_authenticator: Vec<u8>)
        requires
            new_authenticator@.len() == 16,
        ensures
            final(self)@ == (SpecPacket { authenticator: new_authenticator@, ..old(self)@ }),
    {
        self.authenticator = new_authenticator;
    }

    /// Serializes the packet into its wire bytes.
    pub fn to_bytes(&self) -> (result: Vec<u8>)
        requires
            spec_packet_wf(self@),
        ensures
            result@ == spec_to_bytes(self@),
    {
        let ghost model = self@;
        let mut encoded_attributes: Vec<u8> = Vec::new();
        let mut k: usize = 0;
        while k < self.attributes.len()
            invariant
                k <= self.attributes.len(),
                spec_attributes_wf(model.attributes),
                model.attributes == spec_attribute_views(self.attributes@),
                encoded_attributes@ == spec_encode_attributes(model.attributes.take(k as int)),
            decreases self.attributes.len() - k,
        {
            let attribute = &self.attributes[k];
            assert(attribute@ == model.attributes[k as int]);
            assert(spec_attribute_wf(attribute@));
            encoded_attributes.push(attribute.id);
            assert(attribute.value@.len() + 2 <= 255);
            encoded_attributes.push((attribute.value.len() + 2) as u8);
            encoded_attributes.extend_from_slice(attribute.value.as_slice());
            proof {
                lemma_encode_attributes_push(
                    model.attributes.take(k as int),
                    model.attributes[k as int],
                );
                assert(model.attributes.take(k as int).push(model.attributes[k as int])
                    =~= model.attributes.take(k + 1));
                assert(encoded_attributes@ =~= spec_encode_attributes(
                    model.attributes.take(k + 1),
                ));
            }
            k = k + 1;
        }
        proof {
            assert(model.attributes.take(self.attributes.len() as int) =~= model.attributes);
        }
        let length: usize = 20 + encoded_attributes.len();
        assert(length == spec_packet_length(model));
        let mut result: Vec<u8> = Vec::new();
        result.push(self.code.to_u8());
        result.push(self.identifier);
        result.push((length / 256) as u8);
        result.push((length % 256) as u8);
        result.extend_from_slice(self.authenticator.as_slice());
        result.extend_from_slice(encoded_attributes.as_slice());
        proof {
            assert(result@ =~= spec_to_bytes(model));
        }
        result
    }

    /// Parses wire bytes into a packet. Fails with a malformed-packet
    /// error when the buffer is shorter than 20 bytes, when the declared
    /// length disagrees with the buffer size, or when an attribute's
    /// declared length is below 2 or reads past the end; fails with an
    /// unsupported-type-code error on an unknown code byte.
    pub fn initialise_packet_from_bytes(raw: &[u8]) -> (result: Result<RadiusPacket, RadiusError>)
        ensures
            result is Ok <==> spec_wire_ok(raw@),
            result matches Ok(packet) ==> packet@ == spec_parse_packet(raw@) && spec_packet_wf(
                packet@,
            ),
            raw@.len() < 20 ==> (result matches Err(e)
                && e matches RadiusError::MalformedPacketError { .. }),
            raw@.len() >= 20 && !spec_header_ok(raw@) ==> (result matches Err(e)
                && e matches RadiusError::MalformedPacketError { .. }),
            spec_header_ok(raw@) && spec_type_code_from(raw@[0]) is None ==> (result matches Err(e)
                && e matches RadiusError::UnsupportedTypeCodeError { .. }),
            spec_header_ok(raw@) && spec_type_code_from(raw@[0]) is Some && spec_parse_attributes(
                raw@.skip(20),
            ) is None ==> (result matches Err(e)
                && e matches RadiusError::MalformedPacketError { .. }),
    {
        if raw.len() < 20 {
            return Err(RadiusError::MalformedPacketError {
                error: String::from_str("packet is shorter than the 20-byte header"),
            });
        }
        let byte2 = *slice_index_get(raw, 2);
        let byte3 = *slice_index_get(raw, 3);
        let declared: usize = (byte2 as usize) * 256 + (byte3 as usize);
        if declared != raw.len() {
            return Err(RadiusError::MalformedPacketError {
                error: String::from_str("declared length disagrees with the buffer size"),
            });
        }
        let code = match TypeCode::from_u8(*slice_index_get(raw, 0)) {
            Some(code) => code,
            None => {
                return Err(RadiusError::UnsupportedTypeCodeError {
                    error: String::from_str("unknown packet code byte"),
                });
            },
        };
        let identifier = *slice_index_get(raw, 1);
        let authenticator = slice_to_vec(slice_subrange(raw, 4, 20));
        let mut attributes: Vec<RadiusAttribute> = Vec::new();
        let mut i: usize = 20;
        while i < raw.len()
            invariant
                20 <= i <= raw@.len(),
                raw@.len() <= 0xffff,
                spec_header_ok(raw@),
                spec_type_code_from(raw@[0]) is Some,
                spec_attributes_wf(spec_attribute_views(attributes@)),
                (match spec_parse_attributes(raw@.skip(i as int)) {
                    Some(rest) => spec_parse_attributes(raw@.skip(20)) == Some(
                        spec_attribute_views(attributes@) + rest,
                    ),
                    None => spec_parse_attributes(raw@.skip(20)) is None,
                }),
            decreases raw@.len() - i,
        {
            let ghost region = raw@.skip(i as int);
            assert(region.len() == raw@.len() - i);
            if i + 1 >= raw.len() {
                assert(region.len() < 2);
                return Err(RadiusError::MalformedPacketError {
                    error: String::from_str("truncated attribute header"),
                });
            }
            let attribute_id = *slice_index_get(raw, i);
            let attribute_length = *slice_index_get(raw, i + 1) as usize;
            assert(attribute_id == region[0] && attribute_length == region[1] as int);
            if attribute_length < 2 || i + attribute_length > raw.len() {
                assert((region[1] as int) < 2 || (region[1] as int) > region.len());
                return Err(RadiusError::MalformedPacketError {
                    error: String::from_str("attribute length is below 2 or past the buffer end"),
                });
            }
            let value = slice_to_vec(slice_subrange(raw, i + 2, i + attribute_length));
            proof {
                assert(value@ =~= region.subrange(2, attribute_length as int));
            }
            let ghost seen = attributes@;
            attributes.push(RadiusAttribute { id: attribute_id, value });
            proof {
                let first = SpecAttribute {
                    id: region[0],
                    value: region.subrange(2, attribute_length as int),
                };
                assert(raw@.skip(i + attribute_length) =~= region.skip(attribute_length as int));
                assert(spec_attribute_views(attributes@) =~= spec_attribute_views(seen).push(
                    first,
                ));
                if spec_parse_attributes(raw@.skip(i + attribute_length)) is Some {
                    let rest = spec_parse_attributes(raw@.skip(i + attribute_length)).unwrap();
                    assert(spec_parse_attributes(region) == Some(seq![first] + rest));
                    assert(spec_attribute_views(seen) + (seq![first] + rest)
                        =~= spec_attribute_views(attributes@) + rest);
                } else {
                    assert(spec_parse_attributes(region) is None);
                }
            }
            i = i + attribute_length;
        }
        proof {
            assert(raw@.skip(i as int) =~= Seq::<u8>::empty());
            assert(spec_parse_attributes(raw@.skip(i as int)) == Some(
                Seq::<SpecAttribute>::empty(),
            ));
            assert(spec_attribute_views(attributes@) + Seq::<SpecAttribute>::empty()
                =~= spec_attribute_views(attributes@));
            assert(spec_wire_ok(raw@));
            lemma_encode_parse_attributes(raw@.skip(20));
        }
        let packet = RadiusPacket { code, identifier, authenticator, attributes };
        proof {
            assert(packet@.authenticator =~= raw@.subrange(4, 20));
            assert(packet@ == spec_parse_packet(raw@));
            assert(spec_encode_attributes(packet@.attributes).len() == raw@.len() - 20);
        }
        Ok(packet)
    }
}

} // verus!
