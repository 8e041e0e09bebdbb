//! The client: it owns a host, the server's address, the shared secret
//! and the retry policy; it builds packets and attributes, and verifies
//! replies. The blocking UDP exchange itself is a transport concern
//! left to the surrounding program: this module supplies the wire
//! bytes, the remote address text, the retry bound, and the checks a
//! reply must pass before it is trusted.

use vstd::prelude::*;
use vstd::slice::slice_subrange;
use vstd::string::StringExecFns;
use vstd::utf8::encode_utf8;

use crate::dictionary::{spec_find_by_id, spec_find_by_name, Dictionary, SupportedAttributeTypes};
use crate::error::RadiusError;
use crate::hash::{hmac_md5_bytes, md5_bytes, spec_hmac_md5, spec_md5};
use crate::host::{
    spec_all_attributes_valid, spec_find_attribute, spec_port_for, Host, SpecHost,
};
use crate::radius_packet::{
    spec_attribute_views, spec_attributes_wf, spec_encode_attributes, spec_header_ok,
    spec_packet_wf, spec_parse_attributes, spec_parse_packet, spec_to_bytes, spec_type_code_from,
    spec_wire_ok, RadiusAttribute, RadiusPacket, SpecAttribute, TypeCode,
};
use crate::value::{spec_decode_value, spec_value_text, SpecTypedValue};
use crate::tools::{bytes_equal, push_u16_decimal, spec_u16_decimal, string_to_bytes};

verus! {

/// The sixteen digest bytes that seal a reply: the MD5 digest of the
/// reply's first four bytes (code, identifier, length), the request's
/// authenticator, the reply's attribute bytes, and the shared secret.
pub open spec fn spec_response_authenticator(
    reply: Seq<u8>,
    request_authenticator: Seq<u8>,
    secret: Seq<char>,
) -> Seq<u8> {
    spec_md5(reply.subrange(0, 4) + request_authenticator + reply.skip(20) + encode_utf8(secret))
}


/// Law: the response authenticator is a function of the reply's first
/// four bytes (code, identifier, length), its attribute bytes, the
/// request's authenticator and the secret alone; the reply's own
/// authenticator field does not enter the digest.
pub proof fn lemma_response_authenticator_inputs(
    reply1: Seq<u8>,
    reply2: Seq<u8>,
    request_authenticator: Seq<u8>,
    secret: Seq<char>,
)
    requires
        reply1.subrange(0, 4) == reply2.subrange(0, 4),
        reply1.skip(20) == reply2.skip(20),
    ensures
        spec_response_authenticator(reply1, request_authenticator, secret)
            == spec_response_authenticator(reply2, request_authenticator, secret),
{
}

/// The mathematical model of a client: its host, the server address
/// text, the shared secret, and the retry policy.
pub struct SpecClient {
    pub host: SpecHost,
    pub server: Seq<char>,
    pub secret: Seq<char>,
    pub retries: u16,
    pub timeout: u16,
}

/// A RADIUS client: a host plus server address, shared secret and
/// retry policy. One client serves many independent exchanges and
/// holds no per-exchange state.
#[derive(Debug)]
pub struct Client {
    host: Host,
    server: String,
    secret: String,
    retries: u16,
    timeout: u16,
}

impl View for Client {
    type V = SpecClient;

    closed spec fn view(&self) -> SpecClient {
        SpecClient {
            host: self.host@,
            server: self.server@,
            secret: self.secret@,
            retries: self.retries,
            timeout: self.timeout,
        }
    }
}

impl Client {
    /// Builds a client from ports, dictionary, server address, shared
    /// secret, retry count and timeout.
    pub fn initialise_client(
        auth_port: u16,
        acct_port: u16,
        coa_port: u16,
        dictionary: Dictionary,
        server: String,
        secret: String,
        retries: u16,
        timeout: u16,
    ) -> (result: Result<Client, RadiusError>)
        ensures
            result matches Ok(client) && client@ == (SpecClient {
                host: SpecHost {
                    auth_port,
                    acct_port,
                    coa_port,
                    dictionary: dictionary@,
                },
                server: server@,
                secret: secret@,
                retries,
                timeout,
            }),
    {
        Ok(
            Client {
                host: Host::initialise_host(auth_port, acct_port, coa_port, dictionary),
                server,
                secret,
                retries,
                timeout,
            },
        )
    }

    /// How many send attempts an exchange may make.
    pub fn retries(&self) -> (result: u16)
        ensures
            result == self@.retries,
    {
        self.retries
    }

    /// The per-attempt timeout, in seconds.
    pub fn timeout(&self) -> (result: u16)
        ensures
            result == self@.timeout,
    {
        self.timeout
    }

    /// The address text an exchange for this packet code sends to: the
    /// server address, a colon, and the port that serves the code.
    pub fn remote_address_for(&self, code: &TypeCode) -> (result: String)
        ensures
            result@ == self@.server + seq![':'] + spec_u16_decimal(
                spec_port_for(self@.host, *code) as int,
            ),
    {
        proof {
            reveal_strlit(":");
            assert((":")@ =~= seq![':']);
        }
        let mut out: String = self.server.clone();
        out.append(":");
        push_u16_decimal(&mut out, self.host.port(code));
        out
    }

    /// Builds a packet of any code from attributes, with identifier 0
    /// and an all-zero authenticator.
    pub fn create_packet(&self, code: TypeCode, attributes: Vec<RadiusAttribute>) -> (result:
        RadiusPacket)
        requires
            spec_attributes_wf(spec_attribute_views(attributes@)),
            20 + spec_encode_attributes(spec_attribute_views(attributes@)).len() <= 0xffff,
        ensures
            result@.code == code,
            result@.identifier == 0,
            result@.authenticator == Seq::<u8>::new(16, |i: int| 0u8),
            result@.attributes == spec_attribute_views(attributes@),
            spec_packet_wf(result@),
    {
        RadiusPacket::initialise_packet(code, attributes)
    }

    /// Builds an access-request packet from attributes.
    pub fn create_auth_packet(&self, attributes: Vec<RadiusAttribute>) -> (result: RadiusPacket)
        requires
            spec_attributes_wf(spec_attribute_views(attributes@)),
            20 + spec_encode_attributes(spec_attribute_views(attributes@)).len() <= 0xffff,
        ensures
            result@.code == TypeCode::AccessRequest,
            result@.identifier == 0,
            result@.authenticator == Seq::<u8>::new(16, |i: int| 0u8),
            result@.attributes == spec_attribute_views(attributes@),
            spec_packet_wf(result@),
    {
        RadiusPacket::initialise_packet(TypeCode::AccessRequest, attributes)
    }

    /// Builds an accounting-request packet from attributes.
    pub fn create_acct_packet(&self, attributes: Vec<RadiusAttribute>) -> (result: RadiusPacket)
        requires
            spec_attributes_wf(spec_attribute_views(attributes@)),
            20 + spec_encode_attributes(spec_attribute_views(attributes@)).len() <= 0xffff,
        ensures
            result@.code == TypeCode::AccountingRequest,
            result@.identifier == 0,
            result@.authenticator == Seq::<u8>::new(16, |i: int| 0u8),
            result@.attributes == spec_attribute_views(attributes@),
            spec_packet_wf(result@),
    {
        RadiusPacket::initialise_packet(TypeCode::AccountingRequest, attributes)
    }

    /// Builds a change-of-authorization request packet from attributes.
    pub fn create_coa_packet(&self, attributes: Vec<RadiusAttribute>) -> (result: RadiusPacket)
        requires
            spec_attributes_wf(spec_attribute_views(attributes@)),
            20 + spec_encode_attributes(spec_attribute_views(attributes@)).len() <= 0xffff,
        ensures
            result@.code == TypeCode::CoARequest,
            result@.identifier == 0,
            result@.authenticator == Seq::<u8>::new(16, |i: int| 0u8),
            result@.attributes == spec_attribute_views(attributes@),
            spec_packet_wf(result@),
    {
        RadiusPacket::initialise_packet(TypeCode::CoARequest, attributes)
    }

    /// Builds an attribute whose id the dictionary assigns to this name.
    pub fn create_attribute_by_name(&self, attribute_name: &str, value: Vec<u8>) -> (result:
        Result<RadiusAttribute, RadiusError>)
        ensures
            result is Ok <==> spec_find_by_name(self@.host.dictionary, attribute_name@) is Some
                && value@.len() <= 253,
            result matches Ok(attribute) ==> attribute@ == (SpecAttribute {
                id: spec_find_by_name(self@.host.dictionary, attribute_name@).unwrap().id,
                value: value@,
            }),
            result matches Err(e) ==> e matches RadiusError::MalformedAttributeError { .. },
    {
        self.host.create_attribute_by_name(attribute_name, value)
    }

    /// Builds an attribute with this numeric id, which the dictionary
    /// must know.
    pub fn create_attribute_by_id(&self, attribute_id: u8, value: Vec<u8>) -> (result: Result<
        RadiusAttribute,
        RadiusError,
    >)
        ensures
            result is Ok <==> spec_find_by_id(self@.host.dictionary, attribute_id) is Some
                && value@.len() <= 253,
            result matches Ok(attribute) ==> attribute@ == (SpecAttribute {
                id: attribute_id,
                value: value@,
            }),
            result matches Err(e) ==> e matches RadiusError::MalformedAttributeError { .. },
    {
        self.host.create_attribute_by_id(attribute_id, value)
    }

    /// The keyed HMAC-MD5 digest of the packet's wire bytes under the
    /// shared secret, as carried by a message-authenticator attribute.
    pub fn generate_message_hash(&self, packet: &RadiusPacket) -> (result: Vec<u8>)
        requires
            spec_packet_wf(packet@),
        ensures
            result@ == spec_hmac_md5(encode_utf8(self@.secret), spec_to_bytes(packet@)),
            result@.len() == 16,
    {
        let secret_bytes = string_to_bytes(self.secret.as_str());
        let wire = packet.to_bytes();
        hmac_md5_bytes(secret_bytes.as_slice(), wire.as_slice())
    }

    /// The text a dictionary-typed attribute's value stands for, for
    /// the value types that have a text form.
    pub fn radius_attr_original_string_value(&self, attribute: &RadiusAttribute) -> (result:
        Result<String, RadiusError>)
        ensures
            result is Ok <==> (match spec_find_by_id(self@.host.dictionary, attribute@.id) {
                Some(definition) => (match spec_decode_value(
                    definition.code_type,
                    attribute@.value,
                ) {
                    Some(decoded) => spec_value_text(decoded) is Some,
                    None => false,
                }),
                None => false,
            }),
            result matches Ok(text) ==> Some(text@) == spec_value_text(
                spec_decode_value(
                    spec_find_by_id(self@.host.dictionary, attribute@.id).unwrap().code_type,
                    attribute@.value,
                ).unwrap(),
            ),
            spec_find_by_id(self@.host.dictionary, attribute@.id) is None ==> (result matches Err(
                e,
            ) && e matches RadiusError::MalformedAttributeError { .. }),
            (match spec_find_by_id(self@.host.dictionary, attribute@.id) {
                Some(definition) => result matches Err(e) ==> (match definition.code_type {
                    SupportedAttributeTypes::AsciiString
                    | SupportedAttributeTypes::ByteString
                    | SupportedAttributeTypes::Integer
                    | SupportedAttributeTypes::Date => e
                        matches RadiusError::MalformedAttributeError { .. },
                    SupportedAttributeTypes::IPv4Addr
                    | SupportedAttributeTypes::IPv6Addr
                    | SupportedAttributeTypes::IPv6Prefix => e
                        matches RadiusError::MalformedIpAddrError { .. },
                    SupportedAttributeTypes::InterfaceId => e
                        matches RadiusError::MalformedIfIdError { .. } || e
                        matches RadiusError::MalformedAttributeError { .. },
                }),
                None => true,
            }),
    {
        let definition = match self.host.dictionary_attribute_by_id(attribute.id()) {
            Some(definition) => definition,
            None => {
                return Err(RadiusError::MalformedAttributeError {
                    error: String::from_str("attribute id is not in the dictionary"),
                });
            },
        };
        attribute.original_string_value(definition.code_type())
    }

    /// The number a dictionary-typed attribute's value stands for, for
    /// the integer and date value types.
    pub fn radius_attr_original_integer_value(&self, attribute: &RadiusAttribute) -> (result:
        Result<u64, RadiusError>)
        ensures
            result is Ok <==> (match spec_find_by_id(self@.host.dictionary, attribute@.id) {
                Some(definition) => (match spec_decode_value(
                    definition.code_type,
                    attribute@.value,
                ) {
                    Some(decoded) => decoded is Unsigned,
                    None => false,
                }),
                None => false,
            }),
            result matches Ok(number) ==> spec_decode_value(
                spec_find_by_id(self@.host.dictionary, attribute@.id).unwrap().code_type,
                attribute@.value,
            ) == Some(SpecTypedValue::Unsigned(number as u32)) && number <= u32::MAX,
            spec_find_by_id(self@.host.dictionary, attribute@.id) is None ==> (result matches Err(
                e,
            ) && e matches RadiusError::MalformedAttributeError { .. }),
            (match spec_find_by_id(self@.host.dictionary, attribute@.id) {
                Some(definition) => result matches Err(e) ==> (match definition.code_type {
                    SupportedAttributeTypes::AsciiString
                    | SupportedAttributeTypes::ByteString
                    | SupportedAttributeTypes::Integer
                    | SupportedAttributeTypes::Date => e
                        matches RadiusError::MalformedAttributeError { .. },
                    SupportedAttributeTypes::IPv4Addr
                    | SupportedAttributeTypes::IPv6Addr
                    | SupportedAttributeTypes::IPv6Prefix => e
                        matches RadiusError::MalformedIpAddrError { .. } || e
                        matches RadiusError::MalformedAttributeError { .. },
                    SupportedAttributeTypes::InterfaceId => e
                        matches RadiusError::MalformedIfIdError { .. } || e
                        matches RadiusError::MalformedAttributeError { .. },
                }),
                None => true,
            }),
    {
        let definition = match self.host.dictionary_attribute_by_id(attribute.id()) {
            Some(definition) => definition,
            None => {
                return Err(RadiusError::MalformedAttributeError {
                    error: String::from_str("attribute id is not in the dictionary"),
                });
            },
        };
        attribute.original_integer_value(definition.code_type())
    }

    /// Parses wire bytes into a packet.
    pub fn initialise_packet_from_bytes(&self, reply: &[u8]) -> (result: Result<
        RadiusPacket,
        RadiusError,
    >)
        ensures
            result is Ok <==> spec_wire_ok(reply@),
            result matches Ok(packet) ==> packet@ == spec_parse_packet(reply@) && spec_packet_wf(
                packet@,
            ),
            reply@.len() < 20 ==> (result matches Err(e)
                && e matches RadiusError::MalformedPacketError { .. }),
            reply@.len() >= 20 && !spec_header_ok(reply@) ==> (result matches Err(e)
                && e matches RadiusError::MalformedPacketError { .. }),
            spec_header_ok(reply@) && spec_type_code_from(reply@[0]) is None ==> (result matches Err(
                e,
            ) && e matches RadiusError::UnsupportedTypeCodeError { .. }),
            spec_header_ok(reply@) && spec_type_code_from(reply@[0]) is Some
                && spec_parse_attributes(reply@.skip(20)) is None ==> (result matches Err(e)
                && e matches RadiusError::MalformedPacketError { .. }),
    {
        self.host.initialise_packet_from_bytes(reply)
    }

    /// Checks a reply against the request it answers: the identifiers
    /// must match, and the reply's authenticator field must equal the
    /// response authenticator recomputed from the reply's bytes, the
    /// request's authenticator, and the shared secret. An identifier
    /// mismatch is rejected whatever the authenticator bytes hold.
    pub fn verify_reply(&self, request: &RadiusPacket, reply: &[u8]) -> (result: Result<
        (),
        RadiusError,
    >)
        requires
            reply@.len() >= 20,
        ensures
            result is Ok <==> request@.identifier == reply@[1] && reply@.subrange(4, 20)
                == spec_response_authenticator(reply@, request@.authenticator, self@.secret),
            result matches Err(e) ==> e matches RadiusError::ValidationError { .. },
    {
        if request.id() != *vstd::slice::slice_index_get(reply, 1) {
            return Err(RadiusError::ValidationError {
                error: String::from_str("packet identifier mismatch"),
            });
        }
        let mut hashed: Vec<u8> = Vec::new();
        hashed.extend_from_slice(slice_subrange(reply, 0, 4));
        hashed.extend_from_slice(request.authenticator().as_slice());
        hashed.extend_from_slice(slice_subrange(reply, 20, reply.len()));
        let secret_bytes = string_to_bytes(self.secret.as_str());
        hashed.extend_from_slice(secret_bytes.as_slice());
        proof {
            assert(hashed@ =~= reply@.subrange(0, 4) + request@.authenticator + reply@.skip(20)
                + encode_utf8(self@.secret));
        }
        let digest = md5_bytes(hashed.as_slice());
        if bytes_equal(digest.as_slice(), slice_subrange(reply, 4, 20)) {
            Ok(())
        } else {
            Err(RadiusError::ValidationError {
                error: String::from_str("packet authenticator mismatch"),
            })
        }
    }

    /// Checks a reply packet's message-authenticator attribute under
    /// the shared secret.
    pub fn verify_message_authenticator(&self, packet: &[u8]) -> (result: Result<(), RadiusError>)
        ensures
            result is Ok <==> spec_wire_ok(packet@) && (match spec_find_by_name(
                self@.host.dictionary,
                "Message-Authenticator"@,
            ) {
                Some(definition) => (match spec_find_attribute(
                    spec_parse_packet(packet@).attributes,
                    definition.id,
                ) {
                    Some(attribute) => attribute.value == spec_hmac_md5(
                        encode_utf8(self@.secret),
                        packet@,
                    ),
                    None => false,
                }),
                None => false,
            }),
    {
        self.host.verify_message_authenticator(self.secret.as_str(), packet)
    }

    /// Checks that every attribute of a wire packet is known to the
    /// dictionary and decodes under its declared value type.
    pub fn verify_packet_attributes(&self, packet: &[u8]) -> (result: Result<(), RadiusError>)
        ensures
            result is Ok <==> spec_wire_ok(packet@) && spec_all_attributes_valid(
                self@.host.dictionary,
                spec_parse_packet(packet@).attributes,
            ),
            spec_wire_ok(packet@) ==> (result matches Err(e) ==> (e
                matches RadiusError::MalformedAttributeError { .. } || e
                matches RadiusError::MalformedIpAddrError { .. } || e
                matches RadiusError::MalformedIfIdError { .. })),
            !spec_wire_ok(packet@) ==> (result matches Err(e) && (e
                matches RadiusError::MalformedPacketError { .. } || e
                matches RadiusError::UnsupportedTypeCodeError { .. })),
    {
        self.host.verify_packet_attributes(packet)
    }
}

} // verus!
