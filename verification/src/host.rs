//! The host: the binding of message types to UDP port numbers and a
//! dictionary, with the attribute-creation and verification helpers
//! shared by the client and the server.

use vstd::prelude::*;
use vstd::string::StringExecFns;
use vstd::utf8::encode_utf8;

use crate::dictionary::{
    spec_find_by_id, spec_find_by_name, AttributeDefinition, Dictionary,
};
use crate::error::RadiusError;
use crate::hash::{hmac_md5_bytes, spec_hmac_md5};
use crate::radius_packet::{
    spec_attribute_views, spec_header_ok, spec_packet_wf, spec_parse_attributes, spec_parse_packet,
    spec_type_code_from, spec_wire_ok, RadiusAttribute, RadiusPacket, SpecAttribute, TypeCode,
};
use crate::tools::{bytes_equal, string_to_bytes};
use crate::value::{decode_value, spec_decode_value};

verus! {

/// The mathematical model of a host: its three port numbers and the
/// dictionary definitions it consults.
pub struct SpecHost {
    pub auth_port: u16,
    pub acct_port: u16,
    pub coa_port: u16,
    pub dictionary: Seq<AttributeDefinition>,
}

/// The port that serves a packet code: access codes go to the
/// authentication port, accounting codes to the accounting port, and
/// change-of-authorization codes to the CoA port.
pub open spec fn spec_port_for(host: SpecHost, code: TypeCode) -> u16 {
    match code {
        TypeCode::AccessRequest => host.auth_port,
        TypeCode::AccessAccept => host.auth_port,
        TypeCode::AccessReject => host.auth_port,
        TypeCode::AccessChallenge => host.auth_port,
        TypeCode::AccountingRequest => host.acct_port,
        TypeCode::AccountingResponse => host.acct_port,
        TypeCode::CoARequest => host.coa_port,
        TypeCode::CoAACK => host.coa_port,
        TypeCode::CoANAK => host.coa_port,
    }
}

/// The first attribute in the sequence carrying this id, if any.
pub open spec fn spec_find_attribute(
    attributes: Seq<SpecAttribute>,
    id: u8,
) -> Option<SpecAttribute>
    decreases attributes.len(),
{
    if attributes.len() == 0 {
        None
    } else if attributes[0].id == id {
        Some(attributes[0])
    } else {
        spec_find_attribute(attributes.drop_first(), id)
    }
}

/// While no attribute among the first `k` matches, the search outcome
/// is decided by the remainder of the sequence.
proof fn lemma_find_attribute_skip(attributes: Seq<SpecAttribute>, id: u8, k: int)
    requires
        0 <= k <= attributes.len(),
        forall|j: int| 0 <= j < k ==> (#[trigger] attributes[j]).id != id,
    ensures
        spec_find_attribute(attributes, id) == spec_find_attribute(attributes.skip(k), id),
    decreases k,
{
    if k > 0 {
        assert(attributes[0].id != id);
        assert(attributes.drop_first().skip(k - 1) =~= attributes.skip(k));
        lemma_find_attribute_skip(attributes.drop_first(), id, k - 1);
    } else {
        assert(attributes.skip(0) =~= attributes);
    }
}

/// An attribute is known to the dictionary and its bytes decode under
/// the declared value type.
pub open spec fn spec_attribute_valid(
    dictionary: Seq<AttributeDefinition>,
    attribute: SpecAttribute,
) -> bool {
    match spec_find_by_id(dictionary, attribute.id) {
        Some(definition) => spec_decode_value(definition.code_type, attribute.value) is Some,
        None => false,
    }
}

/// Every attribute of the sequence is valid against the dictionary.
pub open spec fn spec_all_attributes_valid(
    dictionary: Seq<AttributeDefinition>,
    attributes: Seq<SpecAttribute>,
) -> bool {
    forall|i: int|
        0 <= i < attributes.len() ==> spec_attribute_valid(dictionary, #[trigger] attributes[i])
}

/// A host: three UDP port numbers and the dictionary, immutable after
/// construction and shared by a client or a server.
#[derive(Clone, Debug)]
pub struct Host {
    auth_port: u16,
    acct_port: u16,
    coa_port: u16,
    dictionary: Dictionary,
}

impl View for Host {
    type V = SpecHost;

    closed spec fn view(&self) -> SpecHost {
        SpecHost {
            auth_port: self.auth_port,
            acct_port: self.acct_port,
            coa_port: self.coa_port,
            dictionary: self.dictionary@,
        }
    }
}

impl Host {
    /// Builds a host from its three port numbers and a dictionary.
    pub fn initialise_host(
        auth_port: u16,
        acct_port: u16,
        coa_port: u16,
        dictionary: Dictionary,
    ) -> (result: Host)
        ensures
            result@ == (SpecHost {
                auth_port,
                acct_port,
                coa_port,
                dictionary: dictionary@,
            }),
    {
        Host { auth_port, acct_port, coa_port, dictionary }
    }

    /// The port that serves a packet code.
    pub fn port(&self, code: &TypeCode) -> (result: u16)
        ensures
            result == spec_port_for(self@, *code),
    {
        match code {
            TypeCode::AccessRequest => self.auth_port,
            TypeCode::AccessAccept => self.auth_port,
            TypeCode::AccessReject => self.auth_port,
            TypeCode::AccessChallenge => self.auth_port,
            TypeCode::AccountingRequest => self.acct_port,
            TypeCode::AccountingResponse => self.acct_port,
            TypeCode::CoARequest => self.coa_port,
            TypeCode::CoAACK => self.coa_port,
            TypeCode::CoANAK => self.coa_port,
        }
    }

    /// The first dictionary definition carrying this numeric id, if any.
    pub fn dictionary_attribute_by_id(&self, id: u8) -> (result: Option<&AttributeDefinition>)
        ensures
            (match result {
                Some(definition) => spec_find_by_id(self@.dictionary, id) == Some(*definition),
                None => spec_find_by_id(self@.dictionary, id) is None,
            }),
    {
        self.dictionary.attribute_by_id(id)
    }

    /// The first dictionary definition carrying this name, if any.
    pub fn dictionary_attribute_by_name(&self, name: &str) -> (result: Option<
        &AttributeDefinition,
    >)
        ensures
            (match result {
                Some(definition) => spec_find_by_name(self@.dictionary, name@) == Some(*definition),
                None => spec_find_by_name(self@.dictionary, name@) is None,
            }),
    {
        self.dictionary.attribute_by_name(name)
    }

    /// Builds an attribute whose id the dictionary assigns to this
    /// name. Fails when the dictionary has no such name, or when the
    /// value is longer than 253 bytes.
    pub fn create_attribute_by_name(&self, attribute_name: &str, value: Vec<u8>) -> (result:
        Result<RadiusAttribute, RadiusError>)
        ensures
            result is Ok <==> spec_find_by_name(self@.dictionary, attribute_name@) is Some
                && value@.len() <= 253,
            result matches Ok(attribute) ==> attribute@ == (SpecAttribute {
                id: spec_find_by_name(self@.dictionary, attribute_name@).unwrap().id,
                value: value@,
            }),
            result matches Err(e) ==> e matches RadiusError::MalformedAttributeError { .. },
    {
        match self.dictionary.attribute_by_name(attribute_name) {
            Some(definition) => RadiusAttribute::from_parts(definition.id, value),
            None => Err(RadiusError::MalformedAttributeError {
                error: String::from_str("attribute name is not in the dictionary"),
            }),
        }
    }

    /// Builds an attribute with this numeric id. Fails when the
    /// dictionary has no definition for the id, or when the value is
    /// longer than 253 bytes.
    pub fn create_attribute_by_id(&self, attribute_id: u8, value: Vec<u8>) -> (result: Result<
        RadiusAttribute,
        RadiusError,
    >)
        ensures
            result is Ok <==> spec_find_by_id(self@.dictionary, attribute_id) is Some
                && value@.len() <= 253,
            result matches Ok(attribute) ==> attribute@ == (SpecAttribute {
                id: attribute_id,
                value: value@,
            }),
            result matches Err(e) ==> e matches RadiusError::MalformedAttributeError { .. },
    {
        match self.dictionary.attribute_by_id(attribute_id) {
            Some(_) => RadiusAttribute::from_parts(attribute_id, value),
            None => Err(RadiusError::MalformedAttributeError {
                error: String::from_str("attribute id is not in the dictionary"),
            }),
        }
    }

    /// Parses wire bytes into a packet, with the packet codec's exact
    /// failure conditions.
    pub fn initialise_packet_from_bytes(&self, reply: &[u8]) -> (result: Result<
        RadiusPacket,
        RadiusError,
    >)
        ensures
            result is Ok <==> spec_wire_ok(reply@),
            result matches Ok(packet) ==> packet@ == spec_parse_packet(reply@) && spec_packet_wf(
                packet@,
            ),
            reply@.len() < 20 ==> (result matches Err(e)
                && e matches RadiusError::MalformedPacketError { .. }),
            reply@.len() >= 20 && !spec_header_ok(reply@) ==> (result matches Err(e)
                && e matches RadiusError::MalformedPacketError { .. }),
            spec_header_ok(reply@) && spec_type_code_from(reply@[0]) is None ==> (result matches Err(
                e,
            ) && e matches RadiusError::UnsupportedTypeCodeError { .. }),
            spec_header_ok(reply@) && spec_type_code_from(reply@[0]) is Some
                && spec_parse_attributes(reply@.skip(20)) is None ==> (result matches Err(e)
                && e matches RadiusError::MalformedPacketError { .. }),
    {
        RadiusPacket::initialise_packet_from_bytes(reply)
    }

    /// Checks that every attribute of a wire packet is known to the
    /// dictionary and decodes under its declared value type.
    pub fn verify_packet_attributes(&self, packet: &[u8]) -> (result: Result<(), RadiusError>)
        ensures
            result is Ok <==> spec_wire_ok(packet@) && spec_all_attributes_valid(
                self@.dictionary,
                spec_parse_packet(packet@).attributes,
            ),
            spec_wire_ok(packet@) ==> (result matches Err(e) ==> (e
                matches RadiusError::MalformedAttributeError { .. } || e
                matches RadiusError::MalformedIpAddrError { .. } || e
                matches RadiusError::MalformedIfIdError { .. })),
            !spec_wire_ok(packet@) ==> (result matches Err(e) && (e
                matches RadiusError::MalformedPacketError { .. } || e
                matches RadiusError::UnsupportedTypeCodeError { .. })),
    {
        let parsed = match RadiusPacket::initialise_packet_from_bytes(packet) {
            Ok(parsed) => parsed,
            Err(e) => {
                return Err(e);
            },
        };
        let attributes = parsed.attributes();
        let ghost model = spec_parse_packet(packet@).attributes;
        let mut k: usize = 0;
        while k < attributes.len()
            invariant
                k <= attributes.len(),
                model == spec_attribute_views(attributes@),
                model == spec_parse_packet(packet@).attributes,
                spec_wire_ok(packet@),
                self@.dictionary == self.dictionary@,
                forall|j: int|
                    0 <= j < k ==> spec_attribute_valid(self@.dictionary, #[trigger] model[j]),
            decreases attributes.len() - k,
        {
            let attribute = &attributes[k];
            assert(attribute@ == model[k as int]);
            let definition = match self.dictionary.attribute_by_id(attribute.id()) {
                Some(definition) => definition,
                None => {
                    assert(!spec_attribute_valid(self@.dictionary, model[k as int]));
                    return Err(RadiusError::MalformedAttributeError {
                        error: String::from_str("packet attribute id is not in the dictionary"),
                    });
                },
            };
            let code_type = definition.code_type();
            match decode_value(code_type, attribute.value().as_slice()) {
                Ok(_) => {},
                Err(e) => {
                    assert(!spec_attribute_valid(self@.dictionary, model[k as int]));
                    return Err(e);
                },
            }
            k = k + 1;
        }
        Ok(())
    }

    /// Checks a packet's message-authenticator attribute: the keyed
    /// HMAC-MD5 digest of the whole packet bytes as received, under the
    /// shared secret, must equal the attribute's stored value. The
    /// attribute's own bytes are not zeroed before hashing.
    pub fn verify_message_authenticator(&self, secret: &str, packet: &[u8]) -> (result: Result<
        (),
        RadiusError,
    >)
        ensures
            result is Ok <==> spec_wire_ok(packet@) && (match spec_find_by_name(
                self@.dictionary,
                "Message-Authenticator"@,
            ) {
                Some(definition) => (match spec_find_attribute(
                    spec_parse_packet(packet@).attributes,
                    definition.id,
                ) {
                    Some(attribute) => attribute.value == spec_hmac_md5(
                        encode_utf8(secret@),
                        packet@,
                    ),
                    None => false,
                }),
                None => false,
            }),
            spec_wire_ok(packet@) ==> (result matches Err(e) ==> (e
                matches RadiusError::MalformedAttributeError { .. } || e
                matches RadiusError::ValidationError { .. })),
    {
        let parsed = match RadiusPacket::initialise_packet_from_bytes(packet) {
            Ok(parsed) => parsed,
            Err(e) => {
                return Err(e);
            },
        };
        let definition = match self.dictionary.attribute_by_name("Message-Authenticator") {
            Some(definition) => definition,
            None => {
                return Err(RadiusError::MalformedAttributeError {
                    error: String::from_str("the dictionary has no message-authenticator entry"),
                });
            },
        };
        let wanted_id = definition.id;
        let attributes = parsed.attributes();
        let ghost model = spec_parse_packet(packet@).attributes;
        let mut k: usize = 0;
        while k < attributes.len()
            invariant
                k <= attributes.len(),
                model == spec_attribute_views(attributes@),
                model == spec_parse_packet(packet@).attributes,
                spec_wire_ok(packet@),
                spec_find_by_name(self@.dictionary, "Message-Authenticator"@) == Some(*definition),
                wanted_id == definition.id,
                forall|j: int| 0 <= j < k ==> (#[trigger] model[j]).id != wanted_id,
            decreases attributes.len() - k,
        {
            let attribute = &attributes[k];
            assert(attribute@ == model[k as int]);
            if attribute.id() == wanted_id {
                proof {
                    lemma_find_attribute_skip(model, wanted_id, k as int);
                    assert(model.skip(k as int)[0] == model[k as int]);
                }
                let secret_bytes = string_to_bytes(secret);
                let digest = hmac_md5_bytes(secret_bytes.as_slice(), packet);
                if bytes_equal(attribute.value().as_slice(), digest.as_slice()) {
                    return Ok(());
                } else {
                    return Err(RadiusError::ValidationError {
                        error: String::from_str("message-authenticator digest mismatch"),
                    });
                }
            }
            k = k + 1;
        }
        proof {
            lemma_find_attribute_skip(model, wanted_id, k as int);
            assert(model.skip(k as int) =~= Seq::<SpecAttribute>::empty());
        }
        Err(RadiusError::MalformedAttributeError {
            error: String::from_str("the packet carries no message-authenticator attribute"),
        })
    }
}

} // verus!
