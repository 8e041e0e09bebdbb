//! The server: it owns a host, an allow-list of client addresses, the
//! shared secret, and the reply-authenticator computation. The three
//! UDP sockets and the readiness loop are a transport concern left to
//! the surrounding program; this module supplies the decisions that
//! loop takes per datagram: whether the sender is allowed, and what
//! authenticator a reply must carry.

use vstd::prelude::*;
use vstd::string::{StrSliceExecFns, StringExecFns};
use vstd::utf8::encode_utf8;

use crate::client::spec_response_authenticator;
use crate::dictionary::{spec_find_by_name, Dictionary};
use crate::error::RadiusError;
use crate::hash::md5_bytes;
use crate::host::{spec_port_for, Host, SpecHost};
use crate::radius_packet::{RadiusAttribute, SpecAttribute, TypeCode};
use crate::tools::string_to_bytes;

verus! {

/// The three message types a server listens for, one UDP socket each.
#[derive(Clone, Copy, Debug, PartialEq, Eq, Hash, Structural)]
pub enum RadiusMsgType {
    /// Authentication requests.
    AUTH,
    /// Accounting requests.
    ACCT,
    /// Change-of-authorization requests.
    COA,
}

impl RadiusMsgType {
    /// The display name of the message type.
    pub fn to_string(&self) -> (result: String)
        ensures
            result@ == (match *self {
                RadiusMsgType::AUTH => "Auth"@,
                RadiusMsgType::ACCT => "Acct"@,
                RadiusMsgType::COA => "CoA"@,
            }),
    {
        match self {
            RadiusMsgType::AUTH => String::from_str("Auth"),
            RadiusMsgType::ACCT => String::from_str("Acct"),
            RadiusMsgType::COA => String::from_str("CoA"),
        }
    }
}

/// Where the address part of an address-and-port text ends: at the
/// last colon, the one that separates the trailing port, or at the end
/// of the text when it has no colon. An IPv6 sender's bracketed text,
/// such as a bracketed address followed by a port, keeps its inner
/// colons this way.
pub open spec fn spec_host_part_len(text: Seq<char>) -> int
    decreases text.len(),
{
    if text.len() == 0 {
        0
    } else if text.last() == ':' {
        text.len() - 1
    } else {
        let prefix = spec_host_part_len(text.drop_last());
        if prefix == text.len() - 1 {
            text.len() as int
        } else {
            prefix
        }
    }
}

/// The address part of an address-and-port text: the text with only
/// its trailing colon-separated port removed.
pub open spec fn spec_host_name(text: Seq<char>) -> Seq<char> {
    text.take(spec_host_part_len(text))
}

/// A position that holds the last colon of the text, or its length
/// when it has none, is where the address part ends.
proof fn lemma_host_part_len(text: Seq<char>, position: int)
    requires
        0 <= position <= text.len(),
        position < text.len() ==> text[position] == ':',
        forall|j: int| position < j < text.len() ==> text[j] != ':',
        position == text.len() ==> (forall|j: int| 0 <= j < text.len() ==> text[j] != ':'),
    ensures
        spec_host_part_len(text) == position,
    decreases text.len(),
{
    if text.len() == 0 {
    } else if text.last() == ':' {
        assert(position == text.len() - 1) by {
            if position < text.len() - 1 || position == text.len() {
                assert(text[text.len() - 1] != ':');
            }
        }
    } else {
        let prefix = text.drop_last();
        assert(prefix =~= text.take(text.len() - 1));
        if position == text.len() {
            lemma_host_part_len(prefix, position - 1);
        } else {
            assert(position < text.len() - 1);
            lemma_host_part_len(prefix, position);
        }
    }
}

/// The mathematical model of a server: its host, the allowed client
/// hosts, its bind address text, the shared secret, and the retry
/// policy fields it shares with the client shape.
pub struct SpecServer {
    pub host: SpecHost,
    pub allowed_hosts: Seq<Seq<char>>,
    pub server: Seq<char>,
    pub secret: Seq<char>,
    pub retries: u16,
    pub timeout: u16,
}

/// A RADIUS server: a host plus a bind address, an allow-list of
/// client host addresses, and the shared secret. The allow-list is
/// filled at startup and read per datagram.
pub struct Server {
    host: Host,
    allowed_hosts: Vec<String>,
    server: String,
    secret: String,
    retries: u16,
    timeout: u16,
}

impl View for Server {
    type V = SpecServer;

    closed spec fn view(&self) -> SpecServer {
        SpecServer {
            host: self.host@,
            allowed_hosts: self.allowed_hosts@.map_values(|entry: String| entry@),
            server: self.server@,
            secret: self.secret@,
            retries: self.retries,
            timeout: self.timeout,
        }
    }
}

impl Server {
    /// Builds a server from ports, dictionary, bind address, shared
    /// secret, retry count and timeout, with an empty allow-list.
    pub fn initialise_server(
        auth_port: u16,
        acct_port: u16,
        coa_port: u16,
        dictionary: Dictionary,
        server: String,
        secret: String,
        retries: u16,
        timeout: u16,
    ) -> (result: Result<Server, RadiusError>)
        ensures
            result matches Ok(built) && built@ == (SpecServer {
                host: SpecHost {
                    auth_port,
                    acct_port,
                    coa_port,
                    dictionary: dictionary@,
                },
                allowed_hosts: Seq::empty(),
                server: server@,
                secret: secret@,
                retries,
                timeout,
            }),
    {
        let built = Server {
            host: Host::initialise_host(auth_port, acct_port, coa_port, dictionary),
            allowed_hosts: Vec::new(),
            server,
            secret,
            retries,
            timeout,
        };
        proof {
            assert(built@.allowed_hosts =~= Seq::<Seq<char>>::empty());
        }
        Ok(built)
    }

    /// Adds one client host address to the allow-list.
    pub fn add_allowed_hosts(&mut self, host_addr: String)
        ensures
            final(self)@ == (SpecServer {
                allowed_hosts: old(self)@.allowed_hosts.push(host_addr@),
                ..old(self)@
            }),
    {
        self.allowed_hosts.push(host_addr);
        proof {
            assert(self@.allowed_hosts =~= old(self)@.allowed_hosts.push(host_addr@));
        }
    }

    /// The address text the three sockets bind to.
    pub fn server_address(&self) -> (result: &String)
        ensures
            result@ == self@.server,
    {
        &self.server
    }

    /// The port that serves a packet code.
    pub fn port(&self, code: &TypeCode) -> (result: u16)
        ensures
            result == spec_port_for(self@.host, *code),
    {
        self.host.port(code)
    }

    /// Builds an attribute whose id the dictionary assigns to this name.
    pub fn create_attribute_by_name(&self, attribute_name: &str, value: Vec<u8>) -> (result:
        Result<RadiusAttribute, RadiusError>)
        ensures
            result is Ok <==> spec_find_by_name(self@.host.dictionary, attribute_name@) is Some
                && value@.len() <= 253,
            result matches Ok(attribute) ==> attribute@ == (SpecAttribute {
                id: spec_find_by_name(self@.host.dictionary, attribute_name@).unwrap().id,
                value: value@,
            }),
            result matches Err(e) ==> e matches RadiusError::MalformedAttributeError { .. },
    {
        self.host.create_attribute_by_name(attribute_name, value)
    }

    /// The sixteen authenticator bytes a reply must carry: the MD5
    /// digest of the reply's first four bytes (code, identifier,
    /// length), the request's authenticator, the reply's attribute
    /// bytes, and the shared secret. The reply's identifier must
    /// already have been overridden to the request's: the digest is a
    /// function of the final byte layout.
    pub fn create_reply_authenticator(
        &self,
        raw_reply_packet: &[u8],
        request_authenticator: &[u8],
    ) -> (result: Vec<u8>)
        requires
            raw_reply_packet@.len() >= 20,
        ensures
            result@ == spec_response_authenticator(
                raw_reply_packet@,
                request_authenticator@,
                self@.secret,
            ),
            result@.len() == 16,
    {
        let mut hashed: Vec<u8> = Vec::new();
        hashed.extend_from_slice(vstd::slice::slice_subrange(raw_reply_packet, 0, 4));
        hashed.extend_from_slice(request_authenticator);
        hashed.extend_from_slice(
            vstd::slice::slice_subrange(raw_reply_packet, 20, raw_reply_packet.len()),
        );
        let secret_bytes = string_to_bytes(self.secret.as_str());
        hashed.extend_from_slice(secret_bytes.as_slice());
        proof {
            assert(hashed@ =~= raw_reply_packet@.subrange(0, 4) + request_authenticator@
                + raw_reply_packet@.skip(20) + encode_utf8(self@.secret));
        }
        md5_bytes(hashed.as_slice())
    }

    /// Whether a datagram's sender may be served: its address, with
    /// only the trailing colon-separated port removed, must stand in
    /// the allow-list as an exact string match. A sender that is not
    /// allowed is dropped by the transport loop without a reply.
    pub fn host_allowed(&self, remote_host: &str) -> (result: bool)
        ensures
            result == exists|j: int|
                0 <= j < self@.allowed_hosts.len() && self@.allowed_hosts[j] == spec_host_name(
                    remote_host@,
                ),
    {
        let length = remote_host.unicode_len();
        let mut split_at: usize = length;
        let mut k: usize = 0;
        while k < length
            invariant
                k <= length,
                length == remote_host@.len(),
                split_at == length || (split_at < k && remote_host@[split_at as int] == ':'),
                split_at == length ==> (forall|j: int| 0 <= j < k ==> remote_host@[j] != ':'),
                forall|j: int| split_at < j < k ==> remote_host@[j] != ':',
            decreases length - k,
        {
            if remote_host.get_char(k) == ':' {
                split_at = k;
            }
            k = k + 1;
        }
        proof {
            lemma_host_part_len(remote_host@, split_at as int);
        }
        let name = remote_host.substring_char(0, split_at);
        let wanted: String = name.to_owned();
        let ghost model = self@.allowed_hosts;
        let mut k: usize = 0;
        while k < self.allowed_hosts.len()
            invariant
                k <= self.allowed_hosts.len(),
                model == self.allowed_hosts@.map_values(|entry: String| entry@),
                wanted@ == spec_host_name(remote_host@),
                forall|j: int| 0 <= j < k ==> model[j] != spec_host_name(remote_host@),
            decreases self.allowed_hosts.len() - k,
        {
            if self.allowed_hosts[k] == wanted {
                assert(model[k as int] == spec_host_name(remote_host@));
                assert((k as int) < self@.allowed_hosts.len() && self@.allowed_hosts[k as int]
                    == spec_host_name(remote_host@));
                return true;
            }
            k = k + 1;
        }
        false
    }
}

} // verus!
