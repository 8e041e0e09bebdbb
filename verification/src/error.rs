//! The error taxonomy of the library: every failure a caller can see is
//! one of these variants, each carrying a detail string.

use vstd::prelude::*;
use vstd::string::StringExecFns;

verus! {

/// Errors surfaced by packet parsing, attribute handling, authenticator
/// verification, and the transport decision logic.
#[derive(Debug, Clone)]
pub enum RadiusError {
    /// An inbound reply failed authenticator or identifier verification.
    ValidationError { error: String },
    /// A wire buffer is structurally invalid as a packet.
    MalformedPacketError { error: String },
    /// Attribute bytes are inconsistent with the declared type, or the
    /// attribute is unknown to the dictionary.
    MalformedAttributeError { error: String },
    /// An address-shaped attribute failed its family-specific decode.
    MalformedIpAddrError { error: String },
    /// An interface-id attribute failed its decode.
    MalformedIfIdError { error: String },
    /// A socket could not bind, send or receive; retry exhaustion too.
    SocketConnectionError { error: String },
    /// A datagram arrived from an unexpected or unparsable source.
    SocketInvalidConnectionError { error: String },
    /// A configured address string could not be parsed.
    SocketAddrParseError { error: String },
    /// The dictionary collaborator failed.
    MalformedDictionaryError { error: String },
    /// A wire code lies outside the closed set of supported type codes.
    UnsupportedTypeCodeError { error: String },
}

/// The fixed descriptive phrase of each error variant.
pub open spec fn spec_error_message(e: RadiusError) -> Seq<char> {
    match e {
        RadiusError::ValidationError { .. } => "Verification failed for incoming Radius packet"@,
        RadiusError::MalformedPacketError { .. } => "Radius packet is malformed"@,
        RadiusError::MalformedAttributeError { .. } => "Radius packet attribute is malformed"@,
        RadiusError::MalformedIpAddrError { .. } => "Provided IP Address is malformed"@,
        RadiusError::MalformedIfIdError { .. } => "Provided Interface Id is malformed"@,
        RadiusError::SocketConnectionError { .. } => "Error on socket connection"@,
        RadiusError::SocketInvalidConnectionError { .. } => "Invalid socket connection"@,
        RadiusError::SocketAddrParseError { .. } => "Failed to parse socket address"@,
        RadiusError::MalformedDictionaryError { .. } => "Dictionary is malformed or inaccessible"@,
        RadiusError::UnsupportedTypeCodeError { .. } => "Supplied RADIUS Code is not supported by this library"@,
    }
}

impl RadiusError {
    /// The fixed descriptive phrase of this error, one per variant.
    pub fn to_string(&self) -> (r: String)
        ensures
            r@ == spec_error_message(*self),
    {
        match self {
            RadiusError::ValidationError { .. } => String::from_str("Verification failed for incoming Radius packet"),
            RadiusError::MalformedPacketError { .. } => String::from_str("Radius packet is malformed"),
            RadiusError::MalformedAttributeError { .. } => String::from_str("Radius packet attribute is malformed"),
            RadiusError::MalformedIpAddrError { .. } => String::from_str("Provided IP Address is malformed"),
            RadiusError::MalformedIfIdError { .. } => String::from_str("Provided Interface Id is malformed"),
            RadiusError::SocketConnectionError { .. } => String::from_str("Error on socket connection"),
            RadiusError::SocketInvalidConnectionError { .. } => String::from_str("Invalid socket connection"),
            RadiusError::SocketAddrParseError { .. } => String::from_str("Failed to parse socket address"),
            RadiusError::MalformedDictionaryError { .. } => String::from_str("Dictionary is malformed or inaccessible"),
            RadiusError::UnsupportedTypeCodeError { .. } => String::from_str("Supplied RADIUS Code is not supported by this library"),
        }
    }
}

} // verus!
