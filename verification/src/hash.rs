//! The keyed and unkeyed digests the authenticator engine rests on.
//! Both digest functions are named, not written out: their sixteen
//! result bytes depend on the input bytes alone, and the computation is
//! done by an outside cryptography crate behind trusted wrappers.

use crypto::digest::Digest;
use crypto::hmac::Hmac;
use crypto::mac::Mac;
use crypto::md5::Md5;
use vstd::prelude::*;

verus! {

/// The sixteen digest bytes the MD5 function assigns to a byte sequence.
pub uninterp spec fn spec_md5(data: Seq<u8>) -> Seq<u8>;

/// The sixteen digest bytes the keyed HMAC-MD5 function assigns to a
/// key and a byte sequence.
pub uninterp spec fn spec_hmac_md5(key: Seq<u8>, data: Seq<u8>) -> Seq<u8>;

/// Relies on crypto::md5::Md5 through crypto::digest::Digest: the
/// digest is a function of the input bytes alone and is sixteen bytes
/// long (output_bits is 128).
#[verifier::external_body]
pub fn md5_bytes(data: &[u8]) -> (result: Vec<u8>)
    ensures
        result@ == spec_md5(data@),
        result@.len() == 16,
{
    let mut hasher = Md5::new();
    hasher.input(data);
    let mut digest = [0u8; 16];
    hasher.result(&mut digest);
    digest.to_vec()
}

/// Relies on crypto::hmac::Hmac over crypto::md5::Md5 through
/// crypto::mac::Mac: the keyed digest is a function of the key and the
/// input bytes alone and is sixteen bytes long.
#[verifier::external_body]
pub fn hmac_md5_bytes(key: &[u8], data: &[u8]) -> (result: Vec<u8>)
    ensures
        result@ == spec_hmac_md5(key@, data@),
        result@.len() == 16,
{
    let mut mac = Hmac::new(Md5::new(), key);
    mac.input(data);
    mac.result().code().to_vec()
}

} // verus!
