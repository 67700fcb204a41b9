//! The keyed hash and the hash that NTLMv2 is built on.

use hmac::{Hmac, Mac};
use md5::{Digest, Md5};
use vstd::prelude::*;

verus! {

/// The HMAC-MD5 code of `message` under `key`.
pub uninterp spec fn hmac_md5_code(key: Seq<u8>, message: Seq<u8>) -> Seq<u8>;

/// The MD5 digest of `data`.
pub uninterp spec fn md5_digest(data: Seq<u8>) -> Seq<u8>;

/// `Hmac::<Md5>` of the `hmac` crate, keyed with `new_from_slice`, fed with `update` and closed
/// with `finalize`: the code is a function of the key and of the bytes fed in, and is sixteen
/// bytes long. A key of any length is taken.
#[verifier::external_body]
pub(crate) fn hmac_md5(key: &[u8], message: &[u8]) -> (code: [u8; 16])
    ensures
        code@ == hmac_md5_code(key@, message@),
{
    let mut mac = Hmac::<Md5>::new_from_slice(key).expect("HMAC takes any key length");
    mac.update(message);
    mac.finalize().into_bytes().into()
}

/// `Mac::verify_slice` of the `hmac` crate on the same `Hmac::<Md5>`: it holds exactly where
/// `code` is the whole code of `message` under `key`, and compares in constant time.
#[verifier::external_body]
pub(crate) fn hmac_md5_verifies(key: &[u8], message: &[u8], code: &[u8]) -> (holds: bool)
    ensures
        holds == (code@ == hmac_md5_code(key@, message@)),
{
    let mut mac = Hmac::<Md5>::new_from_slice(key).expect("HMAC takes any key length");
    mac.update(message);
    mac.verify_slice(code).is_ok()
}

/// `Md5::digest` of the `md-5` crate: the digest is a function of the bytes alone, and is
/// sixteen bytes long.
#[verifier::external_body]
pub(crate) fn md5(data: &[u8]) -> (digest: [u8; 16])
    ensures
        digest@ == md5_digest(data@),
{
    Md5::digest(data).into()
}

} // verus!
