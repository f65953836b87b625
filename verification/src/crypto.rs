//! Trusted seams around the outside cryptographic primitives: SHA-1,
//! HMAC-SHA1, PKCS#1 v1.5 signature verification, and the random source.
//! Each digest is given a name that the callers' contracts speak of; nothing
//! here restates the algorithms themselves.
use vstd::prelude::*;
use sha1::{Digest, Sha1};
use hmac::{Hmac, Mac};
use rand::RngCore;

verus! {

/// The SHA-1 digest of a byte string: a function of the input alone.
pub uninterp spec fn sha1_of(data: Seq<u8>) -> Seq<u8>;

/// The HMAC-SHA1 tag of a message under a key of any length: a function of the
/// two inputs alone.
pub uninterp spec fn hmac_sha1_of(key: Seq<u8>, msg: Seq<u8>) -> Seq<u8>;

/// Whether `sig` is a valid RSA PKCS#1 v1.5 signature with hash algorithm
/// SHA-1 over the 20-byte digest `hash`, for the public key with big-endian
/// modulus `modulus` and exponent 65537: a function of the three inputs alone.
pub uninterp spec fn rsa_sha1_verify_ok(modulus: Seq<u8>, hash: Seq<u8>, sig: Seq<u8>) -> bool;

/// Relies on `sha1::Sha1::digest`: the 20-byte SHA-1 digest of the input.
#[verifier::external_body]
pub(crate) fn sha1_digest(data: &[u8]) -> (r: Vec<u8>)
    ensures
        r@ == sha1_of(data@),
        r@.len() == 20,
{
    Sha1::digest(data).to_vec()
}

/// Relies on `Hmac::<Sha1>` from the hmac crate: `new_from_slice` accepts a
/// key of any length (its only path returns `Ok`), and the finalized tag is
/// the 20-byte HMAC-SHA1 of the key and the message.
#[verifier::external_body]
pub(crate) fn hmac_sha1(key: &[u8], msg: &[u8]) -> (r: Vec<u8>)
    ensures
        r@ == hmac_sha1_of(key@, msg@),
        r@.len() == 20,
{
    let mut mac = <Hmac<Sha1> as Mac>::new_from_slice(key)
        .expect("HMAC accepts keys of any length");
    mac.update(msg);
    mac.finalize().into_bytes().to_vec()
}

/// Relies on `rsa::RsaPublicKey::{new, verify}` with `Pkcs1v15Sign::new::<Sha1>`:
/// verification succeeds exactly for a valid PKCS#1 v1.5 SHA-1 signature under
/// the key `(modulus, 65537)`; a modulus that the crate rejects (even, too
/// large, or not above the exponent) verifies nothing. Deterministic in its
/// three arguments; it returns a `Result` and never panics.
#[verifier::external_body]
pub(crate) fn rsa_pkcs1_sha1_verify(modulus_be: &[u8], hash: &[u8], sig: &[u8]) -> (r: bool)
    ensures
        r == rsa_sha1_verify_ok(modulus_be@, hash@, sig@),
{
    let n = rsa::BigUint::from_bytes_be(modulus_be);
    let e = rsa::BigUint::new(vec![65537]);
    match rsa::RsaPublicKey::new(n, e) {
        Ok(key) => key.verify(rsa::Pkcs1v15Sign::new::<Sha1>(), hash, sig).is_ok(),
        Err(_) => false,
    }
}

/// Relies on `rand::rng`: `fill_bytes` fills the buffer from the thread-local
/// cryptographic generator. Nothing is promised of the contents.
#[verifier::external_body]
pub(crate) fn random_bytes(n: usize) -> (r: Vec<u8>)
    ensures
        r@.len() == n,
{
    let mut buf = vec![0u8; n];
    rand::rng().fill_bytes(&mut buf);
    buf
}

} // verus!
