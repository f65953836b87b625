//! The key schedule: an HMAC-SHA1 expansion of the shared secret over the
//! handshake transcript into a 20-byte challenge and two 32-byte stream keys.
//! The first expanded block is repurposed as the HMAC key of the challenge;
//! it does not become keying material.
use vstd::prelude::*;
use vstd::slice::{slice_subrange, slice_to_vec};
use crate::crypto::{hmac_sha1, hmac_sha1_of};

verus! {

/// One 20-byte block of the expansion: HMAC-SHA1 of the transcript with the
/// single counter byte appended, keyed by the shared secret.
pub open spec fn key_block(secret: Seq<u8>, transcript: Seq<u8>, i: u8) -> Seq<u8> {
    hmac_sha1_of(secret, transcript + seq![i])
}

/// The 100 bytes of keying material: the blocks for counters 1 through 5.
pub open spec fn key_material(secret: Seq<u8>, transcript: Seq<u8>) -> Seq<u8> {
    key_block(secret, transcript, 1) + key_block(secret, transcript, 2) + key_block(
        secret,
        transcript,
        3,
    ) + key_block(secret, transcript, 4) + key_block(secret, transcript, 5)
}

/// The challenge: HMAC-SHA1 of the transcript keyed by the first 20 material
/// bytes.
pub open spec fn spec_challenge(secret: Seq<u8>, transcript: Seq<u8>) -> Seq<u8> {
    hmac_sha1_of(key_material(secret, transcript).subrange(0, 20), transcript)
}

/// The send key: material bytes 20 to 52.
pub open spec fn spec_send_key(secret: Seq<u8>, transcript: Seq<u8>) -> Seq<u8> {
    key_material(secret, transcript).subrange(20, 52)
}

/// The receive key: material bytes 52 to 84.
pub open spec fn spec_recv_key(secret: Seq<u8>, transcript: Seq<u8>) -> Seq<u8> {
    key_material(secret, transcript).subrange(52, 84)
}

/// One expansion block, for the counter byte `i`.
fn hmac_block(secret: &[u8], transcript: &[u8], i: u8) -> (r: Vec<u8>)
    ensures
        r@ == key_block(secret@, transcript@, i),
        r@.len() == 20,
{
    let mut msg = slice_to_vec(transcript);
    msg.push(i);
    assert(msg@ =~= transcript@ + seq![i]);
    hmac_sha1(secret, msg.as_slice())
}

/// Derives `(challenge, send_key, recv_key)` from the shared secret and the
/// completed handshake transcript. Material bytes 84 to 100 are discarded.
pub fn compute_keys(shared_secret: &[u8], packets: &[u8]) -> (r: (Vec<u8>, Vec<u8>, Vec<u8>))
    ensures
        r.0@ == spec_challenge(shared_secret@, packets@),
        r.0@.len() == 20,
        r.1@ == spec_send_key(shared_secret@, packets@),
        r.1@.len() == 32,
        r.2@ == spec_recv_key(shared_secret@, packets@),
        r.2@.len() == 32,
{
    let b1 = hmac_block(shared_secret, packets, 1);
    let mut b2 = hmac_block(shared_secret, packets, 2);
    let mut b3 = hmac_block(shared_secret, packets, 3);
    let mut b4 = hmac_block(shared_secret, packets, 4);
    let mut b5 = hmac_block(shared_secret, packets, 5);

    // The challenge is keyed by the first block alone.
    let challenge = hmac_sha1(b1.as_slice(), packets);

    let mut material = b1;
    material.append(&mut b2);
    material.append(&mut b3);
    material.append(&mut b4);
    material.append(&mut b5);
    assert(material@ == key_material(shared_secret@, packets@));
    assert(material@.subrange(0, 20) =~= key_block(shared_secret@, packets@, 1));

    let send_key = slice_to_vec(slice_subrange(material.as_slice(), 20, 52));
    let recv_key = slice_to_vec(slice_subrange(material.as_slice(), 52, 84));
    (challenge, send_key, recv_key)
}

/// Idempotence of the key schedule: two runs on the same shared secret and
/// transcript return byte-identical `(challenge, send_key, recv_key)`. The
/// triples here are the views of the values two calls of `compute_keys`
/// returned.
pub proof fn lemma_key_schedule_deterministic(
    secret: Seq<u8>,
    transcript: Seq<u8>,
    k1: (Seq<u8>, Seq<u8>, Seq<u8>),
    k2: (Seq<u8>, Seq<u8>, Seq<u8>),
)
    requires
        k1.0 == spec_challenge(secret, transcript),
        k1.1 == spec_send_key(secret, transcript),
        k1.2 == spec_recv_key(secret, transcript),
        k2.0 == spec_challenge(secret, transcript),
        k2.1 == spec_send_key(secret, transcript),
        k2.2 == spec_recv_key(secret, transcript),
    ensures
        k1 == k2,
{
}

} // verus!
