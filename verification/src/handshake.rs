//! The handshake state machine: it emits the `ClientHello` envelope, checks
//! the response length field, accumulates the wire transcript, verifies the
//! server's signed DH value against the pinned RSA key, derives the session
//! keys from the transcript, and emits the `ClientResponsePlaintext` envelope.
//! The caller performs the reads and writes and hands the bytes through.
use vstd::prelude::*;
use crate::bytes::{
    be_val, be32, canon_be, le_val, lemma_be32_val, lemma_be_val_same_len_eq, lemma_canon_be,
    push_be32, u32_from_be,
};
use crate::consts::SERVER_KEY;
use crate::crypto::{rsa_sha1_verify_ok, rsa_pkcs1_sha1_verify, sha1_digest, sha1_of, random_bytes};
use crate::consts::DH_GENERATOR;
use crate::dh::{
    DhLocalKeys, dh_prime_val, pow_mod, shared_val, lemma_mod_prime_len,
    lemma_pow_mod_below_prime,
};
use crate::keys::{compute_keys, spec_challenge, spec_send_key, spec_recv_key};
use crate::proto::{
    client_hello_payload, client_response_payload, encode_client_hello, encode_client_response,
    lemma_client_hello_payload_len, lemma_client_response_payload_len, parse_ap_response,
    spec_parse_ap_response,
};
use vstd::slice::slice_to_vec;

verus! {

/// Why a handshake failed. Transport failures stay with the caller that does
/// the reading and writing; these are the failures the core itself decides.
#[derive(Debug, Clone, Copy, PartialEq, Eq, Structural)]
pub enum HandshakeError {
    /// The HMAC construction rejected a key length. The key schedule here
    /// accepts keys of every length, so this is never raised; it remains for
    /// callers that match on the full taxonomy.
    InvalidLength,
    /// The server's signature over `gs` did not validate against the pinned
    /// key: a key mismatch or a tampered path, never to be retried.
    VerificationFailed,
    /// A response length field was inconsistent: below the minimum of four or
    /// above the ceiling of 65536.
    Framing,
    /// The `APResponseMessage` could not be decoded. A decodable message
    /// with the DH challenge chain absent is not this: its fields read as
    /// empty defaults and fall to the signature check.
    ProtobufParse,
}

impl HandshakeError {
    /// The message text of each failure.
    pub open spec fn spec_message(&self) -> Seq<char> {
        match self {
            HandshakeError::InvalidLength => "invalid key length"@,
            HandshakeError::VerificationFailed => "server key verification failed"@,
            HandshakeError::Framing => "inconsistent response length field"@,
            HandshakeError::ProtobufParse => "undecodable APResponseMessage"@,
        }
    }

    /// Describes the failure, for callers that report errors as text.
    pub fn message(&self) -> (r: &'static str)
        ensures
            r@ == self.spec_message(),
    {
        match self {
            HandshakeError::InvalidLength => "invalid key length",
            HandshakeError::VerificationFailed => "server key verification failed",
            HandshakeError::Framing => "inconsistent response length field",
            HandshakeError::ProtobufParse => "undecodable APResponseMessage",
        }
    }
}

/// The `ClientHello` envelope: the version prefix `{0x00, 0x04}`, the 4-byte
/// big-endian total envelope length, and the serialized payload.
pub open spec fn hello_envelope(payload: Seq<u8>) -> Seq<u8> {
    seq![0u8, 4u8] + be32(payload.len() + 6) + payload
}

/// An envelope whose 4-byte big-endian length field counts itself: used for
/// the `APResponseMessage` read and the `ClientResponsePlaintext` written.
pub open spec fn response_envelope(payload: Seq<u8>) -> Seq<u8> {
    be32(payload.len() + 4) + payload
}

/// Envelope round trip: the length field of a `ClientHello` envelope reads
/// back as the total envelope length, so re-parsing the envelope yields a
/// payload whose length is the envelope length minus the six header bytes.
pub proof fn lemma_hello_envelope_round_trip(payload: Seq<u8>)
    requires
        payload.len() + 6 < 0x1_0000_0000,
    ensures
        hello_envelope(payload).len() == payload.len() + 6,
        hello_envelope(payload)[0] == 0u8,
        hello_envelope(payload)[1] == 4u8,
        be_val(hello_envelope(payload).subrange(2, 6)) == hello_envelope(payload).len(),
        hello_envelope(payload).skip(6) == payload,
{
    let env = hello_envelope(payload);
    lemma_be32_val(payload.len() + 6);
    assert(env.subrange(2, 6) =~= be32(payload.len() + 6));
    assert(env.skip(6) =~= payload);
}

/// Where the handshake stands.
enum HsPhase {
    /// The hello envelope is out; the 4-byte response length is next.
    AwaitingHeader,
    /// The length field arrived and promised this many payload bytes.
    AwaitingPayload { payload_len: usize },
    /// Established or failed; nothing more is accepted.
    Done,
}

/// A handshake in flight: the local keypair, the accumulated wire transcript,
/// and the server key the response will be checked against.
pub struct Handshake {
    keys: DhLocalKeys,
    transcript: Vec<u8>,
    phase: HsPhase,
    server_key: Vec<u8>,
    nonce: Ghost<Seq<u8>>,
}

/// An established session: the derived challenge and stream keys, and the
/// `ClientResponsePlaintext` envelope to write back.
#[derive(Debug)]
pub struct Established {
    pub challenge: Vec<u8>,
    pub send_key: Vec<u8>,
    pub recv_key: Vec<u8>,
    pub response: Vec<u8>,
}

impl Handshake {
    /// The accumulated wire transcript: every pre-handshake byte sent or
    /// received, in order.
    pub closed spec fn spec_transcript(&self) -> Seq<u8> {
        self.transcript@
    }

    /// The local DH keypair.
    pub closed spec fn spec_keys(&self) -> DhLocalKeys {
        self.keys
    }

    /// The RSA modulus the response signature is checked against.
    pub closed spec fn spec_server_key(&self) -> Seq<u8> {
        self.server_key@
    }

    /// The client nonce the hello was built with.
    pub closed spec fn spec_nonce(&self) -> Seq<u8> {
        self.nonce@
    }

    /// The hello envelope this handshake put on the wire.
    pub open spec fn spec_hello(&self) -> Seq<u8> {
        hello_envelope(client_hello_payload(self.spec_keys().spec_public(), self.spec_nonce()))
    }

    pub closed spec fn awaiting_header(&self) -> bool {
        self.phase is AwaitingHeader
    }

    pub closed spec fn awaiting_payload(&self) -> bool {
        self.phase is AwaitingPayload
    }

    /// How many payload bytes the response length field promised.
    pub closed spec fn expected_payload_len(&self) -> nat {
        if self.phase is AwaitingPayload {
            self.phase->AwaitingPayload_payload_len as nat
        } else {
            0
        }
    }

    /// Well-formed: the keypair is valid, and the transcript holds exactly
    /// what the phase says has crossed the wire — the hello envelope, then
    /// the response length field.
    pub open spec fn wf(&self) -> bool {
        &&& self.spec_keys().wf()
        &&& self.spec_nonce().len() == 16
        &&& (self.awaiting_header() ==> self.spec_transcript() == self.spec_hello())
        &&& (self.awaiting_payload() ==> {
            &&& self.expected_payload_len() <= 65532
            &&& self.spec_transcript() == self.spec_hello() + be32(self.expected_payload_len() + 4)
        })
    }

    /// Starts a handshake from a given private exponent, client nonce, and
    /// server RSA modulus, and returns it with the `ClientHello` envelope to
    /// write; the envelope is already in the transcript.
    pub fn with_server_key(private_key: Vec<u8>, client_nonce: Vec<u8>, server_key: Vec<u8>) -> (r:
        (Handshake, Vec<u8>))
        requires
            private_key@.len() == 95,
            client_nonce@.len() == 16,
        ensures
            r.0.wf(),
            r.0.awaiting_header(),
            r.0.spec_server_key() == server_key@,
            r.0.spec_nonce() == client_nonce@,
            // two runs on the same arguments build the same keypair, emit
            // the same hello, and derive the same keys
            r.0.spec_keys().spec_private() == private_key@,
            r.0.spec_keys().spec_public() == canon_be(
                pow_mod(DH_GENERATOR as nat, le_val(private_key@), dh_prime_val()),
            ),
            r.1@ == hello_envelope(
                client_hello_payload(r.0.spec_keys().spec_public(), client_nonce@),
            ),
            r.0.spec_transcript() == r.1@,
    {
        let keys = DhLocalKeys::from_private(private_key);
        let gc = keys.public_key();
        proof {
            lemma_pow_mod_below_prime(2, le_val(keys.spec_private()));
            lemma_mod_prime_len(gc@);
        }
        let payload = encode_client_hello(gc.as_slice(), client_nonce.as_slice());
        proof {
            lemma_client_hello_payload_len(gc@, client_nonce@);
        }
        let mut envelope: Vec<u8> = Vec::new();
        envelope.push(0);
        envelope.push(4);
        push_be32(&mut envelope, (payload.len() + 6) as u32);
        let mut tail = slice_to_vec(payload.as_slice());
        envelope.append(&mut tail);
        assert(envelope@ =~= hello_envelope(payload@));
        let transcript = slice_to_vec(envelope.as_slice());
        let hs = Handshake {
            keys,
            transcript,
            phase: HsPhase::AwaitingHeader,
            server_key,
            nonce: Ghost(client_nonce@),
        };
        (hs, envelope)
    }

    /// Starts a handshake against the pinned access-point server key.
    pub fn with_parts(private_key: Vec<u8>, client_nonce: Vec<u8>) -> (r: (Handshake, Vec<u8>))
        requires
            private_key@.len() == 95,
            client_nonce@.len() == 16,
        ensures
            r.0.wf(),
            r.0.awaiting_header(),
            r.0.spec_server_key() == SERVER_KEY@,
            r.0.spec_nonce() == client_nonce@,
            // two runs on the same arguments build the same keypair, emit
            // the same hello, and derive the same keys
            r.0.spec_keys().spec_private() == private_key@,
            r.0.spec_keys().spec_public() == canon_be(
                pow_mod(DH_GENERATOR as nat, le_val(private_key@), dh_prime_val()),
            ),
            r.1@ == hello_envelope(
                client_hello_payload(r.0.spec_keys().spec_public(), client_nonce@),
            ),
            r.0.spec_transcript() == r.1@,
    {
        Self::with_server_key(private_key, client_nonce, slice_to_vec(SERVER_KEY.as_slice()))
    }

    /// Starts a handshake with a fresh random keypair and client nonce,
    /// against the pinned server key.
    pub fn start() -> (r: (Handshake, Vec<u8>))
        ensures
            r.0.wf(),
            r.0.awaiting_header(),
            r.0.spec_server_key() == SERVER_KEY@,
            r.1@ == r.0.spec_hello(),
            r.0.spec_transcript() == r.1@,
    {
        let private_key = random_bytes(95);
        let client_nonce = random_bytes(16);
        Self::with_parts(private_key, client_nonce)
    }

    /// Takes the 4-byte response length field: appends it to the transcript
    /// and returns how many payload bytes to read, or `Framing` when the
    /// total is below four or above the ceiling of 65536 — in which case
    /// nothing is read and no payload buffer is ever sized from it.
    pub fn process_header(&mut self, header: &[u8]) -> (r: Result<usize, HandshakeError>)
        requires
            old(self).wf(),
            old(self).awaiting_header(),
            header@.len() == 4,
        ensures
            final(self).spec_keys() == old(self).spec_keys(),
            final(self).spec_server_key() == old(self).spec_server_key(),
            final(self).spec_nonce() == old(self).spec_nonce(),
            4 <= be_val(header@) <= 65536 ==> {
                &&& r == Ok::<usize, HandshakeError>((be_val(header@) - 4) as usize)
                &&& final(self).wf()
                &&& final(self).awaiting_payload()
                &&& final(self).expected_payload_len() == be_val(header@) - 4
                &&& final(self).spec_transcript() == old(self).spec_transcript() + header@
            },
            !(4 <= be_val(header@) <= 65536) ==> {
                &&& r == Err::<usize, HandshakeError>(HandshakeError::Framing)
                &&& final(self).spec_transcript() == old(self).spec_transcript()
            },
    {
        let total = u32_from_be(header);
        if total < 4 || total > 65536 {
            self.phase = HsPhase::Done;
            return Err(HandshakeError::Framing);
        }
        let payload_len = (total - 4) as usize;
        let mut tail = slice_to_vec(header);
        self.transcript.append(&mut tail);
        self.phase = HsPhase::AwaitingPayload { payload_len };
        proof {
            lemma_be32_val(payload_len as nat + 4);
            lemma_be_val_same_len_eq(header@, be32(payload_len as nat + 4));
        }
        Ok(payload_len)
    }

    /// Takes the response payload: appends it to the transcript — completing
    /// the exact byte sequence written and read so far — parses the DH
    /// challenge out of it, verifies the server's signature over `gs`, and on
    /// success derives the keys from the shared secret and the full
    /// transcript and returns them with the `ClientResponsePlaintext`
    /// envelope to write. The response envelope itself joins no transcript.
    /// `ProtobufParse` and `VerificationFailed` say exactly on which inputs
    /// they arise; nothing is returned to write on either.
    pub fn process_response(&mut self, payload: &[u8]) -> (r: Result<Established, HandshakeError>)
        requires
            old(self).wf(),
            old(self).awaiting_payload(),
            payload@.len() == old(self).expected_payload_len(),
        ensures
            final(self).spec_transcript() == old(self).spec_transcript() + payload@,
            // transcript completeness: the bytes fed to the key derivation are
            // exactly the hello envelope written, then the length field read,
            // then the payload read, in order
            final(self).spec_transcript() == old(self).spec_hello() + be32(
                old(self).expected_payload_len() + 4,
            ) + payload@,
            ({
                let t = old(self).spec_transcript() + payload@;
                let parsed = spec_parse_ap_response(payload@);
                let secret = canon_be(
                    shared_val(old(self).spec_keys().spec_private(), parsed.unwrap().0),
                );
                &&& (r is Ok <==> parsed is Some && rsa_sha1_verify_ok(
                    old(self).spec_server_key(),
                    sha1_of(parsed.unwrap().0),
                    parsed.unwrap().1,
                ))
                &&& match r {
                    Ok(est) => {
                        &&& est.challenge@ == spec_challenge(secret, t)
                        &&& est.challenge@.len() == 20
                        &&& est.send_key@ == spec_send_key(secret, t)
                        &&& est.send_key@.len() == 32
                        &&& est.recv_key@ == spec_recv_key(secret, t)
                        &&& est.recv_key@.len() == 32
                        &&& est.response@ == response_envelope(
                            client_response_payload(est.challenge@),
                        )
                    },
                    Err(e) => {
                        &&& (parsed is None ==> e == HandshakeError::ProtobufParse)
                        &&& (parsed is Some ==> e == HandshakeError::VerificationFailed)
                    },
                }
            }),
    {
        let mut tail = slice_to_vec(payload);
        self.transcript.append(&mut tail);
        self.phase = HsPhase::Done;

        let parsed = match parse_ap_response(payload) {
            Some(c) => c,
            None => {
                return Err(HandshakeError::ProtobufParse);
            },
        };
        let hash = sha1_digest(parsed.gs.as_slice());
        let ok = rsa_pkcs1_sha1_verify(
            self.server_key.as_slice(),
            hash.as_slice(),
            parsed.gs_signature.as_slice(),
        );
        if !ok {
            return Err(HandshakeError::VerificationFailed);
        }

        let shared = self.keys.shared_secret(parsed.gs.as_slice());
        proof {
            lemma_canon_be(shared@);
        }
        let (challenge, send_key, recv_key) = compute_keys(
            shared.as_slice(),
            self.transcript.as_slice(),
        );

        let response_payload = encode_client_response(challenge.as_slice());
        proof {
            lemma_client_response_payload_len(challenge@);
        }
        let mut response: Vec<u8> = Vec::new();
        push_be32(&mut response, (response_payload.len() + 4) as u32);
        let mut resp_tail = slice_to_vec(response_payload.as_slice());
        response.append(&mut resp_tail);
        assert(response@ =~= response_envelope(response_payload@));

        Ok(Established { challenge, send_key, recv_key, response })
    }
}

} // verus!
