//! Full handshake runs against a locally generated server key: the happy
//! path, signature and message tampering, and the framing checks on the
//! response length field.
use ap_handshake::handshake::{Established, Handshake, HandshakeError};
use rsa::rand_core::{CryptoRng, Error as RngError, RngCore};
use rsa::traits::PublicKeyParts;
use rsa::{Pkcs1v15Sign, RsaPrivateKey};
use sha1::{Digest, Sha1};

/// A small deterministic generator, good enough to grow an RSA test key.
struct TestRng(u64);

impl RngCore for TestRng {
    fn next_u32(&mut self) -> u32 {
        self.next_u64() as u32
    }

    fn next_u64(&mut self) -> u64 {
        let mut x = self.0;
        x ^= x << 13;
        x ^= x >> 7;
        x ^= x << 17;
        self.0 = x;
        x
    }

    fn fill_bytes(&mut self, dest: &mut [u8]) {
        for chunk in dest.chunks_mut(8) {
            let bytes = self.next_u64().to_le_bytes();
            chunk.copy_from_slice(&bytes[..chunk.len()]);
        }
    }

    fn try_fill_bytes(&mut self, dest: &mut [u8]) -> Result<(), RngError> {
        self.fill_bytes(dest);
        Ok(())
    }
}

impl CryptoRng for TestRng {}

fn varint(mut n: u64) -> Vec<u8> {
    let mut out = Vec::new();
    while n >= 128 {
        out.push((n % 128 + 128) as u8);
        n /= 128;
    }
    out.push(n as u8);
    out
}

fn bytes_field(field: u64, payload: &[u8]) -> Vec<u8> {
    let mut out = varint(field * 8 + 2);
    out.extend_from_slice(&varint(payload.len() as u64));
    out.extend_from_slice(payload);
    out
}

fn ap_response_bytes(gs: &[u8], sig: &[u8]) -> Vec<u8> {
    let mut dh = bytes_field(10, gs);
    dh.extend_from_slice(&bytes_field(20, sig));
    bytes_field(10, &bytes_field(10, &bytes_field(10, &dh)))
}

struct Server {
    modulus: Vec<u8>,
    gs: Vec<u8>,
    gs_signature: Vec<u8>,
}

fn test_server() -> Server {
    let mut rng = TestRng(0x5eed_5eed_5eed_5eed);
    let key = RsaPrivateKey::new(&mut rng, 1024).expect("test key generation");
    let gs = vec![2u8; 96];
    let hash = Sha1::digest(&gs);
    let gs_signature = key
        .sign(Pkcs1v15Sign::new::<Sha1>(), &hash)
        .expect("test signing");
    Server { modulus: key.n().to_bytes_be(), gs, gs_signature }
}

fn header_for(payload_len: usize) -> [u8; 4] {
    let total = (payload_len + 4) as u32;
    total.to_be_bytes()
}

fn run(server: &Server, payload: &[u8]) -> Result<Established, HandshakeError> {
    let (mut hs, hello) = Handshake::with_server_key(
        vec![0u8; 95],
        vec![0u8; 16],
        server.modulus.clone(),
    );
    assert_eq!(hello[0], 0);
    assert_eq!(hello[1], 4);
    let expected = hs.process_header(&header_for(payload.len()))?;
    assert_eq!(expected, payload.len());
    hs.process_response(payload)
}

#[test]
fn happy_path_yields_stable_keys() {
    let server = test_server();
    let payload = ap_response_bytes(&server.gs, &server.gs_signature);

    let first = run(&server, &payload).expect("valid handshake");
    assert_eq!(first.challenge.len(), 20);
    assert_eq!(first.send_key.len(), 32);
    assert_eq!(first.recv_key.len(), 32);
    assert!(!first.response.is_empty());

    // the same inputs derive bit-identical keys on every run
    let again = run(&server, &payload).expect("valid handshake");
    assert_eq!(first.challenge, again.challenge);
    assert_eq!(first.send_key, again.send_key);
    assert_eq!(first.recv_key, again.recv_key);
    assert_eq!(first.response, again.response);
}

#[test]
fn response_envelope_length_counts_itself() {
    let server = test_server();
    let payload = ap_response_bytes(&server.gs, &server.gs_signature);
    let est = run(&server, &payload).expect("valid handshake");
    let len = u32::from_be_bytes([
        est.response[0],
        est.response[1],
        est.response[2],
        est.response[3],
    ]) as usize;
    assert_eq!(len, est.response.len());
}

#[test]
fn flipped_signature_tail_fails_verification() {
    let server = test_server();
    let mut sig = server.gs_signature.clone();
    let last = sig.len() - 1;
    sig[last] ^= 0x01;
    let payload = ap_response_bytes(&server.gs, &sig);
    assert_eq!(run(&server, &payload).unwrap_err(), HandshakeError::VerificationFailed);
}

#[test]
fn every_single_bit_flip_in_signature_fails_verification() {
    let server = test_server();
    for byte in 0..server.gs_signature.len() {
        for bit in 0..8 {
            let mut sig = server.gs_signature.clone();
            sig[byte] ^= 1u8 << bit;
            let payload = ap_response_bytes(&server.gs, &sig);
            assert_eq!(
                run(&server, &payload).unwrap_err(),
                HandshakeError::VerificationFailed,
                "bit {} of byte {} went undetected",
                bit,
                byte
            );
        }
    }
}

#[test]
fn every_single_byte_change_in_gs_fails_verification() {
    let server = test_server();
    for byte in 0..server.gs.len() {
        let mut gs = server.gs.clone();
        gs[byte] = gs[byte].wrapping_add(1);
        let payload = ap_response_bytes(&gs, &server.gs_signature);
        assert_eq!(
            run(&server, &payload).unwrap_err(),
            HandshakeError::VerificationFailed,
            "change in gs byte {} went undetected",
            byte
        );
    }
}

#[test]
fn garbage_payload_is_a_parse_error() {
    let server = test_server();
    assert_eq!(
        run(&server, &[0xff, 0xff, 0xff]).unwrap_err(),
        HandshakeError::ProtobufParse
    );
}

#[test]
fn plausible_length_header_is_accepted() {
    // a 4-byte length claiming 4096 total bytes: the reader is told to fetch
    // 4092 more; a stream that then ends is the caller's transport error
    let (mut hs, _hello) = Handshake::with_parts(vec![0u8; 95], vec![0u8; 16]);
    assert_eq!(hs.process_header(&0x1000u32.to_be_bytes()), Ok(4092));
}

#[test]
fn oversize_length_header_is_framing() {
    let (mut hs, _hello) = Handshake::with_parts(vec![0u8; 95], vec![0u8; 16]);
    assert_eq!(
        hs.process_header(&[0xff, 0xff, 0xff, 0xff]),
        Err(HandshakeError::Framing)
    );
}

#[test]
fn undersize_length_header_is_framing() {
    let (mut hs, _hello) = Handshake::with_parts(vec![0u8; 95], vec![0u8; 16]);
    assert_eq!(hs.process_header(&[0, 0, 0, 3]), Err(HandshakeError::Framing));
}

#[test]
fn random_start_emits_a_versioned_envelope() {
    let (_hs, hello) = Handshake::start();
    assert_eq!(hello[0], 0);
    assert_eq!(hello[1], 4);
    let len = u32::from_be_bytes([hello[2], hello[3], hello[4], hello[5]]) as usize;
    assert_eq!(len, hello.len());
}

#[test]
fn error_messages_name_their_failure() {
    assert_eq!(HandshakeError::InvalidLength.message(), "invalid key length");
    assert_eq!(
        HandshakeError::VerificationFailed.message(),
        "server key verification failed"
    );
    assert_eq!(HandshakeError::Framing.message(), "inconsistent response length field");
    assert_eq!(HandshakeError::ProtobufParse.message(), "undecodable APResponseMessage");
}

#[test]
fn empty_response_message_fails_verification_not_parse() {
    // an empty APResponseMessage decodes, its fields read as defaults, and
    // the signature check over the empty values is what rejects it
    let server = test_server();
    assert_eq!(run(&server, &[]).unwrap_err(), HandshakeError::VerificationFailed);
}
