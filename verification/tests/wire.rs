//! Wire-format behaviour: envelope layout, protobuf encoding, response
//! parsing, the key schedule against an independent computation, and the
//! packet-type codes.
use ap_handshake::consts::PacketType;
use ap_handshake::handshake::Handshake;
use ap_handshake::keys::compute_keys;
use ap_handshake::proto::{encode_client_response, parse_ap_response, DhChallenge};
use hmac::{Hmac, Mac};
use sha1::Sha1;

// Independent helpers building protobuf wire bytes for expected values.

fn varint(mut n: u64) -> Vec<u8> {
    let mut out = Vec::new();
    while n >= 128 {
        out.push((n % 128 + 128) as u8);
        n /= 128;
    }
    out.push(n as u8);
    out
}

fn bytes_field(field: u64, payload: &[u8]) -> Vec<u8> {
    let mut out = varint(field * 8 + 2);
    out.extend_from_slice(&varint(payload.len() as u64));
    out.extend_from_slice(payload);
    out
}

fn uint_field(field: u64, v: u64) -> Vec<u8> {
    let mut out = varint(field * 8);
    out.extend_from_slice(&varint(v));
    out
}

fn ap_response_bytes(gs: &[u8], sig: &[u8]) -> Vec<u8> {
    let mut dh = bytes_field(10, gs);
    dh.extend_from_slice(&bytes_field(20, sig));
    bytes_field(10, &bytes_field(10, &bytes_field(10, &dh)))
}

#[test]
fn client_response_bytes_are_exact() {
    let challenge = [0xabu8; 20];
    let encoded = encode_client_response(&challenge);

    let mut expected = bytes_field(10, &bytes_field(10, &bytes_field(10, &challenge)));
    expected.extend_from_slice(&bytes_field(20, &[]));
    expected.extend_from_slice(&bytes_field(30, &[]));
    assert_eq!(encoded, expected);
}

#[test]
fn parse_ap_response_round_trips() {
    let gs = vec![7u8; 96];
    let sig = vec![9u8; 256];
    let payload = ap_response_bytes(&gs, &sig);
    let parsed: DhChallenge = parse_ap_response(&payload).expect("well-formed response");
    assert_eq!(parsed.gs, gs);
    assert_eq!(parsed.gs_signature, sig);
}

#[test]
fn parse_ap_response_skips_unknown_fields() {
    let gs = vec![1u8, 2, 3];
    let sig = vec![4u8, 5];
    let mut dh = bytes_field(10, &gs);
    dh.extend_from_slice(&bytes_field(20, &sig));
    let lcc = bytes_field(10, &dh);
    let mut challenge = bytes_field(10, &lcc);
    // server_nonce (field 50) and padding (field 60) alongside the union
    challenge.extend_from_slice(&bytes_field(50, &[0xaa; 16]));
    challenge.extend_from_slice(&bytes_field(60, &[0x55; 8]));
    let mut outer = bytes_field(10, &challenge);
    outer.extend_from_slice(&bytes_field(20, &[])); // upgrade: empty message
    let parsed = parse_ap_response(&outer).expect("extra fields are skipped");
    assert_eq!(parsed.gs, gs);
    assert_eq!(parsed.gs_signature, sig);
}

#[test]
fn parse_ap_response_rejects_garbage() {
    assert!(parse_ap_response(&[0xff, 0xff, 0xff]).is_none());
}

#[test]
fn parse_ap_response_defaults_missing_signature_to_empty() {
    let dh = bytes_field(10, &[1u8, 2, 3]); // gs only, no gs_signature
    let payload = bytes_field(10, &bytes_field(10, &bytes_field(10, &dh)));
    let parsed = parse_ap_response(&payload).expect("absent fields read as defaults");
    assert_eq!(parsed.gs, vec![1u8, 2, 3]);
    assert!(parsed.gs_signature.is_empty());
}

#[test]
fn parse_ap_response_defaults_empty_message_to_empty_fields() {
    // an empty APResponseMessage decodes; every link of the chain defaults
    let parsed = parse_ap_response(&[]).expect("empty message decodes");
    assert!(parsed.gs.is_empty());
    assert!(parsed.gs_signature.is_empty());
}

#[test]
fn key_schedule_matches_independent_computation() {
    type HmacSha1 = Hmac<Sha1>;
    let secret = b"0123456789abcdefghij";
    let transcript = b"the bytes that crossed the wire before keying";

    let mut material = Vec::new();
    for i in 1u8..6 {
        let mut mac = HmacSha1::new_from_slice(secret).unwrap();
        mac.update(transcript);
        mac.update(&[i]);
        material.extend_from_slice(&mac.finalize().into_bytes());
    }
    let mut mac = HmacSha1::new_from_slice(&material[..20]).unwrap();
    mac.update(transcript);
    let expected_challenge = mac.finalize().into_bytes().to_vec();

    let (challenge, send_key, recv_key) = compute_keys(secret, transcript);
    assert_eq!(challenge, expected_challenge);
    assert_eq!(send_key, material[0x14..0x34].to_vec());
    assert_eq!(recv_key, material[0x34..0x54].to_vec());
}

#[test]
fn key_schedule_lengths() {
    let (challenge, send_key, recv_key) = compute_keys(&[1, 2, 3], &[4, 5, 6]);
    assert_eq!(challenge.len(), 20);
    assert_eq!(send_key.len(), 32);
    assert_eq!(recv_key.len(), 32);
}

#[test]
fn key_schedule_is_idempotent() {
    let secret = [9u8; 17];
    let transcript = [3u8; 300];
    let first = compute_keys(&secret, &transcript);
    let second = compute_keys(&secret, &transcript);
    assert_eq!(first, second);
}

#[test]
fn packet_type_codes_round_trip() {
    assert_eq!(PacketType::from(2u8), PacketType::SecretBlock);
    assert_eq!(PacketType::from(4u8), PacketType::Ping);
    assert_eq!(PacketType::from(75u8), PacketType::Pause);
    assert_eq!(PacketType::from(171u8), PacketType::Login);
    assert_eq!(PacketType::from(172u8), PacketType::APWelcome);
    assert_eq!(PacketType::from(173u8), PacketType::AuthFailure);
    assert_eq!(PacketType::from(181u8), PacketType::MercuryEvent);
    assert_eq!(PacketType::from(3u8), PacketType::Unknown);
    assert_eq!(PacketType::from(255u8), PacketType::Unknown);
}

#[test]
fn parser_accepts_multi_byte_varint_lengths() {
    // a 200-byte gs forces a two-byte length varint inside the message
    let gs = vec![0x42u8; 200];
    let sig = vec![0x17u8; 256];
    let payload = ap_response_bytes(&gs, &sig);
    let parsed = parse_ap_response(&payload).expect("two-byte varint length");
    assert_eq!(parsed.gs, gs);
    assert_eq!(parsed.gs_signature, sig);
}

#[test]
fn parser_accepts_non_minimal_varint_encodings() {
    // gs length 3 written as the two-byte varint {0x83, 0x00}
    let gs = [1u8, 2, 3];
    let sig = [9u8];
    let mut dh = vec![0x52, 0x83, 0x00];
    dh.extend_from_slice(&gs);
    dh.extend_from_slice(&bytes_field(20, &sig));
    let payload = bytes_field(10, &bytes_field(10, &bytes_field(10, &dh)));
    let parsed = parse_ap_response(&payload).expect("padded varint");
    assert_eq!(parsed.gs, gs.to_vec());
    assert_eq!(parsed.gs_signature, sig.to_vec());
}

#[test]
fn parser_rejects_varints_longer_than_ten_bytes() {
    // an eleven-byte field key is over the wire format's limit
    let mut payload = vec![0x80u8; 11];
    payload.push(0x00);
    assert!(parse_ap_response(&payload).is_none());
}

#[test]
fn parser_rejects_varints_above_64_bits() {
    // ten bytes whose value needs 70 bits
    let payload = vec![0xffu8, 0xff, 0xff, 0xff, 0xff, 0xff, 0xff, 0xff, 0xff, 0x7f];
    assert!(parse_ap_response(&payload).is_none());
}

#[test]
fn parser_takes_the_last_of_repeated_fields() {
    let mut dh = bytes_field(10, &[0xaau8; 4]);
    dh.extend_from_slice(&bytes_field(20, &[0xbbu8; 4]));
    dh.extend_from_slice(&bytes_field(10, &[0xccu8; 4])); // later gs wins
    let payload = bytes_field(10, &bytes_field(10, &bytes_field(10, &dh)));
    let parsed = parse_ap_response(&payload).expect("repeated fields");
    assert_eq!(parsed.gs, vec![0xccu8; 4]);
    assert_eq!(parsed.gs_signature, vec![0xbbu8; 4]);
}

#[test]
fn parser_rejects_truncated_field_payloads() {
    // the length claims six bytes but only three follow
    let payload = vec![0x52u8, 0x06, 1, 2, 3];
    assert!(parse_ap_response(&payload).is_none());
}

#[test]
fn client_hello_bytes_are_exact() {
    // private exponent 1 makes the public value the generator itself
    let mut private_key = vec![0u8; 95];
    private_key[0] = 1;
    let nonce = vec![0x5au8; 16];
    let (_hs, hello) = Handshake::with_parts(private_key, nonce.clone());

    let mut build_info = uint_field(10, 0); // product: CLIENT
    build_info.extend_from_slice(&uint_field(20, 0)); // product_flags: [NONE]
    build_info.extend_from_slice(&uint_field(30, 8)); // platform: LINUX_X86_64
    build_info.extend_from_slice(&uint_field(40, 124200290)); // version

    let mut dh_hello = bytes_field(10, &[2]); // gc == generator
    dh_hello.extend_from_slice(&uint_field(20, 1)); // server_keys_known

    let mut expected = bytes_field(10, &build_info);
    expected.extend_from_slice(&uint_field(30, 0)); // cryptosuites: [SHANNON]
    expected.extend_from_slice(&bytes_field(50, &bytes_field(10, &dh_hello)));
    expected.extend_from_slice(&bytes_field(60, &nonce));
    expected.extend_from_slice(&bytes_field(70, &[0x1e]));

    assert_eq!(&hello[6..], &expected[..]);
    assert_eq!(hello.len(), expected.len() + 6);
}
