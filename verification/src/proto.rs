//! The protobuf wire form of the three handshake messages: base-128 varints,
//! length-delimited fields, the `ClientHello` and `ClientResponsePlaintext`
//! payloads the client emits, and a field scanner that digs the server's DH
//! public value and its signature out of an `APResponseMessage`.
use vstd::prelude::*;
use vstd::arithmetic::div_mod::lemma_div_is_strictly_smaller;
use vstd::arithmetic::power::pow;
use vstd::slice::{slice_index_get, slice_subrange, slice_to_vec};
use crate::consts::SPOTIFY_VERSION;

verus! {

/// Base-128 varint: seven low bits per byte, least-significant group first,
/// the high bit set on every byte but the last.
pub open spec fn varint(n: nat) -> Seq<u8>
    decreases n,
    via varint_decreases
{
    if n < 128 {
        seq![n as u8]
    } else {
        seq![(n % 128 + 128) as u8] + varint(n / 128)
    }
}

#[via_fn]
proof fn varint_decreases(n: nat) {
    if n >= 128 {
        lemma_div_is_strictly_smaller(n as int, 128);
    }
}

/// A field key: field number and wire type packed into one varint.
pub open spec fn key_bytes(field: nat, wire: nat) -> Seq<u8> {
    varint(field * 8 + wire)
}

/// A length-delimited field: key, payload length, payload.
pub open spec fn bytes_field(field: nat, payload: Seq<u8>) -> Seq<u8> {
    key_bytes(field, 2) + varint(payload.len()) + payload
}

/// A varint field.
pub open spec fn uint_field(field: nat, v: nat) -> Seq<u8> {
    key_bytes(field, 0) + varint(v)
}

/// Appends the varint form of `n`.
fn push_varint(out: &mut Vec<u8>, n: u64)
    ensures
        final(out)@ == old(out)@ + varint(n as nat),
{
    let ghost n0 = n as nat;
    let mut m = n;
    while m >= 128
        invariant
            out@ + varint(m as nat) == old(out)@ + varint(n0),
        decreases m,
    {
        let ghost prev_out = out@;
        let ghost prev = m;
        out.push((m % 128 + 128) as u8);
        m = m / 128;
        proof {
            lemma_div_is_strictly_smaller(prev as int, 128);
            assert(varint(prev as nat) == seq![(prev % 128 + 128) as u8] + varint(m as nat));
            assert(out@ =~= prev_out + seq![(prev % 128 + 128) as u8]);
            assert(out@ + varint(m as nat) =~= prev_out + varint(prev as nat));
        }
    }
    let ghost prev_out = out@;
    out.push(m as u8);
    proof {
        assert(varint(m as nat) == seq![m as u8]);
        assert(out@ =~= prev_out + seq![m as u8]);
        assert(out@ =~= prev_out + varint(m as nat));
    }
}

/// Appends a field key.
fn push_key(out: &mut Vec<u8>, field: u64, wire: u64)
    requires
        field < 0x1000_0000,
        wire < 8,
    ensures
        final(out)@ == old(out)@ + key_bytes(field as nat, wire as nat),
{
    push_varint(out, field * 8 + wire);
}

/// Appends a length-delimited field.
fn push_bytes_field(out: &mut Vec<u8>, field: u64, payload: &[u8])
    requires
        field < 0x1000_0000,
    ensures
        final(out)@ == old(out)@ + bytes_field(field as nat, payload@),
{
    push_key(out, field, 2);
    push_varint(out, payload.len() as u64);
    let mut tail = slice_to_vec(payload);
    out.append(&mut tail);
    assert(out@ =~= old(out)@ + bytes_field(field as nat, payload@));
}

/// Appends a varint field.
fn push_uint_field(out: &mut Vec<u8>, field: u64, v: u64)
    requires
        field < 0x1000_0000,
    ensures
        final(out)@ == old(out)@ + uint_field(field as nat, v as nat),
{
    push_key(out, field, 0);
    push_varint(out, v);
    assert(out@ =~= old(out)@ + uint_field(field as nat, v as nat));
}

/// The `BuildInfo` message: product CLIENT, flags [NONE], platform
/// LINUX_X86_64, and the pinned client version.
pub open spec fn build_info_msg() -> Seq<u8> {
    uint_field(10, 0)  // product: CLIENT
     + uint_field(20, 0)  // product_flags: [NONE]
     + uint_field(30, 8)  // platform: LINUX_X86_64
     + uint_field(40, SPOTIFY_VERSION as nat)
}

/// The `LoginCryptoDiffieHellmanHello` message: the local public value and
/// `server_keys_known = 1`.
pub open spec fn dh_hello_msg(gc: Seq<u8>) -> Seq<u8> {
    bytes_field(10, gc) + uint_field(20, 1)
}

/// The `login_crypto_hello` field: the union message whose `diffie_hellman`
/// member carries the DH hello.
pub open spec fn login_crypto_hello_msg(gc: Seq<u8>) -> Seq<u8> {
    bytes_field(50, bytes_field(10, dh_hello_msg(gc)))
}

/// The serialized `ClientHello` payload.
pub open spec fn client_hello_payload(gc: Seq<u8>, nonce: Seq<u8>) -> Seq<u8> {
    bytes_field(10, build_info_msg())  // build_info
     + uint_field(30, 0)  // cryptosuites_supported: [SHANNON]
     + login_crypto_hello_msg(gc)  // login_crypto_hello
     + bytes_field(60, nonce)  // client_nonce
     + bytes_field(70, seq![0x1eu8])  // padding
}

/// The serialized `ClientResponsePlaintext` payload: the challenge HMAC three
/// messages deep, and the empty pow and crypto responses. Servers accept the
/// two responses empty today; whether they will keep doing so is unknown, so
/// the defaults are reproduced rather than guessed at.
pub open spec fn client_response_payload(challenge: Seq<u8>) -> Seq<u8> {
    bytes_field(10, bytes_field(10, bytes_field(10, challenge)))  // login_crypto_response.diffie_hellman.hmac
     + bytes_field(20, Seq::<u8>::empty())  // pow_response: default
     + bytes_field(30, Seq::<u8>::empty())  // crypto_response: default
}

/// Serializes the `ClientHello` for a local public value and client nonce.
pub fn encode_client_hello(gc: &[u8], nonce: &[u8]) -> (r: Vec<u8>)
    ensures
        r@ == client_hello_payload(gc@, nonce@),
{
    let mut build_info: Vec<u8> = Vec::new();
    push_uint_field(&mut build_info, 10, 0);
    push_uint_field(&mut build_info, 20, 0);
    push_uint_field(&mut build_info, 30, 8);
    push_uint_field(&mut build_info, 40, SPOTIFY_VERSION);
    assert(build_info@ =~= build_info_msg());

    let mut dh_hello: Vec<u8> = Vec::new();
    push_bytes_field(&mut dh_hello, 10, gc);
    push_uint_field(&mut dh_hello, 20, 1);
    assert(dh_hello@ =~= dh_hello_msg(gc@));

    let mut login_crypto_hello: Vec<u8> = Vec::new();
    push_bytes_field(&mut login_crypto_hello, 10, dh_hello.as_slice());
    assert(login_crypto_hello@ =~= bytes_field(10, dh_hello_msg(gc@)));

    let mut out: Vec<u8> = Vec::new();
    push_bytes_field(&mut out, 10, build_info.as_slice());
    assert(out@ =~= bytes_field(10, build_info_msg()));
    push_uint_field(&mut out, 30, 0);
    push_bytes_field(&mut out, 50, login_crypto_hello.as_slice());
    push_bytes_field(&mut out, 60, nonce);
    let padding: [u8; 1] = [0x1e];
    push_bytes_field(&mut out, 70, padding.as_slice());
    assert(padding@ =~= seq![0x1eu8]);
    assert(out@ =~= client_hello_payload(gc@, nonce@));
    out
}

/// Serializes the `ClientResponsePlaintext` for a derived challenge.
pub fn encode_client_response(challenge: &[u8]) -> (r: Vec<u8>)
    ensures
        r@ == client_response_payload(challenge@),
{
    let mut dh_response: Vec<u8> = Vec::new();
    push_bytes_field(&mut dh_response, 10, challenge);

    let mut login_crypto: Vec<u8> = Vec::new();
    push_bytes_field(&mut login_crypto, 10, dh_response.as_slice());

    let mut out: Vec<u8> = Vec::new();
    push_bytes_field(&mut out, 10, login_crypto.as_slice());
    assert(out@ =~= bytes_field(10, bytes_field(10, bytes_field(10, challenge@))));
    let empty: [u8; 0] = [];
    push_bytes_field(&mut out, 20, empty.as_slice());
    push_bytes_field(&mut out, 30, empty.as_slice());
    assert(empty@ =~= Seq::<u8>::empty());
    assert(out@ =~= client_response_payload(challenge@));
    out
}


/// Parses a varint at `i`, recursion bounded by `fuel` bytes: the raw value,
/// before the 64-bit cap is applied.
pub open spec fn raw_varint(s: Seq<u8>, i: int, fuel: nat) -> Option<(nat, int)>
    decreases fuel,
{
    if i < 0 || i >= s.len() || fuel == 0 {
        None
    } else if s[i] < 128 {
        Some((s[i] as nat, i + 1))
    } else {
        match raw_varint(s, i + 1, (fuel - 1) as nat) {
            Some((v, j)) => Some(((s[i] - 128) as nat + 128 * v, j)),
            None => None,
        }
    }
}

/// Parses a varint at `i`: at most ten bytes and a value below 2^64, as the
/// protobuf wire format demands.
pub open spec fn spec_parse_varint(s: Seq<u8>, i: int) -> Option<(nat, int)> {
    match raw_varint(s, i, 10) {
        Some((v, j)) => if v < 0x1_0000_0000_0000_0000 {
            Some((v, j))
        } else {
            None
        },
        None => None,
    }
}

/// A parsed varint ends after its start and within the input.
proof fn lemma_raw_varint_pos(s: Seq<u8>, i: int, fuel: nat)
    requires
        raw_varint(s, i, fuel) is Some,
    ensures
        i < raw_varint(s, i, fuel).unwrap().1 <= s.len(),
    decreases fuel,
{
    if !(i < 0 || i >= s.len() || fuel == 0) && s[i] >= 128 {
        lemma_raw_varint_pos(s, i + 1, (fuel - 1) as nat);
    }
}

/// The same, at the capped entry point.
proof fn lemma_parse_varint_pos(s: Seq<u8>, i: int)
    requires
        spec_parse_varint(s, i) is Some,
    ensures
        i < spec_parse_varint(s, i).unwrap().1 <= s.len(),
{
    lemma_raw_varint_pos(s, i, 10);
}

/// How an executable parse result may relate to the raw spec parse: equal, or
/// rejected because the value does not fit in 64 bits.
spec fn varint_raw_matches(g: Option<(nat, int)>, r: Option<(u64, usize)>) -> bool {
    match r {
        Some(p) => g == Some((p.0 as nat, p.1 as int)),
        None => match g {
            Some(q) => q.0 >= 0x1_0000_0000_0000_0000,
            None => true,
        },
    }
}

fn parse_varint_raw(s: &[u8], i: usize, fuel: u64) -> (r: Option<(u64, usize)>)
    ensures
        varint_raw_matches(raw_varint(s@, i as int, fuel as nat), r),
    decreases fuel,
{
    if fuel == 0 || i >= s.len() {
        return None;
    }
    let b = *slice_index_get(s, i);
    if b < 128 {
        Some((b as u64, i + 1))
    } else {
        match parse_varint_raw(s, i + 1, fuel - 1) {
            None => {
                proof {
                    let g = raw_varint(s@, i as int + 1, (fuel - 1) as nat);
                    if g is Some {
                        let v = g.unwrap().0;
                        assert((s@[i as int] - 128) as nat + 128 * v >= v) by (nonlinear_arith);
                    }
                }
                None
            },
            Some((v, j)) => {
                let low = (b - 128) as u64;
                let max_rest = (u64::MAX - low) / 128;
                if v <= max_rest {
                    proof {
                        assert(128 * v <= u64::MAX - low) by (nonlinear_arith)
                            requires
                                v <= (u64::MAX - low) / 128,
                                low < 128,
                        {
                            vstd::arithmetic::div_mod::lemma_fundamental_div_mod(
                                (u64::MAX - low) as int,
                                128,
                            );
                        }
                    }
                    Some((low + 128 * v, j))
                } else {
                    proof {
                        assert(low as nat + 128 * (v as nat) > u64::MAX) by (nonlinear_arith)
                            requires
                                v > (u64::MAX - low) / 128,
                                low < 128,
                        {
                            vstd::arithmetic::div_mod::lemma_fundamental_div_mod(
                                (u64::MAX - low) as int,
                                128,
                            );
                        }
                    }
                    None
                }
            },
        }
    }
}

/// Parses one varint, returning its value and the position after it.
fn parse_varint(s: &[u8], i: usize) -> (r: Option<(u64, usize)>)
    ensures
        match r {
            Some(p) => spec_parse_varint(s@, i as int) == Some((p.0 as nat, p.1 as int)),
            None => spec_parse_varint(s@, i as int) is None,
        },
{
    parse_varint_raw(s, i, 10)
}

/// Scans the fields of a message from position `i` for a length-delimited
/// field with the given number, later occurrences winning as the protobuf
/// rules demand. `None`: the message is malformed, or the field occurs with
/// another wire type. `Some(None)`: well-formed, field absent.
/// `Some(Some(p))`: well-formed, and `p` is the field's payload.
pub open spec fn spec_scan(s: Seq<u8>, i: int, field: nat) -> Option<Option<Seq<u8>>>
    decreases s.len() - i,
    via spec_scan_decreases
{
    if i < 0 || i > s.len() {
        None
    } else if i == s.len() {
        Some(None)
    } else {
        match spec_parse_varint(s, i) {
            None => None,
            Some((key, j)) => {
                let wire = key % 8;
                let fld = key / 8;
                if wire == 0 {
                    match spec_parse_varint(s, j) {
                        None => None,
                        Some((_v, j2)) => if fld == field {
                            None
                        } else {
                            spec_scan(s, j2, field)
                        },
                    }
                } else if wire == 2 {
                    match spec_parse_varint(s, j) {
                        None => None,
                        Some((len, j2)) => if j2 + len > s.len() {
                            None
                        } else {
                            let payload = s.subrange(j2, j2 + len);
                            let rest = spec_scan(s, j2 + len, field);
                            if fld == field {
                                match rest {
                                    None => None,
                                    Some(Some(p)) => Some(Some(p)),
                                    Some(None) => Some(Some(payload)),
                                }
                            } else {
                                rest
                            }
                        },
                    }
                } else if wire == 5 {
                    if j + 4 > s.len() || fld == field {
                        None
                    } else {
                        spec_scan(s, j + 4, field)
                    }
                } else if wire == 1 {
                    if j + 8 > s.len() || fld == field {
                        None
                    } else {
                        spec_scan(s, j + 8, field)
                    }
                } else {
                    None
                }
            },
        }
    }
}

#[via_fn]
proof fn spec_scan_decreases(s: Seq<u8>, i: int, field: nat) {
    if 0 <= i < s.len() {
        if spec_parse_varint(s, i) is Some {
            lemma_parse_varint_pos(s, i);
            let j = spec_parse_varint(s, i).unwrap().1;
            if spec_parse_varint(s, j) is Some {
                lemma_parse_varint_pos(s, j);
            }
        }
    }
}

/// How a scan result resolves against the best match seen in the fields
/// already passed: later fields win, a missing later match falls back.
spec fn scan_resolve(rest: Option<Option<Seq<u8>>>, best: Option<Seq<u8>>) -> Option<
    Option<Seq<u8>>,
> {
    match rest {
        None => None,
        Some(Some(p)) => Some(Some(p)),
        Some(None) => Some(best),
    }
}

/// Finds the last length-delimited occurrence of `field` in the message,
/// returned as a start/end range into `s`.
fn scan_field(s: &[u8], field: u64) -> (r: Option<Option<(usize, usize)>>)
    ensures
        match r {
            None => spec_scan(s@, 0, field as nat) is None,
            Some(None) => spec_scan(s@, 0, field as nat) == Some(None::<Seq<u8>>),
            Some(Some((a, b))) => a <= b <= s@.len() && spec_scan(s@, 0, field as nat) == Some(
                Some(s@.subrange(a as int, b as int)),
            ),
        },
{
    let mut i: usize = 0;
    let mut best: Option<(usize, usize)> = None;
    loop
        invariant
            i <= s@.len(),
            match best {
                Some((a, b)) => a <= b <= s@.len(),
                None => true,
            },
            spec_scan(s@, 0, field as nat) == scan_resolve(
                spec_scan(s@, i as int, field as nat),
                match best {
                    Some((a, b)) => Some(s@.subrange(a as int, b as int)),
                    None => None::<Seq<u8>>,
                },
            ),
        decreases s@.len() - i,
    {
        if i == s.len() {
            return Some(best);
        }
        let (key, j) = match parse_varint(s, i) {
            Some(p) => p,
            None => {
                return None;
            },
        };
        proof {
            lemma_parse_varint_pos(s@, i as int);
        }
        let wire = key % 8;
        let fld = key / 8;
        if wire == 0 {
            let j2 = match parse_varint(s, j) {
                Some(p) => p.1,
                None => {
                    return None;
                },
            };
            if fld == field {
                return None;
            }
            proof {
                lemma_parse_varint_pos(s@, j as int);
            }
            i = j2;
        } else if wire == 2 {
            let (len, j2) = match parse_varint(s, j) {
                Some(p) => p,
                None => {
                    return None;
                },
            };
            proof {
                lemma_parse_varint_pos(s@, j as int);
            }
            if len > (s.len() - j2) as u64 {
                return None;
            }
            let end = j2 + len as usize;
            if fld == field {
                best = Some((j2, end));
            }
            i = end;
        } else if wire == 5 {
            if s.len() - j < 4 || fld == field {
                return None;
            }
            i = j + 4;
        } else if wire == 1 {
            if s.len() - j < 8 || fld == field {
                return None;
            }
            i = j + 8;
        } else {
            return None;
        }
    }
}

/// The DH challenge of an `APResponseMessage`: the server's public value `gs`
/// and the RSA signature over it.
pub struct DhChallenge {
    pub gs: Vec<u8>,
    pub gs_signature: Vec<u8>,
}

/// An absent optional field reads as its default: the empty byte string.
pub open spec fn field_or_empty(found: Option<Seq<u8>>) -> Seq<u8> {
    match found {
        Some(p) => p,
        None => Seq::<u8>::empty(),
    }
}

/// What parsing an `APResponseMessage` payload yields: the `gs` and
/// `gs_signature` bytes found at
/// `challenge.login_crypto_challenge.diffie_hellman`, or nothing if the
/// message is malformed at any level. An absent link of the chain reads as an
/// empty message, so its fields come out as their empty defaults; whether
/// such a response is acceptable is the signature check's question, not the
/// parser's.
pub open spec fn spec_parse_ap_response(payload: Seq<u8>) -> Option<(Seq<u8>, Seq<u8>)> {
    match spec_scan(payload, 0, 10) {  // challenge
        None => None,
        Some(ch) => match spec_scan(field_or_empty(ch), 0, 10) {  // login_crypto_challenge
            None => None,
            Some(lcc) => match spec_scan(field_or_empty(lcc), 0, 10) {  // diffie_hellman
                None => None,
                Some(dh) => match (
                    spec_scan(field_or_empty(dh), 0, 10),  // gs
                    spec_scan(field_or_empty(dh), 0, 20),  // gs_signature
                ) {
                    (Some(gs), Some(sig)) => Some((field_or_empty(gs), field_or_empty(sig))),
                    _ => None,
                },
            },
        },
    }
}

/// Extracts the DH challenge from a serialized `APResponseMessage`.
pub fn parse_ap_response(payload: &[u8]) -> (r: Option<DhChallenge>)
    ensures
        match r {
            Some(c) => spec_parse_ap_response(payload@) == Some((c.gs@, c.gs_signature@)),
            None => spec_parse_ap_response(payload@) is None,
        },
{
    let empty: [u8; 0] = [];
    proof {
        assert(empty@ =~= Seq::<u8>::empty());
    }
    let challenge: &[u8] = match scan_field(payload, 10) {
        Some(Some((a, b))) => slice_subrange(payload, a, b),
        Some(None) => empty.as_slice(),
        None => {
            return None;
        },
    };
    let lcc: &[u8] = match scan_field(challenge, 10) {
        Some(Some((a, b))) => slice_subrange(challenge, a, b),
        Some(None) => empty.as_slice(),
        None => {
            return None;
        },
    };
    let dh: &[u8] = match scan_field(lcc, 10) {
        Some(Some((a, b))) => slice_subrange(lcc, a, b),
        Some(None) => empty.as_slice(),
        None => {
            return None;
        },
    };
    let gs = match scan_field(dh, 10) {
        Some(Some((a, b))) => slice_to_vec(slice_subrange(dh, a, b)),
        Some(None) => Vec::new(),
        None => {
            return None;
        },
    };
    let gs_signature = match scan_field(dh, 20) {
        Some(Some((a, b))) => slice_to_vec(slice_subrange(dh, a, b)),
        Some(None) => Vec::new(),
        None => {
            return None;
        },
    };
    Some(DhChallenge { gs, gs_signature })
}


/// Ten powers of 128, written out.
proof fn lemma_pow128_10()
    ensures
        pow(128, 10) == 0x40_0000_0000_0000_0000,
{
    reveal_with_fuel(pow, 11);
}

/// A varint for a value below `128^k` takes at most `k` bytes.
proof fn lemma_varint_len(n: nat, k: nat)
    requires
        1 <= k,
        n < pow(128, k),
    ensures
        varint(n).len() <= k,
    decreases k,
{
    reveal(pow);
    if n >= 128 {
        assert(pow(128, k) == 128 * pow(128, (k - 1) as nat));
        if k == 1 {
            assert(pow(128, 0) == 1);
        }
        assert(n / 128 < pow(128, (k - 1) as nat)) by (nonlinear_arith)
            requires
                n < 128 * pow(128, (k - 1) as nat),
        {
            vstd::arithmetic::div_mod::lemma_fundamental_div_mod(n as int, 128);
        }
        lemma_varint_len(n / 128, (k - 1) as nat);
    }
}

/// A varint for a 64-bit value takes at most ten bytes.
proof fn lemma_varint_len10(n: nat)
    requires
        n < 0x1_0000_0000_0000_0000,
    ensures
        varint(n).len() <= 10,
{
    lemma_pow128_10();
    lemma_varint_len(n, 10);
}

/// The `ClientHello` payload for a public value of at most 96 bytes is small:
/// its envelope length fits comfortably in 32 bits.
pub proof fn lemma_client_hello_payload_len(gc: Seq<u8>, nonce: Seq<u8>)
    requires
        gc.len() <= 96,
        nonce.len() == 16,
    ensures
        client_hello_payload(gc, nonce).len() <= 400,
{
    lemma_varint_len10(80);
    lemma_varint_len10(0);
    lemma_varint_len10(160);
    lemma_varint_len10(240);
    lemma_varint_len10(8);
    lemma_varint_len10(320);
    lemma_varint_len10(SPOTIFY_VERSION as nat);
    lemma_varint_len10(82);
    lemma_varint_len10(build_info_msg().len());
    lemma_varint_len10(gc.len());
    lemma_varint_len10(1);
    lemma_varint_len10(242);
    lemma_varint_len10(dh_hello_msg(gc).len());
    lemma_varint_len10(bytes_field(10, dh_hello_msg(gc)).len());
    lemma_varint_len10(402);
    lemma_varint_len10(482);
    lemma_varint_len10(562);
    lemma_varint_len10(16);
}

/// The `ClientResponsePlaintext` payload for a 20-byte challenge is small.
pub proof fn lemma_client_response_payload_len(challenge: Seq<u8>)
    requires
        challenge.len() == 20,
    ensures
        client_response_payload(challenge).len() <= 130,
{
    lemma_varint_len10(82);
    lemma_varint_len10(162);
    lemma_varint_len10(242);
    lemma_varint_len10(20);
    lemma_varint_len10(bytes_field(10, challenge).len());
    lemma_varint_len10(bytes_field(10, bytes_field(10, challenge)).len());
    lemma_varint_len10(0);
}


/// Bytes that carry the varint form of `n` at position `i` parse back to `n`,
/// ending right after it.
proof fn lemma_varint_round_trip(s: Seq<u8>, i: int, n: nat, fuel: nat)
    requires
        n < 0x1_0000_0000_0000_0000,
        0 <= i,
        i + varint(n).len() <= s.len(),
        s.subrange(i, i + varint(n).len()) == varint(n),
        fuel >= varint(n).len(),
    ensures
        raw_varint(s, i, fuel) == Some((n, i + varint(n).len())),
    decreases n,
{
    let v = varint(n);
    assert(s[i] == v[0]);
    if n < 128 {
        assert(s[i] == n as u8);
    } else {
        let rest = varint(n / 128);
        assert(v == seq![(n % 128 + 128) as u8] + rest);
        assert(s[i] == (n % 128 + 128) as u8);
        assert(s[i] >= 128);
        assert(s.subrange(i + 1, i + 1 + rest.len()) =~= rest) by {
            assert forall|k: int| 0 <= k < rest.len() implies s.subrange(
                i + 1,
                i + 1 + rest.len(),
            )[k] == rest[k] by {
                assert(s.subrange(i + 1, i + 1 + rest.len())[k] == s[i + 1 + k]);
                assert(s[i + 1 + k] == s.subrange(i, i + v.len())[1 + k]);
                assert(v[1 + k] == rest[k]);
            }
        }
        lemma_div_is_strictly_smaller(n as int, 128);
        lemma_varint_round_trip(s, i + 1, n / 128, (fuel - 1) as nat);
        vstd::arithmetic::div_mod::lemma_fundamental_div_mod(n as int, 128);
        assert((s[i] - 128) as nat + 128 * (n / 128) == n);
    }
}

/// The same, at the capped entry point: an encoded 64-bit varint always fits
/// the ten-byte budget.
proof fn lemma_parse_varint_round_trip(s: Seq<u8>, i: int, n: nat)
    requires
        n < 0x1_0000_0000_0000_0000,
        0 <= i,
        i + varint(n).len() <= s.len(),
        s.subrange(i, i + varint(n).len()) == varint(n),
    ensures
        spec_parse_varint(s, i) == Some((n, i + varint(n).len())),
{
    lemma_varint_len10(n);
    lemma_varint_round_trip(s, i, n, 10);
}

/// Scanning a message at a length-delimited field steps over it: the scan of
/// the whole resolves the field against whatever the rest of the message
/// holds, later occurrences winning.
proof fn lemma_scan_field_step(s: Seq<u8>, i: int, f: nat, p: Seq<u8>, field: nat)
    requires
        0 <= i,
        f < 0x1000_0000,
        p.len() < 0x1_0000_0000_0000_0000,
        i + bytes_field(f, p).len() <= s.len(),
        s.subrange(i, i + bytes_field(f, p).len()) == bytes_field(f, p),
    ensures
        spec_scan(s, i, field) == (if f == field {
            scan_resolve(spec_scan(s, i + bytes_field(f, p).len(), field), Some(p))
        } else {
            spec_scan(s, i + bytes_field(f, p).len(), field)
        }),
{
    let kb = key_bytes(f, 2);
    let lb = varint(p.len());
    let fb = bytes_field(f, p);
    assert(fb == kb + lb + p);
    // the key varint
    assert(s.subrange(i, i + kb.len()) =~= kb) by {
        assert forall|k: int| 0 <= k < kb.len() implies s.subrange(i, i + kb.len())[k] == kb[k] by {
            assert(s.subrange(i, i + kb.len())[k] == s[i + k]);
            assert(s[i + k] == s.subrange(i, i + fb.len())[k]);
            assert(fb[k] == kb[k]);
        }
    }
    lemma_parse_varint_round_trip(s, i, f * 8 + 2);
    let j = i + kb.len();
    vstd::arithmetic::div_mod::lemma_mod_multiples_vanish(f as int, 2, 8);
    vstd::arithmetic::div_mod::lemma_div_multiples_vanish_fancy(f as int, 2, 8);
    assert((f * 8 + 2) % 8 == 2);
    assert((f * 8 + 2) / 8 == f);
    // the length varint
    assert(s.subrange(j, j + lb.len()) =~= lb) by {
        assert forall|k: int| 0 <= k < lb.len() implies s.subrange(j, j + lb.len())[k] == lb[k] by {
            assert(s.subrange(j, j + lb.len())[k] == s[j + k]);
            assert(s[j + k] == s.subrange(i, i + fb.len())[kb.len() + k]);
            assert(fb[kb.len() + k] == lb[k]);
        }
    }
    lemma_parse_varint_round_trip(s, j, p.len());
    let j2 = j + lb.len();
    // the payload
    assert(s.subrange(j2, j2 + p.len()) =~= p) by {
        assert forall|k: int| 0 <= k < p.len() implies s.subrange(j2, j2 + p.len())[k] == p[k] by {
            assert(s.subrange(j2, j2 + p.len())[k] == s[j2 + k]);
            assert(s[j2 + k] == s.subrange(i, i + fb.len())[kb.len() + lb.len() + k]);
            assert(fb[kb.len() + lb.len() + k] == p[k]);
        }
    }
}

/// A scan that starts at the end of the message finds the message well formed
/// and the field absent.
proof fn lemma_scan_end(s: Seq<u8>, field: nat)
    ensures
        spec_scan(s, s.len() as int, field) == Some(None::<Seq<u8>>),
{
}

/// Round trip through the wire form: an `APResponseMessage` holding exactly
/// the DH challenge chain for `gs` and `gs_signature` parses back to that
/// pair. This ties the field encoders and the scanner to one another.
#[verifier::rlimit(50)]
pub proof fn lemma_ap_response_round_trip(gs: Seq<u8>, sig: Seq<u8>)
    requires
        gs.len() <= 65536,
        sig.len() <= 65536,
    ensures
        spec_parse_ap_response(
            bytes_field(
                10,
                bytes_field(10, bytes_field(10, bytes_field(10, gs) + bytes_field(20, sig))),
            ),
        ) == Some((gs, sig)),
{
    let dh = bytes_field(10, gs) + bytes_field(20, sig);
    let lcc = bytes_field(10, dh);
    let ch = bytes_field(10, lcc);
    let payload = bytes_field(10, ch);
    lemma_varint_len10(82);
    lemma_varint_len10(162);
    lemma_varint_len10(gs.len());
    lemma_varint_len10(sig.len());
    lemma_varint_len10(dh.len());
    lemma_varint_len10(lcc.len());
    lemma_varint_len10(ch.len());

    // the outer message holds the challenge field alone
    assert(payload.subrange(0, bytes_field(10, ch).len() as int) =~= bytes_field(10, ch));
    lemma_scan_field_step(payload, 0, 10, ch, 10);
    lemma_scan_end(payload, 10);
    assert(spec_scan(payload, 0, 10) == Some(Some(ch)));

    // the challenge holds the login_crypto_challenge union alone
    assert(ch.subrange(0, bytes_field(10, lcc).len() as int) =~= bytes_field(10, lcc));
    lemma_scan_field_step(ch, 0, 10, lcc, 10);
    lemma_scan_end(ch, 10);
    assert(spec_scan(ch, 0, 10) == Some(Some(lcc)));

    // the union holds the diffie_hellman message alone
    assert(lcc.subrange(0, bytes_field(10, dh).len() as int) =~= bytes_field(10, dh));
    lemma_scan_field_step(lcc, 0, 10, dh, 10);
    lemma_scan_end(lcc, 10);
    assert(spec_scan(lcc, 0, 10) == Some(Some(dh)));

    // the diffie_hellman message holds gs then gs_signature
    let first = bytes_field(10, gs);
    let second = bytes_field(20, sig);
    assert(dh.subrange(0, first.len() as int) =~= first);
    assert(dh.subrange(first.len() as int, dh.len() as int) =~= second);
    lemma_scan_field_step(dh, 0, 10, gs, 10);
    lemma_scan_field_step(dh, first.len() as int, 20, sig, 10);
    lemma_scan_end(dh, 10);
    assert(spec_scan(dh, 0, 10) == Some(Some(gs)));
    lemma_scan_field_step(dh, 0, 10, gs, 20);
    lemma_scan_field_step(dh, first.len() as int, 20, sig, 20);
    lemma_scan_end(dh, 20);
    assert(spec_scan(dh, 0, 20) == Some(Some(sig)));
}

} // verus!
