//! Diffie-Hellman keypair and shared-secret behaviour on concrete values.
use ap_handshake::dh::DhLocalKeys;

fn private_from_value(v: u8) -> Vec<u8> {
    // little-endian: the first byte is the low end
    let mut p = vec![0u8; 95];
    p[0] = v;
    p
}

#[test]
fn public_key_of_exponent_one_is_the_generator() {
    let keys = DhLocalKeys::from_private(private_from_value(1));
    assert_eq!(keys.public_key(), vec![2u8]);
}

#[test]
fn public_key_of_exponent_zero_is_one() {
    let keys = DhLocalKeys::from_private(vec![0u8; 95]);
    assert_eq!(keys.public_key(), vec![1u8]);
}

#[test]
fn public_key_of_exponent_two_is_four() {
    let keys = DhLocalKeys::from_private(private_from_value(2));
    assert_eq!(keys.public_key(), vec![4u8]);
}

#[test]
fn shared_secret_squares_the_remote_value() {
    // remote value 3 raised to private exponent 2 is 9
    let keys = DhLocalKeys::from_private(private_from_value(2));
    assert_eq!(keys.shared_secret(&[3u8]), vec![9u8]);
}

#[test]
fn shared_secret_of_fixed_keypairs_round_trips() {
    let mut pa = vec![0u8; 95];
    let mut pb = vec![0u8; 95];
    for i in 0..95 {
        pa[i] = (i as u8).wrapping_mul(7).wrapping_add(3);
        pb[i] = (i as u8).wrapping_mul(13).wrapping_add(1);
    }
    let a = DhLocalKeys::from_private(pa);
    let b = DhLocalKeys::from_private(pb);
    let sa = a.shared_secret(&b.public_key());
    let sb = b.shared_secret(&a.public_key());
    assert_eq!(sa, sb);
    assert!(!sa.is_empty());
}

#[test]
fn shared_secret_of_random_keypairs_round_trips() {
    let a = DhLocalKeys::random();
    let b = DhLocalKeys::random();
    assert_eq!(a.shared_secret(&b.public_key()), b.shared_secret(&a.public_key()));
}

#[test]
fn random_keypairs_differ() {
    let a = DhLocalKeys::random();
    let b = DhLocalKeys::random();
    assert_ne!(a.public_key(), b.public_key());
}
