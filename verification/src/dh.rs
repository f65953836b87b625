//! Diffie-Hellman key agreement over the pinned 768-bit MODP group: local
//! keypair generation and the shared secret, with the exchanged values modeled
//! as the numbers their byte strings denote.
use vstd::prelude::*;
use vstd::arithmetic::power::{
    pow, lemma_pow_mod_noop, lemma_pow_multiplies, lemma_pow_increases,
};
use vstd::arithmetic::div_mod::lemma_mod_division_less_than_divisor;
use crate::bytes::{
    be_val, le_val, canon_be, canonical_be, lemma_canon_be, lemma_canonical_be_unique,
    lemma_be_val_lower, lemma_be_val_upper, lemma_canonical_len_bound,
};
use crate::consts::{DH_PRIME, DH_GENERATOR};
use crate::crypto::random_bytes;

verus! {

/// `b^e mod m` over the naturals.
pub open spec fn pow_mod(b: nat, e: nat, m: nat) -> nat
    recommends
        m > 0,
{
    (pow(b as int, e) % (m as int)) as nat
}

/// The number that the pinned DH prime denotes.
pub open spec fn dh_prime_val() -> nat {
    be_val(DH_PRIME@)
}

/// The prime is large; in particular the modulus handed to modular
/// exponentiation is nonzero.
pub proof fn lemma_dh_prime_val_large()
    ensures
        dh_prime_val() >= 2,
{
    reveal(pow);
    assert(DH_PRIME@[0] == 0xff);
    assert(DH_PRIME@.first() == 0xff);
    lemma_be_val_lower(DH_PRIME@);
    lemma_pow_increases(256, 1, 95);
    assert(pow(256, 1) == 256 * pow(256, 0));
}

/// The shared secret as a number: `remote^private mod P`, the remote public
/// value read big-endian and the private exponent read little-endian.
pub open spec fn shared_val(private: Seq<u8>, remote_public: Seq<u8>) -> nat {
    pow_mod(be_val(remote_public), le_val(private), dh_prime_val())
}

/// Relies on `BigUint::modpow` from num-bigint-dig (re-exported by the rsa
/// crate): it returns base^exponent mod modulus, and panics only on a zero
/// modulus — the modulus here is the pinned nonzero DH prime.
/// `from_bytes_be` / `from_bytes_le` read the operands, and `to_bytes_be`
/// writes the minimal big-endian form, a single zero byte for zero.
#[verifier::external_body]
fn modpow_prime(base_be: &[u8], exp_le: &[u8]) -> (r: Vec<u8>)
    ensures
        be_val(r@) == pow_mod(be_val(base_be@), le_val(exp_le@), dh_prime_val()),
        canonical_be(r@),
{
    let base = rsa::BigUint::from_bytes_be(base_be);
    let exp = rsa::BigUint::from_bytes_le(exp_le);
    let modulus = rsa::BigUint::from_bytes_be(&DH_PRIME);
    base.modpow(&exp, &modulus).to_bytes_be()
}

/// A local DH keypair: 95 random private bytes (a little-endian exponent) and
/// the matching public value `g^private mod P` in minimal big-endian form.
pub struct DhLocalKeys {
    private_key: Vec<u8>,
    public_key: Vec<u8>,
}

impl DhLocalKeys {
    /// The private exponent as drawn, little-endian bytes.
    pub closed spec fn spec_private(&self) -> Seq<u8> {
        self.private_key@
    }

    /// The public value as sent on the wire, big-endian bytes.
    pub closed spec fn spec_public(&self) -> Seq<u8> {
        self.public_key@
    }

    /// Well-formed: the private exponent has 95 bytes and the public value is
    /// the minimal big-endian form of `g^private mod P`.
    pub open spec fn wf(&self) -> bool {
        &&& self.spec_private().len() == 95
        &&& canonical_be(self.spec_public())
        &&& be_val(self.spec_public()) == pow_mod(
            DH_GENERATOR as nat,
            le_val(self.spec_private()),
            dh_prime_val(),
        )
    }

    /// Builds the keypair for a given private exponent: a pure function of
    /// it, down to the public value's bytes.
    pub fn from_private(private_key: Vec<u8>) -> (r: DhLocalKeys)
        requires
            private_key@.len() == 95,
        ensures
            r.wf(),
            r.spec_private() == private_key@,
            r.spec_public() == canon_be(
                pow_mod(DH_GENERATOR as nat, le_val(private_key@), dh_prime_val()),
            ),
    {
        let generator: [u8; 1] = [DH_GENERATOR];
        let public_key = modpow_prime(generator.as_slice(), private_key.as_slice());
        proof {
            reveal_with_fuel(be_val, 3);
            assert(generator@ =~= seq![DH_GENERATOR]);
            assert(seq![DH_GENERATOR].drop_last() =~= Seq::<u8>::empty());
            assert(be_val(Seq::<u8>::empty()) == 0);
            assert(be_val(generator@) == DH_GENERATOR as nat);
        }
        proof {
            lemma_canon_be(public_key@);
        }
        DhLocalKeys { private_key, public_key }
    }

    /// Draws a fresh keypair from the cryptographic random source.
    pub fn random() -> (r: DhLocalKeys)
        ensures
            r.wf(),
    {
        let private_key = random_bytes(95);
        Self::from_private(private_key)
    }

    /// The public value, to be sent as `gc`.
    pub fn public_key(&self) -> (r: Vec<u8>)
        ensures
            r@ == self.spec_public(),
    {
        self.public_key.clone()
    }

    /// The shared secret `remote^private mod P`, in minimal big-endian form,
    /// used as the HMAC key of the key schedule.
    pub fn shared_secret(&self, remote_key: &[u8]) -> (r: Vec<u8>)
        ensures
            canonical_be(r@),
            be_val(r@) == shared_val(self.spec_private(), remote_key@),
    {
        modpow_prime(remote_key, self.private_key.as_slice())
    }
}

/// DH round trip: two locally generated keypairs that exchange public values
/// agree on the shared secret — the byte strings that
/// `a.shared_secret(b.public_key())` and `b.shared_secret(a.public_key())`
/// return are equal.
pub proof fn lemma_dh_round_trip(a: DhLocalKeys, b: DhLocalKeys, sa: Seq<u8>, sb: Seq<u8>)
    requires
        a.wf(),
        b.wf(),
        canonical_be(sa),
        be_val(sa) == shared_val(a.spec_private(), b.spec_public()),
        canonical_be(sb),
        be_val(sb) == shared_val(b.spec_private(), a.spec_public()),
    ensures
        sa == sb,
{
    lemma_dh_prime_val_large();
    let p = dh_prime_val() as int;
    let g = DH_GENERATOR as int;
    let ea = le_val(a.spec_private());
    let eb = le_val(b.spec_private());
    // Each side raises the other's residue to its own exponent; dropping the
    // inner reduction and multiplying the exponents meets in g^(ea*eb) mod P.
    lemma_pow_mod_noop(pow(g, eb), ea, p);
    lemma_pow_multiplies(g, eb, ea);
    lemma_pow_mod_noop(pow(g, ea), eb, p);
    lemma_pow_multiplies(g, ea, eb);
    assert(be_val(sa) as int == pow(g, (eb * ea) as nat) % p);
    assert(be_val(sb) as int == pow(g, (ea * eb) as nat) % p);
    assert(eb * ea == ea * eb) by (nonlinear_arith);
    lemma_canonical_be_unique(sa, sb);
}


/// A minimal-form value reduced modulo the prime fits in the prime's 96
/// bytes; this bounds both the public value and the shared secret.
pub proof fn lemma_mod_prime_len(s: Seq<u8>)
    requires
        canonical_be(s),
        be_val(s) < dh_prime_val(),
    ensures
        s.len() <= 96,
{
    lemma_be_val_upper(DH_PRIME@);
    lemma_canonical_len_bound(s, 96);
}

/// The result of a reduction modulo the prime is below the prime.
pub proof fn lemma_pow_mod_below_prime(b: nat, e: nat)
    ensures
        pow_mod(b, e, dh_prime_val()) < dh_prime_val(),
{
    lemma_dh_prime_val_large();
    lemma_mod_division_less_than_divisor(pow(b as int, e), dh_prime_val() as int);
}

} // verus!
