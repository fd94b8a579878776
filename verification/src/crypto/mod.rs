use rand::rngs::OsRng;
use rsa::pkcs1::DecodeRsaPublicKey;
use rsa::pkcs1v15::{Signature, SigningKey};
use rsa::pss;
use rsa::signature::{RandomizedSigner, SignatureEncoding, Verifier};
use vstd::arithmetic::power2::{lemma_pow2_strictly_increases, pow2};
use rsa::traits::{PrivateKeyParts, PublicKeyParts};
use rsa::{BigUint, Oaep, RsaPrivateKey, RsaPublicKey};
use sha2::Sha256;
use vstd::prelude::*;

verus! {

/// The number that big-endian bytes stand for.
pub open spec fn be_value(b: Seq<u8>) -> nat
    decreases b.len(),
{
    if b.len() == 0 {
        0
    } else {
        be_value(b.drop_last()) * 256 + b.last() as nat
    }
}

/// Big-endian bytes without their leading zero bytes.
pub open spec fn strip_leading_zeros(b: Seq<u8>) -> Seq<u8>
    decreases b.len(),
{
    if b.len() > 0 && b[0] == 0 {
        strip_leading_zeros(b.drop_first())
    } else {
        b
    }
}

/// The size of an RSA modulus in bytes: its big-endian bytes without the
/// leading zeros.
pub open spec fn modulus_size(n: Seq<u8>) -> nat {
    strip_leading_zeros(n).len()
}

/// Whether `x` is a prime number.
pub open spec fn is_prime(x: nat) -> bool {
    &&& x > 1
    &&& forall|k: nat| 1 < k < x ==> #[trigger] (x % k) != 0
}

/// The checks that `rsa` makes of a public key before it uses it (its
/// `check_public`): an odd exponent from 3 to 2^33 - 1, below an odd
/// modulus.
pub open spec fn rsa_public_ok(n: Seq<u8>, e: Seq<u8>) -> bool {
    let nv = be_value(n);
    let ev = be_value(e);
    &&& 3 <= ev <= 0x1_FFFF_FFFF
    &&& ev % 2 == 1
    &&& ev < nv
    &&& nv % 2 == 1
}

/// What `rsa` checks of two-prime private key components when it builds a
/// key from them (`RsaPrivateKey::from_components`, through `validate`):
/// the public checks, both primes above one, their product the modulus,
/// and `e * d` one more than a multiple of each prime less one.
pub open spec fn rsa_components_valid(
    n: Seq<u8>,
    e: Seq<u8>,
    d: Seq<u8>,
    p: Seq<u8>,
    q: Seq<u8>,
) -> bool {
    let (pv, qv, ed) = (be_value(p), be_value(q), be_value(e) * be_value(d));
    &&& rsa_public_ok(n, e)
    &&& pv > 1
    &&& qv > 1
    &&& pv * qv == be_value(n)
    &&& ed % (pv - 1) as nat == 1
    &&& ed % (qv - 1) as nat == 1
}

/// Components of a true RSA key: valid, with two different primes. For
/// such a key decryption undoes encryption and signatures verify.
pub open spec fn rsa_key_sound(n: Seq<u8>, e: Seq<u8>, d: Seq<u8>, p: Seq<u8>, q: Seq<u8>) -> bool {
    &&& rsa_components_valid(n, e, d, p, q)
    &&& is_prime(be_value(p))
    &&& is_prime(be_value(q))
    &&& be_value(p) != be_value(q)
}

/// The RSASSA-PKCS1-v1_5 signature (SHA-256, no digest prefix) of `data`
/// that `rsa` makes with a true key of these components: the padded digest
/// raised to `d` modulo `n`, as long as the modulus. The scheme has no
/// randomness, so it is one value.
pub uninterp spec fn rsa_pkcs1v15_sha256_signature(
    n: Seq<u8>,
    e: Seq<u8>,
    d: Seq<u8>,
    p: Seq<u8>,
    q: Seq<u8>,
    data: Seq<u8>,
) -> Seq<u8>;

/// Whether `signature` is an RSASSA-PSS signature (SHA-256, 32-byte salt)
/// of `data` under the public key with modulus `n` and exponent `e`, as
/// `rsa` checks it.
pub uninterp spec fn rsa_pss_sha256_verifies(
    n: Seq<u8>,
    e: Seq<u8>,
    data: Seq<u8>,
    signature: Seq<u8>,
) -> bool;

/// Whether the modulus leaves room for an RSASSA-PSS (SHA-256, 32-byte
/// salt) encoding: at least 522 bits.
pub open spec fn pss_room(n: Seq<u8>) -> bool {
    be_value(n) >= pow2(521)
}

/// What RSA-OAEP (SHA-256, no label) decryption of `ciphertext` with the
/// key built from these components gives: the message, or `None` when it
/// is refused.
pub uninterp spec fn rsa_oaep_sha256_opened(
    n: Seq<u8>,
    e: Seq<u8>,
    d: Seq<u8>,
    p: Seq<u8>,
    q: Seq<u8>,
    ciphertext: Seq<u8>,
) -> Option<Seq<u8>>;

/// `ciphertext` decrypts to `message` with every true private key for the
/// public key `(n, e)`.
pub open spec fn rsa_oaep_opens_to(n: Seq<u8>, e: Seq<u8>, ciphertext: Seq<u8>, message: Seq<u8>) -> bool {
    forall|d: Seq<u8>, p: Seq<u8>, q: Seq<u8>|
        rsa_key_sound(n, e, d, p, q) ==> #[trigger] rsa_oaep_sha256_opened(n, e, d, p, q, ciphertext)
            == Some(message)
}

/// The modulus and the exponent of the PKCS#1 DER public key `der`, as
/// `rsa` reads them, or `None` when it refuses the text.
pub uninterp spec fn pkcs1_der_rsa_public_key(der: Seq<u8>) -> Option<(Seq<u8>, Seq<u8>)>;

/// What a private key is made of: big-endian modulus, public and private
/// exponents, and the two primes.
pub struct RsaKeyView {
    pub n: Seq<u8>,
    pub e: Seq<u8>,
    pub d: Seq<u8>,
    pub p: Seq<u8>,
    pub q: Seq<u8>,
}

impl RsaKeyView {
    /// The components pass the checks of `rsa`.
    pub open spec fn valid(self) -> bool {
        rsa_components_valid(self.n, self.e, self.d, self.p, self.q)
    }

    /// The components make a true RSA key.
    pub open spec fn sound(self) -> bool {
        rsa_key_sound(self.n, self.e, self.d, self.p, self.q)
    }

    /// The PKCS#1 v1.5 signature of `data` that this key makes, when it is
    /// a true key.
    pub open spec fn pkcs1v15_signature(self, data: Seq<u8>) -> Seq<u8> {
        rsa_pkcs1v15_sha256_signature(self.n, self.e, self.d, self.p, self.q, data)
    }

    /// Whether `signature` is a PSS signature of `data` under the public
    /// half.
    pub open spec fn pss_verifies(self, data: Seq<u8>, signature: Seq<u8>) -> bool {
        rsa_pss_sha256_verifies(self.n, self.e, data, signature)
    }

    /// What RSA-OAEP decryption of `ciphertext` with this key gives.
    pub open spec fn oaep_opened(self, ciphertext: Seq<u8>) -> Option<Seq<u8>> {
        rsa_oaep_sha256_opened(self.n, self.e, self.d, self.p, self.q, ciphertext)
    }
}

/// An RSA public key: big-endian modulus and public exponent.
pub struct PublicKey {
    pub n: Vec<u8>,
    pub e: Vec<u8>,
}

impl PublicKey {
    /// A public key with the modulus `n` and the exponent `e`, big-endian;
    /// they are checked where the key is used.
    pub fn new(n: Vec<u8>, e: Vec<u8>) -> (key: Self)
        ensures
            key.n@ == n@,
            key.e@ == e@,
    {
        PublicKey { n, e }
    }
}

/// An RSA private key, held as its components: the modulus without
/// leading zero bytes, the exponents and the two primes.
pub struct PrivateKey {
    n: Vec<u8>,
    e: Vec<u8>,
    d: Vec<u8>,
    p: Vec<u8>,
    q: Vec<u8>,
}

impl View for PrivateKey {
    type V = RsaKeyView;

    closed spec fn view(&self) -> RsaKeyView {
        RsaKeyView { n: self.n@, e: self.e@, d: self.d@, p: self.p@, q: self.q@ }
    }
}

impl PrivateKey {
    /// `rsa` accepts the components, and the modulus has no leading zeros.
    #[verifier::type_invariant]
    closed spec fn accepted(self) -> bool {
        &&& self@.valid()
        &&& self.n@ == strip_leading_zeros(self.n@)
    }
}

/// Generates two-prime RSA key components: modulus, exponents, primes.
///
/// Trusted: calls `RsaPrivateKey::new_with_exp` with `OsRng` and reads the
/// components back with `to_bytes_be`. For at least 64 bits and an odd
/// exponent from 3 to 2^33 - 1 it retries until it finds a key, so it does
/// not fail there. The key has passed `from_components`, so the
/// components are valid; the modulus has exactly `bits` bits. That the
/// primes are prime is not stated: they pass a probabilistic test.
#[verifier::external_body]
fn rsa_generate_components(bits: usize, public_exponent: &[u8]) -> (res: (
    Vec<u8>,
    Vec<u8>,
    Vec<u8>,
    Vec<u8>,
    Vec<u8>,
))
    requires
        bits >= 64,
        3 <= be_value(public_exponent@) <= 0x1_FFFF_FFFF,
        be_value(public_exponent@) % 2 == 1,
    ensures
        rsa_components_valid(res.0@, res.1@, res.2@, res.3@, res.4@),
        be_value(res.1@) == be_value(public_exponent@),
        res.0@ == strip_leading_zeros(res.0@),
        res.0@.len() == (bits + 7) / 8,
        be_value(res.0@) >= pow2((bits - 1) as nat),
{
    let exponent = BigUint::from_bytes_be(public_exponent);
    let key = RsaPrivateKey::new_with_exp(&mut OsRng, bits, &exponent).expect("Key generation failed");
    let (n, e, d) = (key.n().to_bytes_be(), key.e().to_bytes_be(), key.d().to_bytes_be());
    (n, e, d, key.primes()[0].to_bytes_be(), key.primes()[1].to_bytes_be())
}

/// Checks private key components as `RsaPrivateKey::from_components` does,
/// and reads the modulus back.
///
/// Trusted: calls `BigUint::from_bytes_be` on each component,
/// `RsaPrivateKey::from_components(n, e, d, vec![p, q])`, and on success
/// `n().to_bytes_be()`. `from_components` runs `validate`, which accepts
/// exactly the valid components (`rsa_components_valid`); the modulus read
/// back is `n` without its leading zero bytes. The error comes back as its
/// message.
#[verifier::external_body]
fn rsa_check_components(n: &[u8], e: &[u8], d: &[u8], p: &[u8], q: &[u8]) -> (res: Result<
    Vec<u8>,
    String,
>)
    ensures
        res is Ok <==> rsa_components_valid(n@, e@, d@, p@, q@),
        res matches Ok(m) ==> m@ == strip_leading_zeros(n@),
{
    let (n, e, d) = (BigUint::from_bytes_be(n), BigUint::from_bytes_be(e), BigUint::from_bytes_be(d));
    let primes = vec![BigUint::from_bytes_be(p), BigUint::from_bytes_be(q)];
    match RsaPrivateKey::from_components(n, e, d, primes) {
        Ok(key) => Ok(key.n().to_bytes_be()),
        Err(err) => Err(err.to_string()),
    }
}

/// Signs `data` with RSASSA-PKCS1-v1_5 over SHA-256, without the digest
/// prefix.
///
/// Trusted: builds the key with `RsaPrivateKey::from_components` (the
/// components are valid, so it is accepted), then calls
/// `SigningKey::<Sha256>::new_unprefixed` and `try_sign_with_rng` with the
/// thread RNG (used only for blinding), then `to_vec` of the signature. A
/// signature is as long as the modulus. It is refused for a modulus under
/// 43 bytes (too small for the padded digest); with a true key and a
/// modulus of at least 43 bytes it is made, and it is the one signature
/// that the scheme gives (`rsa_pkcs1v15_sha256_signature`: the blinding
/// cancels out). With components that are valid but not a true key the
/// outcome is not stated. Errors come back as their messages.
#[verifier::external_body]
pub(crate) fn rsa_sign_pkcs1v15_sha256(key: &PrivateKey, data: &[u8]) -> (res: Result<Vec<u8>, String>)
    ensures
        res matches Ok(sig) ==> sig@.len() == modulus_size(key@.n),
        res matches Ok(sig) ==> (key@.sound() ==> sig@ == rsa_pkcs1v15_sha256_signature(
            key@.n,
            key@.e,
            key@.d,
            key@.p,
            key@.q,
            data@,
        )),
        modulus_size(key@.n) < MIN_SIGNING_MODULUS_SIZE ==> res is Err,
        key@.sound() && modulus_size(key@.n) >= MIN_SIGNING_MODULUS_SIZE ==> res is Ok,
{
    let primes = vec![BigUint::from_bytes_be(&key.p), BigUint::from_bytes_be(&key.q)];
    let (n, e, d) = (BigUint::from_bytes_be(&key.n), BigUint::from_bytes_be(&key.e), BigUint::from_bytes_be(&key.d));
    let private = match RsaPrivateKey::from_components(n, e, d, primes) {
        Ok(k) => k,
        Err(err) => return Err(err.to_string()),
    };
    match SigningKey::<Sha256>::new_unprefixed(private).try_sign_with_rng(&mut rand::thread_rng(), data) {
        Ok(signature) => Ok(Signature::to_vec(&signature)),
        Err(err) => Err(err.to_string()),
    }
}

/// Signs `data` with RSASSA-PSS over SHA-256 with a 32-byte salt.
///
/// Trusted: builds the key with `RsaPrivateKey::from_components` (the
/// components are valid, so it is accepted), then calls
/// `pss::SigningKey::<Sha256>::new` and `try_sign_with_rng` with `OsRng`
/// (for the salt), then `to_vec` of the signature. A signature is as long
/// as the modulus. It is refused for a modulus under 522 bits (no room for
/// the encoding); with a true key and room for the encoding it is made and
/// verifies, as RSA does. With components that are valid but not a true
/// key the outcome is not stated. Errors come back as their messages.
#[verifier::external_body]
fn rsa_pss_sha256_sign(key: &PrivateKey, data: &[u8]) -> (res: Result<Vec<u8>, String>)
    ensures
        res matches Ok(sig) ==> sig@.len() == modulus_size(key@.n),
        res matches Ok(sig) ==> (key@.sound() ==> rsa_pss_sha256_verifies(
            key@.n,
            key@.e,
            data@,
            sig@,
        )),
        !pss_room(key@.n) ==> res is Err,
        key@.sound() && pss_room(key@.n) ==> res is Ok,
{
    let primes = vec![BigUint::from_bytes_be(&key.p), BigUint::from_bytes_be(&key.q)];
    let (n, e, d) = (BigUint::from_bytes_be(&key.n), BigUint::from_bytes_be(&key.e), BigUint::from_bytes_be(&key.d));
    let private = match RsaPrivateKey::from_components(n, e, d, primes) {
        Ok(k) => k,
        Err(err) => return Err(err.to_string()),
    };
    match pss::SigningKey::<Sha256>::new(private).try_sign_with_rng(&mut OsRng, data) {
        Ok(signature) => Ok(pss::Signature::to_vec(&signature)),
        Err(err) => Err(err.to_string()),
    }
}

/// Checks an RSASSA-PSS SHA-256 signature (32-byte salt) against the
/// public key with modulus `n` and exponent `e`.
///
/// Trusted: calls `RsaPublicKey::new_unchecked`,
/// `pss::VerifyingKey::<Sha256>::new`, `pss::Signature::try_from` (which
/// takes any bytes) and `verify`. The answer is named by
/// `rsa_pss_sha256_verifies`.
#[verifier::external_body]
fn rsa_pss_sha256_verify(n: &[u8], e: &[u8], data: &[u8], signature: &[u8]) -> (res: bool)
    requires
        rsa_public_ok(n@, e@),
    ensures
        res == rsa_pss_sha256_verifies(n@, e@, data@, signature@),
{
    let public = RsaPublicKey::new_unchecked(BigUint::from_bytes_be(n), BigUint::from_bytes_be(e));
    match pss::Signature::try_from(signature) {
        Ok(sig) => pss::VerifyingKey::<Sha256>::new(public).verify(data, &sig).is_ok(),
        Err(_) => false,
    }
}

/// RSA-OAEP (SHA-256, no label) encryption for the public key with modulus
/// `n` and exponent `e`.
///
/// Trusted: calls `RsaPublicKey::new_unchecked` and `encrypt` with the
/// thread RNG and `Oaep::new::<Sha256>()`. `encrypt` checks the key
/// (`rsa_public_ok`) and refuses a message longer than the modulus size
/// less 66 bytes (`OAEP_SHA256_OVERHEAD`); otherwise it succeeds. The
/// ciphertext is random, as long as the modulus, and decrypts to the
/// message with every true private key for this public key, as RSA-OAEP
/// does. Errors come back as their messages.
#[verifier::external_body]
pub(crate) fn rsa_oaep_sha256_encrypt(n: &[u8], e: &[u8], message: &[u8]) -> (res: Result<Vec<u8>, String>)
    ensures
        res is Ok <==> (rsa_public_ok(n@, e@) && message@.len() + OAEP_SHA256_OVERHEAD
            <= modulus_size(n@)),
        res matches Ok(c) ==> c@.len() == modulus_size(n@),
        res matches Ok(c) ==> rsa_oaep_opens_to(n@, e@, c@, message@),
{
    let public = RsaPublicKey::new_unchecked(BigUint::from_bytes_be(n), BigUint::from_bytes_be(e));
    match public.encrypt(&mut rand::thread_rng(), Oaep::new::<Sha256>(), message) {
        Ok(c) => Ok(c),
        Err(err) => Err(err.to_string()),
    }
}

/// RSA-OAEP (SHA-256, no label) decryption with `key`.
///
/// Trusted: builds the key with `RsaPrivateKey::from_components` (the
/// components are valid, so it is accepted) and calls `decrypt` with
/// `Oaep::new::<Sha256>()`, which uses no randomness. The outcome is named
/// by `rsa_oaep_sha256_opened`; the error comes back as its message.
#[verifier::external_body]
pub(crate) fn rsa_oaep_sha256_decrypt(key: &PrivateKey, ciphertext: &[u8]) -> (res: Result<Vec<u8>, String>)
    ensures
        res is Ok <==> rsa_oaep_sha256_opened(key@.n, key@.e, key@.d, key@.p, key@.q, ciphertext@) is Some,
        res matches Ok(m) ==> rsa_oaep_sha256_opened(key@.n, key@.e, key@.d, key@.p, key@.q, ciphertext@) == Some(m@),
{
    let primes = vec![BigUint::from_bytes_be(&key.p), BigUint::from_bytes_be(&key.q)];
    let (n, e, d) = (BigUint::from_bytes_be(&key.n), BigUint::from_bytes_be(&key.e), BigUint::from_bytes_be(&key.d));
    let private = match RsaPrivateKey::from_components(n, e, d, primes) {
        Ok(k) => k,
        Err(err) => return Err(err.to_string()),
    };
    match private.decrypt(Oaep::new::<Sha256>(), ciphertext) {
        Ok(m) => Ok(m),
        Err(err) => Err(err.to_string()),
    }
}

/// Reads an RSA public key from PKCS#1 DER.
///
/// Trusted: calls `RsaPublicKey::from_pkcs1_der` and reads the modulus and
/// exponent back with `to_bytes_be`; the outcome is named by
/// `pkcs1_der_rsa_public_key`. The key is built with `RsaPublicKey::new`,
/// which makes the public checks, and the bytes read back have no leading
/// zeros. The error comes back as its message.
#[verifier::external_body]
pub(crate) fn rsa_public_key_from_pkcs1_der(der: &[u8]) -> (res: Result<PublicKey, String>)
    ensures
        res is Ok <==> pkcs1_der_rsa_public_key(der@) is Some,
        res matches Ok(k) ==> {
            &&& pkcs1_der_rsa_public_key(der@) == Some((k.n@, k.e@))
            &&& rsa_public_ok(k.n@, k.e@)
            &&& k.n@ == strip_leading_zeros(k.n@)
        },
{
    match RsaPublicKey::from_pkcs1_der(der) {
        Ok(key) => Ok(PublicKey { n: key.n().to_bytes_be(), e: key.e().to_bytes_be() }),
        Err(err) => Err(err.to_string()),
    }
}

/// Makes keys.
pub struct Driver;

/// What RSA-OAEP with SHA-256 adds to a message: two digests and two
/// bytes. A message fits when it is at most the modulus size less this.
pub const OAEP_SHA256_OVERHEAD: usize = 66;

/// The smallest modulus, in bytes, that can sign: the SHA-256 digest and
/// eleven bytes of padding.
pub const MIN_SIGNING_MODULUS_SIZE: usize = 43;

/// The size of generated keys, in bits.
pub const GENERATED_KEY_BITS: usize = 4096;

/// What the helpers of a key view mean: the PKCS#1 v1.5 signature, the
/// PSS check and the OAEP opening of a key are those of the scheme, with the
/// key's own components and the data exactly as given.
pub proof fn law_key_view_operations(key: RsaKeyView, data: Seq<u8>, signature: Seq<u8>)
    ensures
        key.pkcs1v15_signature(data) == rsa_pkcs1v15_sha256_signature(
            key.n,
            key.e,
            key.d,
            key.p,
            key.q,
            data,
        ),
        key.pss_verifies(data, signature) == rsa_pss_sha256_verifies(key.n, key.e, data, signature),
        key.oaep_opened(data) == rsa_oaep_sha256_opened(key.n, key.e, key.d, key.p, key.q, data),
{
}

/// Stripping leading zeros keeps a suffix of the bytes: what is dropped is
/// all zero, and what is kept does not start with a zero.
pub proof fn law_strip_leading_zeros(b: Seq<u8>)
    ensures
        strip_leading_zeros(b).len() <= b.len(),
        strip_leading_zeros(b) == b.subrange(b.len() - strip_leading_zeros(b).len(), b.len() as int),
        forall|i: int| 0 <= i < b.len() - strip_leading_zeros(b).len() ==> b[i] == 0,
        strip_leading_zeros(b).len() > 0 ==> strip_leading_zeros(b)[0] != 0,
        modulus_size(b) == strip_leading_zeros(b).len(),
    decreases b.len(),
{
    if b.len() > 0 && b[0] == 0 {
        law_strip_leading_zeros(b.drop_first());
        let t = b.drop_first();
        let r = strip_leading_zeros(t);
        assert(r == t.subrange(t.len() - r.len(), t.len() as int));
        assert(b.subrange(b.len() - r.len(), b.len() as int) =~= t.subrange(
            t.len() - r.len(),
            t.len() as int,
        ));
        assert forall|i: int| 0 <= i < b.len() - r.len() implies b[i] == 0 by {
            if i > 0 {
                assert(b[i] == t[i - 1]);
            }
        }
    } else {
        assert(b.subrange(0, b.len() as int) =~= b);
    }
}

/// Leading zero bytes do not change the number.
pub proof fn lemma_strip_leading_zeros(b: Seq<u8>)
    ensures
        be_value(strip_leading_zeros(b)) == be_value(b),
        strip_leading_zeros(strip_leading_zeros(b)) == strip_leading_zeros(b),
        be_value(b) > 0 ==> strip_leading_zeros(b).len() > 0,
    decreases b.len(),
{
    if b.len() > 0 && b[0] == 0 {
        lemma_strip_leading_zeros(b.drop_first());
        lemma_be_value_drop_leading_zero(b);
    }
}

proof fn lemma_be_value_drop_leading_zero(b: Seq<u8>)
    requires
        b.len() > 0,
        b[0] == 0,
    ensures
        be_value(b) == be_value(b.drop_first()),
    decreases b.len(),
{
    if b.len() > 1 {
        assert(b.drop_last()[0] == 0);
        lemma_be_value_drop_leading_zero(b.drop_last());
        assert(b.drop_last().drop_first() =~= b.drop_first().drop_last());
        assert(b.drop_first().last() == b.last());
        assert(be_value(b) == be_value(b.drop_last()) * 256 + b.last() as nat);
        assert(be_value(b.drop_first()) == be_value(b.drop_first().drop_last()) * 256
            + b.drop_first().last() as nat);
    } else {
        assert(b.drop_first().len() == 0);
        assert(b.drop_last().len() == 0);
        assert(be_value(b.drop_last()) == 0);
        assert(be_value(b.drop_first()) == 0);
        assert(b.last() == 0);
    }
}

impl PrivateKey {
    /// A private key from big-endian components: the modulus, the public
    /// and private exponents, and the two primes. `rsa` checks them; the
    /// key keeps the modulus without its leading zeros.
    pub fn from_components(n: &[u8], e: &[u8], d: &[u8], p: &[u8], q: &[u8]) -> (res: Result<
        Self,
        String,
    >)
        ensures
            res is Ok <==> rsa_components_valid(n@, e@, d@, p@, q@),
            res matches Ok(key) ==> key@ == (RsaKeyView {
                n: strip_leading_zeros(n@),
                e: e@,
                d: d@,
                p: p@,
                q: q@,
            }),
    {
        let modulus = match rsa_check_components(n, e, d, p, q) {
            Ok(m) => m,
            Err(msg) => return Err(msg),
        };
        proof {
            lemma_strip_leading_zeros(n@);
        }
        Ok(
            PrivateKey {
                n: modulus,
                e: vstd::slice::slice_to_vec(e),
                d: vstd::slice::slice_to_vec(d),
                p: vstd::slice::slice_to_vec(p),
                q: vstd::slice::slice_to_vec(q),
            },
        )
    }

    /// Signs `data` with RSASSA-PSS over SHA-256 (32-byte salt); the
    /// modulus must have room for the encoding. With a true key the
    /// signature verifies; a key whose primes are not prime may fail, and
    /// the result is then empty.
    pub fn sign(&self, data: &[u8]) -> (sig: Vec<u8>)
        requires
            pss_room(self@.n),
        ensures
            sig@.len() == 0 || sig@.len() == modulus_size(self@.n),
            self@.sound() ==> {
                &&& sig@.len() == modulus_size(self@.n)
                &&& rsa_pss_sha256_verifies(self@.n, self@.e, data@, sig@)
            },
    {
        match rsa_pss_sha256_sign(self, data) {
            Ok(sig) => sig,
            Err(_) => Vec::new(),
        }
    }

    /// Whether `signature` is a PSS signature of `data` by this key.
    pub fn verify(&self, data: &[u8], signature: &[u8]) -> (ok: bool)
        ensures
            ok == rsa_pss_sha256_verifies(self@.n, self@.e, data@, signature@),
    {
        proof {
            use_type_invariant(self);
        }
        rsa_pss_sha256_verify(&self.n, &self.e, data, signature)
    }

    /// The public key: the modulus, big-endian.
    pub fn to_public_key(&self) -> (res: Vec<u8>)
        ensures
            res@ == self@.n,
            res@ == strip_leading_zeros(self@.n),
            res@.len() > 0,
    {
        proof {
            use_type_invariant(self);
            lemma_strip_leading_zeros(self.n@);
            assert(be_value(self.n@) > 0) by (nonlinear_arith)
                requires
                    be_value(self.n@) == be_value(self.p@) * be_value(self.q@),
                    be_value(self.p@) > 1,
                    be_value(self.q@) > 1,
            ;
        }
        self.n.clone()
    }

    /// The public half: modulus and public exponent.
    pub fn public_key(&self) -> (res: PublicKey)
        ensures
            res.n@ == self@.n,
            res.e@ == self@.e,
    {
        PublicKey { n: self.n.clone(), e: self.e.clone() }
    }
}

impl Clone for PrivateKey {
    fn clone(&self) -> (res: Self)
        ensures
            res@ == self@,
    {
        proof {
            use_type_invariant(self);
        }
        PrivateKey {
            n: self.n.clone(),
            e: self.e.clone(),
            d: self.d.clone(),
            p: self.p.clone(),
            q: self.q.clone(),
        }
    }
}

impl Driver {
    /// A new 4096-bit key pair, for RSA-PSS signing, with public exponent
    /// 65537: the modulus is 512 bytes with its top bit set.
    pub fn generate_key() -> (key: PrivateKey)
        ensures
            key@.valid(),
            be_value(key@.e) == 65537,
            modulus_size(key@.n) == GENERATED_KEY_BITS / 8,
            pow2((GENERATED_KEY_BITS - 1) as nat) <= be_value(key@.n),
            pss_room(key@.n),
    {
        let exponent: [u8; 3] = [0x01, 0x00, 0x01];
        proof {
            let e = exponent@;
            reveal_with_fuel(be_value, 4);
            assert(be_value(e) == 65537) by {
                assert(e.drop_last().drop_last().drop_last().len() == 0);
                assert(e.drop_last().drop_last() =~= seq![1u8]);
                assert(e.drop_last() =~= seq![1u8, 0u8]);
            }
        }
        let (n, e, d, p, q) = rsa_generate_components(GENERATED_KEY_BITS, exponent.as_slice());
        proof {
            lemma_pow2_strictly_increases(521, 4095);
        }
        PrivateKey { n, e, d, p, q }
    }
}

} // verus!
