use crate::crypto::{
    modulus_size, rsa_key_sound, rsa_oaep_opens_to, rsa_oaep_sha256_decrypt,
    rsa_oaep_sha256_encrypt, rsa_oaep_sha256_opened, rsa_public_ok, PrivateKey, PublicKey,
    RsaKeyView, OAEP_SHA256_OVERHEAD,
};
use crate::error::{Error, Result};
use aes_gcm::aead::Aead;
use aes_gcm::{Aes256Gcm, KeyInit, Nonce};
use rand::RngCore;
use vstd::prelude::*;

verus! {

/// Length of the AES-256 key.
pub const AES_KEY_SIZE: usize = 32;

/// Length of the AES-GCM nonce.
pub const GCM_NONCE_SIZE: usize = 12;

/// The longest plaintext that AES-GCM takes: 2^36 bytes.
pub const GCM_MAX_PLAINTEXT: u64 = 0x10_0000_0000;

/// AES-256-GCM encryption of `plaintext` under `key` and `nonce`, with no
/// associated data: the ciphertext followed by the 16-byte tag.
pub uninterp spec fn aes256gcm_sealed(key: Seq<u8>, nonce: Seq<u8>, plaintext: Seq<u8>) -> Seq<u8>;

/// AES-256-GCM decryption of `ciphertext` (with its tag) under `key` and
/// `nonce`: the plaintext, or `None` when the tag does not check.
pub uninterp spec fn aes256gcm_opened(key: Seq<u8>, nonce: Seq<u8>, ciphertext: Seq<u8>) -> Option<
    Seq<u8>,
>;

/// Fresh random bytes.
///
/// Trusted: fills a zeroed vector of `len` bytes with `rand::thread_rng()`
/// `fill_bytes`; only the length is stated.
#[verifier::external_body]
fn random_bytes(len: usize) -> (res: Vec<u8>)
    ensures
        res@.len() == len,
{
    let mut bytes = vec![0u8; len];
    rand::thread_rng().fill_bytes(&mut bytes);
    bytes
}

/// AES-256-GCM encryption.
///
/// Trusted: calls `Aes256Gcm::new_from_slice(key)`, which refuses a key
/// that is not 32 bytes, and `encrypt(Nonce::from_slice(nonce), plaintext)`,
/// which refuses a plaintext over 2^36 bytes (`Nonce::from_slice` panics
/// unless the nonce is 12 bytes). The result is named by
/// `aes256gcm_sealed`; it is 16 bytes longer than the plaintext and opens
/// again to the plaintext under the same key and nonce, as authenticated
/// encryption does. Errors come back as their messages.
#[verifier::external_body]
fn aes256gcm_encrypt(key: &[u8], nonce: &[u8], plaintext: &[u8]) -> (res: core::result::Result<
    Vec<u8>,
    String,
>)
    requires
        nonce@.len() == GCM_NONCE_SIZE,
    ensures
        key@.len() != AES_KEY_SIZE ==> res is Err,
        key@.len() == AES_KEY_SIZE ==> (res is Err <==> plaintext@.len() > GCM_MAX_PLAINTEXT),
        res matches Ok(c) ==> {
            &&& c@ == aes256gcm_sealed(key@, nonce@, plaintext@)
            &&& c@.len() == plaintext@.len() + 16
            &&& aes256gcm_opened(key@, nonce@, c@) == Some(plaintext@)
        },
{
    let cipher = match Aes256Gcm::new_from_slice(key) {
        Ok(cipher) => cipher,
        Err(e) => return Err(e.to_string()),
    };
    match cipher.encrypt(Nonce::from_slice(nonce), plaintext) {
        Ok(c) => Ok(c),
        Err(e) => Err(e.to_string()),
    }
}

/// AES-256-GCM decryption.
///
/// Trusted: calls `Aes256Gcm::new_from_slice(key)`, which refuses a key
/// that is not 32 bytes, and then `decrypt(Nonce::from_slice(nonce),
/// ciphertext)` (`Nonce::from_slice` panics unless the nonce is 12 bytes,
/// so a nonce of another length is only given with a refused key).
/// With a 32-byte key the outcome is named by `aes256gcm_opened`. Errors
/// come back as their messages.
#[verifier::external_body]
fn aes256gcm_decrypt(key: &[u8], nonce: &[u8], ciphertext: &[u8]) -> (res: core::result::Result<
    Vec<u8>,
    String,
>)
    requires
        nonce@.len() == GCM_NONCE_SIZE || key@.len() != AES_KEY_SIZE,
    ensures
        key@.len() != AES_KEY_SIZE ==> res is Err,
        key@.len() == AES_KEY_SIZE ==> match aes256gcm_opened(key@, nonce@, ciphertext@) {
            Some(p) => res matches Ok(v) && v@ == p,
            None => res is Err,
        },
{
    let cipher = match Aes256Gcm::new_from_slice(key) {
        Ok(cipher) => cipher,
        Err(e) => return Err(e.to_string()),
    };
    match cipher.decrypt(Nonce::from_slice(nonce), ciphertext) {
        Ok(p) => Ok(p),
        Err(e) => Err(e.to_string()),
    }
}

/// What hybrid encryption of `plaintext` for the public key `(n, e)`
/// gives: a 12-byte nonce and some 32-byte AES key under which the data is
/// the AES-GCM sealing of the plaintext, and which is wrapped for the
/// public key in the encrypted key.
pub open spec fn hybrid_sealed(
    n: Seq<u8>,
    e: Seq<u8>,
    plaintext: Seq<u8>,
    encrypted_data: Seq<u8>,
    encrypted_key: Seq<u8>,
    nonce: Seq<u8>,
) -> bool {
    &&& nonce.len() == GCM_NONCE_SIZE
    &&& exists|key: Seq<u8>|
        {
            &&& key.len() == AES_KEY_SIZE
            &&& encrypted_data == #[trigger] aes256gcm_sealed(key, nonce, plaintext)
            &&& aes256gcm_opened(key, nonce, encrypted_data) == Some(plaintext)
            &&& rsa_oaep_opens_to(n, e, encrypted_key, key)
        }
}

/// What hybrid decryption with `key` gives: the AES key recovered with
/// RSA-OAEP, which must be 32 bytes, then the AES-GCM opening of the data.
pub open spec fn hybrid_opened(
    key: RsaKeyView,
    encrypted_data: Seq<u8>,
    encrypted_key: Seq<u8>,
    nonce: Seq<u8>,
) -> Option<Seq<u8>> {
    match key.oaep_opened(encrypted_key) {
        Some(aes_key) => if aes_key.len() == AES_KEY_SIZE {
            aes256gcm_opened(aes_key, nonce, encrypted_data)
        } else {
            None
        },
        None => None,
    }
}

/// Encrypt data using hybrid encryption: AES‑GCM + RSA‑OAEP.
///
/// Returns the AES-GCM ciphertext, the AES key encrypted for `rsa_pub`,
/// and the nonce. It fails for a plaintext over 2^36 bytes, a public key
/// that `rsa` refuses, or a modulus under 98 bytes (too small to wrap a
/// 32-byte key).
pub fn encrypt_payload(plaintext: &[u8], rsa_pub: &PublicKey) -> (res: Result<
    (Vec<u8>, Vec<u8>, Vec<u8>),
>)
    ensures
        res is Ok <==> plaintext@.len() <= GCM_MAX_PLAINTEXT && rsa_public_ok(rsa_pub.n@, rsa_pub.e@)
            && AES_KEY_SIZE + OAEP_SHA256_OVERHEAD <= modulus_size(rsa_pub.n@),
        match res {
            Ok((encrypted_data, encrypted_key, nonce)) => {
                &&& hybrid_sealed(
                    rsa_pub.n@,
                    rsa_pub.e@,
                    plaintext@,
                    encrypted_data@,
                    encrypted_key@,
                    nonce@,
                )
                &&& encrypted_data@.len() == plaintext@.len() + 16
                &&& encrypted_key@.len() == modulus_size(rsa_pub.n@)
                &&& nonce@.len() == 12
                &&& exists|key: Seq<u8>|
                    {
                        &&& key.len() == 32
                        &&& #[trigger] aes256gcm_sealed(key, nonce@, plaintext@) == encrypted_data@
                        &&& aes256gcm_opened(key, nonce@, encrypted_data@) == Some(plaintext@)
                        &&& forall|d: Seq<u8>, p: Seq<u8>, q: Seq<u8>|
                            rsa_key_sound(rsa_pub.n@, rsa_pub.e@, d, p, q)
                                ==> #[trigger] rsa_oaep_sha256_opened(
                                rsa_pub.n@,
                                rsa_pub.e@,
                                d,
                                p,
                                q,
                                encrypted_key@,
                            ) == Some(key)
                    }
            },
            Err(e) => e is Encryption,
        },
{
    // Random AES key and nonce
    let aes_key = random_bytes(AES_KEY_SIZE);
    let nonce = random_bytes(GCM_NONCE_SIZE);

    // Encrypt with AES-GCM
    let encrypted_data = match aes256gcm_encrypt(&aes_key, &nonce, plaintext) {
        Ok(c) => c,
        Err(m) => return Err(Error::Encryption(m)),
    };

    // Encrypt the AES key with RSA-OAEP (SHA-256)
    let encrypted_key = match rsa_oaep_sha256_encrypt(&rsa_pub.n, &rsa_pub.e, &aes_key) {
        Ok(c) => c,
        Err(m) => return Err(Error::Encryption(m)),
    };
    proof {
        let _ = aes256gcm_sealed(aes_key@, nonce@, plaintext@);
    }
    Ok((encrypted_data, encrypted_key, nonce))
}

/// Decrypt data using hybrid decryption: RSA‑OAEP to recover the AES key,
/// then AES‑GCM.
///
/// A nonce that is not 12 bytes reaches AES-GCM only where the key
/// recovered is 32 bytes; there AES-GCM cannot take it, so those inputs are
/// left out (see `try_decrypt_payload`).
pub fn decrypt_payload(
    encrypted_data: &[u8],
    encrypted_key: &[u8],
    nonce: &[u8],
    rsa_priv: &PrivateKey,
) -> (res: Result<Vec<u8>>)
    requires
        nonce@.len() == GCM_NONCE_SIZE || !(rsa_priv@.oaep_opened(encrypted_key@) matches Some(
            k,
        ) && k.len() == AES_KEY_SIZE),
    ensures
        res is Ok <==> hybrid_opened(rsa_priv@, encrypted_data@, encrypted_key@, nonce@) is Some,
        match res {
            Ok(plaintext) => hybrid_opened(rsa_priv@, encrypted_data@, encrypted_key@, nonce@)
                == Some(plaintext@),
            Err(e) => e is Encryption,
        },
        match rsa_oaep_sha256_opened(
            rsa_priv@.n,
            rsa_priv@.e,
            rsa_priv@.d,
            rsa_priv@.p,
            rsa_priv@.q,
            encrypted_key@,
        ) {
            Some(aes_key) => if aes_key.len() == 32 {
                match aes256gcm_opened(aes_key, nonce@, encrypted_data@) {
                    Some(plaintext) => res matches Ok(v) && v@ == plaintext,
                    None => res is Err,
                }
            } else {
                res is Err
            },
            None => res is Err,
        },
{
    // Recover the AES key with RSA-OAEP
    let aes_key = match rsa_oaep_sha256_decrypt(rsa_priv, encrypted_key) {
        Ok(k) => k,
        Err(m) => return Err(Error::Encryption(m)),
    };

    // Decrypt with AES-GCM
    match aes256gcm_decrypt(&aes_key, nonce, encrypted_data) {
        Ok(p) => Ok(p),
        Err(m) => Err(Error::Encryption(m)),
    }
}

/// Hybrid decryption for any nonce: `None` where a nonce that is not 12
/// bytes would reach AES-GCM with a recovered 32-byte key, else what
/// `decrypt_payload` gives.
pub fn try_decrypt_payload(
    encrypted_data: &[u8],
    encrypted_key: &[u8],
    nonce: &[u8],
    rsa_priv: &PrivateKey,
) -> (res: Option<Result<Vec<u8>>>)
    ensures
        res is None <==> nonce@.len() != GCM_NONCE_SIZE && (rsa_priv@.oaep_opened(
            encrypted_key@,
        ) matches Some(k) && k.len() == AES_KEY_SIZE),
        res matches Some(r) ==> {
            &&& r is Ok <==> hybrid_opened(rsa_priv@, encrypted_data@, encrypted_key@, nonce@) is Some
            &&& match r {
                Ok(plaintext) => hybrid_opened(rsa_priv@, encrypted_data@, encrypted_key@, nonce@)
                    == Some(plaintext@),
                Err(e) => e is Encryption,
            }
        },
{
    if nonce.len() != GCM_NONCE_SIZE {
        if let Ok(aes_key) = rsa_oaep_sha256_decrypt(rsa_priv, encrypted_key) {
            if aes_key.len() == AES_KEY_SIZE {
                return None;
            }
        }
    }
    Some(decrypt_payload(encrypted_data, encrypted_key, nonce, rsa_priv))
}

/// What hybrid encryption is: some 32-byte AES key seals the plaintext
/// itself into the data and opens it again, and every true private key for
/// the public key recovers that AES key from the encrypted key.
pub proof fn law_hybrid_sealed(
    n: Seq<u8>,
    e: Seq<u8>,
    plaintext: Seq<u8>,
    encrypted_data: Seq<u8>,
    encrypted_key: Seq<u8>,
    nonce: Seq<u8>,
)
    ensures
        hybrid_sealed(n, e, plaintext, encrypted_data, encrypted_key, nonce) <==> {
            &&& nonce.len() == 12
            &&& exists|key: Seq<u8>|
                {
                    &&& key.len() == 32
                    &&& #[trigger] aes256gcm_sealed(key, nonce, plaintext) == encrypted_data
                    &&& aes256gcm_opened(key, nonce, encrypted_data) == Some(plaintext)
                    &&& forall|d: Seq<u8>, p: Seq<u8>, q: Seq<u8>|
                        rsa_key_sound(n, e, d, p, q) ==> #[trigger] rsa_oaep_sha256_opened(
                            n,
                            e,
                            d,
                            p,
                            q,
                            encrypted_key,
                        ) == Some(key)
                }
        },
{
}

/// What hybrid decryption is: the AES key that RSA-OAEP recovers with the
/// private key's components, if it is 32 bytes, opens the data with
/// AES-GCM, and the plaintext is exactly what AES-GCM gives.
pub proof fn law_hybrid_opened(
    key: RsaKeyView,
    encrypted_data: Seq<u8>,
    encrypted_key: Seq<u8>,
    nonce: Seq<u8>,
)
    ensures
        hybrid_opened(key, encrypted_data, encrypted_key, nonce) == match rsa_oaep_sha256_opened(
            key.n,
            key.e,
            key.d,
            key.p,
            key.q,
            encrypted_key,
        ) {
            Some(aes_key) => if aes_key.len() == 32 {
                aes256gcm_opened(aes_key, nonce, encrypted_data)
            } else {
                None
            },
            None => None,
        },
{
}

/// Decrypting what hybrid encryption made for a public key, with a true
/// private key for it, gives back the plaintext.
pub proof fn lemma_decrypt_encrypted(
    key: RsaKeyView,
    plaintext: Seq<u8>,
    encrypted_data: Seq<u8>,
    encrypted_key: Seq<u8>,
    nonce: Seq<u8>,
)
    requires
        key.sound(),
        hybrid_sealed(key.n, key.e, plaintext, encrypted_data, encrypted_key, nonce),
    ensures
        hybrid_opened(key, encrypted_data, encrypted_key, nonce) == Some(plaintext),
{
    let aes_key = choose|aes_key: Seq<u8>|
        {
            &&& aes_key.len() == AES_KEY_SIZE
            &&& encrypted_data == #[trigger] aes256gcm_sealed(aes_key, nonce, plaintext)
            &&& aes256gcm_opened(aes_key, nonce, encrypted_data) == Some(plaintext)
            &&& rsa_oaep_opens_to(key.n, key.e, encrypted_key, aes_key)
        };
    assert(key.oaep_opened(encrypted_key) == Some(aes_key));
}

} // verus!
