use rsa::traits::{PrivateKeyParts, PublicKeyParts};
use rsa::RsaPrivateKey;
use rustao::crypto::{PrivateKey, PublicKey};
use rustao::encrypt::{decrypt_payload, encrypt_payload, try_decrypt_payload};
use rustao::Error;

fn private_key_of(key: &RsaPrivateKey) -> PrivateKey {
    PrivateKey::from_components(
        &key.n().to_bytes_be(),
        &key.e().to_bytes_be(),
        &key.d().to_bytes_be(),
        &key.primes()[0].to_bytes_be(),
        &key.primes()[1].to_bytes_be(),
    )
    .unwrap()
}

// Fresh 1024-bit key pairs: larger ones take too long to generate in an
// unoptimised build.
fn generate_test_keypair() -> (PrivateKey, PublicKey) {
    let mut rng = rand::thread_rng();
    let priv_key = private_key_of(&RsaPrivateKey::new(&mut rng, 1024).unwrap());
    let pub_key = priv_key.public_key();
    (priv_key, pub_key)
}

#[test]
fn test_encrypt_decrypt_roundtrip() {
    let (priv_key, pub_key) = generate_test_keypair();
    let plaintext = b"secret message";
    let (encrypted_data, encrypted_key, nonce) = encrypt_payload(plaintext, &pub_key).unwrap();
    let decrypted = decrypt_payload(&encrypted_data, &encrypted_key, &nonce, &priv_key).unwrap();
    assert_eq!(decrypted, plaintext);
}

#[test]
fn test_encrypt_empty() {
    let (_, pub_key) = generate_test_keypair();
    let plaintext = b"";
    let (_encrypted_data, _encrypted_key, _nonce) = encrypt_payload(plaintext, &pub_key).unwrap();
}

#[test]
fn test_wrong_key() {
    let (_priv_key, pub_key) = generate_test_keypair();
    let (other_priv, _) = generate_test_keypair();
    let plaintext = b"secret";
    let (encrypted_data, encrypted_key, nonce) = encrypt_payload(plaintext, &pub_key).unwrap();
    let result = decrypt_payload(&encrypted_data, &encrypted_key, &nonce, &other_priv);
    assert!(result.is_err());
}

#[test]
fn ciphertext_shape() {
    let (_, pub_key) = generate_test_keypair();
    let (data, key, nonce) = encrypt_payload(b"12345", &pub_key).unwrap();
    assert_eq!(nonce.len(), 12);
    assert_eq!(data.len(), 5 + 16);
    assert_eq!(key.len(), 128);
}

#[test]
fn tampered_ciphertext_is_refused() {
    let (priv_key, pub_key) = generate_test_keypair();
    let (mut data, key, nonce) = encrypt_payload(b"abc", &pub_key).unwrap();
    data[0] ^= 1;
    assert!(matches!(decrypt_payload(&data, &key, &nonce, &priv_key), Err(Error::Encryption(_))));
}

#[test]
fn small_key_cannot_wrap_aes_key() {
    let mut rng = rand::thread_rng();
    let tiny = RsaPrivateKey::new(&mut rng, 512).unwrap();
    let public = PublicKey::new(tiny.n().to_bytes_be(), tiny.e().to_bytes_be());
    let res = encrypt_payload(b"x", &public);
    assert!(matches!(res, Err(Error::Encryption(_))));
}

#[test]
fn refused_public_key() {
    // an even exponent is refused by the key checks
    let (_, pub_key) = generate_test_keypair();
    let even = PublicKey::new(pub_key.n.clone(), vec![2]);
    assert!(matches!(encrypt_payload(b"x", &even), Err(Error::Encryption(_))));
}

#[test]
fn nonce_of_another_length() {
    let (priv_key, pub_key) = generate_test_keypair();
    let (other_priv, _) = generate_test_keypair();
    let (data, key, _nonce) = encrypt_payload(b"abc", &pub_key).unwrap();
    let short = [0u8; 11];
    // the right key recovers a 32-byte AES key, which cannot meet a short nonce
    assert!(try_decrypt_payload(&data, &key, &short, &priv_key).is_none());
    // the wrong key fails before the nonce is used
    assert!(matches!(
        try_decrypt_payload(&data, &key, &short, &other_priv),
        Some(Err(Error::Encryption(_)))
    ));
}

#[test]
fn checked_decryption_agrees() {
    let (priv_key, pub_key) = generate_test_keypair();
    let (data, key, nonce) = encrypt_payload(b"hello", &pub_key).unwrap();
    let plain = try_decrypt_payload(&data, &key, &nonce, &priv_key).unwrap().unwrap();
    assert_eq!(plain, b"hello");
}

#[test]
fn sign_verify_with_test_key() {
    let (key, _) = generate_test_keypair();
    let signature = key.sign(&[0; 16]);
    assert_eq!(signature.len(), 128);
    assert!(key.verify(&[0; 16], &signature));
    assert!(!key.verify(&[1; 16], &signature));
    let (other, _) = generate_test_keypair();
    assert!(!other.verify(&[0; 16], &signature));
}


#[test]
fn private_key_parts() {
    let rsa_key = RsaPrivateKey::new(&mut rand::thread_rng(), 1024).unwrap();
    let key = private_key_of(&rsa_key);
    assert_eq!(key.to_public_key(), rsa_key.n().to_bytes_be());
    // a leading zero byte on the modulus is dropped
    let mut padded = vec![0u8];
    padded.extend_from_slice(&rsa_key.n().to_bytes_be());
    let again = PrivateKey::from_components(
        &padded,
        &rsa_key.e().to_bytes_be(),
        &rsa_key.d().to_bytes_be(),
        &rsa_key.primes()[0].to_bytes_be(),
        &rsa_key.primes()[1].to_bytes_be(),
    )
    .unwrap();
    assert_eq!(again.to_public_key(), rsa_key.n().to_bytes_be());
    // primes whose product is not the modulus are refused
    assert!(PrivateKey::from_components(
        &rsa_key.n().to_bytes_be(),
        &rsa_key.e().to_bytes_be(),
        &rsa_key.d().to_bytes_be(),
        &rsa_key.primes()[0].to_bytes_be(),
        &rsa_key.primes()[0].to_bytes_be(),
    )
    .is_err());
}

