use rsa::traits::{PrivateKeyParts, PublicKeyParts};
use rsa::RsaPrivateKey;
use rsa::pkcs1v15::{Signature, VerifyingKey};
use rsa::signature::Verifier;
use sha2::Sha256;
use rustao::dataitem::DataItem;
use rustao::{base64url_encode, ARSigner, Error};

fn jwk_of(key: &RsaPrivateKey) -> String {
    let b = |x: &rsa::BigUint| base64url_encode(&x.to_bytes_be());
    format!(
        "{{\"kty\":\"RSA\",\"n\":\"{}\",\"e\":\"{}\",\"d\":\"{}\",\"p\":\"{}\",\"q\":\"{}\"}}",
        b(key.n()),
        b(key.e()),
        b(key.d()),
        b(&key.primes()[0]),
        b(&key.primes()[1])
    )
}

fn test_wallet() -> (String, RsaPrivateKey) {
    let mut rng = rand::thread_rng();
    let key = RsaPrivateKey::new(&mut rng, 1024).unwrap();
    (jwk_of(&key), key)
}

fn pkcs1v15_verifies(key: &RsaPrivateKey, data: &[u8], signature: &[u8]) -> bool {
    let verifying_key = VerifyingKey::<Sha256>::new_unprefixed(key.to_public_key());
    verifying_key.verify(data, &Signature::try_from(signature).unwrap()).is_ok()
}

#[test]
fn test_load_wallet() {
    let (jwk, _) = test_wallet();
    let signer = ARSigner::from_jwk(&jwk).expect("failed to load wallet");
    assert!(!signer.address().is_empty());
    assert!(!signer.public_key().is_empty());
}

#[test]
fn test_sign() {
    let (jwk, _) = test_wallet();
    let signer = ARSigner::from_jwk(&jwk).unwrap();
    let data = b"test data";
    let signature = signer.sign(data).unwrap();
    assert!(!signature.is_empty());
}

#[test]
fn test_public_key() {
    let (jwk, key) = test_wallet();
    let signer = ARSigner::from_jwk(&jwk).unwrap();
    let pk = signer.public_key();
    assert!(!pk.is_empty());
    assert_eq!(pk, &key.n().to_bytes_be()[..]);
}

#[test]
fn test_address() {
    let (jwk, _) = test_wallet();
    let signer = ARSigner::from_jwk(&jwk).unwrap();
    let addr = signer.address();
    assert!(!addr.is_empty());
    // Address is base58, so it should contain only alphanumeric characters
    assert!(addr.chars().all(|c| c.is_ascii_alphanumeric()));
}

#[test]
fn address_is_base58_of_digest() {
    let (jwk, _) = test_wallet();
    let signer = ARSigner::from_jwk(&jwk).unwrap();
    let digest = rustao::utils::sha256(signer.public_key());
    assert_eq!(signer.address(), base58::ToBase58::to_base58(&digest[..]));
}

#[test]
fn clone_keeps_keys() {
    let (jwk, _) = test_wallet();
    let signer = ARSigner::from_jwk(&jwk).unwrap();
    let copy = signer.clone();
    assert_eq!(copy.address(), signer.address());
    assert_eq!(copy.public_key(), signer.public_key());
}

#[test]
fn jwk_errors() {
    assert!(matches!(ARSigner::from_jwk("not json"), Err(Error::Json(_))));
    match ARSigner::from_jwk("{\"e\":\"AQAB\"}") {
        Err(Error::InvalidWallet(m)) => assert_eq!(m, "missing n"),
        _ => panic!("expected a missing field"),
    }
    match ARSigner::from_jwk("{\"n\":\"AQAB\",\"e\":\"AQAB\"}") {
        Err(Error::InvalidWallet(m)) => assert_eq!(m, "missing d"),
        _ => panic!("expected a missing field"),
    }
    assert!(matches!(ARSigner::from_jwk("{\"n\":\"A=\"}"), Err(Error::InvalidWallet(_))));
    let bogus = "{\"n\":\"Bw\",\"e\":\"Aw\",\"d\":\"Aw\",\"p\":\"Aw\",\"q\":\"Aw\"}";
    assert!(matches!(ARSigner::from_jwk(bogus), Err(Error::InvalidWallet(_))));
}

#[test]
fn signing_a_data_item() {
    let (jwk, key) = test_wallet();
    let signer = ARSigner::from_jwk(&jwk).unwrap();
    let mut di = DataItem::new("p".into(), b"d".to_vec(), vec![], vec![]);
    let signed_bytes = di.get_signature_data().unwrap();
    di.sign(&signer).unwrap();
    assert_eq!(di.owner, signer.public_key());
    assert!(!di.signature.is_empty());
    assert_eq!(di.id, di.compute_id().unwrap());
    // the signature covers the bytes as they stood before the owner was set
    assert!(pkcs1v15_verifies(&key, &signed_bytes, &di.signature));
}

#[test]
fn signature_verifies_under_the_wallet_key() {
    let (jwk, key) = test_wallet();
    let signer = ARSigner::from_jwk(&jwk).unwrap();
    let signature = signer.sign(b"test data").unwrap();
    assert_eq!(signature.len(), signer.public_key().len());
    assert!(pkcs1v15_verifies(&key, b"test data", &signature));
    assert!(!pkcs1v15_verifies(&key, b"other data", &signature));
}

#[test]
fn small_wallet_is_below_the_signing_size() {
    let mut rng = rand::thread_rng();
    let key = RsaPrivateKey::new(&mut rng, 256).unwrap();
    let signer = ARSigner::from_jwk(&jwk_of(&key)).unwrap();
    assert!(signer.public_key().len() < rustao::crypto::MIN_SIGNING_MODULUS_SIZE);
}

#[test]
fn wallet_signatures_are_deterministic() {
    let (jwk, _) = test_wallet();
    let signer = ARSigner::from_jwk(&jwk).unwrap();
    assert_eq!(signer.sign(b"same").unwrap(), signer.sign(b"same").unwrap());
    assert_ne!(signer.sign(b"same").unwrap(), signer.sign(b"other").unwrap());
}
