use rustao::client::{
    compute_text, compute_url, dry_run_request, dry_run_url, message_payload, poll_step, prepare_message,
    prepare_spawn, result_url, submit_url, PollStep, DEFAULT_SCHEDULER,
};
use rustao::dataitem::DataItem;
use rustao::crypto::PrivateKey;
use rustao::encrypt::decrypt_payload;
use rustao::{base64url_decode, base64url_encode, ARSigner, Error, SendMessageOptions, Tag};
use rsa::pkcs1::EncodeRsaPublicKey;
use rsa::traits::{PrivateKeyParts, PublicKeyParts};
use rsa::RsaPrivateKey;

fn test_signer() -> (ARSigner, RsaPrivateKey) {
    let mut rng = rand::thread_rng();
    let key = RsaPrivateKey::new(&mut rng, 1024).unwrap();
    let b = |x: &rsa::BigUint| base64url_encode(&x.to_bytes_be());
    let jwk = format!(
        "{{\"kty\":\"RSA\",\"n\":\"{}\",\"e\":\"{}\",\"d\":\"{}\",\"p\":\"{}\",\"q\":\"{}\"}}",
        b(key.n()),
        b(key.e()),
        b(key.d()),
        b(&key.primes()[0]),
        b(&key.primes()[1])
    );
    (ARSigner::from_jwk(&jwk).unwrap(), key)
}

#[test]
fn test_send_message_options_encryption() {
    let options = SendMessageOptions {
        encrypt_with_rsa: Some(vec![1, 2, 3]),
    };
    assert!(options.encrypt_with_rsa.is_some());
}

#[test]
fn urls() {
    assert_eq!(submit_url("https://mu.ao.arweave.net"), "https://mu.ao.arweave.net/submit");
    assert_eq!(dry_run_url("https://cu", "P"), "https://cu/dry-run?process-id=P");
    assert_eq!(compute_url("https://g", "P", "counter"), "https://g/P/compute/counter");
    assert_eq!(result_url("https://cu", "M", "P"), "https://cu/result/M?process-id=P");
}

#[test]
fn polling_decisions() {
    assert!(matches!(poll_step(200), PollStep::Done));
    assert!(matches!(poll_step(299), PollStep::Done));
    assert!(matches!(poll_step(404), PollStep::Wait));
    assert!(matches!(poll_step(500), PollStep::Fail));
    assert!(matches!(poll_step(301), PollStep::Fail));
}

#[test]
fn compute_text_checks_utf8() {
    assert_eq!(compute_text(b"42".to_vec()).unwrap(), "42");
    assert!(matches!(compute_text(vec![0xff]), Err(Error::Other(_))));
}

#[test]
fn message_is_signed_and_addressed() {
    let (signer, _) = test_signer();
    let (data, tags) = message_payload(b"hello", vec![Tag::new("Action", "Test")], None).unwrap();
    assert_eq!(data, b"hello");
    let item = prepare_message(&signer, "proc", data, tags, None).unwrap();
    assert_eq!(item.target, "proc");
    assert_eq!(item.data, b"hello");
    assert_eq!(item.tags, vec![Tag::new("Action", "Test")]);
    assert_eq!(item.owner, signer.public_key());
    assert!(!item.signature.is_empty());
    assert_eq!(item.id, item.compute_id().unwrap());
    let back = DataItem::deserialize(&item.serialize().unwrap()).unwrap();
    assert_eq!(back.id, item.id);
}

#[test]
fn encrypted_message_can_be_opened_by_recipient() {
    let (signer, _) = test_signer();
    let mut rng = rand::thread_rng();
    let recipient = RsaPrivateKey::new(&mut rng, 1024).unwrap();
    let der = recipient.to_public_key().to_pkcs1_der().unwrap().as_bytes().to_vec();
    let options = SendMessageOptions { encrypt_with_rsa: Some(der) };
    let (data, tags) = message_payload(b"secret", vec![], Some(options)).unwrap();
    let item = prepare_message(&signer, "proc", data, tags, Some(&[1, 2])).unwrap();
    assert_eq!(item.tags.len(), 3);
    assert_eq!(item.tags[0].name, "Encrypted-Key");
    assert_eq!(item.tags[1].name, "Nonce");
    assert_eq!(item.tags[2], Tag::new("Encryption-Algorithm", "AES-GCM+RSA-OAEP"));
    assert_eq!(item.anchor, vec![1, 2]);
    let key = base64url_decode(&item.tags[0].value).unwrap();
    let nonce = base64url_decode(&item.tags[1].value).unwrap();
    assert_eq!(nonce.len(), 12);
    let recipient = PrivateKey::from_components(
        &recipient.n().to_bytes_be(),
        &recipient.e().to_bytes_be(),
        &recipient.d().to_bytes_be(),
        &recipient.primes()[0].to_bytes_be(),
        &recipient.primes()[1].to_bytes_be(),
    )
    .unwrap();
    let plain = decrypt_payload(&item.data, &key, &nonce, &recipient).unwrap();
    assert_eq!(plain, b"secret");
}

#[test]
fn message_with_bad_recipient_key() {
    let options = SendMessageOptions { encrypt_with_rsa: Some(vec![1, 2, 3]) };
    let res = message_payload(b"x", vec![], Some(options));
    assert!(matches!(res, Err(Error::Encryption(_))));
    // no key named: the payload is kept
    let (data, tags) = message_payload(b"x", vec![Tag::new("a", "b")], Some(SendMessageOptions::default())).unwrap();
    assert_eq!(data, b"x");
    assert_eq!(tags, vec![Tag::new("a", "b")]);
}

#[test]
fn spawn_tags_and_default_scheduler() {
    let (signer, _) = test_signer();
    let item = prepare_spawn(&signer, "MOD", b"", vec![Tag::new("A", "B")], None, None).unwrap();
    assert_eq!(item.target, "");
    assert_eq!(
        item.tags,
        vec![
            Tag::new("A", "B"),
            Tag::new("Type", "Process"),
            Tag::new("Module", "MOD"),
            Tag::new("Scheduler", DEFAULT_SCHEDULER),
        ]
    );
    let item = prepare_spawn(&signer, "MOD", b"", vec![], None, Some("S")).unwrap();
    assert_eq!(item.tags[2], Tag::new("Scheduler", "S"));
}

#[test]
fn dry_run_defaults() {
    let (signer, _) = test_signer();
    let req = dry_run_request(&signer, "P", b"foo", vec![Tag::new("k", "v")], None, None);
    assert_eq!(req.target, "P");
    assert_eq!(req.owner, signer.address());
    assert_eq!(req.anchor, "");
    assert_eq!(req.data, "Zm9v");
    assert_eq!(req.tags, vec![Tag::new("k", "v")]);
    let req = dry_run_request(&signer, "P", b"", vec![], Some(b"f"), Some("someone"));
    assert_eq!(req.owner, "someone");
    assert_eq!(req.anchor, "Zg");
}
