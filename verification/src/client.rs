use crate::crypto::{
    modulus_size, pkcs1_der_rsa_public_key, rsa_pkcs1v15_sha256_signature, strip_leading_zeros, rsa_public_key_from_pkcs1_der, MIN_SIGNING_MODULUS_SIZE,
    OAEP_SHA256_OVERHEAD,
};
use crate::dataitem::{is_signed_by, unsigned_item, DataItem};
use crate::encrypt::{
    aes256gcm_opened, aes256gcm_sealed, encrypt_payload, hybrid_sealed, AES_KEY_SIZE,
    GCM_MAX_PLAINTEXT,
};
use crate::error::{Error, Result};
use crate::schema::{tag_views, SendMessageOptions, Tag, TagView};
use crate::signer::ARSigner;
use crate::utils::{base64url, base64url_encode, utf8_string};
use vstd::prelude::*;
use vstd::utf8::encode_utf8;

verus! {

/// The messenger unit that messages are submitted to by default.
pub const DEFAULT_MU: &'static str = "https://mu.ao.arweave.net";

/// The compute unit asked for results by default.
pub const DEFAULT_CU: &'static str = "https://cu.ao.arweave.net";

/// The gateway asked for computed state by default.
pub const DEFAULT_COMPUTE: &'static str = "https://push.forward.computer";

/// The scheduler that spawned processes get when none is named.
pub const DEFAULT_SCHEDULER: &'static str = "_GQ33BkPtZrqxA84vM8Zk-N2aO0toNNu_C-l-rawrBA";

/// The algorithm named on encrypted messages.
pub const ENCRYPTION_ALGORITHM: &'static str = "AES-GCM+RSA-OAEP";

/// The tags that an encrypted message gets after its own: the encrypted
/// AES key and the nonce in base64url, and the algorithm.
pub open spec fn encryption_tags(encrypted_key: Seq<u8>, nonce: Seq<u8>) -> Seq<TagView> {
    seq![
        TagView { name: "Encrypted-Key"@, value: base64url(encrypted_key) },
        TagView { name: "Nonce"@, value: base64url(nonce) },
        TagView { name: "Encryption-Algorithm"@, value: ENCRYPTION_ALGORITHM@ },
    ]
}

/// The tags that a spawn message gets after its own.
pub open spec fn spawn_tags(module_tx_id: Seq<char>, scheduler: Seq<char>) -> Seq<TagView> {
    seq![
        TagView { name: "Type"@, value: "Process"@ },
        TagView { name: "Module"@, value: module_tx_id },
        TagView { name: "Scheduler"@, value: scheduler },
    ]
}

/// The bytes of an optional anchor, none when absent.
pub open spec fn anchor_bytes(anchor: Option<&[u8]>) -> Seq<u8> {
    match anchor {
        Some(a) => a@,
        None => Seq::<u8>::empty(),
    }
}

/// The anchor bytes are those given, and none when none is given.
pub proof fn law_anchor_bytes(anchor: Option<&[u8]>)
    ensures
        anchor is None ==> anchor_bytes(anchor).len() == 0,
        anchor matches Some(a) ==> anchor_bytes(anchor) == a@,
{
}

/// Whether a message is to be encrypted, and for which key.
pub open spec fn encryption_key(options: Option<SendMessageOptions>) -> Option<Seq<u8>> {
    match options {
        Some(opts) => match opts.encrypt_with_rsa {
            Some(der) => Some(der@),
            None => None,
        },
        None => None,
    }
}

/// Whether encrypting `data` for the PKCS#1 DER public key `der` goes
/// through: the key is read, the data is at most 2^36 bytes, and the
/// modulus is large enough to wrap an AES key.
pub open spec fn encryption_succeeds(der: Seq<u8>, data: Seq<u8>) -> bool {
    pkcs1_der_rsa_public_key(der) matches Some((n, _e)) && data.len() <= GCM_MAX_PLAINTEXT
        && AES_KEY_SIZE + OAEP_SHA256_OVERHEAD <= modulus_size(n)
}

/// Encryption goes through exactly when the key is read, the data is at
/// most 2^36 bytes and the modulus is at least 98 bytes: the payload itself
/// goes through AES-GCM, so its length is not bounded by the modulus.
pub proof fn law_encryption_succeeds(der: Seq<u8>, data: Seq<u8>)
    ensures
        encryption_succeeds(der, data) <==> (pkcs1_der_rsa_public_key(der) matches Some((n, e))
            && data.len() <= 0x10_0000_0000 && 98 <= strip_leading_zeros(n).len()),
{
}

/// The options ask for encryption exactly when they name a key, and then
/// for that key.
pub proof fn law_encryption_key(options: Option<SendMessageOptions>)
    ensures
        encryption_key(options) is Some <==> (options matches Some(o) && o.encrypt_with_rsa is Some),
        match options {
            Some(o) => match o.encrypt_with_rsa {
                Some(der) => encryption_key(options) == Some(der@),
                None => encryption_key(options) is None,
            },
            None => encryption_key(options) is None,
        },
{
}

/// The data and tags that `send_message` signs: as given, or, when the
/// options name an RSA key (PKCS#1 DER), the data encrypted for that key
/// and three tags more that say how to decrypt it. It fails when the key
/// cannot be read or the encryption fails.
pub fn message_payload(data: &[u8], tags: Vec<Tag>, options: Option<SendMessageOptions>) -> (res:
    Result<(Vec<u8>, Vec<Tag>)>)
    ensures
        res is Err <==> (encryption_key(options) matches Some(der) && !encryption_succeeds(
            der,
            data@,
        )),
        match res {
            Ok((payload, all_tags)) => match encryption_key(options) {
                None => payload@ == data@ && tag_views(all_tags@) == tag_views(tags@),
                Some(der) => pkcs1_der_rsa_public_key(der) matches Some((n, e)) && exists|
                    encrypted_key: Seq<u8>,
                    nonce: Seq<u8>,
                |
                    #![trigger encryption_tags(encrypted_key, nonce)]
                    {
                        &&& hybrid_sealed(n, e, data@, payload@, encrypted_key, nonce)
                        &&& tag_views(all_tags@) == tag_views(tags@) + encryption_tags(
                            encrypted_key,
                            nonce,
                        )
                    },
            },
            Err(e) => e is Encryption,
        },
        match options {
            Some(o) => match o.encrypt_with_rsa {
                Some(der) => {
                    &&& res is Ok <==> (pkcs1_der_rsa_public_key(der@) matches Some((n, e))
                        && data@.len() <= 0x10_0000_0000 && 98 <= strip_leading_zeros(n).len())
                    &&& res matches Ok((p, t)) ==> {
                        &&& pkcs1_der_rsa_public_key(der@) is Some
                        &&& p@.len() == data@.len() + 16
                        &&& t@.len() == tags@.len() + 3
                        &&& forall|i: int| 0 <= i < tags@.len() ==> t@[i] == tags@[i]
                        &&& exists|key: Seq<u8>, nonce: Seq<u8>|
                            {
                                &&& key.len() == 32
                                &&& nonce.len() == 12
                                &&& #[trigger] aes256gcm_sealed(key, nonce, data@) == p@
                                &&& aes256gcm_opened(key, nonce, p@) == Some(data@)
                                &&& t@[tags@.len() + 1int]@ == (TagView {
                                    name: "Nonce"@,
                                    value: base64url(nonce),
                                })
                            }
                    }
                },
                None => res matches Ok((p, t)) && p@ == data@ && t@ == tags@,
            },
            None => res matches Ok((p, t)) && p@ == data@ && t@ == tags@,
        },
{
    let mut payload = vstd::slice::slice_to_vec(data);
    let mut tags = tags;
    let ghost given_tags = tag_views(tags@);

    if let Some(opts) = options {
        if let Some(rsa_pub_bytes) = opts.encrypt_with_rsa {
            let rsa_pub = match rsa_public_key_from_pkcs1_der(&rsa_pub_bytes) {
                Ok(key) => key,
                Err(m) => return Err(Error::Encryption(m)),
            };
            let (encrypted_data, encrypted_key, nonce) = match encrypt_payload(data, &rsa_pub) {
                Ok(r) => r,
                Err(e) => return Err(e),
            };
            payload = encrypted_data;
            let t1 = Tag::new("Encrypted-Key", base64url_encode(&encrypted_key).as_str());
            let t2 = Tag::new("Nonce", base64url_encode(&nonce).as_str());
            let t3 = Tag::new("Encryption-Algorithm", ENCRYPTION_ALGORITHM);
            tags.push(t1);
            tags.push(t2);
            tags.push(t3);
            proof {
                assert(tag_views(tags@) =~= given_tags + encryption_tags(encrypted_key@, nonce@));
            }
        }
    }
    Ok((payload, tags))
}

/// Builds and signs the data item that `send_message` submits: addressed to
/// `process_id`, with the data and tags given (see `message_payload`).
pub fn prepare_message(
    signer: &ARSigner,
    process_id: &str,
    data: Vec<u8>,
    tags: Vec<Tag>,
    anchor: Option<&[u8]>,
) -> (res: Result<DataItem>)
    requires
        signer@.public_key.len() >= MIN_SIGNING_MODULUS_SIZE,
    ensures
        match res {
            Ok(item) => {
                let unsigned = unsigned_item(
                    process_id@,
                    data@,
                    tag_views(tags@),
                    anchor_bytes(anchor),
                );
                &&& is_signed_by(unsigned, signer@.public_key, item@)
                &&& item@.signature.len() == signer@.public_key.len()
                &&& item@.anchor.len() == match anchor {
                    Some(a) => if a@.len() > 32 {
                        32
                    } else {
                        a@.len()
                    },
                    None => 0,
                }
                &&& anchor matches Some(a) ==> forall|i: int|
                    0 <= i < item@.anchor.len() ==> item@.anchor[i] == a@[i]
                &&& item@.data == data@
                &&& item@.owner == signer@.public_key
                &&& item@.target == process_id@
                &&& signer@.key.sound() ==> item@.signature == rsa_pkcs1v15_sha256_signature(signer@.key.n, signer@.key.e, signer@.key.d, signer@.key.p, signer@.key.q, unsigned.signature_data())
            },
            Err(e) => e is Signing,
        },
        signer@.key.sound() ==> res is Ok,
{
    let anchor_slice: &[u8] = match anchor {
        Some(a) => a,
        None => &[],
    };
    let anchor_vec = vstd::slice::slice_to_vec(anchor_slice);
    assert(anchor_vec@ == anchor_bytes(anchor));
    let mut di = DataItem::new(String::from_str(process_id), data, tags, anchor_vec);
    match di.sign(signer) {
        Ok(()) => Ok(di),
        Err(e) => Err(e),
    }
}

/// Builds and signs the data item that `spawn_process` submits: no target,
/// the tags given followed by `Type: Process`, the module and the
/// scheduler (the default one when none is named).
pub fn prepare_spawn(
    signer: &ARSigner,
    module_tx_id: &str,
    data: &[u8],
    tags: Vec<Tag>,
    anchor: Option<&[u8]>,
    scheduler: Option<&str>,
) -> (res: Result<DataItem>)
    requires
        signer@.public_key.len() >= MIN_SIGNING_MODULUS_SIZE,
    ensures
        match res {
            Ok(item) => {
                let unsigned = unsigned_item(
                    Seq::<char>::empty(),
                    data@,
                    tag_views(tags@) + spawn_tags(
                        module_tx_id@,
                        match scheduler {
                            Some(s) => s@,
                            None => DEFAULT_SCHEDULER@,
                        },
                    ),
                    anchor_bytes(anchor),
                );
                &&& is_signed_by(unsigned, signer@.public_key, item@)
                &&& item@.signature.len() == signer@.public_key.len()
                &&& item@.anchor.len() == match anchor {
                    Some(a) => if a@.len() > 32 {
                        32
                    } else {
                        a@.len()
                    },
                    None => 0,
                }
                &&& anchor matches Some(a) ==> forall|i: int|
                    0 <= i < item@.anchor.len() ==> item@.anchor[i] == a@[i]
                &&& item@.data == data@
                &&& item@.owner == signer@.public_key
                &&& item@.target.len() == 0
                &&& signer@.key.sound() ==> item@.signature == rsa_pkcs1v15_sha256_signature(signer@.key.n, signer@.key.e, signer@.key.d, signer@.key.p, signer@.key.q, unsigned.signature_data())
            },
            Err(e) => e is Signing,
        },
        signer@.key.sound() ==> res is Ok,
{
    let mut spawn = tags;
    let ghost given = tag_views(spawn@);
    spawn.push(Tag::new("Type", "Process"));
    spawn.push(Tag::new("Module", module_tx_id));
    let chosen: &str = match scheduler {
        Some(s) => s,
        None => DEFAULT_SCHEDULER,
    };
    spawn.push(Tag::new("Scheduler", chosen));
    proof {
        assert(tag_views(spawn@) =~= given + spawn_tags(module_tx_id@, chosen@));
    }
    let anchor_slice: &[u8] = match anchor {
        Some(a) => a,
        None => &[],
    };
    let anchor_vec = vstd::slice::slice_to_vec(anchor_slice);
    assert(anchor_vec@ == anchor_bytes(anchor));
    let data_vec = vstd::slice::slice_to_vec(data);
    let mut di = DataItem::new(String::new(), data_vec, spawn, anchor_vec);
    match di.sign(signer) {
        Ok(()) => {},
        Err(e) => return Err(e),
    }
    Ok(di)
}

/// What a dry run sends: the process, the owner, the anchor and data in
/// base64url, and the tags.
pub struct DryRunRequest {
    pub target: String,
    pub owner: String,
    pub anchor: String,
    pub data: String,
    pub tags: Vec<Tag>,
}

/// The request of `dry_run`: the owner is the signer's address unless one
/// is given, the anchor is empty unless one is given.
pub fn dry_run_request(
    signer: &ARSigner,
    process_id: &str,
    data: &[u8],
    tags: Vec<Tag>,
    anchor: Option<&[u8]>,
    owner: Option<&str>,
) -> (req: DryRunRequest)
    ensures
        req.target@ == process_id@,
        req.owner@ == match owner {
            Some(o) => o@,
            None => signer@.address,
        },
        req.anchor@ == match anchor {
            Some(a) => base64url(a@),
            None => Seq::<char>::empty(),
        },
        req.data@ == base64url(data@),
        tag_views(req.tags@) == tag_views(tags@),
{
    let owner: &str = match owner {
        Some(o) => o,
        None => signer.address(),
    };
    let anchor = match anchor {
        Some(a) => base64url_encode(a),
        None => String::new(),
    };
    DryRunRequest {
        target: String::from_str(process_id),
        owner: String::from_str(owner),
        anchor,
        data: base64url_encode(data),
        tags,
    }
}

/// Where messages are submitted.
pub fn submit_url(mu: &str) -> (url: String)
    ensures
        url@ == mu@ + "/submit"@,
{
    String::from_str(mu).concat("/submit")
}

/// Where a dry run is posted.
pub fn dry_run_url(cu: &str, process_id: &str) -> (url: String)
    ensures
        url@ == cu@ + "/dry-run?process-id="@ + process_id@,
{
    String::from_str(cu).concat("/dry-run?process-id=").concat(process_id)
}

/// Where computed state is read.
pub fn compute_url(gateway: &str, process_id: &str, path: &str) -> (url: String)
    ensures
        url@ == gateway@ + "/"@ + process_id@ + "/compute/"@ + path@,
{
    String::from_str(gateway).concat("/").concat(process_id).concat("/compute/").concat(path)
}

/// Where the result of a message is read.
pub fn result_url(cu: &str, message_id: &str, process_id: &str) -> (url: String)
    ensures
        url@ == cu@ + "/result/"@ + message_id@ + "?process-id="@ + process_id@,
{
    String::from_str(cu).concat("/result/").concat(message_id).concat("?process-id=").concat(
        process_id,
    )
}

/// What to do with an answer while waiting for a result.
pub enum PollStep {
    /// The result is there.
    Done,
    /// Not yet: ask again.
    Wait,
    /// The server refused.
    Fail,
}

/// A success status gives the result, 404 means not yet, anything else is
/// an error.
pub fn poll_step(status: u16) -> (step: PollStep)
    ensures
        step == (if 200 <= status < 300 {
            PollStep::Done
        } else if status == 404 {
            PollStep::Wait
        } else {
            PollStep::Fail
        }),
{
    if 200 <= status && status < 300 {
        PollStep::Done
    } else if status == 404 {
        PollStep::Wait
    } else {
        PollStep::Fail
    }
}

/// Computed state as text: the bytes when they are UTF-8, else an error.
pub fn compute_text(bytes: Vec<u8>) -> (res: Result<String>)
    ensures
        res is Ok <==> vstd::utf8::valid_utf8(bytes@),
        match res {
            Ok(s) => encode_utf8(s@) == bytes@,
            Err(e) => e is Other,
        },
{
    match utf8_string(bytes) {
        Ok(s) => Ok(s),
        Err(m) => Err(Error::Other(m)),
    }
}

} // verus!
