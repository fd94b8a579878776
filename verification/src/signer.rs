use crate::crypto::{
    be_value, modulus_size, rsa_components_valid, rsa_pkcs1v15_sha256_signature, MIN_SIGNING_MODULUS_SIZE, rsa_sign_pkcs1v15_sha256, strip_leading_zeros,
    PrivateKey, RsaKeyView,
};
use crate::error::{Error, Result};
use crate::utils::{base64url, base64url_decode, lemma_base64url_injective, sha256, sha256_digest};
use vstd::prelude::*;

verus! {

/// The text of `text` as JSON, read as `serde_json` reads it, then the
/// member `key` of it if that is a string: `None` when the text is not
/// JSON, `Some(None)` when there is no such string member.
pub uninterp spec fn json_string_member(text: Seq<char>, key: Seq<char>) -> Option<
    Option<Seq<char>>,
>;

/// The text of an optional string.
pub open spec fn opt_text(o: Option<String>) -> Option<Seq<char>> {
    match o {
        Some(s) => Some(s@),
        None => None,
    }
}

/// The character of the Bitcoin base58 alphabet for the digit `v`.
pub open spec fn base58_char(v: nat) -> char {
    if v < 9 {
        (49 + v) as char
    } else if v < 17 {
        (65 + (v - 9)) as char
    } else if v < 22 {
        (74 + (v - 17)) as char
    } else if v < 33 {
        (80 + (v - 22)) as char
    } else if v < 44 {
        (97 + (v - 33)) as char
    } else {
        (109 + (v - 44)) as char
    }
}

/// The base58 digits of `v`, most significant first, none for zero.
pub open spec fn base58_digits(v: nat) -> Seq<char>
    decreases v,
{
    if v == 0 {
        seq![]
    } else {
        base58_digits(v / 58).push(base58_char(v % 58))
    }
}

/// How many zero bytes `b` starts with.
pub open spec fn leading_zero_count(b: Seq<u8>) -> nat
    decreases b.len(),
{
    if b.len() > 0 && b[0] == 0 {
        1 + leading_zero_count(b.drop_first())
    } else {
        0
    }
}

/// Base58 text: a `1` for each leading zero byte, then the base58 digits
/// of the number the bytes stand for.
pub open spec fn base58(b: Seq<u8>) -> Seq<char> {
    Seq::new(leading_zero_count(b), |i: int| '1') + base58_digits(be_value(b))
}

/// Reads the string member `field` of the JSON text `jwk`.
///
/// Trusted: calls `serde_json::from_str` for a `serde_json::Value`, then
/// indexes it by `field` and takes `as_str`; the outcome is named by
/// `json_string_member`. The parser's error comes back as its message.
#[verifier::external_body]
fn jwk_string_field(jwk: &str, field: &str) -> (res: core::result::Result<Option<String>, String>)
    ensures
        res is Err <==> json_string_member(jwk@, field@) is None,
        res matches Ok(o) ==> json_string_member(jwk@, field@) == Some(opt_text(o)),
{
    let v: serde_json::Value = match serde_json::from_str(jwk) {
        Ok(v) => v,
        Err(e) => return Err(e.to_string()),
    };
    match v[field].as_str() {
        Some(s) => Ok(Some(s.to_string())),
        None => Ok(None),
    }
}

/// The message of a base64 decoding error.
///
/// Trusted: calls `ToString::to_string` on `base64::DecodeError`; nothing
/// is stated of the text.
#[verifier::external_body]
fn decode_error_text(e: &base64::DecodeError) -> String {
    e.to_string()
}

/// Base58 text of bytes.
///
/// Trusted: calls `base58::ToBase58::to_base58`, which writes a `1` for
/// each leading zero byte and then the base58 digits of the number, as
/// `base58` spells out.
#[verifier::external_body]
fn base58_encode(data: &[u8]) -> (res: String)
    ensures
        res@ == base58(data@),
{
    base58::ToBase58::to_base58(data)
}

/// What reading one key field of a JWK gives.
pub enum JwkField {
    /// The text is not JSON.
    NotJson,
    /// There is no string member of that name.
    Missing,
    /// The member is not base64url.
    NotBase64,
    /// The bytes the member encodes.
    Bytes(Seq<u8>),
}

/// What reading the key field `field` of the JWK text `jwk` gives.
pub open spec fn jwk_field(jwk: Seq<char>, field: Seq<char>) -> JwkField {
    match json_string_member(jwk, field) {
        None => JwkField::NotJson,
        Some(None) => JwkField::Missing,
        Some(Some(text)) => if exists|b: Seq<u8>| base64url(b) == text {
            JwkField::Bytes(choose|b: Seq<u8>| base64url(b) == text)
        } else {
            JwkField::NotBase64
        },
    }
}

/// An Arweave wallet: an RSA key, its modulus as the public key, and the
/// address derived from it.
pub struct ARSigner {
    private_key: PrivateKey,
    public_key: Vec<u8>,
    address: String,
}

/// What a signer shows: its key, its public key (the RSA modulus,
/// big-endian, without leading zeros) and its address.
pub struct SignerView {
    pub key: RsaKeyView,
    pub public_key: Seq<u8>,
    pub address: Seq<char>,
}

impl ARSigner {
    /// The public key is the modulus of the key, and the address is the one
    /// derived from it; neither is empty.
    #[verifier::type_invariant]
    closed spec fn keys_agree(self) -> bool {
        &&& self.public_key@ == self.private_key@.n
        &&& modulus_size(self.private_key@.n) == self.public_key@.len()
        &&& self.address@ == address_of(self.public_key@)
        &&& self.public_key@.len() > 0
        &&& self.address@.len() > 0
        &&& forall|i: int|
            0 <= i < self.address@.len() ==> is_ascii_alphanumeric(#[trigger] self.address@[i])
    }
}

impl Clone for ARSigner {
    fn clone(&self) -> (res: Self)
        ensures
            res@ == self@,
    {
        proof {
            use_type_invariant(self);
        }
        let public_key = self.public_key.clone();
        assert(public_key@ =~= self.public_key@);
        Self {
            private_key: self.private_key.clone(),
            public_key,
            address: self.address.clone(),
        }
    }
}

impl View for ARSigner {
    type V = SignerView;

    closed spec fn view(&self) -> SignerView {
        SignerView { key: self.private_key@, public_key: self.public_key@, address: self.address@ }
    }
}

/// The address of a public key: base58 of the SHA-256 digest of the
/// modulus.
pub open spec fn address_of(public_key: Seq<u8>) -> Seq<char> {
    base58(sha256_digest(public_key))
}

fn decode_jwk_field(jwk: &str, field: &str) -> (res: Result<Vec<u8>>)
    ensures
        match jwk_field(jwk@, field@) {
            JwkField::NotJson => res matches Err(Error::Json(_)),
            JwkField::Missing => res matches Err(Error::InvalidWallet(m)) && m@ == "missing "@
                + field@,
            JwkField::NotBase64 => res matches Err(Error::InvalidWallet(_)),
            JwkField::Bytes(b) => res matches Ok(v) && v@ == b,
        },
{
    let s = match jwk_string_field(jwk, field) {
        Ok(Some(s)) => s,
        Ok(None) => {
            let msg = String::from_str("missing ").concat(field);
            return Err(Error::InvalidWallet(msg));
        },
        Err(m) => return Err(Error::Json(m)),
    };
    match base64url_decode(s.as_str()) {
        Ok(bytes) => {
            proof {
                lemma_base64url_injective(bytes@, choose|b: Seq<u8>| base64url(b) == s@);
            }
            Ok(bytes)
        },
        Err(e) => Err(Error::InvalidWallet(decode_error_text(&e))),
    }
}

impl ARSigner {
    pub fn from_jwk(jwk: &str) -> (res: Result<Self>)
        ensures
            ({
                let n = jwk_field(jwk@, "n"@);
                let e = jwk_field(jwk@, "e"@);
                let d = jwk_field(jwk@, "d"@);
                let p = jwk_field(jwk@, "p"@);
                let q = jwk_field(jwk@, "q"@);
                match (n, e, d, p, q) {
                    (
                        JwkField::Bytes(n),
                        JwkField::Bytes(e),
                        JwkField::Bytes(d),
                        JwkField::Bytes(p),
                        JwkField::Bytes(q),
                    ) => if rsa_components_valid(n, e, d, p, q) {
                        res matches Ok(signer) && signer@.key == (RsaKeyView {
                            n: strip_leading_zeros(n),
                            e,
                            d,
                            p,
                            q,
                        }) && signer@.public_key == strip_leading_zeros(n) && signer@.address
                            == address_of(signer@.public_key)
                    } else {
                        res matches Err(Error::InvalidWallet(_))
                    },
                    _ => first_jwk_error(
                        seq![("n"@, n), ("e"@, e), ("d"@, d), ("p"@, p), ("q"@, q)],
                        res,
                    ),
                }
            }),
    {
        proof {
            reveal_with_fuel(first_jwk_error, 6);
        }
        let n = match decode_jwk_field(jwk, "n") {
            Ok(b) => b,
            Err(err) => return Err(err),
        };
        let e = match decode_jwk_field(jwk, "e") {
            Ok(b) => b,
            Err(err) => return Err(err),
        };
        let d = match decode_jwk_field(jwk, "d") {
            Ok(b) => b,
            Err(err) => return Err(err),
        };
        let p = match decode_jwk_field(jwk, "p") {
            Ok(b) => b,
            Err(err) => return Err(err),
        };
        let q = match decode_jwk_field(jwk, "q") {
            Ok(b) => b,
            Err(err) => return Err(err),
        };
        let private_key = match PrivateKey::from_components(&n, &e, &d, &p, &q) {
            Ok(k) => k,
            Err(m) => return Err(Error::InvalidWallet(m)),
        };
        let pub_modulus = private_key.to_public_key();
        let hash = sha256(&pub_modulus);
        let address = base58_encode(&hash);
        proof {
            lemma_base58_alphanumeric(hash@);
            lemma_base58_nonempty(hash@);
        }
        Ok(Self { private_key, public_key: pub_modulus, address })
    }

    /// Signs `data` (RSASSA-PKCS1-v1_5 over SHA-256, no digest prefix); the
    /// public key must be at least 43 bytes, room for the padded digest.
    /// With a true key the signature is made, and it is the one PKCS#1 v1.5
    /// signature of `data` under the key; a key whose primes are not prime
    /// may be refused.
    pub fn sign(&self, data: &[u8]) -> (res: Result<Vec<u8>>)
        requires
            self@.public_key.len() >= MIN_SIGNING_MODULUS_SIZE,
        ensures
            match res {
                Ok(sig) => {
                    &&& sig@.len() == self@.public_key.len()
                    &&& self@.key.sound() ==> sig@ == rsa_pkcs1v15_sha256_signature(self@.key.n, self@.key.e, self@.key.d, self@.key.p, self@.key.q, data@)
                },
                Err(e) => e is Signing,
            },
            self@.key.sound() ==> res is Ok,
    {
        proof {
            use_type_invariant(self);
        }
        match rsa_sign_pkcs1v15_sha256(&self.private_key, data) {
            Ok(sig) => Ok(sig),
            Err(m) => Err(Error::Signing(m)),
        }
    }

    pub fn public_key(&self) -> (res: &[u8])
        ensures
            res@ == self@.public_key,
            res@.len() > 0,
    {
        proof {
            use_type_invariant(self);
        }
        self.public_key.as_slice()
    }

    pub fn address(&self) -> (res: &str)
        ensures
            res@ == self@.address,
            res@ == address_of(self@.public_key),
            res@.len() > 0,
            forall|i: int| 0 <= i < res@.len() ==> is_ascii_alphanumeric(#[trigger] res@[i]),
    {
        proof {
            use_type_invariant(self);
        }
        self.address.as_str()
    }
}

/// The error that the first field that cannot be read gives.
pub open spec fn first_jwk_error(fields: Seq<(Seq<char>, JwkField)>, res: Result<ARSigner>) -> bool
    decreases fields.len(),
{
    if fields.len() == 0 {
        true
    } else {
        match fields[0].1 {
            JwkField::Bytes(_) => first_jwk_error(fields.drop_first(), res),
            JwkField::NotJson => res matches Err(Error::Json(_)),
            JwkField::Missing => res matches Err(Error::InvalidWallet(m)) && m@ == "missing "@
                + fields[0].0,
            JwkField::NotBase64 => res matches Err(Error::InvalidWallet(_)),
        }
    }
}

/// Whether `c` is an ASCII letter or digit.
pub open spec fn is_ascii_alphanumeric(c: char) -> bool {
    ('a' <= c <= 'z') || ('A' <= c <= 'Z') || ('0' <= c <= '9')
}

proof fn lemma_base58_digits_alphanumeric(v: nat)
    ensures
        forall|i: int|
            0 <= i < base58_digits(v).len() ==> is_ascii_alphanumeric(
                #[trigger] base58_digits(v)[i],
            ),
    decreases v,
{
    if v > 0 {
        lemma_base58_digits_alphanumeric(v / 58);
        assert(is_ascii_alphanumeric(base58_char(v % 58)));
        assert forall|i: int| 0 <= i < base58_digits(v).len() implies is_ascii_alphanumeric(
            #[trigger] base58_digits(v)[i],
        ) by {
            if i < base58_digits(v / 58).len() {
                assert(base58_digits(v)[i] == base58_digits(v / 58)[i]);
            }
        }
    }
}

/// Base58 text, and so every address, is made of ASCII letters and digits.
pub proof fn lemma_base58_alphanumeric(b: Seq<u8>)
    ensures
        forall|i: int| 0 <= i < base58(b).len() ==> is_ascii_alphanumeric(#[trigger] base58(b)[i]),
{
    lemma_base58_digits_alphanumeric(be_value(b));
    let ones = Seq::new(leading_zero_count(b), |i: int| '1');
    assert forall|i: int| 0 <= i < base58(b).len() implies is_ascii_alphanumeric(
        #[trigger] base58(b)[i],
    ) by {
        if i >= ones.len() {
            assert(base58(b)[i] == base58_digits(be_value(b))[i - ones.len()]);
        }
    }
}

/// Base58 text of bytes that are not all gone is not empty: the digest of a
/// key gives a non-empty address.
pub proof fn lemma_base58_nonempty(b: Seq<u8>)
    requires
        b.len() > 0,
    ensures
        base58(b).len() > 0,
    decreases b.len(),
{
    if b[0] != 0 {
        lemma_be_value_positive(b);
    }
}

proof fn lemma_be_value_positive(b: Seq<u8>)
    requires
        b.len() > 0,
        b[0] != 0,
    ensures
        be_value(b) > 0,
    decreases b.len(),
{
    if b.len() > 1 {
        assert(b.drop_last()[0] == b[0]);
        lemma_be_value_positive(b.drop_last());
    }
}

} // verus!
