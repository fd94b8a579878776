use vstd::arithmetic::div_mod::{lemma_mod_multiples_vanish, lemma_small_mod};
use vstd::arithmetic::power2::{lemma2_to64, lemma_pow2_adds, pow2};
use vstd::bits::{lemma_u64_shl_is_mul, lemma_u64_shr_is_div};
use base64::engine::general_purpose::URL_SAFE_NO_PAD;
use base64::Engine;
use sha2::{Digest, Sha256};
use vstd::prelude::*;

verus! {

/// The character of the URL-safe base64 alphabet (RFC 4648, section 5)
/// for the six-bit value `v`.
pub open spec fn base64url_char(v: int) -> char {
    if v < 26 {
        (65 + v) as char
    } else if v < 52 {
        (97 + (v - 26)) as char
    } else if v < 62 {
        (48 + (v - 52)) as char
    } else if v == 62 {
        '-'
    } else {
        '_'
    }
}

/// URL-safe base64 without padding: each three bytes become four
/// characters, a final one or two bytes become two or three characters.
pub open spec fn base64url(data: Seq<u8>) -> Seq<char>
    decreases data.len(),
{
    let b0 = data[0] as int;
    let b1 = data[1] as int;
    let b2 = data[2] as int;
    if data.len() == 0 {
        seq![]
    } else if data.len() == 1 {
        seq![base64url_char(b0 / 4), base64url_char((b0 % 4) * 16)]
    } else if data.len() == 2 {
        seq![
            base64url_char(b0 / 4),
            base64url_char((b0 % 4) * 16 + b1 / 16),
            base64url_char((b1 % 16) * 4),
        ]
    } else {
        seq![
            base64url_char(b0 / 4),
            base64url_char((b0 % 4) * 16 + b1 / 16),
            base64url_char((b1 % 16) * 4 + b2 / 64),
            base64url_char(b2 % 64),
        ] + base64url(data.skip(3))
    }
}

/// Whether `c` is a character of the URL-safe base64 alphabet.
pub open spec fn is_base64url_char(c: char) -> bool {
    ('A' <= c <= 'Z') || ('a' <= c <= 'z') || ('0' <= c <= '9') || c == '-' || c == '_'
}

/// The SHA-256 digest of `data`.
pub uninterp spec fn sha256_digest(data: Seq<u8>) -> Seq<u8>;

/// Encode bytes to base64url (no padding).
///
/// Trusted: calls `base64`'s `URL_SAFE_NO_PAD.encode`, taken to give the
/// RFC 4648 URL-safe alphabet without `=` padding, as `base64url` spells out.
#[verifier::external_body]
pub fn base64url_encode(data: &[u8]) -> (res: String)
    ensures
        res@ == base64url(data@),
{
    URL_SAFE_NO_PAD.encode(data)
}

/// Decode a base64url string to bytes (handles missing padding).
///
/// Trusted: calls `base64`'s `URL_SAFE_NO_PAD.decode`. That engine refuses
/// padding, foreign characters, a length of one more than a multiple of four
/// and non-zero trailing bits, so it accepts exactly the texts that its
/// encoder produces, and gives back the bytes they encode. What the error
/// says is not stated.
#[verifier::external_body]
pub fn base64url_decode(s: &str) -> (res: Result<Vec<u8>, base64::DecodeError>)
    ensures
        res is Ok <==> exists|b: Seq<u8>| base64url(b) == s@,
        res matches Ok(v) ==> base64url(v@) == s@,
{
    URL_SAFE_NO_PAD.decode(s)
}

/// SHA-256 hash.
///
/// Trusted: calls `sha2::Sha256::digest`; the result is the digest of the
/// bytes, 32 bytes long.
#[verifier::external_body]
pub fn sha256(data: &[u8]) -> (res: Vec<u8>)
    ensures
        res@ == sha256_digest(data@),
        res@.len() == 32,
{
    Sha256::digest(data).to_vec()
}

/// Base64url output uses only the URL-safe alphabet, so never `=`, and is
/// `4 * (n / 3)` characters plus two or three for a remainder of one or two.
pub proof fn lemma_base64url_shape(data: Seq<u8>)
    ensures
        forall|i: int| 0 <= i < base64url(data).len() ==> is_base64url_char(#[trigger] base64url(data)[i]),
        base64url(data).len() == 4 * (data.len() / 3) + (if data.len() % 3 == 0 {
            0
        } else {
            data.len() % 3 + 1
        }) as int,
    decreases data.len(),
{
    if data.len() >= 3 {
        lemma_base64url_shape(data.skip(3));
    }
    assert forall|v: int| 0 <= v < 64 implies is_base64url_char(#[trigger] base64url_char(v)) by {}
    let out = base64url(data);
    assert forall|i: int| 0 <= i < out.len() implies is_base64url_char(#[trigger] out[i]) by {
        if data.len() >= 3 && i >= 4 {
            assert(out[i] == base64url(data.skip(3))[i - 4]);
        }
    }
}

proof fn lemma_base64url_char_injective(u: int, v: int)
    requires
        0 <= u < 64,
        0 <= v < 64,
        base64url_char(u) == base64url_char(v),
    ensures
        u == v,
{
    assert((base64url_char(u) as int) == (base64url_char(v) as int));
}

proof fn lemma_base64url_len_injective(m: nat, n: nat)
    requires
        4 * (m / 3) + (if m % 3 == 0 {
            0
        } else {
            m % 3 + 1
        }) as int == 4 * (n / 3) + (if n % 3 == 0 {
            0
        } else {
            n % 3 + 1
        }) as int,
    ensures
        m == n,
{
}

/// Different bytes have different base64url texts, so decoding gives back
/// exactly the bytes that were encoded.
pub proof fn lemma_base64url_injective(a: Seq<u8>, b: Seq<u8>)
    requires
        base64url(a) == base64url(b),
    ensures
        a == b,
    decreases a.len(),
{
    lemma_base64url_shape(a);
    lemma_base64url_shape(b);
    lemma_base64url_len_injective(a.len(), b.len());
    let ea = base64url(a);
    let eb = base64url(b);
    if a.len() >= 1 {
        assert(ea[0] == eb[0] && ea[1] == eb[1]);
        lemma_base64url_char_injective(a[0] as int / 4, b[0] as int / 4);
    }
    if a.len() == 1 {
        lemma_base64url_char_injective((a[0] as int % 4) * 16, (b[0] as int % 4) * 16);
        assert(a =~= b);
    } else if a.len() >= 2 {
        assert(ea[2] == eb[2]);
        lemma_base64url_char_injective(
            (a[0] as int % 4) * 16 + a[1] as int / 16,
            (b[0] as int % 4) * 16 + b[1] as int / 16,
        );
        if a.len() == 2 {
            lemma_base64url_char_injective((a[1] as int % 16) * 4, (b[1] as int % 16) * 4);
            assert(a =~= b);
        } else {
            assert(ea[3] == eb[3]);
            lemma_base64url_char_injective(
                (a[1] as int % 16) * 4 + a[2] as int / 64,
                (b[1] as int % 16) * 4 + b[2] as int / 64,
            );
            lemma_base64url_char_injective(a[2] as int % 64, b[2] as int % 64);
            assert(ea.skip(4) =~= base64url(a.skip(3)));
            assert(eb.skip(4) =~= base64url(b.skip(3)));
            lemma_base64url_injective(a.skip(3), b.skip(3));
            assert(a =~= b) by {
                assert forall|i: int| 0 <= i < a.len() implies a[i] == b[i] by {
                    if i >= 3 {
                        assert(a[i] == a.skip(3)[i - 3]);
                        assert(b[i] == b.skip(3)[i - 3]);
                    }
                }
            }
        }
    }
}

/// Decoding what `base64url_encode` gave succeeds and gives back exactly
/// the bytes that were encoded.
pub proof fn lemma_base64url_decode_encoded(b: Seq<u8>)
    ensures
        exists|x: Seq<u8>| #[trigger] base64url(x) == base64url(b),
        forall|x: Seq<u8>| #[trigger] base64url(x) == base64url(b) ==> x == b,
{
    assert forall|x: Seq<u8>| #[trigger] base64url(x) == base64url(b) implies x == b by {
        lemma_base64url_injective(x, b);
    }
    assert(base64url(b) == base64url(b));
}

/// 128 to the power `k`.
pub open spec fn pow128(k: nat) -> nat
    decreases k,
{
    if k == 0 {
        1
    } else {
        128 * pow128((k - 1) as nat)
    }
}

/// The LEB128 encoding of `v`: seven bits per byte, least significant group
/// first, the high bit set on every byte but the last.
pub open spec fn varint_bytes(v: nat) -> Seq<u8>
    decreases v,
{
    if v < 128 {
        seq![v as u8]
    } else {
        seq![(v % 128 + 128) as u8] + varint_bytes(v / 128)
    }
}

/// The number that a run of LEB128 groups stands for: the low seven bits of
/// each byte, least significant group first.
pub open spec fn varint_value(groups: Seq<u8>) -> nat
    decreases groups.len(),
{
    if groups.len() == 0 {
        0
    } else {
        (groups[0] % 128) as nat + 128 * varint_value(groups.drop_first())
    }
}

/// Why a varint could not be read.
pub enum VarintError {
    /// The data ended before a byte without the continuation bit.
    UnexpectedEnd,
    /// Ten bytes carried the continuation bit: more than 64 bits.
    TooLong,
}

/// How many bytes the varint at `pos` takes, looking at byte `k` of it (at
/// most ten bytes are looked at).
pub open spec fn varint_extent(s: Seq<u8>, pos: int, k: int) -> Result<int, VarintError>
    decreases 10 - k,
{
    if pos + k >= s.len() {
        Err(VarintError::UnexpectedEnd)
    } else if s[pos + k] < 128 {
        Ok(k + 1)
    } else if k >= 9 {
        Err(VarintError::TooLong)
    } else {
        varint_extent(s, pos, k + 1)
    }
}

/// What reading a varint at `pos` of `s` gives: the value, kept to its low
/// 64 bits, and the position just after it.
pub open spec fn read_varint_spec(s: Seq<u8>, pos: int) -> Result<(u64, int), VarintError> {
    match varint_extent(s, pos, 0) {
        Ok(n) => Ok(
            (
                (varint_value(s.subrange(pos, pos + n)) % 0x1_0000_0000_0000_0000) as u64,
                pos + n,
            ),
        ),
        Err(e) => Err(e),
    }
}

/// The message that `read_varint` gives for an error.
pub open spec fn varint_error_message(e: VarintError) -> Seq<char> {
    match e {
        VarintError::UnexpectedEnd => "unexpected end of data"@,
        VarintError::TooLong => "varint too long"@,
    }
}

/// A varint that is read ends after its first byte and within the data.
pub proof fn lemma_varint_extent_bounds(s: Seq<u8>, pos: int, k: int)
    requires
        0 <= pos,
        0 <= k <= 9,
    ensures
        varint_extent(s, pos, k) matches Ok(n) ==> k < n <= 10 && pos + n <= s.len(),
    decreases 10 - k,
{
    if pos + k < s.len() && s[pos + k] >= 128 && k < 9 {
        lemma_varint_extent_bounds(s, pos, k + 1);
    }
}

/// A varint read at `pos` ends after `pos` and within the data.
pub proof fn lemma_read_varint_bounds(s: Seq<u8>, pos: int)
    requires
        0 <= pos,
    ensures
        read_varint_spec(s, pos) matches Ok((v, p)) ==> pos < p <= s.len() && p <= pos + 10,
{
    lemma_varint_extent_bounds(s, pos, 0);
}

/// Converts bytes to a `String` when they are UTF-8.
///
/// Trusted: calls `String::from_utf8`, which fails exactly when the bytes
/// are not valid UTF-8 and otherwise keeps the bytes as the string's
/// contents. The error comes back as its message.
#[verifier::external_body]
pub fn utf8_string(bytes: Vec<u8>) -> (res: Result<String, String>)
    ensures
        res is Ok <==> vstd::utf8::valid_utf8(bytes@),
        res matches Ok(s) ==> vstd::utf8::encode_utf8(s@) == bytes@,
{
    match String::from_utf8(bytes) {
        Ok(s) => Ok(s),
        Err(e) => Err(e.to_string()),
    }
}

/// A value below `128^k` takes at most `k` bytes.
pub proof fn lemma_varint_len_bound(v: nat, k: nat)
    requires
        k >= 1,
        v < pow128(k),
    ensures
        varint_bytes(v).len() <= k,
    decreases k,
{
    reveal_with_fuel(pow128, 2);
    if v >= 128 {
        assert(k >= 2);
        let p = pow128((k - 1) as nat);
        assert(v / 128 < p) by (nonlinear_arith)
            requires
                v < 128 * p,
        ;
        lemma_varint_len_bound(v / 128, (k - 1) as nat);
    }
}

/// A 64-bit value takes between one and ten bytes.
pub proof fn lemma_varint_len_u64(v: u64)
    ensures
        1 <= varint_bytes(v as nat).len() <= 10,
{
    reveal_with_fuel(pow128, 11);
    assert(pow128(10) == 0x40_0000_0000_0000_0000);
    lemma_varint_len_bound(v as nat, 10);
}

/// `128^k` is `2^(7k)`.
pub proof fn lemma_pow128_pow2(k: nat)
    ensures
        pow128(k) == pow2(7 * k),
    decreases k,
{
    lemma2_to64();
    if k > 0 {
        lemma_pow128_pow2((k - 1) as nat);
        lemma_pow2_adds(7 * (k - 1) as nat, 7);
        assert(7 * k == 7 * (k - 1) as nat + 7) by (nonlinear_arith)
            requires
                k > 0,
        ;
    }
}

/// Appending a group adds its seven bits at the next position.
pub proof fn lemma_varint_value_push(g: Seq<u8>, b: u8)
    ensures
        varint_value(g.push(b)) == varint_value(g) + (b % 128) as nat * pow128(g.len()),
    decreases g.len(),
{
    if g.len() == 0 {
        assert(g.push(b).drop_first() =~= Seq::<u8>::empty());
        reveal_with_fuel(varint_value, 2);
        assert(g.push(b)[0] == b);
        assert(pow128(0) == 1);
        assert(varint_value(g.push(b)) == (b % 128) as nat);
        assert(varint_value(g) == 0);
    } else {
        assert(g.push(b).drop_first() =~= g.drop_first().push(b));
        assert(g.push(b)[0] == g[0]);
        lemma_varint_value_push(g.drop_first(), b);
        let x = (b % 128) as nat;
        let p = pow128((g.len() - 1) as nat);
        let rest = varint_value(g.drop_first());
        assert(pow128(g.len()) == 128 * p);
        assert(128 * (rest + x * p) == 128 * rest + x * (128 * p)) by (nonlinear_arith);
        assert(varint_value(g.push(b).drop_first()) == rest + x * p);
        assert(varint_value(g.push(b)) == (g[0] % 128) as nat + 128 * (rest + x * p));
        assert(varint_value(g) == (g[0] % 128) as nat + 128 * rest);
        assert(x * pow128(g.len()) == x * (128 * p));
    }
}

/// The groups of an encoding stand for the encoded value.
pub proof fn lemma_varint_value_of_bytes(v: nat)
    ensures
        varint_value(varint_bytes(v)) == v,
    decreases v,
{
    if v < 128 {
        assert(varint_bytes(v).drop_first() =~= Seq::<u8>::empty());
        reveal_with_fuel(varint_value, 2);
    } else {
        let s = varint_bytes(v);
        assert(s.drop_first() =~= varint_bytes(v / 128));
        assert(s[0] == (v % 128 + 128) as u8);
        assert(s[0] % 128 == v % 128);
        assert(varint_value(s) == (s[0] % 128) as nat + 128 * varint_value(s.drop_first()));
        lemma_varint_value_of_bytes(v / 128);
        assert(v % 128 + 128 * (v / 128) == v) by (nonlinear_arith);
    }
}

/// Every byte of an encoding but the last carries the continuation bit.
pub proof fn lemma_varint_bytes_shape(v: nat)
    ensures
        varint_bytes(v).len() >= 1,
        varint_bytes(v)[varint_bytes(v).len() - 1] < 128,
        forall|j: int| 0 <= j < varint_bytes(v).len() - 1 ==> varint_bytes(v)[j] >= 128,
    decreases v,
{
    if v >= 128 {
        lemma_varint_bytes_shape(v / 128);
        let rest = varint_bytes(v / 128);
        assert forall|j: int| 0 <= j < varint_bytes(v).len() - 1 implies varint_bytes(v)[j]
            >= 128 by {
            if j > 0 {
                assert(varint_bytes(v)[j] == rest[j - 1]);
            }
        }
    }
}

/// Reading the varint that `write_varint` wrote, wherever it stands, gives
/// back the value and the position just after it.
pub proof fn lemma_read_varint_written(pre: Seq<u8>, v: u64, post: Seq<u8>)
    ensures
        read_varint_spec(pre + varint_bytes(v as nat) + post, pre.len() as int) == Ok::<
            (u64, int),
            VarintError,
        >((v, pre.len() + varint_bytes(v as nat).len() as int)),
{
    let e = varint_bytes(v as nat);
    let s = pre + e + post;
    let p = pre.len() as int;
    let n = e.len() as int;
    lemma_varint_len_u64(v);
    lemma_varint_bytes_shape(v as nat);
    assert forall|j: int| 0 <= j < n implies s[p + j] == e[j] by {}
    lemma_extent_of_written(s, p, e, n - 1);
    assert(s.subrange(p, p + n) =~= e);
    lemma_varint_value_of_bytes(v as nat);
    lemma_small_mod(v as nat, 0x1_0000_0000_0000_0000);
}

proof fn lemma_extent_of_written(s: Seq<u8>, p: int, e: Seq<u8>, k: int)
    requires
        0 <= p,
        1 <= e.len() <= 10,
        0 <= k <= e.len() - 1,
        p + e.len() <= s.len(),
        forall|j: int| 0 <= j < e.len() ==> s[p + j] == e[j],
        e[e.len() - 1] < 128,
        forall|j: int| 0 <= j < e.len() - 1 ==> e[j] >= 128,
    ensures
        varint_extent(s, p, 0) == Ok::<int, VarintError>(e.len() as int),
    decreases k,
{
    // the extent seen from byte k on is the whole encoding
    lemma_extent_from(s, p, e, k);
    if k > 0 {
        lemma_extent_of_written(s, p, e, k - 1);
    }
}

proof fn lemma_extent_from(s: Seq<u8>, p: int, e: Seq<u8>, k: int)
    requires
        0 <= p,
        1 <= e.len() <= 10,
        0 <= k <= e.len() - 1,
        p + e.len() <= s.len(),
        forall|j: int| 0 <= j < e.len() ==> s[p + j] == e[j],
        e[e.len() - 1] < 128,
        forall|j: int| 0 <= j < e.len() - 1 ==> e[j] >= 128,
    ensures
        varint_extent(s, p, k) == Ok::<int, VarintError>(e.len() as int),
    decreases e.len() - k,
{
    assert(s[p + k] == e[k]);
    if k < e.len() - 1 {
        lemma_extent_from(s, p, e, k + 1);
    }
}

/// Write an LEB128 varint to a buffer.
pub fn write_varint(buf: &mut Vec<u8>, value: u64)
    ensures
        final(buf)@ == old(buf)@ + varint_bytes(value as nat),
{
    let ghost initial = value;
    let mut value = value;
    loop
        invariant_except_break
            buf@ + varint_bytes(value as nat) == old(buf)@ + varint_bytes(initial as nat),
        ensures
            buf@ == old(buf)@ + varint_bytes(initial as nat),
        decreases value,
    {
        let ghost before = buf@;
        let ghost v = value;
        let mut byte = (value & 0x7F) as u8;
        assert((v & 0x7F) as u8 == v % 128) by (bit_vector);
        assert(v >> 7 == v / 128) by (bit_vector);
        value >>= 7;
        if value != 0 {
            assert(byte < 128 ==> byte | 0x80 == byte + 128) by (bit_vector);
            byte |= 0x80;
        }
        buf.push(byte);
        if value == 0 {
            assert(buf@ =~= before + varint_bytes(v as nat));
            break;
        }
        assert(varint_bytes(v as nat) =~= seq![byte] + varint_bytes(value as nat));
        assert(buf@ + varint_bytes(value as nat) =~= before + varint_bytes(v as nat));
    }
}

proof fn lemma_or_low_group(value: u64, b: u8, k: nat)
    requires
        k <= 9,
        value < pow128(k),
    ensures
        (value | (((b & 0x7F) as u64) << (7 * k) as u32)) as nat == (value + (b % 128) as nat
            * pow128(k)) % 0x1_0000_0000_0000_0000,
{
    let y = (b & 0x7F) as u64;
    assert(y == b % 128) by (bit_vector)
        requires
            y == (b & 0x7F) as u64,
    ;
    lemma_pow128_pow2(k);
    let s = (7 * k) as u32;
    lemma2_to64();
    if k <= 8 {
        lemma_pow2_adds(7 * k, (64 - 7 * k) as nat);
        assert(pow2(56) == 0x100_0000_0000_0000) by {
            lemma_pow2_adds(28, 28);
            vstd::arithmetic::power2::lemma2_to64_rest();
        }
        if k < 8 {
            vstd::arithmetic::power2::lemma_pow2_strictly_increases(7 * k, 56);
        }
        assert(y * pow2(7 * k) <= 127 * 0x100_0000_0000_0000) by (nonlinear_arith)
            requires
                y <= 127,
                pow2(7 * k) <= 0x100_0000_0000_0000,
        ;
        lemma_u64_shl_is_mul(y, s as u64);
        assert((y << s) == (y << (s as u64)));
        lemma_u64_shr_is_div(value, s as u64);
        assert(value as nat / pow2(7 * k) == 0) by (nonlinear_arith)
            requires
                value < pow2(7 * k),
        ;
        assert(value >> s == 0);
        assert((value >> s) == 0 && s < 64 ==> (value | (y << s)) == value + (y << s))
            by (bit_vector);
        lemma_small_mod((value + (b % 128) as nat * pow128(k)) as nat, 0x1_0000_0000_0000_0000);
    } else {
        vstd::arithmetic::power2::lemma2_to64_rest();
        assert(pow2(63) == 0x8000_0000_0000_0000);
        assert(s == 63);
        assert(value < 0x8000_0000_0000_0000 ==> (value | (y << 63u32)) == value + (y % 2)
            * 0x8000_0000_0000_0000) by (bit_vector);
        let r = (b % 128) as int;
        assert(r * 0x8000_0000_0000_0000 == 0x1_0000_0000_0000_0000 * (r / 2) + (r % 2)
            * 0x8000_0000_0000_0000);
        lemma_mod_multiples_vanish(
            r / 2,
            value + (r % 2) * 0x8000_0000_0000_0000,
            0x1_0000_0000_0000_0000,
        );
        lemma_small_mod(
            (value + (r % 2) * 0x8000_0000_0000_0000) as nat,
            0x1_0000_0000_0000_0000,
        );
    }
}

/// Read an LEB128 varint from a slice, starting at `pos`.
/// Returns (value, new_pos).
pub fn read_varint(data: &[u8], pos: usize) -> (res: Result<(u64, usize), String>)
    ensures
        match read_varint_spec(data@, pos as int) {
            Ok((v, p)) => res matches Ok((v2, p2)) && v2 == v && p2 == p,
            Err(e) => res matches Err(m) && m@ == varint_error_message(e),
        },
{
    if pos >= data.len() {
        return Err(String::from_str("unexpected end of data"));
    }
    let ghost start = pos;
    let mut cur = pos;
    let mut value: u64 = 0;
    let mut shift: u32 = 0;
    assert(data@.subrange(start as int, start as int) =~= Seq::<u8>::empty());
    loop
        invariant_except_break
            start == pos,
            start <= cur <= start + 9,
            cur <= data@.len(),
            shift == 7 * (cur - start),
            value < pow128((cur - start) as nat),
            value as nat == varint_value(data@.subrange(start as int, cur as int)),
            varint_extent(data@, start as int, 0) == varint_extent(
                data@,
                start as int,
                cur - start,
            ),
        ensures
            varint_extent(data@, start as int, 0) == Ok::<int, VarintError>(cur - start),
            start < cur <= data@.len(),
            value as nat == varint_value(data@.subrange(start as int, cur as int))
                % 0x1_0000_0000_0000_0000,
        decreases start + 10 - cur,
    {
        if cur >= data.len() {
            return Err(String::from_str("unexpected end of data"));
        }
        let byte = data[cur];
        let ghost k = (cur - start) as nat;
        let ghost old_value = value;
        proof {
            lemma_or_low_group(value, byte, k);
            lemma_varint_value_push(data@.subrange(start as int, cur as int), byte);
            assert(data@.subrange(start as int, cur + 1) =~= data@.subrange(
                start as int,
                cur as int,
            ).push(byte));
        }
        cur += 1;
        value |= ((byte & 0x7F) as u64) << shift;
        shift += 7;
        if (byte & 0x80) == 0 {
            assert((byte & 0x80) == 0 ==> byte < 128) by (bit_vector);
            break;
        }
        assert((byte & 0x80) != 0 ==> byte >= 128) by (bit_vector);
        if shift >= 64 {
            return Err(String::from_str("varint too long"));
        }
        proof {
            reveal_with_fuel(pow128, 2);
            assert(pow128(k + 1) == 128 * pow128(k));
            lemma_pow128_pow2(k);
            lemma_pow128_pow2(k + 1);
            assert(old_value + (byte % 128) as nat * pow128(k) < pow128(k + 1)) by (nonlinear_arith)
                requires
                    old_value < pow128(k),
                    byte % 128 < 128,
                    pow128(k + 1) == 128 * pow128(k),
            ;
            assert(pow128(k + 1) <= 0x8000_0000_0000_0000) by {
                reveal_with_fuel(pow128, 10);
                assert(k + 1 <= 9);
                lemma_pow128_mono(k + 1, 9);
            }
            lemma_small_mod(
                (old_value + (byte % 128) as nat * pow128(k)) as nat,
                0x1_0000_0000_0000_0000,
            );
        }
    }
    Ok((value, cur))
}

proof fn lemma_pow128_mono(a: nat, b: nat)
    requires
        a <= b,
    ensures
        pow128(a) <= pow128(b),
    decreases b,
{
    if a < b {
        lemma_pow128_mono(a, (b - 1) as nat);
    }
}

/// Number of bytes needed to encode a varint.
pub fn len_varint(value: u64) -> (len: usize)
    ensures
        len == varint_bytes(value as nat).len(),
{
    if value == 0 {
        return 1;
    }
    let ghost initial = value;
    proof {
        lemma_varint_len_u64(value);
    }
    let mut value = value;
    let mut len: usize = 0;
    while value > 0
        invariant
            varint_bytes(initial as nat).len() <= 10,
            len <= varint_bytes(initial as nat).len(),
            len + (if value > 0 {
                varint_bytes(value as nat).len()
            } else {
                0
            }) == varint_bytes(initial as nat).len(),
        decreases value,
    {
        assert(value >> 7 == value / 128) by (bit_vector);
        value >>= 7;
        len += 1;
    }
    len
}

} // verus!
