use crate::crypto::{rsa_pkcs1v15_sha256_signature, MIN_SIGNING_MODULUS_SIZE};
use crate::error::{Error, Result};
use crate::schema::{tag_views, Tag, TagView};
use crate::signer::ARSigner;
use crate::utils::{
    base64url, base64url_encode, is_base64url_char, lemma_base64url_shape,
    lemma_read_varint_bounds, lemma_read_varint_written, lemma_varint_bytes_shape, read_varint,
    read_varint_spec, sha256, sha256_digest, utf8_string, varint_bytes, varint_error_message,
    write_varint,
};
use vstd::prelude::*;
use vstd::utf8::{decode_utf8, encode_utf8, encode_utf8_decode_utf8, valid_utf8};

verus! {

/// A message in the ANS-104 style: the fields that are signed, the
/// signature, and the id derived from the signed fields.
#[derive(Debug, Clone)]
pub struct DataItem {
    pub target: String,
    pub data: Vec<u8>,
    pub tags: Vec<Tag>,
    pub anchor: Vec<u8>,
    pub owner: Vec<u8>,
    pub signature: Vec<u8>,
    pub id: String,
}

/// What a data item holds, as text, bytes and tag views.
pub struct DataItemView {
    pub target: Seq<char>,
    pub data: Seq<u8>,
    pub tags: Seq<TagView>,
    pub anchor: Seq<u8>,
    pub owner: Seq<u8>,
    pub signature: Seq<u8>,
    pub id: Seq<char>,
}

impl View for DataItem {
    type V = DataItemView;

    open spec fn view(&self) -> DataItemView {
        DataItemView {
            target: self.target@,
            data: self.data@,
            tags: tag_views(self.tags@),
            anchor: self.anchor@,
            owner: self.owner@,
            signature: self.signature@,
            id: self.id@,
        }
    }
}

/// The longest anchor a data item keeps.
pub const MAX_ANCHOR_LEN: usize = 32;

/// An anchor cut to at most 32 bytes.
pub open spec fn truncated_anchor(anchor: Seq<u8>) -> Seq<u8> {
    if anchor.len() > MAX_ANCHOR_LEN {
        anchor.take(MAX_ANCHOR_LEN as int)
    } else {
        anchor
    }
}

/// The anchor kept is the first 32 bytes of the one given (all of it when
/// it is shorter).
pub proof fn law_truncated_anchor(anchor: Seq<u8>)
    ensures
        truncated_anchor(anchor).len() == if anchor.len() > 32 {
            32
        } else {
            anchor.len()
        },
        forall|i: int|
            0 <= i < truncated_anchor(anchor).len() ==> #[trigger] truncated_anchor(anchor)[i]
                == anchor[i],
{
}

/// What an unsigned item holds: the fields given, the anchor cut to its
/// first 32 bytes, and no owner, signature or id.
pub proof fn law_unsigned_item(target: Seq<char>, data: Seq<u8>, tags: Seq<TagView>, anchor: Seq<u8>)
    ensures
        ({
            let item = unsigned_item(target, data, tags, anchor);
            &&& item.target == target
            &&& item.data == data
            &&& item.tags == tags
            &&& item.anchor.len() == if anchor.len() > 32 {
                32
            } else {
                anchor.len()
            }
            &&& forall|i: int| 0 <= i < item.anchor.len() ==> item.anchor[i] == anchor[i]
            &&& item.owner.len() == 0
            &&& item.signature.len() == 0
            &&& item.id.len() == 0
        }),
{
    law_truncated_anchor(anchor);
}

/// A byte field: its length as a varint, then the bytes.
pub open spec fn field_bytes(b: Seq<u8>) -> Seq<u8> {
    varint_bytes(b.len()) + b
}

/// A text field: its UTF-8 bytes as a byte field.
pub open spec fn text_field_bytes(s: Seq<char>) -> Seq<u8> {
    field_bytes(encode_utf8(s))
}

/// A tag: its name, then its value, each as a text field.
pub open spec fn tag_bytes(t: TagView) -> Seq<u8> {
    text_field_bytes(t.name) + text_field_bytes(t.value)
}

/// The tags one after the other.
pub open spec fn tags_bytes(tags: Seq<TagView>) -> Seq<u8>
    decreases tags.len(),
{
    if tags.len() == 0 {
        seq![]
    } else {
        tag_bytes(tags[0]) + tags_bytes(tags.drop_first())
    }
}

/// What `DataItem::new` makes: the anchor cut to 32 bytes, no owner,
/// signature or id yet.
pub open spec fn unsigned_item(
    target: Seq<char>,
    data: Seq<u8>,
    tags: Seq<TagView>,
    anchor: Seq<u8>,
) -> DataItemView {
    DataItemView {
        target,
        data,
        tags,
        anchor: truncated_anchor(anchor),
        owner: Seq::<u8>::empty(),
        signature: Seq::<u8>::empty(),
        id: Seq::<char>::empty(),
    }
}

/// `signed` is `item` signed by a signer with public key `public_key`: the
/// owner is that key, a signature is present, and the id is the one
/// computed with the new owner; the other fields are kept.
pub open spec fn is_signed_by(item: DataItemView, public_key: Seq<u8>, signed: DataItemView) -> bool {
    let owned = DataItemView { owner: public_key, ..item };
    &&& signed == DataItemView { signature: signed.signature, id: owned.computed_id(), ..owned }
    &&& signed.signature.len() > 0
}

impl DataItemView {
    /// The bytes that are signed: owner, target, anchor, the number of tags,
    /// the tags, and the data.
    pub open spec fn signature_data(self) -> Seq<u8> {
        field_bytes(self.owner) + text_field_bytes(self.target) + field_bytes(self.anchor)
            + varint_bytes(self.tags.len()) + tags_bytes(self.tags) + field_bytes(self.data)
    }

    /// The wire form: the signed bytes, then the signature.
    pub open spec fn serialized(self) -> Seq<u8> {
        self.signature_data() + field_bytes(self.signature)
    }

    /// The id: base64url of the SHA-256 digest of the signed bytes.
    pub open spec fn computed_id(self) -> Seq<char> {
        base64url(sha256_digest(self.signature_data()))
    }
}

/// The layout of the signed bytes: each of owner, target (as UTF-8) and
/// anchor as a length varint and its bytes, the number of tags as a
/// varint, each tag's name and value likewise, then the data as a length
/// varint and its bytes; the signature and the id take no part.
pub proof fn law_signature_data_layout(item: DataItemView)
    ensures
        item.signature_data() == varint_bytes(item.owner.len()) + item.owner + varint_bytes(
            encode_utf8(item.target).len(),
        ) + encode_utf8(item.target) + varint_bytes(item.anchor.len()) + item.anchor
            + varint_bytes(item.tags.len()) + tags_bytes(item.tags) + varint_bytes(
            item.data.len(),
        ) + item.data,
        tags_bytes(item.tags) == if item.tags.len() == 0 {
            Seq::<u8>::empty()
        } else {
            varint_bytes(encode_utf8(item.tags[0].name).len()) + encode_utf8(item.tags[0].name)
                + varint_bytes(encode_utf8(item.tags[0].value).len()) + encode_utf8(
                item.tags[0].value,
            ) + tags_bytes(item.tags.drop_first())
        },
        item.computed_id() == base64url(sha256_digest(item.signature_data())),
{
    assert(item.signature_data() =~= varint_bytes(item.owner.len()) + item.owner + varint_bytes(
        encode_utf8(item.target).len(),
    ) + encode_utf8(item.target) + varint_bytes(item.anchor.len()) + item.anchor + varint_bytes(
        item.tags.len(),
    ) + tags_bytes(item.tags) + varint_bytes(item.data.len()) + item.data);
    if item.tags.len() > 0 {
        assert(tags_bytes(item.tags) =~= varint_bytes(encode_utf8(item.tags[0].name).len())
            + encode_utf8(item.tags[0].name) + varint_bytes(encode_utf8(item.tags[0].value).len())
            + encode_utf8(item.tags[0].value) + tags_bytes(item.tags.drop_first()));
    }
}

/// Appending one more tag appends its bytes.
pub proof fn lemma_tags_bytes_push(tags: Seq<TagView>, t: TagView)
    ensures
        tags_bytes(tags.push(t)) == tags_bytes(tags) + tag_bytes(t),
    decreases tags.len(),
{
    if tags.len() == 0 {
        assert(tags.push(t).drop_first() =~= Seq::<TagView>::empty());
        assert(tags.push(t)[0] == t);
        reveal_with_fuel(tags_bytes, 2);
        assert(tags_bytes(tags.push(t)) =~= tag_bytes(t));
    } else {
        assert(tags.push(t).drop_first() =~= tags.drop_first().push(t));
        lemma_tags_bytes_push(tags.drop_first(), t);
        assert(tags_bytes(tags.push(t)) =~= tags_bytes(tags) + tag_bytes(t));
    }
}

fn push_field(buf: &mut Vec<u8>, bytes: &[u8])
    ensures
        final(buf)@ == old(buf)@ + field_bytes(bytes@),
{
    write_varint(buf, bytes.len() as u64);
    buf.extend_from_slice(bytes);
    assert(final(buf)@ =~= old(buf)@ + field_bytes(bytes@));
}

/// The outcome of reading a part of a serialized data item: the value and
/// the position after it, an error message, or a panic of the reader
/// (a length that runs past the end of the data).
pub enum Parsed<T> {
    Read(T, int),
    Fails(Seq<char>),
    Panics,
}

/// A length or count: a varint, read as `read_varint` reads it.
pub open spec fn parse_varint(s: Seq<u8>, pos: int) -> Parsed<nat> {
    match read_varint_spec(s, pos) {
        Ok((v, p)) => Parsed::Read(v as nat, p),
        Err(e) => Parsed::Fails(varint_error_message(e)),
    }
}

/// A byte field whose bytes are taken without a bounds check: a length
/// that runs past the end of the data panics.
pub open spec fn parse_bytes(s: Seq<u8>, pos: int) -> Parsed<Seq<u8>> {
    match parse_varint(s, pos) {
        Parsed::Read(n, p) => if p + n > s.len() {
            Parsed::Panics
        } else {
            Parsed::Read(s.subrange(p, p + n), p + n)
        },
        Parsed::Fails(m) => Parsed::Fails(m),
        Parsed::Panics => Parsed::Panics,
    }
}

/// The owner field, whose length is checked against the data: running past
/// the end is an error, an end past the largest position panics.
pub open spec fn parse_owner(s: Seq<u8>, pos: int) -> Parsed<Seq<u8>> {
    match parse_varint(s, pos) {
        Parsed::Read(n, p) => if p + n > usize::MAX {
            Parsed::Panics
        } else if p + n > s.len() {
            Parsed::Fails("unexpected end of data reading owner"@)
        } else {
            Parsed::Read(s.subrange(p, p + n), p + n)
        },
        Parsed::Fails(m) => Parsed::Fails(m),
        Parsed::Panics => Parsed::Panics,
    }
}

/// A text field: a byte field that must be UTF-8, else the error `msg`.
pub open spec fn parse_text(s: Seq<u8>, pos: int, msg: Seq<char>) -> Parsed<Seq<char>> {
    match parse_bytes(s, pos) {
        Parsed::Read(b, p) => if valid_utf8(b) {
            Parsed::Read(decode_utf8(b), p)
        } else {
            Parsed::Fails(msg)
        },
        Parsed::Fails(m) => Parsed::Fails(m),
        Parsed::Panics => Parsed::Panics,
    }
}

/// A tag: its name, then its value.
pub open spec fn parse_tag(s: Seq<u8>, pos: int) -> Parsed<TagView> {
    match parse_text(s, pos, "invalid tag name UTF-8"@) {
        Parsed::Read(name, p) => match parse_text(s, p, "invalid tag value UTF-8"@) {
            Parsed::Read(value, q) => Parsed::Read(TagView { name, value }, q),
            Parsed::Fails(m) => Parsed::Fails(m),
            Parsed::Panics => Parsed::Panics,
        },
        Parsed::Fails(m) => Parsed::Fails(m),
        Parsed::Panics => Parsed::Panics,
    }
}

/// `n` tags one after the other.
pub open spec fn parse_tags(s: Seq<u8>, pos: int, n: nat) -> Parsed<Seq<TagView>>
    decreases n,
{
    if n == 0 {
        Parsed::Read(seq![], pos)
    } else {
        match parse_tag(s, pos) {
            Parsed::Read(t, p) => match parse_tags(s, p, (n - 1) as nat) {
                Parsed::Read(ts, q) => Parsed::Read(seq![t] + ts, q),
                other => other,
            },
            Parsed::Fails(m) => Parsed::Fails(m),
            Parsed::Panics => Parsed::Panics,
        }
    }
}

/// The tags read so far in front of what reading the rest gives.
pub open spec fn after_tags(done: Seq<TagView>, rest: Parsed<Seq<TagView>>) -> Parsed<Seq<TagView>> {
    match rest {
        Parsed::Read(ts, q) => Parsed::Read(done + ts, q),
        other => other,
    }
}

/// The item that deserializing builds from the fields it read: the anchor
/// cut to 32 bytes and the id computed from the signed fields.
pub open spec fn rebuilt_item(
    owner: Seq<u8>,
    target: Seq<char>,
    anchor: Seq<u8>,
    tags: Seq<TagView>,
    data: Seq<u8>,
    signature: Seq<u8>,
) -> DataItemView {
    let item = DataItemView {
        target,
        data,
        tags,
        anchor: truncated_anchor(anchor),
        owner,
        signature,
        id: Seq::<char>::empty(),
    };
    DataItemView { id: item.computed_id(), ..item }
}

/// What deserializing `s` gives: owner, target, anchor, tags, data and
/// signature in this order; bytes after the signature are ignored.
pub open spec fn deserialize_spec(s: Seq<u8>) -> Parsed<DataItemView> {
    match parse_owner(s, 0) {
        Parsed::Read(owner, p1) => match parse_text(s, p1, "invalid target UTF-8"@) {
            Parsed::Read(target, p2) => match parse_bytes(s, p2) {
                Parsed::Read(anchor, p3) => match parse_varint(s, p3) {
                    Parsed::Read(count, p4) => match parse_tags(s, p4, count) {
                        Parsed::Read(tags, p5) => match parse_bytes(s, p5) {
                            Parsed::Read(data, p6) => match parse_bytes(s, p6) {
                                Parsed::Read(signature, p7) => Parsed::Read(
                                    rebuilt_item(owner, target, anchor, tags, data, signature),
                                    p7,
                                ),
                                Parsed::Fails(m) => Parsed::Fails(m),
                                Parsed::Panics => Parsed::Panics,
                            },
                            Parsed::Fails(m) => Parsed::Fails(m),
                            Parsed::Panics => Parsed::Panics,
                        },
                        Parsed::Fails(m) => Parsed::Fails(m),
                        Parsed::Panics => Parsed::Panics,
                    },
                    Parsed::Fails(m) => Parsed::Fails(m),
                    Parsed::Panics => Parsed::Panics,
                },
                Parsed::Fails(m) => Parsed::Fails(m),
                Parsed::Panics => Parsed::Panics,
            },
            Parsed::Fails(m) => Parsed::Fails(m),
            Parsed::Panics => Parsed::Panics,
        },
        Parsed::Fails(m) => Parsed::Fails(m),
        Parsed::Panics => Parsed::Panics,
    }
}

proof fn lemma_parse_varint_written(pre: Seq<u8>, x: nat, post: Seq<u8>)
    requires
        x <= u64::MAX,
    ensures
        parse_varint(pre + varint_bytes(x) + post, pre.len() as int) == Parsed::Read(
            x,
            (pre.len() + varint_bytes(x).len()) as int,
        ),
{
    lemma_read_varint_written(pre, x as u64, post);
}

proof fn lemma_parse_bytes_written(pre: Seq<u8>, b: Seq<u8>, post: Seq<u8>)
    requires
        b.len() <= u64::MAX,
    ensures
        parse_bytes(pre + field_bytes(b) + post, pre.len() as int) == Parsed::Read(
            b,
            (pre.len() + field_bytes(b).len()) as int,
        ),
{
    let s = pre + field_bytes(b) + post;
    assert(s =~= pre + varint_bytes(b.len()) + (b + post));
    lemma_parse_varint_written(pre, b.len(), b + post);
    let p = (pre.len() + varint_bytes(b.len()).len()) as int;
    assert(s.subrange(p, p + b.len() as int) =~= b);
}

proof fn lemma_parse_owner_written(pre: Seq<u8>, b: Seq<u8>, post: Seq<u8>)
    requires
        pre.len() == 0,
        (pre + field_bytes(b) + post).len() <= usize::MAX,
    ensures
        parse_owner(pre + field_bytes(b) + post, pre.len() as int) == Parsed::Read(
            b,
            (pre.len() + field_bytes(b).len()) as int,
        ),
{
    let s = pre + field_bytes(b) + post;
    assert(s =~= pre + varint_bytes(b.len()) + (b + post));
    lemma_parse_varint_written(pre, b.len(), b + post);
    let p = (pre.len() + varint_bytes(b.len()).len()) as int;
    assert(s.subrange(p, p + b.len() as int) =~= b);
}

proof fn lemma_parse_text_written(pre: Seq<u8>, t: Seq<char>, post: Seq<u8>, msg: Seq<char>)
    requires
        encode_utf8(t).len() <= u64::MAX,
    ensures
        parse_text(pre + text_field_bytes(t) + post, pre.len() as int, msg) == Parsed::Read(
            t,
            (pre.len() + text_field_bytes(t).len()) as int,
        ),
{
    lemma_parse_bytes_written(pre, encode_utf8(t), post);
    vstd::utf8::encode_utf8_valid_utf8(t);
    encode_utf8_decode_utf8(t);
}

proof fn lemma_parse_tag_written(pre: Seq<u8>, t: TagView, post: Seq<u8>)
    requires
        (pre + tag_bytes(t) + post).len() <= u64::MAX,
    ensures
        parse_tag(pre + tag_bytes(t) + post, pre.len() as int) == Parsed::Read(
            t,
            (pre.len() + tag_bytes(t).len()) as int,
        ),
{
    let s = pre + tag_bytes(t) + post;
    let name = text_field_bytes(t.name);
    let value = text_field_bytes(t.value);
    assert(s =~= pre + name + (value + post));
    lemma_parse_text_written(pre, t.name, value + post, "invalid tag name UTF-8"@);
    assert(s =~= (pre + name) + value + post);
    lemma_parse_text_written(pre + name, t.value, post, "invalid tag value UTF-8"@);
}

proof fn lemma_parse_tags_written(pre: Seq<u8>, tags: Seq<TagView>, post: Seq<u8>)
    requires
        (pre + tags_bytes(tags) + post).len() <= u64::MAX,
    ensures
        parse_tags(pre + tags_bytes(tags) + post, pre.len() as int, tags.len()) == Parsed::Read(
            tags,
            (pre.len() + tags_bytes(tags).len()) as int,
        ),
    decreases tags.len(),
{
    let s = pre + tags_bytes(tags) + post;
    if tags.len() == 0 {
        assert(tags =~= Seq::<TagView>::empty());
    } else {
        let t = tags[0];
        let rest = tags.drop_first();
        let first = tag_bytes(t);
        let others = tags_bytes(rest);
        assert(s =~= pre + first + (others + post));
        lemma_parse_tag_written(pre, t, others + post);
        assert(s =~= (pre + first) + others + post);
        lemma_parse_tags_written(pre + first, rest, post);
        assert(seq![t] + rest =~= tags);
    }
}

proof fn lemma_split_at(s: Seq<u8>, p: int, x: Seq<u8>)
    requires
        0 <= p,
        p + x.len() <= s.len(),
        s.subrange(p, p + x.len()) == x,
    ensures
        s == s.take(p) + x + s.skip(p + x.len()),
        s.take(p).len() == p,
{
    assert(s =~= s.take(p) + x + s.skip(p + x.len()));
}

/// Where each part of the serialized form starts: owner, target, anchor,
/// tag count, tags, data, signature, and the end.
pub open spec fn part_starts(item: DataItemView) -> Seq<int> {
    let p1 = field_bytes(item.owner).len() as int;
    let p2 = p1 + text_field_bytes(item.target).len();
    let p3 = p2 + field_bytes(item.anchor).len();
    let p4 = p3 + varint_bytes(item.tags.len()).len();
    let p5 = p4 + tags_bytes(item.tags).len();
    let p6 = p5 + field_bytes(item.data).len();
    let p7 = p6 + field_bytes(item.signature).len();
    seq![0, p1, p2, p3, p4, p5, p6, p7]
}

proof fn lemma_serialized_head(item: DataItemView)
    requires
        item.serialized().len() <= usize::MAX,
    ensures
        ({
            let s = item.serialized();
            let p = part_starts(item);
            &&& parse_owner(s, 0) == Parsed::Read(item.owner, p[1])
            &&& parse_text(s, p[1], "invalid target UTF-8"@) == Parsed::Read(item.target, p[2])
            &&& parse_bytes(s, p[2]) == Parsed::Read(item.anchor, p[3])
        }),
{
    let s = item.serialized();
    let p = part_starts(item);
    let (f0, f1, f2) = (
        field_bytes(item.owner),
        text_field_bytes(item.target),
        field_bytes(item.anchor),
    );
    assert(s.subrange(0, p[1]) =~= f0);
    lemma_split_at(s, 0, f0);
    lemma_parse_owner_written(s.take(0), item.owner, s.skip(p[1]));
    assert(s.subrange(p[1], p[2]) =~= f1);
    lemma_split_at(s, p[1], f1);
    lemma_parse_text_written(s.take(p[1]), item.target, s.skip(p[2]), "invalid target UTF-8"@);
    assert(s.subrange(p[2], p[3]) =~= f2);
    lemma_split_at(s, p[2], f2);
    lemma_parse_bytes_written(s.take(p[2]), item.anchor, s.skip(p[3]));
}

proof fn lemma_tags_bytes_len(tags: Seq<TagView>)
    ensures
        tags_bytes(tags).len() >= tags.len(),
    decreases tags.len(),
{
    if tags.len() > 0 {
        lemma_varint_bytes_shape(encode_utf8(tags[0].name).len());
        lemma_tags_bytes_len(tags.drop_first());
    }
}

proof fn lemma_serialized_tags(item: DataItemView)
    requires
        item.serialized().len() <= usize::MAX,
    ensures
        ({
            let s = item.serialized();
            let p = part_starts(item);
            &&& parse_varint(s, p[3]) == Parsed::Read(item.tags.len(), p[4])
            &&& parse_tags(s, p[4], item.tags.len()) == Parsed::Read(item.tags, p[5])
        }),
{
    let s = item.serialized();
    let p = part_starts(item);
    let (f3, f4) = (varint_bytes(item.tags.len()), tags_bytes(item.tags));
    lemma_tags_bytes_len(item.tags);
    assert(s.subrange(p[3], p[4]) =~= f3);
    lemma_split_at(s, p[3], f3);
    lemma_parse_varint_written(s.take(p[3]), item.tags.len(), s.skip(p[4]));
    assert(s.subrange(p[4], p[5]) =~= f4);
    lemma_split_at(s, p[4], f4);
    lemma_parse_tags_written(s.take(p[4]), item.tags, s.skip(p[5]));
}

proof fn lemma_serialized_tail(item: DataItemView)
    requires
        item.serialized().len() <= usize::MAX,
    ensures
        ({
            let s = item.serialized();
            let p = part_starts(item);
            &&& parse_bytes(s, p[5]) == Parsed::Read(item.data, p[6])
            &&& parse_bytes(s, p[6]) == Parsed::Read(item.signature, p[7])
            &&& p[7] == s.len()
        }),
{
    let s = item.serialized();
    let p = part_starts(item);
    let (f5, f6) = (field_bytes(item.data), field_bytes(item.signature));
    assert(s.subrange(p[5], p[6]) =~= f5);
    lemma_split_at(s, p[5], f5);
    lemma_parse_bytes_written(s.take(p[5]), item.data, s.skip(p[6]));
    assert(s.subrange(p[6], p[7]) =~= f6);
    lemma_split_at(s, p[6], f6);
    lemma_parse_bytes_written(s.take(p[6]), item.signature, s.skip(p[7]));
}

/// Deserializing what `serialize` wrote gives back every field; the anchor
/// is kept whole when it is at most 32 bytes, and the id comes out as the
/// one computed from the signed fields.
pub proof fn lemma_deserialize_serialized(item: DataItemView)
    requires
        item.anchor.len() <= MAX_ANCHOR_LEN,
        item.serialized().len() <= usize::MAX,
    ensures
        deserialize_spec(item.serialized()) == Parsed::Read(
            DataItemView { id: item.computed_id(), ..item },
            item.serialized().len() as int,
        ),
{
    lemma_serialized_head(item);
    lemma_serialized_tags(item);
    lemma_serialized_tail(item);
    assert(truncated_anchor(item.anchor) == item.anchor);
}

/// The signed bytes depend on the owner, target, anchor, tags and data
/// alone, and determine them: two items have the same signed bytes exactly
/// when these fields agree (signature and id never matter).
pub proof fn lemma_signature_data_determines_fields(a: DataItemView, b: DataItemView)
    requires
        a.signature_data().len() < usize::MAX,
    ensures
        a.signature_data() == b.signature_data() <==> {
            &&& a.owner == b.owner
            &&& a.target == b.target
            &&& a.anchor == b.anchor
            &&& a.tags == b.tags
            &&& a.data == b.data
        },
{
    if a.signature_data() == b.signature_data() {
        let a0 = DataItemView { signature: Seq::<u8>::empty(), id: Seq::<char>::empty(), ..a };
        let b0 = DataItemView { signature: Seq::<u8>::empty(), id: Seq::<char>::empty(), ..b };
        assert(a0.signature_data() == a.signature_data());
        assert(b0.signature_data() == b.signature_data());
        assert(a0.serialized() == b0.serialized());
        lemma_varint_bytes_shape(0);
        lemma_serialized_head(a0);
        lemma_serialized_head(b0);
        lemma_serialized_tags(a0);
        lemma_serialized_tags(b0);
        lemma_serialized_tail(a0);
        lemma_serialized_tail(b0);
    }
}

fn next_varint(data: &[u8], pos: usize) -> (res: Result<(u64, usize)>)
    ensures
        match parse_varint(data@, pos as int) {
            Parsed::Read(n, p) => res matches Ok((v, q)) && v == n && q == p && pos < q
                <= data@.len(),
            Parsed::Fails(m) => res matches Err(Error::DataItem(msg)) && msg@ == m,
            Parsed::Panics => false,
        },
{
    let _data_len = data.len();
    proof {
        lemma_read_varint_bounds(data@, pos as int);
    }
    match read_varint(data, pos) {
        Ok((v, p)) => Ok((v, p)),
        Err(e) => Err(Error::DataItem(e)),
    }
}

/// How reading a part of a serialized data item ended: the value and the
/// position after it, an error, or a length that runs past the end of the
/// data (where reading would panic).
enum Step<T> {
    Read(T, usize),
    Refused(Error),
    OutOfBounds,
}

/// `step` is the exec outcome of the spec outcome `parsed`, the value
/// related by `same`.
spec fn step_is<T, V>(step: Step<T>, parsed: Parsed<V>, len: nat, same: spec_fn(T, V) -> bool) -> bool {
    match parsed {
        Parsed::Read(v, p) => step matches Step::Read(t, q) && same(t, v) && q == p && q <= len,
        Parsed::Fails(m) => step matches Step::Refused(Error::DataItem(msg)) && msg@ == m,
        Parsed::Panics => step is OutOfBounds,
    }
}

fn take_bytes(data: &[u8], pos: usize) -> (res: Step<Vec<u8>>)
    ensures
        step_is(res, parse_bytes(data@, pos as int), data@.len(), |v: Vec<u8>, b: Seq<u8>| v@ == b),
{
    let (len, start) = match next_varint(data, pos) {
        Ok(r) => r,
        Err(e) => return Step::Refused(e),
    };
    if len > (data.len() - start) as u64 {
        return Step::OutOfBounds;
    }
    let end = start + len as usize;
    let bytes = vstd::slice::slice_to_vec(vstd::slice::slice_subrange(data, start, end));
    Step::Read(bytes, end)
}

fn take_text(data: &[u8], pos: usize, msg: &str) -> (res: Step<String>)
    ensures
        step_is(
            res,
            parse_text(data@, pos as int, msg@),
            data@.len(),
            |v: String, t: Seq<char>| v@ == t,
        ),
{
    let (bytes, end) = match take_bytes(data, pos) {
        Step::Read(b, q) => (b, q),
        Step::Refused(e) => return Step::Refused(e),
        Step::OutOfBounds => return Step::OutOfBounds,
    };
    match utf8_string(bytes) {
        Ok(text) => {
            proof {
                encode_utf8_decode_utf8(text@);
            }
            Step::Read(text, end)
        },
        Err(_) => Step::Refused(Error::DataItem(String::from_str(msg))),
    }
}

fn take_tag(data: &[u8], pos: usize) -> (res: Step<Tag>)
    ensures
        step_is(res, parse_tag(data@, pos as int), data@.len(), |v: Tag, t: TagView| v@ == t),
{
    let (name, after_name) = match take_text(data, pos, "invalid tag name UTF-8") {
        Step::Read(t, q) => (t, q),
        Step::Refused(e) => return Step::Refused(e),
        Step::OutOfBounds => return Step::OutOfBounds,
    };
    let (value, end) = match take_text(data, after_name, "invalid tag value UTF-8") {
        Step::Read(t, q) => (t, q),
        Step::Refused(e) => return Step::Refused(e),
        Step::OutOfBounds => return Step::OutOfBounds,
    };
    Step::Read(Tag::new(name.as_str(), value.as_str()), end)
}

fn take_tags(data: &[u8], pos: usize, count: u64) -> (res: Step<Vec<Tag>>)
    requires
        pos <= data@.len(),
    ensures
        step_is(
            res,
            parse_tags(data@, pos as int, count as nat),
            data@.len(),
            |v: Vec<Tag>, ts: Seq<TagView>| tag_views(v@) == ts,
        ),
{
    let ghost start = pos;
    let mut tags: Vec<Tag> = Vec::new();
    let mut cur = pos;
    let mut i: u64 = 0;
    while i < count
        invariant
            start == pos,
            i <= count,
            cur <= data@.len(),
            parse_tags(data@, start as int, count as nat) == after_tags(
                tag_views(tags@),
                parse_tags(data@, cur as int, (count - i) as nat),
            ),
        decreases count - i,
    {
        let ghost before = tag_views(tags@);
        let (tag, next) = match take_tag(data, cur) {
            Step::Read(t, q) => (t, q),
            Step::Refused(e) => return Step::Refused(e),
            Step::OutOfBounds => return Step::OutOfBounds,
        };
        proof {
            let tail = parse_tags(data@, next as int, (count - i - 1) as nat);
            if let Parsed::Read(ts, q) = tail {
                assert(before + (seq![tag@] + ts) =~= before.push(tag@) + ts);
            }
        }
        tags.push(tag);
        proof {
            assert(tag_views(tags@) =~= before.push(tag@));
        }
        cur = next;
        i += 1;
    }
    proof {
        assert(tag_views(tags@) + Seq::<TagView>::empty() =~= tag_views(tags@));
    }
    Step::Read(tags, cur)
}

/// Reads a serialized data item, telling apart where reading would panic.
fn read_item(data: &[u8]) -> (res: Step<DataItem>)
    ensures
        step_is(res, deserialize_spec(data@), data@.len(), |v: DataItem, item: DataItemView| v@ == item),
{
    let pos: usize = 0;

    // Owner
    let (owner_len, pos) = match next_varint(data, pos) {
        Ok(r) => r,
        Err(e) => return Step::Refused(e),
    };
    if owner_len > (usize::MAX - pos) as u64 {
        return Step::OutOfBounds;
    }
    if owner_len > (data.len() - pos) as u64 {
        return Step::Refused(Error::DataItem(String::from_str("unexpected end of data reading owner")));
    }
    let end = pos + owner_len as usize;
    let owner = vstd::slice::slice_to_vec(vstd::slice::slice_subrange(data, pos, end));
    let pos = end;

    // Target
    let (target_len, after_len) = match next_varint(data, pos) {
        Ok(r) => r,
        Err(e) => return Step::Refused(e),
    };
    let (target, pos) = if target_len > 0 {
        match take_text(data, pos, "invalid target UTF-8") {
            Step::Read(t, q) => (t, q),
            Step::Refused(e) => return Step::Refused(e),
            Step::OutOfBounds => return Step::OutOfBounds,
        }
    } else {
        proof {
            assert(data@.subrange(after_len as int, after_len as int) =~= Seq::<u8>::empty());
            assert(decode_utf8(Seq::<u8>::empty()) =~= Seq::<char>::empty());
        }
        (String::new(), after_len)
    };

    // Anchor
    let (anchor, pos) = match take_bytes(data, pos) {
        Step::Read(b, q) => (b, q),
        Step::Refused(e) => return Step::Refused(e),
        Step::OutOfBounds => return Step::OutOfBounds,
    };

    // Tags
    let (tag_count, pos) = match next_varint(data, pos) {
        Ok(r) => r,
        Err(e) => return Step::Refused(e),
    };
    let (tags, pos) = match take_tags(data, pos, tag_count) {
        Step::Read(t, q) => (t, q),
        Step::Refused(e) => return Step::Refused(e),
        Step::OutOfBounds => return Step::OutOfBounds,
    };

    // Data
    let (payload, pos) = match take_bytes(data, pos) {
        Step::Read(b, q) => (b, q),
        Step::Refused(e) => return Step::Refused(e),
        Step::OutOfBounds => return Step::OutOfBounds,
    };

    // Signature
    let (signature, end) = match take_bytes(data, pos) {
        Step::Read(b, q) => (b, q),
        Step::Refused(e) => return Step::Refused(e),
        Step::OutOfBounds => return Step::OutOfBounds,
    };

    let mut di = DataItem::new(target, payload, tags, anchor);
    di.owner = owner;
    di.signature = signature;
    di.id = match di.compute_id() {
        Ok(id) => id,
        Err(e) => return Step::Refused(e),
    };
    Step::Read(di, end)
}

impl DataItem {
    pub fn new(target: String, data: Vec<u8>, tags: Vec<Tag>, anchor: Vec<u8>) -> (item: Self)
        ensures
            item@ == unsigned_item(target@, data@, tag_views(tags@), anchor@),
            item.target@ == target@,
            item.data@ == data@,
            item.tags@ == tags@,
            item.anchor@.len() == if anchor@.len() > 32 {
                32
            } else {
                anchor@.len()
            },
            forall|i: int| 0 <= i < item.anchor@.len() ==> item.anchor@[i] == anchor@[i],
            item.owner@.len() == 0,
            item.signature@.len() == 0,
            item.id@.len() == 0,
    {
        let mut anchor = anchor;
        if anchor.len() > MAX_ANCHOR_LEN {
            anchor.truncate(MAX_ANCHOR_LEN);
        }
        Self {
            target,
            data,
            tags,
            anchor,
            owner: Vec::new(),
            signature: Vec::new(),
            id: String::new(),
        }
    }

    /// Signs the item: the signature is made over the signed bytes as they
    /// stand (with the owner the item had), then the owner becomes the
    /// signer's public key and the id is computed anew. The signature is as
    /// long as the signer's modulus; with a true key it is the PKCS#1 v1.5
    /// signature of the bytes that were signed.
    pub fn sign(&mut self, signer: &ARSigner) -> (res: Result<()>)
        requires
            signer@.public_key.len() >= MIN_SIGNING_MODULUS_SIZE,
        ensures
            match res {
                Ok(()) => {
                    &&& is_signed_by(old(self)@, signer@.public_key, final(self)@)
                    &&& final(self)@.signature.len() == signer@.public_key.len()
                    &&& signer@.key.sound() ==> final(self)@.signature
                        == rsa_pkcs1v15_sha256_signature(
                        signer@.key.n,
                        signer@.key.e,
                        signer@.key.d,
                        signer@.key.p,
                        signer@.key.q,
                        old(self)@.signature_data(),
                    )
                    &&& final(self).owner@ == signer@.public_key
                    &&& final(self).target@ == old(self).target@
                    &&& final(self).data@ == old(self).data@
                    &&& final(self).tags@ == old(self).tags@
                    &&& final(self).anchor@ == old(self).anchor@
                    &&& final(self).id@ == base64url(
                        sha256_digest(final(self)@.signature_data()),
                    )
                },
                Err(e) => e is Signing && final(self)@ == old(self)@,
            },
            signer@.key.sound() ==> res is Ok,
    {
        let data_to_sign = match self.get_signature_data() {
            Ok(b) => b,
            Err(e) => return Err(e),
        };
        self.signature = match signer.sign(&data_to_sign) {
            Ok(sig) => sig,
            Err(e) => return Err(e),
        };
        self.owner = vstd::slice::slice_to_vec(signer.public_key());
        self.id = match self.compute_id() {
            Ok(id) => id,
            Err(e) => return Err(e),
        };
        Ok(())
    }

    pub fn get_signature_data(&self) -> (res: Result<Vec<u8>>)
        ensures
            res matches Ok(bytes) && bytes@ == self@.signature_data(),
    {
        let mut buf = Vec::new();

        // Owner
        push_field(&mut buf, &self.owner);

        // Target
        let target_bytes = self.target.as_str().as_bytes();
        push_field(&mut buf, target_bytes);

        // Anchor
        push_field(&mut buf, &self.anchor);

        // Tags
        let ghost head = buf@;
        write_varint(&mut buf, self.tags.len() as u64);
        let ghost counted = buf@;
        let mut i: usize = 0;
        while i < self.tags.len()
            invariant
                i <= self.tags.len(),
                buf@ == counted + tags_bytes(tag_views(self.tags@).take(i as int)),
            decreases self.tags.len() - i,
        {
            let tag = &self.tags[i];
            push_field(&mut buf, tag.name.as_str().as_bytes());
            push_field(&mut buf, tag.value.as_str().as_bytes());
            proof {
                let views = tag_views(self.tags@);
                assert(views.take(i + 1) =~= views.take(i as int).push(views[i as int]));
                lemma_tags_bytes_push(views.take(i as int), views[i as int]);
            }
            i += 1;
        }
        proof {
            assert(tag_views(self.tags@).take(self.tags.len() as int) =~= tag_views(self.tags@));
        }

        // Data
        push_field(&mut buf, &self.data);
        assert(buf@ =~= self@.signature_data());
        Ok(buf)
    }

    pub fn serialize(&self) -> (res: Result<Vec<u8>>)
        ensures
            res matches Ok(bytes) && bytes@ == self@.serialized(),
    {
        let mut buf = match self.get_signature_data() {
            Ok(b) => b,
            Err(e) => return Err(e),
        };
        push_field(&mut buf, &self.signature);
        Ok(buf)
    }

    /// The id: base64url of the SHA-256 digest of the signed bytes, 43
    /// URL-safe characters with no padding.
    pub fn compute_id(&self) -> (res: Result<String>)
        ensures
            res matches Ok(id) && id@ == self@.computed_id(),
            res matches Ok(id) && id@ == base64url(sha256_digest(self@.signature_data())),
            res matches Ok(id) && id@.len() == 43,
            res matches Ok(id) && forall|i: int|
                0 <= i < id@.len() ==> is_base64url_char(#[trigger] id@[i]),
    {
        let data_to_sign = match self.get_signature_data() {
            Ok(b) => b,
            Err(e) => return Err(e),
        };
        let hash = sha256(&data_to_sign);
        proof {
            lemma_base64url_shape(hash@);
        }
        Ok(base64url_encode(&hash))
    }

    /// Reads a serialized data item: owner, target, anchor, tags, data and
    /// signature; the id is computed anew and bytes after the signature are
    /// ignored. A length that runs past the end of the data is left out (the
    /// reader panics there; see `try_deserialize`).
    pub fn deserialize(data: &[u8]) -> (res: Result<Self>)
        requires
            !(deserialize_spec(data@) is Panics),
        ensures
            match deserialize_spec(data@) {
                Parsed::Read(item, _) => res matches Ok(di) && di@ == item,
                Parsed::Fails(m) => res matches Err(Error::DataItem(msg)) && msg@ == m,
                Parsed::Panics => false,
            },
    {
        match read_item(data) {
            Step::Read(di, _) => Ok(di),
            Step::Refused(e) => Err(e),
            // cannot happen: the data is read without running past its end
            Step::OutOfBounds => Err(Error::DataItem(String::new())),
        }
    }

    /// `deserialize` for any bytes: `None` where a length runs past the end
    /// of the data (where `deserialize` cannot go), else what `deserialize`
    /// gives.
    pub fn try_deserialize(data: &[u8]) -> (res: Option<Result<Self>>)
        ensures
            res is None <==> deserialize_spec(data@) is Panics,
            match deserialize_spec(data@) {
                Parsed::Read(item, _) => res matches Some(Ok(di)) && di@ == item,
                Parsed::Fails(m) => res matches Some(Err(Error::DataItem(msg))) && msg@ == m,
                Parsed::Panics => res is None,
            },
    {
        match read_item(data) {
            Step::Read(di, _) => Some(Ok(di)),
            Step::Refused(e) => Some(Err(e)),
            Step::OutOfBounds => None,
        }
    }
}

} // verus!
