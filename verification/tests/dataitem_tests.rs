use rustao::dataitem::DataItem;
use rustao::schema::Tag;
use rustao::Error;

#[test]
fn test_dataitem_new() {
    let di = DataItem::new("target".into(), b"data".to_vec(), vec![Tag::new("k", "v")], b"anchor".to_vec());
    assert_eq!(di.target, "target");
    assert_eq!(di.data, b"data");
    assert_eq!(di.tags[0].name, "k");
    assert_eq!(di.anchor, b"anchor");
}

#[test]
fn test_anchor_truncation() {
    let long_anchor = vec![0u8; 40];
    let di = DataItem::new("".into(), vec![], vec![], long_anchor);
    assert_eq!(di.anchor.len(), 32);
}

#[test]
fn test_get_signature_data() {
    let mut di = DataItem::new("target".into(), b"data".to_vec(), vec![Tag::new("k", "v")], b"anchor".to_vec());
    di.owner = b"owner".to_vec();
    let sig_data = di.get_signature_data().unwrap();
    assert!(!sig_data.is_empty());
}

#[test]
fn test_serialize_deserialize_roundtrip() {
    let original = DataItem::new(
        "target".into(),
        b"data".to_vec(),
        vec![Tag::new("k", "v")],
        b"anchor".to_vec(),
    );
    let mut with_dummy = original.clone();
    with_dummy.owner = b"owner".to_vec();
    with_dummy.signature = b"signature".to_vec();
    with_dummy.id = with_dummy.compute_id().unwrap();

    let serialized = with_dummy.serialize().unwrap();
    let deserialized = DataItem::deserialize(&serialized).unwrap();

    assert_eq!(deserialized.target, with_dummy.target);
    assert_eq!(deserialized.data, with_dummy.data);
    assert_eq!(deserialized.tags, with_dummy.tags);
    assert_eq!(deserialized.anchor, with_dummy.anchor);
    assert_eq!(deserialized.owner, with_dummy.owner);
    assert_eq!(deserialized.signature, with_dummy.signature);
    assert_eq!(deserialized.id, with_dummy.id);
}

#[test]
fn test_compute_id() {
    let di = DataItem::new("target".into(), b"data".to_vec(), vec![], b"".to_vec());
    let id = di.compute_id().unwrap();
    assert!(!id.is_empty());
    assert!(!id.contains('='));
}

#[test]
fn signature_data_layout() {
    let mut di = DataItem::new("t".into(), b"xy".to_vec(), vec![Tag::new("k", "vv")], b"a".to_vec());
    di.owner = b"o".to_vec();
    di.signature = b"sig".to_vec();
    let expected: Vec<u8> = vec![
        1, b'o', // owner
        1, b't', // target
        1, b'a', // anchor
        1, // one tag
        1, b'k', 2, b'v', b'v', // the tag
        2, b'x', b'y', // data
    ];
    assert_eq!(di.get_signature_data().unwrap(), expected);
    let mut wire = expected.clone();
    wire.extend_from_slice(&[3, b's', b'i', b'g']);
    assert_eq!(di.serialize().unwrap(), wire);
}

#[test]
fn compute_id_is_base64url_of_sha256() {
    // The signed bytes of an empty item are six zero bytes (five empty
    // fields and no tags); its id is base64url of their SHA-256 digest.
    let di = DataItem::new(String::new(), vec![], vec![], vec![]);
    assert_eq!(di.get_signature_data().unwrap(), vec![0u8; 5]);
    let digest = rustao::utils::sha256(&[0u8; 5]);
    assert_eq!(di.compute_id().unwrap(), rustao::base64url_encode(&digest));
    assert_eq!(di.compute_id().unwrap().len(), 43);
}

#[test]
fn id_ignores_signature() {
    let mut a = DataItem::new("p".into(), b"d".to_vec(), vec![], vec![]);
    let id_before = a.compute_id().unwrap();
    a.signature = b"anything".to_vec();
    assert_eq!(a.compute_id().unwrap(), id_before);
}

#[test]
fn deserialize_truncated_owner() {
    match DataItem::deserialize(&[5, 1, 2]) {
        Err(Error::DataItem(m)) => assert_eq!(m, "unexpected end of data reading owner"),
        other => panic!("unexpected {:?}", other.map(|d| d.id)),
    }
}

#[test]
fn deserialize_empty_input() {
    match DataItem::deserialize(&[]) {
        Err(Error::DataItem(m)) => assert_eq!(m, "unexpected end of data"),
        other => panic!("unexpected {:?}", other.map(|d| d.id)),
    }
}

#[test]
fn deserialize_invalid_target_utf8() {
    match DataItem::deserialize(&[0, 1, 0xff]) {
        Err(Error::DataItem(m)) => assert_eq!(m, "invalid target UTF-8"),
        other => panic!("unexpected {:?}", other.map(|d| d.id)),
    }
}

#[test]
fn deserialize_invalid_tag_utf8() {
    // owner, target, anchor empty; one tag whose name is not UTF-8
    match DataItem::deserialize(&[0, 0, 0, 1, 1, 0xc3, 0, 0, 0]) {
        Err(Error::DataItem(m)) => assert_eq!(m, "invalid tag name UTF-8"),
        other => panic!("unexpected {:?}", other.map(|d| d.id)),
    }
    match DataItem::deserialize(&[0, 0, 0, 1, 1, b'k', 1, 0xc3, 0, 0]) {
        Err(Error::DataItem(m)) => assert_eq!(m, "invalid tag value UTF-8"),
        other => panic!("unexpected {:?}", other.map(|d| d.id)),
    }
}

#[test]
fn deserialize_varint_too_long() {
    let mut bytes = vec![0x80u8; 10];
    bytes.push(0);
    match DataItem::deserialize(&bytes) {
        Err(Error::DataItem(m)) => assert_eq!(m, "varint too long"),
        other => panic!("unexpected {:?}", other.map(|d| d.id)),
    }
}

#[test]
fn deserialize_cuts_long_anchor_and_ignores_trailing_bytes() {
    let mut di = DataItem::new("t".into(), vec![], vec![], vec![]);
    di.anchor = vec![7u8; 40];
    let mut wire = di.serialize().unwrap();
    wire.extend_from_slice(&[9, 9, 9]);
    let back = DataItem::deserialize(&wire).unwrap();
    assert_eq!(back.anchor, vec![7u8; 32]);
    assert_eq!(back.target, "t");
}

#[test]
fn roundtrip_with_unicode_tags() {
    let mut di = DataItem::new(
        "процесс".into(),
        vec![0, 1, 2, 255],
        vec![Tag::new("Name-é", "värde ✓"), Tag::new("", "")],
        vec![1; 32],
    );
    di.owner = vec![3; 300];
    di.signature = vec![4; 512];
    di.id = di.compute_id().unwrap();
    let back = DataItem::deserialize(&di.serialize().unwrap()).unwrap();
    assert_eq!(back.target, di.target);
    assert_eq!(back.tags, di.tags);
    assert_eq!(back.owner, di.owner);
    assert_eq!(back.signature, di.signature);
    assert_eq!(back.data, di.data);
    assert_eq!(back.id, di.id);
}

#[test]
fn try_deserialize_tells_apart_running_past_the_end() {
    // an anchor of five bytes where none follow: reading would run past the end
    assert!(DataItem::try_deserialize(&[0, 0, 5]).is_none());
    // a target of three bytes where one follows
    assert!(DataItem::try_deserialize(&[0, 3, b'a']).is_none());
    match DataItem::try_deserialize(&[5, 1, 2]) {
        Some(Err(Error::DataItem(m))) => assert_eq!(m, "unexpected end of data reading owner"),
        _ => panic!("expected the owner error"),
    }
    let mut item = DataItem::new("t".into(), b"d".to_vec(), vec![Tag::new("k", "v")], b"a".to_vec());
    item.owner = b"o".to_vec();
    item.signature = b"s".to_vec();
    let back = DataItem::try_deserialize(&item.serialize().unwrap()).unwrap().unwrap();
    assert_eq!(back.tags, item.tags);
    assert_eq!(back.signature, item.signature);
    assert_eq!(back.id, item.compute_id().unwrap());
}

#[test]
fn signed_bytes_tell_fields_apart() {
    let base = DataItem::new("t".into(), b"d".to_vec(), vec![Tag::new("k", "v")], vec![]);
    let mut other_sig = base.clone();
    other_sig.signature = b"x".to_vec();
    other_sig.id = "y".into();
    assert_eq!(base.get_signature_data().unwrap(), other_sig.get_signature_data().unwrap());
    let moved = DataItem::new("t".into(), b"d".to_vec(), vec![Tag::new("kv", "")], vec![]);
    assert_ne!(base.get_signature_data().unwrap(), moved.get_signature_data().unwrap());
    let mut owned = base.clone();
    owned.owner = b"o".to_vec();
    assert_ne!(base.get_signature_data().unwrap(), owned.get_signature_data().unwrap());
}
