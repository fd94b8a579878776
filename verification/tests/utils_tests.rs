use rustao::utils::{len_varint, read_varint, sha256, write_varint};
use rustao::{base64url_decode, base64url_encode};

#[test]
fn varint_known_encodings() {
    let cases: Vec<(u64, Vec<u8>)> = vec![
        (0, vec![0]),
        (1, vec![1]),
        (127, vec![0x7f]),
        (128, vec![0x80, 0x01]),
        (300, vec![0xac, 0x02]),
        (16384, vec![0x80, 0x80, 0x01]),
        (u64::MAX, vec![0xff, 0xff, 0xff, 0xff, 0xff, 0xff, 0xff, 0xff, 0xff, 0x01]),
    ];
    for (v, bytes) in cases {
        let mut buf = vec![9u8];
        write_varint(&mut buf, v);
        assert_eq!(&buf[1..], &bytes[..]);
        assert_eq!(len_varint(v), bytes.len());
        assert_eq!(read_varint(&buf, 1), Ok((v, 1 + bytes.len())));
    }
}

#[test]
fn varint_roundtrip_in_context() {
    for v in [0u64, 5, 127, 128, 255, 256, 1 << 35, (1 << 63) + 12345, u64::MAX] {
        let mut buf = vec![1, 2, 3];
        write_varint(&mut buf, v);
        let end = buf.len();
        buf.extend_from_slice(&[0xff, 0xee]);
        assert_eq!(read_varint(&buf, 3), Ok((v, end)));
    }
}

#[test]
fn varint_read_errors() {
    assert_eq!(read_varint(&[], 0), Err("unexpected end of data".to_string()));
    assert_eq!(read_varint(&[0x80, 0x80], 0), Err("unexpected end of data".to_string()));
    assert_eq!(read_varint(&[1], 5), Err("unexpected end of data".to_string()));
    let too_long = [0xffu8; 11];
    assert_eq!(read_varint(&too_long, 0), Err("varint too long".to_string()));
}

#[test]
fn varint_tenth_byte_keeps_low_bit() {
    // Ten bytes: the tenth contributes only its lowest bit.
    let mut bytes = vec![0x80u8; 9];
    bytes.push(0x03);
    assert_eq!(read_varint(&bytes, 0), Ok((1u64 << 63, 10)));
}

#[test]
fn base64url_known_values() {
    assert_eq!(base64url_encode(b""), "");
    assert_eq!(base64url_encode(b"f"), "Zg");
    assert_eq!(base64url_encode(b"fo"), "Zm8");
    assert_eq!(base64url_encode(b"foo"), "Zm9v");
    assert_eq!(base64url_encode(&[0xfb, 0xff]), "-_8");
    assert_eq!(base64url_decode("-_8").unwrap(), vec![0xfb, 0xff]);
    assert!(base64url_decode("Zm9v=").is_err());
    assert!(base64url_decode("Z").is_err());
    assert!(base64url_decode("Zh").is_err());
}

#[test]
fn sha256_known_value() {
    let d = sha256(b"abc");
    assert_eq!(d.len(), 32);
    assert_eq!(d[0], 0xba);
    assert_eq!(d[31], 0xad);
}

#[test]
fn base64url_roundtrip() {
    let all: Vec<u8> = (0..=255u8).collect();
    for n in 0..all.len() {
        let text = base64url_encode(&all[..n]);
        assert!(!text.contains('='));
        assert_eq!(base64url_decode(&text).unwrap(), &all[..n]);
    }
}

