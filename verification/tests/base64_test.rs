use core_data::base64::{decode, encode};

#[test]
fn encode_known_texts() {
    assert_eq!(encode(b""), b"");
    assert_eq!(encode(b"f"), b"Zg==");
    assert_eq!(encode(b"fo"), b"Zm8=");
    assert_eq!(encode(b"foo"), b"Zm9v");
    assert_eq!(encode(b"foob"), b"Zm9vYg==");
    assert_eq!(encode(b"fooba"), b"Zm9vYmE=");
    assert_eq!(encode(b"foobar"), b"Zm9vYmFy");
    assert_eq!(encode(&[0xfb, 0xff, 0xbf]), b"+/+/");
    assert_eq!(encode(&[0, 0, 0]), b"AAAA");
}

#[test]
fn decode_known_texts() {
    assert_eq!(decode(b""), Some(vec![]));
    assert_eq!(decode(b"Zg=="), Some(b"f".to_vec()));
    assert_eq!(decode(b"Zm8="), Some(b"fo".to_vec()));
    assert_eq!(decode(b"Zm9v"), Some(b"foo".to_vec()));
    assert_eq!(decode(b"Zm9vYmFy"), Some(b"foobar".to_vec()));
    assert_eq!(decode(b"+/+/"), Some(vec![0xfb, 0xff, 0xbf]));
}

#[test]
fn decode_refuses_what_is_no_base64() {
    assert_eq!(decode(b"Zg="), None);
    assert_eq!(decode(b"Z"), None);
    assert_eq!(decode(b"Zm9v!"), None);
    assert_eq!(decode(b"Zm9*"), None);
    assert_eq!(decode(b"Zg==Zg=="), None);
    assert_eq!(decode(b"=g=="), None);
    assert_eq!(decode(b"Z==="), None);
    // bits that belong to no byte must not be set
    assert_eq!(decode(b"Zh=="), None);
    assert_eq!(decode(b"Zm9="), None);
}

#[test]
fn every_text_decodes_to_its_bytes() {
    let mut bytes = Vec::new();
    for round in 0..300u32 {
        bytes.push((round * 37 % 256) as u8);
        assert_eq!(decode(&encode(&bytes)), Some(bytes.clone()));
    }
}
