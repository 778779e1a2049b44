use fancy_talk::decode_for_foreign;
use fancy_talk::encode_for_foreign;
use fancy_talk::CPackage;
use fancy_talk::MessageType;
use fancy_talk::Package;

#[test]
fn decode_for_foreign_materializes_owned_buffers() {
    let bytes = vec![0x23, 0x42, 0xC8, 0x12, 0x34, 0x56, 0x00, 0x02, 0x48, 0x69, 0x00, 0x00];
    let mirror = decode_for_foreign(&bytes).unwrap();
    assert_eq!(mirror.id, 0x2342);
    assert_eq!(mirror.message_type, 1);
    assert!(mirror.bold && mirror.blink);
    assert!(!mirror.italic && !mirror.underlined);
    assert_eq!((mirror.red, mirror.green, mirror.blue), (0x12, 0x34, 0x56));
    assert_eq!(mirror.query_len, 2);
    assert_eq!(mirror.query, b"Hi".to_vec());
    assert_eq!(mirror.payload_len, 0);
    assert!(mirror.payload.is_empty());
}

#[test]
fn decode_for_foreign_rejects_what_the_codec_rejects() {
    assert!(decode_for_foreign(&[0u8; 4]).is_err());
    let invalid = vec![0x00, 0x01, 0x00, 0x00, 0x00, 0x00, 0x00, 0x01, 0xFF, 0x00, 0x00];
    assert!(decode_for_foreign(&invalid).is_err());
}

#[test]
fn encode_for_foreign_reproduces_the_wire_bytes() {
    let bytes = vec![0x23, 0x42, 0xC8, 0x12, 0x34, 0x56, 0x00, 0x02, 0x48, 0x69, 0x00, 0x00];
    let mirror = decode_for_foreign(&bytes).unwrap();
    let (buffer, len) = encode_for_foreign(&mirror).unwrap();
    assert_eq!(len, buffer.len());
    assert_eq!(buffer, bytes);
}

#[test]
fn encode_for_foreign_rejects_oversize_strings() {
    let pkg = Package::new().set_payload(Some("x".repeat(65536)));
    let mirror = CPackage::from(pkg);
    assert!(encode_for_foreign(&mirror).is_err());
}

#[test]
fn mirror_conversions_round_trip() {
    let mut pkg = Package::new()
        .set_id(99)
        .set_message_type(MessageType::Response)
        .set_rgb(9, 8, 7)
        .set_italic(true);
    pkg.set_query(Some(String::from("caf\u{e9}")));
    let pkg = pkg.set_payload(Some(String::from("r\u{e9}ponse")));

    let mirror = CPackage::from(pkg.clone());
    assert_eq!(mirror.query, "caf\u{e9}".as_bytes().to_vec());
    assert_eq!(mirror.query_len, 5);
    assert_eq!(mirror.payload_len, 8);

    let back = Package::from(&mirror);
    assert_eq!(back, pkg);
}

#[test]
fn absent_strings_mirror_as_empty_buffers() {
    let mirror = CPackage::from(Package::new());
    assert_eq!(mirror.query_len, 0);
    assert!(mirror.query.is_empty());
    assert_eq!(mirror.payload_len, 0);
    assert!(mirror.payload.is_empty());
    let back = Package::from(&mirror);
    assert_eq!(back.query, None);
    assert_eq!(back.payload, None);
}
