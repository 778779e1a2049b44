use fancy_talk::DecodeErrorKind;
use fancy_talk::Decoder;
use fancy_talk::EncodeError;
use fancy_talk::Encoder;
use fancy_talk::MessageType;
use fancy_talk::Package;
use fancy_talk::Serialisable;
use fancy_talk::WireField;

fn decode(bytes: &[u8]) -> Result<Package, fancy_talk::DecodeError> {
    let mut decoder = Decoder::new(bytes);
    Package::read(&mut decoder)
}

fn encode(package: &Package) -> Vec<u8> {
    let mut encoder = Encoder::new(Vec::new());
    package.write(&mut encoder).unwrap();
    encoder.into_bytes()
}

#[test]
fn lib_test_read() {
    let buffer = vec![
        0x23, 0x42, // ID
        0b1100_1000, // response, bold, blink
        0x12, 0x34, 0x56, 0x00, 0x02, // len
        0x48, // H
        0x69, // i
        0x00, 0x00, // len
    ];

    let mut decoder = Decoder::new(&buffer);

    let expected = Package {
        id: 0x2342,
        message_type: MessageType::Response,
        bold: true,
        italic: false,
        underlined: false,
        blink: true,
        red: 0x12,
        green: 0x34,
        blue: 0x56,
        query: Some(String::from("Hi")),
        payload: None,
    };

    let got = Package::read(&mut decoder).unwrap();

    assert_eq!(expected, got);
}

#[test]
fn lib_test_write() {
    let expected: Vec<u8> = vec![
        0x23, 0x42, // ID
        0b1100_1000, // response, bold, blink
        0x12, 0x34, 0x56, 0x00, 0x02, // len
        0x48, // H
        0x69, // i
        0x00, 0x00, // len
    ];

    let package = Package {
        id: 0x2342,
        message_type: MessageType::Response,
        bold: true,
        italic: false,
        underlined: false,
        blink: true,
        red: 0x12,
        green: 0x34,
        blue: 0x56,
        query: Some(String::from("Hi")),
        payload: None,
    };

    let mut encoder = Encoder::new(Vec::new());

    let written = package.write(&mut encoder).unwrap();

    assert_eq!(written, expected.len());
    assert_eq!(encoder.into_bytes(), expected);
}

#[test]
fn literal_vector_round_trip() {
    let bytes = vec![0x23, 0x42, 0xC8, 0x12, 0x34, 0x56, 0x00, 0x02, 0x48, 0x69, 0x00, 0x00];
    let package = decode(&bytes).unwrap();
    assert_eq!(package.id, 0x2342);
    assert_eq!(package.message_type, MessageType::Response);
    assert!(package.bold);
    assert!(!package.italic);
    assert!(!package.underlined);
    assert!(package.blink);
    assert_eq!(package.red, 0x12);
    assert_eq!(package.green, 0x34);
    assert_eq!(package.blue, 0x56);
    assert_eq!(package.query, Some(String::from("Hi")));
    assert_eq!(package.payload, None);
    assert_eq!(encode(&package), bytes);
}

#[test]
fn flag_combinations_encode_and_decode_independently() {
    for bits in 0u8..16u8 {
        let response = bits & 8 != 0;
        let bold = bits & 4 != 0;
        let italic = bits & 2 != 0;
        let underlined = bits & 1 != 0;
        for blink in [false, true] {
            let package = Package::new()
                .set_message_type(if response {
                    MessageType::Response
                } else {
                    MessageType::Query
                })
                .set_bold(bold)
                .set_italic(italic)
                .set_underlined(underlined)
                .set_blink(blink);
            let bytes = encode(&package);
            let flags = bytes[2];
            assert_eq!(flags & 0x80 == 0x80, response);
            assert_eq!(flags & 0x40 == 0x40, bold);
            assert_eq!(flags & 0x20 == 0x20, italic);
            assert_eq!(flags & 0x10 == 0x10, underlined);
            assert_eq!(flags & 0x08 == 0x08, blink);
            assert_eq!(flags & 0x07, 0);

            let round = decode(&bytes).unwrap();
            assert_eq!(round, package);
        }
    }
}

#[test]
fn reserved_flag_bits_are_ignored_on_read() {
    for low in 1u8..8u8 {
        let mut bytes = vec![0x23, 0x42, 0xC8, 0x12, 0x34, 0x56, 0x00, 0x00, 0x00, 0x00];
        bytes[2] |= low;
        let dirty = decode(&bytes).unwrap();
        bytes[2] &= 0xF8;
        let clean = decode(&bytes).unwrap();
        assert_eq!(dirty, clean);
    }
}

#[test]
fn absent_query_encodes_as_zero_prefix_and_back() {
    let package = Package::new();
    let bytes = encode(&package);
    assert_eq!(bytes.len(), 10);
    assert_eq!(&bytes[6..8], &[0u8, 0u8]);
    assert_eq!(&bytes[8..10], &[0u8, 0u8]);

    let round = decode(&bytes).unwrap();
    assert_eq!(round.query, None);
    assert_eq!(round.payload, None);
    assert_ne!(round.query, Some(String::new()));
}

#[test]
fn empty_string_encodes_as_absent() {
    let mut package = Package::new();
    package.set_query(Some(String::new()));
    let bytes = encode(&package);
    assert_eq!(bytes.len(), 10);
    let round = decode(&bytes).unwrap();
    assert_eq!(round.query, None);
}

#[test]
fn short_buffers_underrun() {
    for len in 0usize..8usize {
        let bytes = vec![0u8; len];
        let err = decode(&bytes).unwrap_err();
        assert_eq!(err.kind, DecodeErrorKind::BufferUnderrun);
    }
    // Nine zero bytes declare no query, so the payload length prefix
    // underruns.
    let err = decode(&vec![0u8; 9]).unwrap_err();
    assert_eq!(err.kind, DecodeErrorKind::BufferUnderrun);
    assert_eq!(err.field, WireField::PayloadLength);
}

#[test]
fn declared_length_beyond_buffer_underruns() {
    // Query length 5 with only 2 query bytes present.
    let bytes = vec![0x00, 0x01, 0x00, 0x00, 0x00, 0x00, 0x00, 0x05, 0x48, 0x69];
    let err = decode(&bytes).unwrap_err();
    assert_eq!(err.kind, DecodeErrorKind::BufferUnderrun);
    assert_eq!(err.field, WireField::QueryText);

    // Payload length 3 with one payload byte present.
    let bytes = vec![0x00, 0x01, 0x00, 0x00, 0x00, 0x00, 0x00, 0x00, 0x00, 0x03, 0x48];
    let err = decode(&bytes).unwrap_err();
    assert_eq!(err.kind, DecodeErrorKind::BufferUnderrun);
    assert_eq!(err.field, WireField::PayloadText);
}

#[test]
fn invalid_utf8_fails_decode() {
    // 0xFF is never valid UTF-8.
    let bytes = vec![0x00, 0x01, 0x00, 0x00, 0x00, 0x00, 0x00, 0x01, 0xFF, 0x00, 0x00];
    let err = decode(&bytes).unwrap_err();
    assert_eq!(err.kind, DecodeErrorKind::InvalidEncoding);
    assert_eq!(err.field, WireField::QueryText);

    let bytes = vec![0x00, 0x01, 0x00, 0x00, 0x00, 0x00, 0x00, 0x00, 0x00, 0x01, 0xFF];
    let err = decode(&bytes).unwrap_err();
    assert_eq!(err.kind, DecodeErrorKind::InvalidEncoding);
    assert_eq!(err.field, WireField::PayloadText);
}

#[test]
fn multibyte_text_survives_the_round_trip() {
    let package = Package::new()
        .set_id(7)
        .set_payload(Some(String::from("na\u{ef}ve \u{1F600} text")));
    let bytes = encode(&package);
    let round = decode(&bytes).unwrap();
    assert_eq!(round.payload, Some(String::from("na\u{ef}ve \u{1F600} text")));
    assert_eq!(round, package);
}

#[test]
fn oversize_query_is_rejected_before_writing() {
    let mut package = Package::new();
    package.set_query(Some("a".repeat(65536)));
    let mut encoder = Encoder::new(Vec::new());
    let err = package.write(&mut encoder).unwrap_err();
    assert_eq!(err, EncodeError::QueryTooLong);
    assert_eq!(encoder.len(), 0);
}

#[test]
fn oversize_payload_is_rejected_before_writing() {
    let package = Package::new().set_payload(Some("b".repeat(70000)));
    let mut encoder = Encoder::new(Vec::new());
    let err = package.write(&mut encoder).unwrap_err();
    assert_eq!(err, EncodeError::PayloadTooLong);
    assert_eq!(encoder.len(), 0);
}

#[test]
fn largest_fitting_strings_round_trip() {
    let text = "c".repeat(65535);
    let mut package = Package::new();
    package.set_query(Some(text.clone()));
    let package = package.set_payload(Some(text.clone()));
    let bytes = encode(&package);
    assert_eq!(bytes.len(), 10 + 65535 + 65535);
    let round = decode(&bytes).unwrap();
    assert_eq!(round, package);
}

#[test]
fn builders_set_what_they_name() {
    let mut package = Package::new()
        .set_id(0xBEEF)
        .set_message_type(MessageType::Response)
        .set_bold(true)
        .set_italic(true)
        .set_underlined(true)
        .set_blink(true)
        .set_rgb(1, 2, 3);
    package.set_query(Some(String::from("q")));
    let package = package.set_payload(Some(String::from("pp")));
    assert_eq!(package.id, 0xBEEF);
    assert_eq!(package.message_type, MessageType::Response);
    assert!(package.bold && package.italic && package.underlined && package.blink);
    assert_eq!((package.red, package.green, package.blue), (1, 2, 3));
    assert_eq!(package.query_len(), 1);
    assert_eq!(package.payload_len(), 2);
    assert_eq!(Package::new().query_len(), 0);
    assert_eq!(Package::new().payload_len(), 0);
}
