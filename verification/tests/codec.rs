use fancy_talk::Decoder;
use fancy_talk::Encoder;
use fancy_talk::Serialisable;

#[test]
fn codec_test_read() {
    let deadbeef = b"deadbeef!";
    let mut decoder = Decoder::new(deadbeef);

    let read = decoder.read_slice(2).expect("Failed to read 'de'");
    assert_eq!(read, b"de");

    let read = decoder.read_u16().expect("Failed to read 'ad'");
    assert_eq!(read, 0x6164);

    let read = decoder.read_u32().expect("Failed to read 'beef'");
    assert_eq!(read, 0x62656566);

    let read = decoder.read_u8().expect("Failed to read '!'");
    assert_eq!(read, 0x21);

    assert!(decoder.read_u8().is_err());
}

#[test]
fn codec_test_write() {
    let mut encoder = Encoder::new(Vec::new());
    let expected = b"deadbeef!";

    encoder.write_slice(b"de").unwrap();
    encoder.write_u16(0x6164).unwrap();
    encoder.write_u32(0x62656566).unwrap();
    encoder.write_u8(0x21).unwrap();

    assert_eq!(encoder.into_bytes(), expected.to_vec());
}

#[test]
fn cursor_underrun_does_not_move() {
    let bytes = [1u8, 2u8, 3u8];
    let mut decoder = Decoder::new(&bytes);
    assert!(decoder.read_u32().is_err());
    assert_eq!(decoder.read_u16().unwrap(), 0x0102);
    assert!(decoder.read_u16().is_err());
    assert_eq!(decoder.read_u8().unwrap(), 3);
    assert!(decoder.read_u8().is_err());
    assert!(decoder.read_slice(1).is_err());
    assert!(decoder.read_slice(0).is_ok());
}

#[test]
fn integers_serialise_through_the_trait() {
    let mut encoder = Encoder::new(Vec::new());
    assert_eq!(0xBEEFu16.write(&mut encoder).unwrap(), 2);
    assert_eq!(0xCAFE1234u32.write(&mut encoder).unwrap(), 4);
    let bytes = encoder.into_bytes();
    assert_eq!(bytes, vec![0xBE, 0xEF, 0xCA, 0xFE, 0x12, 0x34]);

    let mut decoder = Decoder::new(&bytes);
    assert_eq!(u16::read(&mut decoder).unwrap(), 0xBEEF);
    assert_eq!(u32::read(&mut decoder).unwrap(), 0xCAFE1234);
    assert!(u16::read(&mut decoder).is_err());
}

#[test]
fn encoder_keeps_existing_bytes_and_counts_all() {
    let mut encoder = Encoder::new(vec![0xAAu8, 0xBBu8]);
    assert_eq!(encoder.len(), 2);
    encoder.write_u8(0xCC).unwrap();
    assert_eq!(encoder.len(), 3);
    assert_eq!(encoder.into_bytes(), vec![0xAAu8, 0xBBu8, 0xCCu8]);
}
