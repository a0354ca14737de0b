use png_chunks::chunk::Chunk;
use png_chunks::chunk_type::ChunkType;
use png_chunks::crc32::calculate_crc;
use png_chunks::errors::{Expectations, PngError};
use png_chunks::png::Png;

const SIGNATURE: [u8; 8] = [137, 80, 78, 71, 13, 10, 26, 10];

fn make_chunk(kind: &str, data: &str) -> Chunk {
    Chunk::new(ChunkType::parse(kind).unwrap(), data.as_bytes().to_vec())
}

fn three_chunk_png() -> Png {
    Png::from_chunks(vec![
        make_chunk("RuSt", "I don't know what I'm doing"),
        make_chunk("TeAr", "Yes I'm crying"),
        make_chunk("RaGe", "Nooooooo"),
    ])
}

#[test]
fn chunk_round_trip_keeps_every_field() {
    let original = make_chunk("RuSt", "My life is like an eternal night...");
    let decoded = Chunk::try_from(&original.as_bytes()).unwrap();
    assert_eq!(decoded.length(), original.length());
    assert_eq!(decoded.chunk_type(), original.chunk_type());
    assert_eq!(decoded.data(), original.data());
    assert_eq!(decoded.crc(), original.crc());
}

#[test]
fn chunk_round_trip_with_empty_data() {
    let original = make_chunk("IEND", "");
    let bytes = original.as_bytes();
    assert_eq!(bytes.len(), 12);
    assert_eq!(original.crc(), 2923585666);
    let decoded = Chunk::try_from(&bytes).unwrap();
    assert_eq!(decoded.length(), 0);
    assert_eq!(decoded.crc(), 2923585666);
    assert!(decoded.data().is_empty());
}

#[test]
fn png_round_trip_keeps_signature_and_order() {
    let png = three_chunk_png();
    let bytes = png.as_bytes();
    let decoded = Png::try_from(&bytes).unwrap();
    assert_eq!(decoded.signature(), &SIGNATURE);
    assert_eq!(decoded.chunks().len(), 3);
    for (a, b) in decoded.chunks().iter().zip(png.chunks().iter()) {
        assert_eq!(a.chunk_type(), b.chunk_type());
        assert_eq!(a.data(), b.data());
        assert_eq!(a.crc(), b.crc());
    }
    assert_eq!(decoded.as_bytes(), bytes);
}

#[test]
fn equal_inputs_give_equal_checksums() {
    let a = make_chunk("TeAr", "same data");
    let b = make_chunk("TeAr", "same data");
    let c = make_chunk("TeAr", "other data");
    assert_eq!(a.crc(), b.crc());
    assert_ne!(a.crc(), c.crc());
}

#[test]
fn lowercase_third_byte_is_constructible_but_invalid() {
    let kind = ChunkType::from_bytes([82, 117, 115, 116]).unwrap();
    assert!(!kind.is_valid());
    assert!(!kind.is_reserved_bit_valid());
    let chunk = Chunk::new(kind, vec![1, 2, 3]);
    assert_eq!(chunk.length(), 3);
}

#[test]
fn flipped_data_byte_is_detected() {
    let mut bytes = make_chunk("RuSt", "My life is like an eternal night...").as_bytes();
    bytes[10] ^= 0x01;
    assert!(matches!(
        Chunk::try_from(&bytes),
        Err(PngError::InvalidCrc(Expectations { got: 2591807180, .. }))
    ));
}

#[test]
fn flipped_type_byte_is_detected() {
    let mut bytes = make_chunk("RuSt", "My life is like an eternal night...").as_bytes();
    bytes[6] ^= 0x20;
    assert!(matches!(Chunk::try_from(&bytes), Err(PngError::InvalidCrc(_))));
}

#[test]
fn any_wrong_signature_byte_is_refused() {
    let good = three_chunk_png().as_bytes();
    for i in 0..8 {
        let mut bytes = good.clone();
        bytes[i] ^= 0xFF;
        assert!(matches!(Png::try_from(&bytes), Err(PngError::InvalidPngSignature)));
    }
}

#[test]
fn secret_message_chunk() {
    let kind = ChunkType::from_bytes([82, 117, 83, 116]).unwrap();
    let data = "This is where your secret message will be!".as_bytes().to_vec();
    let chunk = Chunk::new(kind, data.clone());
    assert_eq!(chunk.length(), 42);
    assert_eq!(chunk.crc(), 2882656334);
    let bytes = chunk.as_bytes();
    assert_eq!(bytes.len(), 54);
    assert_eq!(&bytes[0..4], &[0, 0, 0, 42]);
    assert_eq!(&bytes[4..8], b"RuSt");
    assert_eq!(&bytes[8..50], data.as_slice());
    assert_eq!(&bytes[50..54], &2882656334u32.to_be_bytes());
    assert_eq!(Chunk::try_from(&bytes).unwrap().as_bytes(), bytes);
}

#[test]
fn find_and_remove_by_type_code() {
    let mut png = three_chunk_png();
    let (index, chunk) = png.search_chunk("TeAr").unwrap();
    assert_eq!(index, 1);
    assert_eq!(chunk.data_as_string().unwrap(), "Yes I'm crying");
    assert!(png.search_chunk("CuTe").is_none());
    let removed = png.remove_chunk("RuSt").unwrap();
    assert_eq!(removed.chunk_type().to_string(), "RuSt");
    assert!(png.search_chunk("RuSt").is_none());
    assert_eq!(png.chunks().len(), 2);
    assert_eq!(png.search_chunk("TeAr").unwrap().0, 0);
}

#[test]
fn signature_alone_decodes_to_no_chunks() {
    let png = Png::try_from(&SIGNATURE).unwrap();
    assert_eq!(png.chunks().len(), 0);
    assert_eq!(png.signature(), &SIGNATURE);
}

#[test]
fn declared_length_longer_than_input_is_truncated() {
    let mut bytes = SIGNATURE.to_vec();
    bytes.extend_from_slice(&100u32.to_be_bytes());
    bytes.extend_from_slice(b"RuSt");
    bytes.extend_from_slice(&[7u8; 50]);
    assert!(matches!(Png::try_from(&bytes), Err(PngError::TruncatedInput)));
    assert!(matches!(Chunk::try_from(&bytes[8..]), Err(PngError::TruncatedInput)));
}

#[test]
fn trailing_partial_bytes_are_truncated() {
    let mut bytes = three_chunk_png().as_bytes();
    bytes.extend_from_slice(&[0, 0]);
    assert!(matches!(Png::try_from(&bytes), Err(PngError::TruncatedInput)));
}

#[test]
fn short_inputs_are_truncated() {
    assert!(matches!(Png::try_from(&SIGNATURE[..5]), Err(PngError::TruncatedInput)));
    assert!(matches!(Chunk::try_from(&[0, 0, 0, 0, 82, 117]), Err(PngError::TruncatedInput)));
    assert!(matches!(Chunk::try_from(&[0, 0, 0, 0, 82, 117, 83, 116, 1]), Err(PngError::TruncatedInput)));
}

#[test]
fn bad_chunk_aborts_png_decoding() {
    let mut bytes = three_chunk_png().as_bytes();
    let last = bytes.len() - 1;
    bytes[last] ^= 0x01;
    assert!(matches!(Png::try_from(&bytes), Err(PngError::InvalidCrc(_))));
}

#[test]
fn type_code_text_errors() {
    assert!(matches!(ChunkType::parse("abc"), Err(PngError::InvalidTypeLength)));
    assert!(matches!(ChunkType::parse("abcde"), Err(PngError::InvalidTypeLength)));
    assert!(matches!(ChunkType::parse("Ru t"), Err(PngError::InvalidByte)));
    assert!(matches!(ChunkType::parse("Ruét"), Err(PngError::InvalidByte)));
    assert!(matches!(ChunkType::parse("ab1"), Err(PngError::InvalidByte)));
    assert!(ChunkType::parse("RuSt").unwrap().has_text("RuSt"));
    assert!(!ChunkType::parse("RuSt").unwrap().has_text("Rust"));
}

#[test]
fn invalid_utf8_data_is_reported() {
    let chunk = Chunk::new(ChunkType::parse("RuSt").unwrap(), vec![0xff, 0xfe]);
    assert!(matches!(chunk.data_as_string(), Err(PngError::InvalidUtf8)));
}

#[test]
fn duplicates_keep_order_and_first_wins() {
    let mut png = three_chunk_png();
    png.append_chunk(make_chunk("TeAr", "second tear"));
    assert_eq!(png.chunks().len(), 4);
    let (index, chunk) = png.search_chunk("TeAr").unwrap();
    assert_eq!(index, 1);
    assert_eq!(chunk.data_as_string().unwrap(), "Yes I'm crying");
    let removed = png.remove_chunk("TeAr").unwrap();
    assert_eq!(removed.data_as_string().unwrap(), "Yes I'm crying");
    let (index, chunk) = png.search_chunk("TeAr").unwrap();
    assert_eq!(index, 2);
    assert_eq!(chunk.data_as_string().unwrap(), "second tear");
}

#[test]
fn own_table_matches_chunk_checksum() {
    let kind = ChunkType::parse("RuSt").unwrap();
    let data = "My life is like an eternal night...".as_bytes();
    assert_eq!(calculate_crc(&kind, data), 2591807180);
    assert_eq!(calculate_crc(&kind, &[]), 3565422908);
    let chunk = Chunk::new(kind, b"This is where your secret message will be!".to_vec());
    assert_eq!(calculate_crc(chunk.chunk_type(), chunk.data()), chunk.crc());
}

#[test]
fn case_flags_follow_each_byte() {
    let kind = ChunkType::parse("bLOb").unwrap();
    assert!(!kind.is_critical());
    assert!(kind.is_public());
    assert!(kind.is_reserved_bit_valid());
    assert!(kind.is_safe_to_copy());
    assert!(kind.is_valid());
    assert_eq!(kind.bytes(), [98, 76, 79, 98]);
}
