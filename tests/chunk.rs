use pngchunk::{check_frame, Chunk, ChunkError, ChunkType};
use std::convert::TryFrom;
use std::str::FromStr;

fn testing_chunk() -> Chunk {
    let data_length: u32 = 42;
    let chunk_type = "RuSt".as_bytes();
    let message_bytes = "This is where your secret message will be!".as_bytes();
    let crc: u32 = 2882656334;

    let chunk_data: Vec<u8> = data_length
        .to_be_bytes()
        .iter()
        .chain(chunk_type.iter())
        .chain(message_bytes.iter())
        .chain(crc.to_be_bytes().iter())
        .copied()
        .collect();

    Chunk::try_from(chunk_data.as_ref()).unwrap()
}

fn wire(length: u32, tag: &[u8], payload: &[u8], crc: u32) -> Vec<u8> {
    length
        .to_be_bytes()
        .iter()
        .chain(tag.iter())
        .chain(payload.iter())
        .chain(crc.to_be_bytes().iter())
        .copied()
        .collect()
}

#[test]
fn test_new_chunk() {
    let chunk_type = ChunkType::from_str("RuSt").unwrap();
    let data = "This is where your secret message will be!"
        .as_bytes()
        .to_vec();
    let chunk = Chunk::new(chunk_type, data);
    assert_eq!(chunk.length(), 42);
    assert_eq!(chunk.crc(), 2882656334);
}

#[test]
fn test_chunk_length() {
    let chunk = testing_chunk();
    assert_eq!(chunk.length(), 42);
}

#[test]
fn test_chunk_type() {
    let chunk = testing_chunk();
    assert_eq!(chunk.chunk_type().to_text(), String::from("RuSt"));
}

#[test]
fn test_chunk_string() {
    let chunk = testing_chunk();
    let chunk_string = chunk.data_as_string().unwrap();
    let expected_chunk_string = String::from("This is where your secret message will be!");
    assert_eq!(chunk_string, expected_chunk_string);
}

#[test]
fn test_chunk_crc() {
    let chunk = testing_chunk();
    assert_eq!(chunk.crc(), 2882656334);
}

#[test]
fn test_valid_chunk_from_bytes() {
    let data_length: u32 = 42;
    let chunk_type = "RuSt".as_bytes();
    let message_bytes = "This is where your secret message will be!".as_bytes();
    let crc: u32 = 2882656334;

    let chunk_data: Vec<u8> = data_length
        .to_be_bytes()
        .iter()
        .chain(chunk_type.iter())
        .chain(message_bytes.iter())
        .chain(crc.to_be_bytes().iter())
        .copied()
        .collect();

    let chunk = Chunk::try_from(chunk_data.as_ref()).unwrap();

    let chunk_string = chunk.data_as_string().unwrap();
    let expected_chunk_string = String::from("This is where your secret message will be!");

    assert_eq!(chunk.length(), 42);
    assert_eq!(chunk.chunk_type().to_text(), String::from("RuSt"));
    assert_eq!(chunk_string, expected_chunk_string);
    assert_eq!(chunk.crc(), 2882656334);
}

#[test]
fn test_invalid_chunk_from_bytes() {
    let data_length: u32 = 42;
    let chunk_type = "RuSt".as_bytes();
    let message_bytes = "This is where your secret message will be!".as_bytes();
    let crc: u32 = 2882656333;

    let chunk_data: Vec<u8> = data_length
        .to_be_bytes()
        .iter()
        .chain(chunk_type.iter())
        .chain(message_bytes.iter())
        .chain(crc.to_be_bytes().iter())
        .copied()
        .collect();

    let chunk = Chunk::try_from(chunk_data.as_ref());

    assert!(chunk.is_err());
}

#[test]
pub fn test_chunk_trait_impls() {
    let data_length: u32 = 42;
    let chunk_type = "RuSt".as_bytes();
    let message_bytes = "This is where your secret message will be!".as_bytes();
    let crc: u32 = 2882656334;

    let chunk_data: Vec<u8> = data_length
        .to_be_bytes()
        .iter()
        .chain(chunk_type.iter())
        .chain(message_bytes.iter())
        .chain(crc.to_be_bytes().iter())
        .copied()
        .collect();

    let chunk: Chunk = TryFrom::try_from(chunk_data.as_ref()).unwrap();

    let _chunk_string = chunk.to_text();
}

#[test]
fn decode_wrong_checksum_is_checksum_mismatch() {
    let bytes = wire(42, b"RuSt", b"This is where your secret message will be!", 2882656333);
    assert_eq!(Chunk::decode(&bytes).unwrap_err(), ChunkError::ChecksumMismatch);
}

#[test]
fn decode_short_payload_is_length_mismatch() {
    let message = b"This is where your secret message will be!";
    let bytes = wire(42, b"RuSt", &message[..40], 2882656334);
    assert_eq!(Chunk::decode(&bytes).unwrap_err(), ChunkError::LengthMismatch);
}

#[test]
fn decode_long_payload_is_length_mismatch() {
    let bytes = wire(2, b"RuSt", b"abc", 0);
    assert_eq!(Chunk::decode(&bytes).unwrap_err(), ChunkError::LengthMismatch);
}

#[test]
fn decode_under_twelve_bytes_is_truncated() {
    assert_eq!(Chunk::decode(&[]).unwrap_err(), ChunkError::TruncatedInput);
    assert_eq!(Chunk::decode(&[0u8; 11]).unwrap_err(), ChunkError::TruncatedInput);
}

#[test]
fn decode_non_letter_tag_is_invalid_tag() {
    let bytes = wire(0, b"Ru1t", b"", 0);
    assert_eq!(Chunk::decode(&bytes).unwrap_err(), ChunkError::InvalidTag);
}

#[test]
fn decode_empty_payload() {
    let tag = ChunkType::from_text("IEND").unwrap();
    let chunk = Chunk::new(tag, Vec::new());
    let bytes = chunk.as_bytes();
    // The PNG end chunk: empty payload, checksum 0xAE426082.
    assert_eq!(bytes, vec![0, 0, 0, 0, b'I', b'E', b'N', b'D', 0xae, 0x42, 0x60, 0x82]);
    let back = Chunk::decode(&bytes).unwrap();
    assert_eq!(back.length(), 0);
    assert_eq!(back.data(), &[] as &[u8]);
    assert_eq!(back.crc(), 0xae42_6082);
}

#[test]
fn as_bytes_lays_out_length_tag_payload_checksum() {
    let tag = ChunkType::from_text("RuSt").unwrap();
    let message = b"This is where your secret message will be!".to_vec();
    let chunk = Chunk::new(tag, message.clone());
    assert_eq!(chunk.as_bytes(), wire(42, b"RuSt", &message, 2882656334));
    assert_eq!(chunk.as_bytes().len(), 12 + 42);
}

#[test]
fn round_trip_new_as_bytes_decode() {
    let tag = ChunkType::from_text("teXt").unwrap();
    let payload: Vec<u8> = (0u8..=255).collect();
    let chunk = Chunk::new(tag, payload.clone());
    let back = Chunk::decode(&chunk.as_bytes()).unwrap();
    assert_eq!(back.length(), 256);
    assert_eq!(*back.chunk_type(), tag);
    assert_eq!(back.data(), payload.as_slice());
    assert_eq!(back.crc(), chunk.crc());
}

#[test]
fn crc_is_deterministic() {
    let tag = ChunkType::from_text("RuSt").unwrap();
    let a = Chunk::new(tag, b"same bytes".to_vec());
    let b = Chunk::new(tag, b"same bytes".to_vec());
    assert_eq!(a.crc(), b.crc());
    let c = Chunk::new(tag, b"other bytes".to_vec());
    assert_ne!(a.crc(), c.crc());
}

#[test]
fn new_keeps_trailing_non_printable_bytes() {
    let tag = ChunkType::from_text("RuSt").unwrap();
    let chunk = Chunk::new(tag, vec![b'a', b' ', 0, b'\n']);
    assert_eq!(chunk.length(), 4);
    assert_eq!(chunk.data(), &[b'a', b' ', 0, b'\n']);
}

#[test]
fn text_view_keeps_punctuation_and_spaces() {
    let tag = ChunkType::from_text("RuSt").unwrap();
    let text = "Hello, world! (42% done) -- ok?";
    let chunk = Chunk::new(tag, text.as_bytes().to_vec());
    assert_eq!(chunk.data_as_string().unwrap(), text);
}

#[test]
fn text_view_rejects_invalid_utf8() {
    let tag = ChunkType::from_text("RuSt").unwrap();
    let chunk = Chunk::new(tag, vec![b'a', 0xff, b'b']);
    assert_eq!(chunk.data_as_string().unwrap_err(), ChunkError::NotUtf8Text);
}

#[test]
fn text_view_keeps_multibyte_characters() {
    let tag = ChunkType::from_text("RuSt").unwrap();
    let text = "größe ✓";
    let chunk = Chunk::new(tag, text.as_bytes().to_vec());
    assert_eq!(chunk.data_as_string().unwrap(), text);
}

#[test]
fn summary_names_tag_length_and_checksum() {
    let chunk = testing_chunk();
    assert_eq!(chunk.to_text(), "RuSt length=42 crc=2882656334");
    let end = Chunk::new(ChunkType::from_text("IEND").unwrap(), Vec::new());
    assert_eq!(end.to_text(), "IEND length=0 crc=2923585666");
}

#[test]
fn check_frame_on_given_checksums() {
    let bytes = wire(42, b"RuSt", b"This is where your secret message will be!", 2882656334);
    assert_eq!(check_frame(&bytes, 2882656334), Ok(42));
    assert_eq!(check_frame(&bytes, 2882656333), Err(ChunkError::ChecksumMismatch));
    assert_eq!(check_frame(&bytes[..11], 2882656334), Err(ChunkError::TruncatedInput));
    let short = wire(42, b"RuSt", b"only a few bytes", 0);
    assert_eq!(check_frame(&short, 0), Err(ChunkError::LengthMismatch));
    let bad_tag = wire(0, b"R_St", b"", 0);
    assert_eq!(check_frame(&bad_tag, 0), Err(ChunkError::InvalidTag));
}
