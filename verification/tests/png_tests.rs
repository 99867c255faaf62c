use pngme::Chunk;
use pngme::ChunkType;
use pngme::Png;
use pngme::PngError;

fn chunk_from(type_str: &str, message: &str) -> Chunk {
    let chunk_type = ChunkType::from_str(type_str).unwrap();
    Chunk::new(chunk_type, message.as_bytes().to_vec())
}

#[test]
fn test_chunk_round_trip() {
    let chunk = chunk_from("RuSt", "hello png");
    let bytes = chunk.as_bytes();
    let parsed = Chunk::parse(bytes.as_slice()).unwrap();
    assert_eq!(parsed.length(), chunk.length());
    assert_eq!(parsed.crc(), chunk.crc());
    assert_eq!(parsed.chunk_type().bytes(), chunk.chunk_type().bytes());
    assert_eq!(parsed.data(), chunk.data());
}

#[test]
fn test_png_round_trip() {
    let mut png = Png::new();
    png.append_chunk(chunk_from("RuSt", "first message"));
    png.append_chunk(chunk_from("TeSt", "second message"));
    let bytes = png.as_bytes();
    let reparsed = Png::parse(bytes.as_slice()).unwrap();
    assert_eq!(reparsed.as_bytes(), bytes);
    let c = reparsed.chunk_by_type("TeSt").unwrap();
    assert_eq!(c.data_as_string().unwrap(), "second message");
}

#[test]
fn test_chunk_bit_flip_yields_checksum_mismatch() {
    let chunk = chunk_from("RuSt", "payload under test");
    let bytes = chunk.as_bytes();
    let data_len = chunk.length() as usize;
    // Flip every single bit of the type tag and of the payload in turn.
    for pos in 4..(8 + data_len) {
        for bit in 0..8 {
            let mut corrupted = bytes.clone();
            corrupted[pos] ^= 1u8 << bit;
            let r = Chunk::parse(corrupted.as_slice());
            assert_eq!(r.unwrap_err(), PngError::ChecksumMismatch);
        }
    }
}

#[test]
fn test_chunk_type_from_str_rejects() {
    assert_eq!(ChunkType::from_str("Ru1t").unwrap_err(), PngError::InvalidFormat);
    assert_eq!(ChunkType::from_str("Ru").unwrap_err(), PngError::InvalidFormat);
    assert_eq!(ChunkType::from_str("Toolong").unwrap_err(), PngError::InvalidFormat);
    assert!(ChunkType::from_str("RuSt").is_ok());
}

#[test]
fn test_encode_end_to_end() {
    let message = "This is where your secret message will be!";
    let chunk = chunk_from("RuSt", message);
    assert_eq!(chunk.length(), 42);
    assert_eq!(chunk.crc(), 2882656334);

    let mut file: Vec<u8> = Png::standard_header().to_vec();
    file.extend_from_slice(chunk.as_bytes().as_slice());

    let png = Png::parse(file.as_slice()).unwrap();
    let found = png.chunk_by_type("RuSt").unwrap();
    assert_eq!(found.data_as_string().unwrap(), message);
}

#[test]
fn test_remove_chunk_then_lookup_fails() {
    let mut png = Png::new();
    png.append_chunk(chunk_from("RuSt", "secret"));
    let removed = png.remove_chunk("RuSt").unwrap();
    assert_eq!(removed.data_as_string().unwrap(), "secret");
    assert!(png.chunk_by_type("RuSt").is_none());
}

#[test]
fn test_remove_chunk_missing() {
    let mut png = Png::new();
    png.append_chunk(chunk_from("RuSt", "secret"));
    assert_eq!(png.remove_chunk("FrSt").unwrap_err(), PngError::ChunkNotFound);
    assert!(png.chunk_by_type("RuSt").is_some());
}

#[test]
fn test_remove_chunk_takes_first_match() {
    let mut png = Png::new();
    png.append_chunk(chunk_from("RuSt", "one"));
    png.append_chunk(chunk_from("RuSt", "two"));
    let removed = png.remove_chunk("RuSt").unwrap();
    assert_eq!(removed.data_as_string().unwrap(), "one");
    let left = png.chunk_by_type("RuSt").unwrap();
    assert_eq!(left.data_as_string().unwrap(), "two");
}

#[test]
fn test_parse_corrupted_signature() {
    let mut png = Png::new();
    png.append_chunk(chunk_from("RuSt", "secret"));
    let mut bytes = png.as_bytes();
    bytes[0] = 0x88;
    assert_eq!(Png::parse(bytes.as_slice()).unwrap_err(), PngError::InvalidSignature);
}

#[test]
fn test_parse_short_buffer_is_invalid_signature() {
    let bytes: Vec<u8> = vec![0x89, 0x50];
    assert_eq!(Png::parse(bytes.as_slice()).unwrap_err(), PngError::InvalidSignature);
}

#[test]
fn test_parse_truncated_chunk() {
    let mut png = Png::new();
    png.append_chunk(chunk_from("RuSt", "secret"));
    let mut bytes = png.as_bytes();
    bytes.pop();
    assert_eq!(Png::parse(bytes.as_slice()).unwrap_err(), PngError::Truncated);
}

#[test]
fn test_parse_signature_only() {
    let bytes = Png::standard_header().to_vec();
    let png = Png::parse(bytes.as_slice()).unwrap();
    assert_eq!(png.as_bytes(), bytes);
}

#[test]
fn test_data_as_string_replaces_invalid_utf8() {
    let chunk_type = ChunkType::from_bytes([82, 117, 83, 116]);
    let chunk = Chunk::new(chunk_type, vec![0xff, 0x61]);
    assert_eq!(chunk.data_as_string().unwrap(), "\u{fffd}a");
}

#[test]
fn test_chunk_as_bytes_layout() {
    let chunk_type = ChunkType::from_str("RuSt").unwrap();
    let chunk = Chunk::new(chunk_type, vec![7u8]);
    let bytes = chunk.as_bytes();
    assert_eq!(bytes.len(), 13);
    assert_eq!(&bytes[0..4], &[0, 0, 0, 1]);
    assert_eq!(&bytes[4..8], &[82, 117, 83, 116]);
    assert_eq!(bytes[8], 7);
    assert_eq!(&bytes[9..13], chunk.crc().to_be_bytes().as_slice());
}
