use png_stego::chunk_type::ChunkType;
use png_stego::chunk::Chunk;
use png_stego::Error;

fn iend() -> ChunkType {
    ChunkType::from_bytes([73, 69, 78, 68]).unwrap()
}

#[test]
fn chunk_type_from_letters() {
    let t = ChunkType::from_bytes([82, 117, 83, 116]).unwrap();
    assert_eq!(t.bytes(), [82, 117, 83, 116]);
}

#[test]
fn chunk_type_rejects_non_letters() {
    assert!(matches!(ChunkType::from_bytes([82, 117, 49, 116]), Err(Error::InvalidChunkType)));
    assert!(matches!(ChunkType::from_bytes([0, 117, 83, 116]), Err(Error::InvalidChunkType)));
    assert!(matches!(ChunkType::from_bytes([82, 117, 83, 123]), Err(Error::InvalidChunkType)));
}

#[test]
fn chunk_type_from_str() {
    let t = ChunkType::from_str("stEg").unwrap();
    assert_eq!(t.bytes(), *b"stEg");
    assert!(matches!(ChunkType::from_str("stE"), Err(Error::InvalidChunkType)));
    assert!(matches!(ChunkType::from_str("stEgg"), Err(Error::InvalidChunkType)));
    assert!(matches!(ChunkType::from_str("st1g"), Err(Error::InvalidChunkType)));
    assert!(matches!(ChunkType::from_str(""), Err(Error::InvalidChunkType)));
}

#[test]
fn chunk_type_properties() {
    let t = ChunkType::from_str("RuSt").unwrap();
    assert!(t.is_critical());
    assert!(!t.is_public());
    assert!(t.is_reserved_bit_valid());
    assert!(t.is_valid());
    assert!(t.is_safe_to_copy());
    let u = ChunkType::from_str("ruSt").unwrap();
    assert!(!u.is_critical());
    let v = ChunkType::from_str("RUst").unwrap();
    assert!(!v.is_valid());
    assert!(v.is_public());
    assert!(v.is_safe_to_copy());
}

#[test]
fn steg_type_properties() {
    let t = png_stego::stego::steg_type();
    assert_eq!(t.bytes(), *b"stEg");
    assert!(!t.is_critical());
    assert!(!t.is_public());
    assert!(t.is_valid());
    // Lower-case 'g': bit 5 of the last byte is set.
    assert!(t.is_safe_to_copy());
}

#[test]
fn chunk_type_equality() {
    let a = ChunkType::from_str("IEND").unwrap();
    assert!(a.same_as(&iend()));
    assert!(a == iend());
    assert!(!a.same_as(&ChunkType::from_str("IENd").unwrap()));
}

#[test]
fn chunk_checksum_of_iend() {
    let c = Chunk::new(iend(), Vec::new());
    assert_eq!(c.crc(), 0xAE42_6082);
    assert_eq!(c.length(), 0);
}

#[test]
fn chunk_checksum_of_text() {
    // CRC-32 of "IEND" followed by "123456789" differs from that of "IEND".
    let c = Chunk::new(iend(), b"123456789".to_vec());
    assert_ne!(c.crc(), 0xAE42_6082);
    assert_eq!(c.length(), 9);
    assert_eq!(c.data(), b"123456789");
}

#[test]
fn chunk_serialize_layout() {
    let c = Chunk::new(iend(), Vec::new());
    assert_eq!(c.serialize(), vec![0, 0, 0, 0, 73, 69, 78, 68, 0xAE, 0x42, 0x60, 0x82]);
    let d = Chunk::new(ChunkType::from_str("RuSt").unwrap(), b"hi".to_vec());
    let bytes = d.serialize();
    assert_eq!(bytes.len(), 14);
    assert_eq!(&bytes[0..4], &[0, 0, 0, 2]);
    assert_eq!(&bytes[4..8], b"RuSt");
    assert_eq!(&bytes[8..10], b"hi");
    assert_eq!(&bytes[10..14], &d.crc().to_be_bytes());
}

#[test]
fn chunk_round_trip() {
    let c = Chunk::new(ChunkType::from_str("RuSt").unwrap(), b"This is where your secret message will be!".to_vec());
    let back = Chunk::deserialize(&c.serialize()).unwrap();
    assert_eq!(back.chunk_type(), c.chunk_type());
    assert_eq!(back.data(), c.data());
    assert_eq!(back.crc(), c.crc());
    assert_eq!(back.length(), c.length());
}

#[test]
fn chunk_deserialize_ignores_bytes_after_it() {
    let c = Chunk::new(iend(), b"abc".to_vec());
    let mut bytes = c.serialize();
    bytes.extend_from_slice(&[1, 2, 3]);
    let back = Chunk::deserialize(&bytes).unwrap();
    assert_eq!(back.data(), b"abc");
}

#[test]
fn chunk_corruption_in_data_or_type_is_a_checksum_mismatch() {
    let c = Chunk::new(ChunkType::from_str("RuSt").unwrap(), b"payload".to_vec());
    let bytes = c.serialize();
    for i in 4..(8 + 7) {
        let mut bad = bytes.clone();
        bad[i] ^= 0x01;
        assert!(matches!(Chunk::deserialize(&bad), Err(Error::ChecksumMismatch)), "byte {}", i);
    }
}

#[test]
fn chunk_wrong_stored_checksum() {
    let c = Chunk::new(iend(), b"x".to_vec());
    let mut bytes = c.serialize();
    let last = bytes.len() - 1;
    bytes[last] ^= 0xFF;
    assert!(matches!(Chunk::deserialize(&bytes), Err(Error::ChecksumMismatch)));
}

#[test]
fn chunk_truncated() {
    let c = Chunk::new(iend(), b"abcdef".to_vec());
    let bytes = c.serialize();
    assert!(matches!(Chunk::deserialize(&bytes[..bytes.len() - 1]), Err(Error::Truncated)));
    assert!(matches!(Chunk::deserialize(&bytes[..5]), Err(Error::Truncated)));
    assert!(matches!(Chunk::deserialize(&[]), Err(Error::Truncated)));
}

#[test]
fn chunk_invalid_type_with_good_checksum() {
    let data = [0u8, 0, 0, 0, 49, 50, 51, 52];
    let crc = crc32_of_type_and_data(&data[4..8]);
    let mut bytes = data.to_vec();
    bytes.extend_from_slice(&crc.to_be_bytes());
    assert!(matches!(Chunk::deserialize(&bytes), Err(Error::InvalidChunkType)));
}

// A plain bitwise CRC-32, to build a chunk with a non-letter type code.
fn crc32_of_type_and_data(b: &[u8]) -> u32 {
    let mut crc: u32 = 0xFFFF_FFFF;
    for &x in b {
        crc ^= x as u32;
        for _ in 0..8 {
            let mask = (!(crc & 1)).wrapping_add(1);
            crc = (crc >> 1) ^ (0xEDB8_8320 & mask);
        }
    }
    !crc
}
