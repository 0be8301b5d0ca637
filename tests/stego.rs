use png_stego::chunk::Chunk;
use png_stego::chunk_type::ChunkType;
use png_stego::png::Png;
use png_stego::stego::{
    build_envelope, delete, embed, hide_message, hide_message_with, open_message, read, retrieve,
    strip,
};
use png_stego::Error;

const SIGNATURE: [u8; 8] = [137, 80, 78, 71, 13, 10, 26, 10];

fn chunk(code: &str, data: &[u8]) -> Chunk {
    Chunk::new(ChunkType::from_str(code).unwrap(), data.to_vec())
}

fn sample_png() -> Png {
    Png::from_chunks(vec![
        chunk("IHDR", &[0, 0, 0, 1, 0, 0, 0, 1, 8, 2, 0, 0, 0]),
        chunk("IDAT", &[120, 156, 99, 248, 15, 0, 1, 1, 1, 0]),
        chunk("tEXt", b"Comment\0IEND inside data"),
        chunk("IEND", &[]),
    ])
}

fn sample_bytes() -> Vec<u8> {
    sample_png().serialize()
}

fn types(p: &Png) -> Vec<[u8; 4]> {
    p.chunks().iter().map(|c| c.chunk_type().bytes()).collect()
}

#[test]
fn png_serialize_starts_with_signature() {
    let bytes = sample_bytes();
    assert_eq!(&bytes[..8], &SIGNATURE);
    let expected: usize = 8 + sample_png().chunks().iter().map(|c| 12 + c.data().len()).sum::<usize>();
    assert_eq!(bytes.len(), expected);
}

#[test]
fn png_round_trip() {
    let bytes = sample_bytes();
    let p = Png::parse(&bytes).unwrap();
    assert_eq!(types(&p), vec![*b"IHDR", *b"IDAT", *b"tEXt", *b"IEND"]);
    for (a, b) in p.chunks().iter().zip(sample_png().chunks().iter()) {
        assert_eq!(a.data(), b.data());
        assert_eq!(a.crc(), b.crc());
    }
    assert_eq!(p.serialize(), bytes);
}

#[test]
fn png_invalid_signature() {
    let mut bytes = sample_bytes();
    bytes[0] = 0;
    assert!(matches!(Png::parse(&bytes), Err(Error::InvalidSignature)));
    assert!(matches!(Png::parse(&SIGNATURE[..7]), Err(Error::InvalidSignature)));
    assert!(matches!(Png::parse(&[]), Err(Error::InvalidSignature)));
}

#[test]
fn png_signature_only_has_no_chunks() {
    let p = Png::parse(&SIGNATURE).unwrap();
    assert_eq!(p.chunks().len(), 0);
}

#[test]
fn png_truncated_and_corrupt_chunks() {
    let bytes = sample_bytes();
    assert!(matches!(Png::parse(&bytes[..bytes.len() - 2]), Err(Error::Truncated)));
    let mut bad = bytes.clone();
    bad[8 + 9] ^= 0x40;
    assert!(matches!(Png::parse(&bad), Err(Error::ChecksumMismatch)));
}

#[test]
fn png_append_remove_and_lookup() {
    let mut p = sample_png();
    p.append_chunk(chunk("ruSt", b"x"));
    assert_eq!(p.chunks().len(), 5);
    let t = ChunkType::from_str("tEXt").unwrap();
    assert_eq!(p.position_of(&t), Some(2));
    assert_eq!(p.chunk_by_type(&t).unwrap().data(), b"Comment\0IEND inside data");
    let removed = p.remove_chunk(&t).unwrap();
    assert_eq!(removed.chunk_type(), t);
    assert_eq!(types(&p), vec![*b"IHDR", *b"IDAT", *b"IEND", *b"ruSt"]);
    assert!(matches!(p.remove_chunk(&t), Err(Error::ChunkNotFound)));
    assert!(p.chunk_by_type(&t).is_none());
}

#[test]
fn png_end_position() {
    let p = sample_png();
    assert_eq!(p.end_position(), 3);
    let q = Png::from_chunks(vec![chunk("IHDR", &[1])]);
    assert_eq!(q.end_position(), 1);
}

#[test]
fn embed_places_chunk_before_end_marker() {
    let mut p = sample_png();
    embed(&mut p, "hello", None, &[], &[]);
    assert_eq!(types(&p), vec![*b"IHDR", *b"IDAT", *b"tEXt", *b"stEg", *b"IEND"]);
    let c = p.chunk_by_type(&ChunkType::from_str("stEg").unwrap()).unwrap();
    assert_eq!(c.data(), b"\0hello");
}

#[test]
fn retrieve_plain_message() {
    let mut p = sample_png();
    embed(&mut p, "hello", None, &[], &[]);
    assert_eq!(retrieve(&p, None).unwrap(), "hello");
    // A password given for a plain message is not needed.
    assert_eq!(retrieve(&p, Some("pw")).unwrap(), "hello");
}

#[test]
fn empty_password_means_plain() {
    let mut p = sample_png();
    embed(&mut p, "hello", Some(""), &[], &[]);
    let c = p.chunk_by_type(&ChunkType::from_str("stEg").unwrap()).unwrap();
    assert_eq!(c.data()[0], 0);
    assert_eq!(retrieve(&p, Some("")).unwrap(), "hello");
}

#[test]
fn hide_then_read_plain() {
    let out = hide_message(&sample_bytes(), "hello", None).unwrap();
    assert_eq!(read(&out, None).unwrap(), "hello");
}

#[test]
fn hide_then_read_encrypted() {
    let out = hide_message(&sample_bytes(), "secret", Some("pw")).unwrap();
    assert_eq!(read(&out, Some("pw")).unwrap(), "secret");
}

#[test]
fn read_with_wrong_password_fails() {
    let out = hide_message(&sample_bytes(), "secret", Some("pw")).unwrap();
    assert!(matches!(read(&out, Some("wrong")), Err(Error::DecryptionFailed)));
}

#[test]
fn read_without_password_fails() {
    let out = hide_message(&sample_bytes(), "secret", Some("pw")).unwrap();
    assert!(matches!(read(&out, None), Err(Error::PasswordRequired)));
    assert!(matches!(read(&out, Some("")), Err(Error::PasswordRequired)));
}

#[test]
fn hide_draws_fresh_salt_and_nonce() {
    let a = hide_message(&sample_bytes(), "secret", Some("pw")).unwrap();
    let b = hide_message(&sample_bytes(), "secret", Some("pw")).unwrap();
    assert_ne!(a, b);
}

#[test]
fn hide_with_fixed_salt_is_deterministic() {
    let salt = [7u8; 16];
    let nonce = [9u8; 12];
    let a = hide_message_with(&sample_bytes(), "secret", Some("pw"), &salt, &nonce).unwrap();
    let b = hide_message_with(&sample_bytes(), "secret", Some("pw"), &salt, &nonce).unwrap();
    assert_eq!(a, b);
    let p = Png::parse(&a).unwrap();
    let c = p.chunk_by_type(&ChunkType::from_str("stEg").unwrap()).unwrap();
    let data = c.data();
    assert_eq!(data[0], 1);
    assert_eq!(&data[1..17], &salt);
    assert_eq!(&data[17..29], &nonce);
    assert_eq!(data.len(), 29 + 6 + 16);
    assert_ne!(&data[29..35], b"secret");
    assert_eq!(read(&a, Some("pw")).unwrap(), "secret");
}

#[test]
fn tampered_ciphertext_fails_to_decrypt() {
    let salt = [1u8; 16];
    let nonce = [2u8; 12];
    let env = build_envelope(b"secret", Some("pw"), &salt, &nonce);
    let mut bad = env.clone();
    let last = bad.len() - 1;
    bad[last] ^= 1;
    assert_eq!(open_message(&env, Some("pw")).unwrap(), b"secret");
    assert!(matches!(open_message(&bad, Some("pw")), Err(Error::DecryptionFailed)));
}

#[test]
fn envelope_errors() {
    assert!(matches!(open_message(&[], None), Err(Error::Truncated)));
    assert!(matches!(open_message(&[2, 1, 2], None), Err(Error::Truncated)));
    assert!(matches!(open_message(&[1, 0, 0], Some("pw")), Err(Error::Truncated)));
    assert!(matches!(open_message(&[1, 0, 0], None), Err(Error::PasswordRequired)));
    assert_eq!(open_message(&[0, 104, 105], None).unwrap(), b"hi");
}

#[test]
fn read_invalid_utf8_is_replaced() {
    let mut p = sample_png();
    p.append_chunk(chunk("stEg", &[0, 104, 0xFF, 105]));
    assert_eq!(retrieve(&p, None).unwrap(), "h\u{FFFD}i");
}

#[test]
fn read_without_message() {
    assert!(matches!(read(&sample_bytes(), None), Err(Error::ChunkNotFound)));
}

#[test]
fn strip_without_message_fails() {
    let mut p = sample_png();
    assert!(matches!(strip(&mut p), Err(Error::ChunkNotFound)));
    assert_eq!(p.chunks().len(), 4);
    assert!(matches!(delete(&sample_bytes()), Err(Error::ChunkNotFound)));
}

#[test]
fn strip_after_embed_restores_image() {
    let image = sample_bytes();
    let out = hide_message(&image, "secret", Some("pw")).unwrap();
    let cleaned = delete(&out).unwrap();
    assert_eq!(cleaned, image);
    let p = Png::parse(&cleaned).unwrap();
    assert_eq!(types(&p).first(), Some(b"IHDR"));
    assert_eq!(types(&p).last(), Some(b"IEND"));
    assert!(matches!(read(&cleaned, None), Err(Error::ChunkNotFound)));
}

#[test]
fn strip_removes_only_first_message() {
    let mut p = sample_png();
    embed(&mut p, "one", None, &[], &[]);
    embed(&mut p, "two", None, &[], &[]);
    assert_eq!(retrieve(&p, None).unwrap(), "one");
    strip(&mut p).unwrap();
    assert_eq!(retrieve(&p, None).unwrap(), "two");
}

#[test]
fn operations_report_parse_errors() {
    let bad = [0u8; 20];
    assert!(matches!(hide_message(&bad, "m", None), Err(Error::InvalidSignature)));
    assert!(matches!(read(&bad, None), Err(Error::InvalidSignature)));
    assert!(matches!(delete(&bad), Err(Error::InvalidSignature)));
}

#[test]
fn unicode_message_round_trip() {
    let out = hide_message(&sample_bytes(), "héllo, wörld ✓", Some("pässwörd")).unwrap();
    assert_eq!(read(&out, Some("pässwörd")).unwrap(), "héllo, wörld ✓");
}
