use png_stego::crypto::{decrypt, derive_key, encrypt};

#[test]
fn key_depends_on_password_and_salt() {
    let a = derive_key(b"pw", &[1u8; 16]);
    assert_eq!(a, derive_key(b"pw", &[1u8; 16]));
    assert_ne!(a, derive_key(b"pw", &[2u8; 16]));
    assert_ne!(a, derive_key(b"pW", &[1u8; 16]));
    assert_ne!(a, [0u8; 32]);
}

#[test]
fn encrypt_then_decrypt() {
    let ct = encrypt(b"secret", b"pw", &[3u8; 16], &[4u8; 12]);
    assert_eq!(ct.len(), 6 + 16);
    assert_ne!(&ct[..6], b"secret");
    assert_eq!(decrypt(&ct, b"pw", &[3u8; 16], &[4u8; 12]).unwrap(), b"secret");
    assert!(decrypt(&ct, b"wrong", &[3u8; 16], &[4u8; 12]).is_none());
    assert!(decrypt(&ct, b"pw", &[3u8; 16], &[5u8; 12]).is_none());
    assert!(decrypt(&ct[..10], b"pw", &[3u8; 16], &[4u8; 12]).is_none());
}
