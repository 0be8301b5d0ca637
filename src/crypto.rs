//! Key derivation, authenticated encryption and random bytes.
use vstd::prelude::*;

verus! {

/// Bytes of salt drawn for each encrypted message.
pub const SALT_LEN: usize = 16;

/// Bytes of nonce drawn for each encrypted message.
pub const NONCE_LEN: usize = 12;

/// Bytes of the authentication tag that follows the ciphertext.
pub const TAG_LEN: usize = 16;

/// Iterations of the keyed hash in key derivation.
pub const KDF_ROUNDS: u32 = 100_000;

/// The largest plaintext that AES-GCM encrypts, in bytes (2^36).
pub const MAX_PLAINTEXT: u64 = 0x10_0000_0000;

/// The 32-byte key that PBKDF2 with HMAC-SHA-256 derives from a password and a
/// salt in the given number of rounds.
pub uninterp spec fn pbkdf2_sha256_of(password: Seq<u8>, salt: Seq<u8>, rounds: u32) -> Seq<u8>;

/// The ciphertext followed by the tag that AES-256-GCM makes of a plaintext
/// under a key and a nonce, with no associated data.
pub uninterp spec fn aes256gcm_seal_of(key: Seq<u8>, nonce: Seq<u8>, plaintext: Seq<u8>) -> Seq<u8>;

/// The plaintext that AES-256-GCM recovers from a ciphertext with its tag under
/// a key and a nonce, or `None` where the tag does not authenticate.
pub uninterp spec fn aes256gcm_open_of(key: Seq<u8>, nonce: Seq<u8>, ciphertext: Seq<u8>) -> Option<Seq<u8>>;

/// Where `ciphertext` is what sealing some plaintext under `key` and `nonce`
/// gave, `opened` is that plaintext.
pub open spec fn opens_to_sealed(key: Seq<u8>, nonce: Seq<u8>, ciphertext: Seq<u8>, opened: Option<Vec<u8>>) -> bool {
    forall|m: Seq<u8>|
        m.len() <= MAX_PLAINTEXT && ciphertext == #[trigger] aes256gcm_seal_of(key, nonce, m)
            ==> (opened matches Some(p) && p@ == m)
}

/// Relies on `pbkdf2::pbkdf2_hmac::<sha2::Sha256>`, which fills the 32-byte
/// key from the password, the salt and the round count alone.
#[verifier::external_body]
fn pbkdf2_sha256(password: &[u8], salt: &[u8], rounds: u32) -> (r: [u8; 32])
    ensures
        r@ == pbkdf2_sha256_of(password@, salt@, rounds),
{
    let mut key = [0u8; 32];
    pbkdf2::pbkdf2_hmac::<sha2::Sha256>(password, salt, rounds, &mut key);
    key
}

/// Relies on `aes_gcm::aead::Aead::encrypt` for `Aes256Gcm`: it fails only for
/// a plaintext over 2^36 bytes, and returns the ciphertext, as long as the
/// plaintext, followed by the 16-byte tag.
#[verifier::external_body]
fn aes256gcm_seal(key: &[u8; 32], nonce: &[u8], plaintext: &[u8]) -> (r: Vec<u8>)
    requires
        nonce@.len() == NONCE_LEN,
        plaintext@.len() <= MAX_PLAINTEXT,
    ensures
        r@ == aes256gcm_seal_of(key@, nonce@, plaintext@),
        r@.len() == plaintext@.len() + TAG_LEN,
{
    let cipher = <aes_gcm::Aes256Gcm as aes_gcm::KeyInit>::new(
        aes_gcm::Key::<aes_gcm::Aes256Gcm>::from_slice(key),
    );
    let nonce = aes_gcm::aead::Nonce::<aes_gcm::Aes256Gcm>::from_slice(nonce);
    aes_gcm::aead::Aead::encrypt(&cipher, nonce, plaintext).expect("plaintext within bounds")
}

/// Relies on `aes_gcm::aead::Aead::decrypt` for `Aes256Gcm`: it returns the
/// plaintext where the tag authenticates, and what `encrypt` sealed under the
/// same key and nonce opens to the plaintext that was sealed.
#[verifier::external_body]
fn aes256gcm_open(key: &[u8; 32], nonce: &[u8], ciphertext: &[u8]) -> (r: Option<Vec<u8>>)
    requires
        nonce@.len() == NONCE_LEN,
    ensures
        r matches Some(p) ==> aes256gcm_open_of(key@, nonce@, ciphertext@) == Some(p@),
        r is None ==> aes256gcm_open_of(key@, nonce@, ciphertext@) is None,
        opens_to_sealed(key@, nonce@, ciphertext@, r),
{
    let cipher = <aes_gcm::Aes256Gcm as aes_gcm::KeyInit>::new(
        aes_gcm::Key::<aes_gcm::Aes256Gcm>::from_slice(key),
    );
    let nonce = aes_gcm::aead::Nonce::<aes_gcm::Aes256Gcm>::from_slice(nonce);
    aes_gcm::aead::Aead::decrypt(&cipher, nonce, ciphertext).ok()
}

/// Relies on `rand::RngCore::try_fill_bytes` for `rand::rngs::OsRng`: the
/// buffer is filled from the operating system's secure generator, or the
/// generator's error comes back as an I/O error.
#[verifier::external_body]
pub(crate) fn random_bytes(n: usize) -> (r: Result<Vec<u8>, std::io::Error>)
    ensures
        r matches Ok(v) ==> v@.len() == n,
{
    let mut v = vec![0u8; n];
    match rand::RngCore::try_fill_bytes(&mut rand::rngs::OsRng, &mut v) {
        Ok(()) => Ok(v),
        Err(e) => Err(std::io::Error::from(e)),
    }
}

/// The key for a password and a salt.
pub fn derive_key(password: &[u8], salt: &[u8]) -> (r: [u8; 32])
    ensures
        r@ == pbkdf2_sha256_of(password@, salt@, KDF_ROUNDS),
{
    pbkdf2_sha256(password, salt, KDF_ROUNDS)
}

/// Encrypts `message` under the key of `password` and `salt`: the ciphertext
/// with its tag.
pub fn encrypt(message: &[u8], password: &[u8], salt: &[u8], nonce: &[u8]) -> (r: Vec<u8>)
    requires
        nonce@.len() == NONCE_LEN,
        message@.len() <= MAX_PLAINTEXT,
    ensures
        r@ == aes256gcm_seal_of(pbkdf2_sha256_of(password@, salt@, KDF_ROUNDS), nonce@, message@),
        r@.len() == message@.len() + TAG_LEN,
{
    let key = derive_key(password, salt);
    aes256gcm_seal(&key, nonce, message)
}

/// Decrypts `ciphertext` under the key of `password` and `salt`; `None` where
/// it does not authenticate.
pub fn decrypt(ciphertext: &[u8], password: &[u8], salt: &[u8], nonce: &[u8]) -> (r: Option<Vec<u8>>)
    requires
        nonce@.len() == NONCE_LEN,
    ensures
        ({
            let key = pbkdf2_sha256_of(password@, salt@, KDF_ROUNDS);
            &&& r matches Some(p) ==> aes256gcm_open_of(key, nonce@, ciphertext@) == Some(p@)
            &&& r is None ==> aes256gcm_open_of(key, nonce@, ciphertext@) is None
            &&& opens_to_sealed(key, nonce@, ciphertext@, r)
        }),
{
    let key = derive_key(password, salt);
    aes256gcm_open(&key, nonce, ciphertext)
}

} // verus!
