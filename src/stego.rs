//! The hidden message: an envelope in a chunk of type `stEg`, put before the end
//! marker, read back, or removed.
use vstd::prelude::*;
use vstd::slice::{slice_subrange, slice_to_vec};
use vstd::string::StringSliceAdditionalSpecFns;
use vstd::utf8::{decode_utf8, valid_utf8};

use crate::chunk::{crc32_of, Chunk, ChunkView};
use crate::chunk_type::{is_letter, ChunkType};
use crate::crypto::{
    aes256gcm_open_of, aes256gcm_seal_of, decrypt, encrypt, pbkdf2_sha256_of, random_bytes,
    KDF_ROUNDS, NONCE_LEN, SALT_LEN,
};
use crate::png::{end_index, find_type, lemma_find_type_some, png_bytes, png_parse, Png};
use crate::Error;

verus! {

/// The type code of the chunk that carries the message, `stEg`.
pub open spec fn steg_code() -> Seq<u8> {
    seq![115u8, 116u8, 69u8, 103u8]
}

/// First byte of an envelope whose message is stored as it is.
pub const FLAG_PLAIN: u8 = 0;

/// First byte of an envelope whose message is encrypted.
pub const FLAG_SEALED: u8 = 1;

/// Bytes before the ciphertext in an encrypted envelope: flag, salt, nonce.
pub const SEALED_HEADER_LEN: usize = 29;

/// Bytes that an envelope adds at most to the message: flag, salt, nonce, tag.
pub const ENVELOPE_OVERHEAD: usize = 45;

/// The text that bytes decode to, each invalid UTF-8 sequence replaced by
/// U+FFFD.
pub uninterp spec fn utf8_lossy_of(b: Seq<u8>) -> Seq<char>;

/// Relies on `String::from_utf8_lossy`: valid UTF-8 decodes as it is, and each
/// invalid sequence becomes U+FFFD.
#[verifier::external_body]
fn text_from_utf8_lossy(b: &[u8]) -> (r: String)
    ensures
        r@ == utf8_lossy_of(b@),
        valid_utf8(b@) ==> r@ == decode_utf8(b@),
{
    String::from_utf8_lossy(b).into_owned()
}

/// The password's bytes; an absent and an empty password both mean none.
pub open spec fn password_bytes(password: Option<&str>) -> Option<Seq<u8>> {
    match password {
        Some(p) => if p.spec_bytes().len() > 0 {
            Some(p.spec_bytes())
        } else {
            None
        },
        None => None,
    }
}

/// An encrypted envelope: flag, salt, nonce, then the message sealed under the
/// key of the password and the salt.
pub open spec fn sealed_envelope(message: Seq<u8>, password: Seq<u8>, salt: Seq<u8>, nonce: Seq<u8>) -> Seq<u8> {
    seq![FLAG_SEALED] + salt + nonce + aes256gcm_seal_of(
        pbkdf2_sha256_of(password, salt, KDF_ROUNDS),
        nonce,
        message,
    )
}

/// The envelope of a message: encrypted where there is a password, else the
/// plain flag and the message.
pub open spec fn envelope(message: Seq<u8>, password: Option<Seq<u8>>, salt: Seq<u8>, nonce: Seq<u8>) -> Seq<u8> {
    match password {
        Some(p) => sealed_envelope(message, p, salt, nonce),
        None => seq![FLAG_PLAIN] + message,
    }
}

/// The message in an envelope, or why it cannot be had.
pub open spec fn open_envelope(data: Seq<u8>, password: Option<Seq<u8>>) -> core::result::Result<Seq<u8>, Error> {
    if data.len() == 0 {
        Err(Error::Truncated)
    } else if data[0] == FLAG_PLAIN {
        Ok(data.subrange(1, data.len() as int))
    } else if data[0] == FLAG_SEALED {
        match password {
            None => Err(Error::PasswordRequired),
            Some(p) => if data.len() < SEALED_HEADER_LEN {
                Err(Error::Truncated)
            } else {
                match aes256gcm_open_of(
                    pbkdf2_sha256_of(p, data.subrange(1, 17), KDF_ROUNDS),
                    data.subrange(17, 29),
                    data.subrange(29, data.len() as int),
                ) {
                    Some(m) => Ok(m),
                    None => Err(Error::DecryptionFailed),
                }
            },
        }
    } else {
        Err(Error::Truncated)
    }
}

/// The `stEg` chunk with the given data.
pub open spec fn steg_chunk(data: Seq<u8>) -> ChunkView {
    ChunkView { ty: steg_code(), data, crc: crc32_of(steg_code() + data) }
}

/// The chunks with a `stEg` chunk holding `data` put before the end marker.
pub open spec fn embedded(cs: Seq<ChunkView>, data: Seq<u8>) -> Seq<ChunkView> {
    cs.insert(end_index(cs), steg_chunk(data))
}

/// Bytes as text: decoded where they are valid UTF-8, else with each invalid
/// sequence replaced by U+FFFD.
pub open spec fn text_of(b: Seq<u8>) -> Seq<char> {
    if valid_utf8(b) {
        decode_utf8(b)
    } else {
        utf8_lossy_of(b)
    }
}

/// The message that the first `stEg` chunk holds, as text.
pub open spec fn retrieved(cs: Seq<ChunkView>, password: Option<Seq<u8>>) -> core::result::Result<Seq<char>, Error> {
    match find_type(cs, steg_code()) {
        None => Err(Error::ChunkNotFound),
        Some(i) => match open_envelope(cs[i].data, password) {
            Ok(m) => Ok(text_of(m)),
            Err(e) => Err(e),
        },
    }
}

/// The chunks without the first `stEg` chunk.
pub open spec fn stripped(cs: Seq<ChunkView>) -> core::result::Result<Seq<ChunkView>, Error> {
    match find_type(cs, steg_code()) {
        None => Err(Error::ChunkNotFound),
        Some(i) => Ok(cs.remove(i)),
    }
}

/// The image's bytes with the message hidden in them.
pub open spec fn hidden(image: Seq<u8>, message: Seq<u8>, password: Option<Seq<u8>>, salt: Seq<u8>, nonce: Seq<u8>) -> core::result::Result<Seq<u8>, Error> {
    match png_parse(image) {
        Err(e) => Err(e),
        Ok(cs) => Ok(png_bytes(embedded(cs, envelope(message, password, salt, nonce)))),
    }
}

/// The message hidden in the image's bytes.
pub open spec fn read_back(image: Seq<u8>, password: Option<Seq<u8>>) -> core::result::Result<Seq<char>, Error> {
    match png_parse(image) {
        Err(e) => Err(e),
        Ok(cs) => retrieved(cs, password),
    }
}

/// The image's bytes without the hidden message.
pub open spec fn deleted(image: Seq<u8>) -> core::result::Result<Seq<u8>, Error> {
    match png_parse(image) {
        Err(e) => Err(e),
        Ok(cs) => match stripped(cs) {
            Ok(d) => Ok(png_bytes(d)),
            Err(e) => Err(e),
        },
    }
}

/// A result of bytes, seen as a byte sequence.
pub open spec fn bytes_result(r: core::result::Result<Vec<u8>, Error>) -> core::result::Result<Seq<u8>, Error> {
    match r {
        Ok(v) => Ok(v@),
        Err(e) => Err(e),
    }
}

/// A result of text, seen as a sequence of characters.
pub open spec fn text_result(r: core::result::Result<String, Error>) -> core::result::Result<Seq<char>, Error> {
    match r {
        Ok(t) => Ok(t@),
        Err(e) => Err(e),
    }
}

/// The type code `stEg`.
pub fn steg_type() -> (r: ChunkType)
    ensures
        r@ == steg_code(),
        r.wf(),
{
    assert(is_letter(115) && is_letter(116) && is_letter(69) && is_letter(103));
    let code: [u8; 4] = [115, 116, 69, 103];
    assert(code@ =~= steg_code());
    ChunkType::from_letters(code)
}

fn password_of(password: Option<&str>) -> (r: Option<&[u8]>)
    ensures
        match password_bytes(password) {
            Some(p) => r matches Some(b) && b@ == p,
            None => r is None,
        },
{
    match password {
        Some(p) => {
            let b = p.as_bytes();
            if b.len() > 0 {
                Some(b)
            } else {
                None
            }
        },
        None => None,
    }
}

/// The envelope of a message: encrypted under the password with the given
/// salt and nonce where there is a password, else stored as it is.
pub fn build_envelope(message: &[u8], password: Option<&str>, salt: &[u8], nonce: &[u8]) -> (r: Vec<u8>)
    requires
        message@.len() + ENVELOPE_OVERHEAD <= u32::MAX,
        password_bytes(password) is Some ==> salt@.len() == SALT_LEN && nonce@.len() == NONCE_LEN,
    ensures
        r@ == envelope(message@, password_bytes(password), salt@, nonce@),
        r@.len() <= message@.len() + ENVELOPE_OVERHEAD,
{
    let mut out: Vec<u8> = Vec::new();
    match password_of(password) {
        Some(pw) => {
            let ct = encrypt(message, pw, salt, nonce);
            out.push(FLAG_SEALED);
            out.extend_from_slice(salt);
            out.extend_from_slice(nonce);
            out.extend_from_slice(ct.as_slice());
            assert(out@ =~= sealed_envelope(message@, pw@, salt@, nonce@));
        },
        None => {
            out.push(FLAG_PLAIN);
            out.extend_from_slice(message);
            assert(out@ =~= seq![FLAG_PLAIN] + message@);
        },
    }
    out
}

/// The message in an envelope: the bytes after a plain flag, or the
/// decryption under the password of what follows the salt and nonce.
pub fn open_message(data: &[u8], password: Option<&str>) -> (r: Result<Vec<u8>, Error>)
    ensures
        bytes_result(r) == open_envelope(data@, password_bytes(password)),
{
    if data.len() == 0 {
        return Err(Error::Truncated);
    }
    if data[0] == FLAG_PLAIN {
        Ok(slice_to_vec(slice_subrange(data, 1, data.len())))
    } else if data[0] == FLAG_SEALED {
        match password_of(password) {
            None => Err(Error::PasswordRequired),
            Some(pw) => {
                if data.len() < SEALED_HEADER_LEN {
                    return Err(Error::Truncated);
                }
                let salt = slice_subrange(data, 1, 17);
                let nonce = slice_subrange(data, 17, 29);
                let ct = slice_subrange(data, 29, data.len());
                match decrypt(ct, pw, salt, nonce) {
                    Some(m) => Ok(m),
                    None => Err(Error::DecryptionFailed),
                }
            },
        }
    } else {
        Err(Error::Truncated)
    }
}

/// Hides a message in the image: its envelope, in a `stEg` chunk, goes just
/// before the end marker.
pub fn embed(png: &mut Png, message: &str, password: Option<&str>, salt: &[u8], nonce: &[u8])
    requires
        old(png).wf(),
        message.spec_bytes().len() + ENVELOPE_OVERHEAD <= u32::MAX,
        password_bytes(password) is Some ==> salt@.len() == SALT_LEN && nonce@.len() == NONCE_LEN,
    ensures
        final(png)@ == embedded(
            old(png)@,
            envelope(message.spec_bytes(), password_bytes(password), salt@, nonce@),
        ),
        final(png).wf(),
{
    let data = build_envelope(message.as_bytes(), password, salt, nonce);
    let chunk = Chunk::new(steg_type(), data);
    let pos = png.end_position();
    proof {
        lemma_find_type_some(png@, crate::png::iend());
    }
    png.insert_chunk(pos, chunk);
}

/// The message hidden in the image.
pub fn retrieve(png: &Png, password: Option<&str>) -> (r: Result<String, Error>)
    ensures
        text_result(r) == retrieved(png@, password_bytes(password)),
{
    let t = steg_type();
    match png.chunk_by_type(&t) {
        None => Err(Error::ChunkNotFound),
        Some(c) => match open_message(c.data(), password) {
            Ok(m) => Ok(text_from_utf8_lossy(m.as_slice())),
            Err(e) => Err(e),
        },
    }
}

/// Removes the hidden message from the image; fails, leaving the image as it
/// was, where there is none.
pub fn strip(png: &mut Png) -> (r: Result<(), Error>)
    requires
        old(png).wf(),
    ensures
        final(png).wf(),
        match stripped(old(png)@) {
            Ok(d) => r is Ok && final(png)@ == d,
            Err(e) => r matches Err(f) && f == e && final(png)@ == old(png)@,
        },
{
    let t = steg_type();
    match png.remove_chunk(&t) {
        Ok(_) => Ok(()),
        Err(e) => Err(e),
    }
}

/// The image's bytes with the message hidden in them, encrypted with the
/// given salt and nonce where there is a password.
pub fn hide_message_with(image: &[u8], message: &str, password: Option<&str>, salt: &[u8], nonce: &[u8]) -> (r: Result<Vec<u8>, Error>)
    requires
        message.spec_bytes().len() + ENVELOPE_OVERHEAD <= u32::MAX,
        password_bytes(password) is Some ==> salt@.len() == SALT_LEN && nonce@.len() == NONCE_LEN,
    ensures
        bytes_result(r) == hidden(image@, message.spec_bytes(), password_bytes(password), salt@, nonce@),
{
    match Png::parse(image) {
        Err(e) => Err(e),
        Ok(mut png) => {
            embed(&mut png, message, password, salt, nonce);
            Ok(png.serialize())
        },
    }
}

/// The image's bytes with the message hidden in them; where there is a
/// password, a fresh salt and nonce are drawn for it.
pub fn hide_message(image: &[u8], message: &str, password: Option<&str>) -> (r: Result<Vec<u8>, Error>)
    requires
        message.spec_bytes().len() + ENVELOPE_OVERHEAD <= u32::MAX,
    ensures
        r matches Ok(v) ==> exists|salt: Seq<u8>, nonce: Seq<u8>|
            salt.len() == SALT_LEN && nonce.len() == NONCE_LEN && #[trigger] hidden(
                image@,
                message.spec_bytes(),
                password_bytes(password),
                salt,
                nonce,
            ) == Ok::<Seq<u8>, Error>(v@),
        r matches Err(e) ==> png_parse(image@) == Err::<Seq<ChunkView>, Error>(e) || (
        png_parse(image@) is Ok && password_bytes(password) is Some && e is Io),
        png_parse(image@) is Ok && password_bytes(password) is None ==> r is Ok,
{
    let mut png = match Png::parse(image) {
        Err(e) => {
            return Err(e);
        },
        Ok(p) => p,
    };
    let (salt, nonce) = match password_of(password) {
        Some(_) => {
            let salt = match random_bytes(SALT_LEN) {
                Ok(v) => v,
                Err(e) => {
                    return Err(Error::Io(e));
                },
            };
            let nonce = match random_bytes(NONCE_LEN) {
                Ok(v) => v,
                Err(e) => {
                    return Err(Error::Io(e));
                },
            };
            (salt, nonce)
        },
        None => (Vec::new(), Vec::new()),
    };
    embed(&mut png, message, password, salt.as_slice(), nonce.as_slice());
    let out = png.serialize();
    // Without a password the envelope ignores salt and nonce, so any salt and
    // nonce of the right lengths witness the result.
    proof {
        let sv = salt@;
        let nv = nonce@;
        let sw = if sv.len() == SALT_LEN { sv } else { Seq::new(SALT_LEN as nat, |i: int| 0u8) };
        let nw = if nv.len() == NONCE_LEN { nv } else { Seq::new(NONCE_LEN as nat, |i: int| 0u8) };
        assert(envelope(message.spec_bytes(), password_bytes(password), sw, nw) == envelope(
            message.spec_bytes(),
            password_bytes(password),
            sv,
            nv,
        ));
        assert(hidden(image@, message.spec_bytes(), password_bytes(password), sw, nw) == Ok::<
            Seq<u8>,
            Error,
        >(out@));
    }
    Ok(out)
}

/// The message hidden in the image's bytes.
pub fn read(image: &[u8], password: Option<&str>) -> (r: Result<String, Error>)
    ensures
        text_result(r) == read_back(image@, password_bytes(password)),
{
    match Png::parse(image) {
        Err(e) => Err(e),
        Ok(png) => retrieve(&png, password),
    }
}

/// The image's bytes with the hidden message removed.
pub fn delete(image: &[u8]) -> (r: Result<Vec<u8>, Error>)
    ensures
        bytes_result(r) == deleted(image@),
{
    match Png::parse(image) {
        Err(e) => Err(e),
        Ok(mut png) => match strip(&mut png) {
            Ok(()) => Ok(png.serialize()),
            Err(e) => Err(e),
        },
    }
}

} // verus!
