//! What holds across the operations: round trips, the protocol's identities,
//! and the detection of damaged chunks.
use vstd::prelude::*;
use vstd::utf8::{encode_utf8, encode_utf8_decode_utf8, encode_utf8_valid_utf8};

use crate::bytes::{be32, be32_at, lemma_be32_round_trip};
use crate::chunk::{chunk_at, crc32_of, ChunkView};
use crate::crypto::{aes256gcm_open_of, aes256gcm_seal_of, pbkdf2_sha256_of, KDF_ROUNDS};
use crate::png::{
    chunks_bytes, end_index, find_type, iend, is_first_of_type, lacks_type, lemma_find_type_first,
    lemma_find_type_none, lemma_find_type_some, parse_chunks, png_bytes, png_parse, png_signature,
    valid_container,
};
use crate::stego::{
    embedded, envelope, hidden, read_back, retrieved, steg_chunk, steg_code, stripped, text_of,
};
use crate::Error;

verus! {

/// A well-formed chunk followed by any bytes reads back as itself, taking
/// exactly its own bytes.
pub proof fn lemma_chunk_at_bytes(c: ChunkView, rest: Seq<u8>)
    requires
        c.wf(),
    ensures
        c.bytes().len() == 12 + c.data.len(),
        chunk_at(c.bytes() + rest) == Ok::<(ChunkView, nat), Error>((c, (12 + c.data.len()) as nat)),
{
    let n = c.data.len() as int;
    let s = c.bytes() + rest;
    let lb = be32(n as u32);
    let cb = be32(c.crc);
    lemma_be32_round_trip(n as u32);
    lemma_be32_round_trip(c.crc);
    assert(c.bytes().len() == 12 + n);
    assert(s[0] == lb[0] && s[1] == lb[1] && s[2] == lb[2] && s[3] == lb[3]);
    assert(be32_at(s, 0) == be32_at(lb, 0));
    assert(s[8 + n] == cb[0] && s[9 + n] == cb[1] && s[10 + n] == cb[2] && s[11 + n] == cb[3]);
    assert(be32_at(s, 8 + n) == be32_at(cb, 0));
    assert(s.subrange(4, 8) =~= c.ty);
    assert(s.subrange(8, 8 + n) =~= c.data);
    assert(s.subrange(4, 8 + n) =~= c.ty + c.data);
}

/// Chunk round trip: the bytes of a well-formed chunk read back as the same
/// type, data and checksum.
pub proof fn lemma_chunk_round_trip(c: ChunkView)
    requires
        c.wf(),
    ensures
        chunk_at(c.bytes()) == Ok::<(ChunkView, nat), Error>((c, c.bytes().len())),
{
    lemma_chunk_at_bytes(c, Seq::empty());
    assert(c.bytes() + Seq::<u8>::empty() =~= c.bytes());
}

/// Well-formed chunks, written one after the other, read back as the same list.
pub proof fn lemma_chunks_round_trip(cs: Seq<ChunkView>)
    requires
        forall|i: int| 0 <= i < cs.len() ==> (#[trigger] cs[i]).wf(),
    ensures
        parse_chunks(chunks_bytes(cs)) == Ok::<Seq<ChunkView>, Error>(cs),
    decreases cs.len(),
{
    if cs.len() == 0 {
        assert(chunks_bytes(cs) =~= Seq::<u8>::empty());
        assert(cs =~= Seq::<ChunkView>::empty());
    } else {
        let c = cs[0];
        let rest = cs.drop_first();
        let s = chunks_bytes(cs);
        assert(c.wf());
        assert forall|i: int| 0 <= i < rest.len() implies (#[trigger] rest[i]).wf() by {
            assert(rest[i] == cs[i + 1]);
        }
        lemma_chunk_at_bytes(c, chunks_bytes(rest));
        let n = 12 + c.data.len();
        assert(s == c.bytes() + chunks_bytes(rest));
        assert(s.len() >= n);
        assert(s.subrange(n as int, s.len() as int) =~= chunks_bytes(rest));
        lemma_chunks_round_trip(rest);
        assert(seq![c] + rest =~= cs);
    }
}

/// Round trip: the bytes of an image of well-formed chunks parse back as the
/// same chunks, in the same order.
pub proof fn lemma_png_round_trip(cs: Seq<ChunkView>)
    requires
        forall|i: int| 0 <= i < cs.len() ==> (#[trigger] cs[i]).wf(),
    ensures
        png_parse(png_bytes(cs)) == Ok::<Seq<ChunkView>, Error>(cs),
{
    let s = png_bytes(cs);
    assert(s.subrange(0, 8) =~= png_signature());
    assert(s.subrange(8, s.len() as int) =~= chunks_bytes(cs));
    lemma_chunks_round_trip(cs);
}

/// Every chunk that reads back from bytes is well formed.
pub proof fn lemma_parsed_chunks_wf(s: Seq<u8>)
    ensures
        parse_chunks(s) matches Ok(cs) ==> forall|i: int| 0 <= i < cs.len() ==> (#[trigger] cs[i]).wf(),
    decreases s.len(),
{
    if s.len() > 0 {
        if let Ok((c, n)) = chunk_at(s) {
            if 0 < n <= s.len() {
                let t = s.subrange(n as int, s.len() as int);
                lemma_parsed_chunks_wf(t);
                if let Ok(rest) = parse_chunks(t) {
                    let b = be32_at(s, 0) as int;
                    assert(s.subrange(4, 8 + b) =~= s.subrange(4, 8) + s.subrange(8, 8 + b));
                    assert(c.wf());
                    let cs = seq![c] + rest;
                    assert forall|i: int| 0 <= i < cs.len() implies (#[trigger] cs[i]).wf() by {
                        if i > 0 {
                            assert(cs[i] == rest[i - 1]);
                        }
                    }
                }
            }
        }
    }
}

/// A buffer that does not open with the PNG signature is refused as such.
pub proof fn lemma_invalid_signature(s: Seq<u8>)
    requires
        s.len() < 8 || s.subrange(0, 8) != png_signature(),
    ensures
        png_parse(s) == Err::<Seq<ChunkView>, Error>(Error::InvalidSignature),
{
}

/// Changing one byte of a chunk's type code or data is reported as a checksum
/// mismatch whenever the checksum of the changed bytes differs from the stored
/// one.
pub proof fn lemma_corruption_detected(c: ChunkView, i: int, v: u8)
    requires
        c.wf(),
        4 <= i < 8 + c.data.len(),
        crc32_of(c.bytes().update(i, v).subrange(4, 8 + c.data.len() as int)) != c.crc,
    ensures
        chunk_at(c.bytes().update(i, v)) == Err::<(ChunkView, nat), Error>(Error::ChecksumMismatch),
{
    let n = c.data.len() as int;
    let s = c.bytes();
    let t = s.update(i, v);
    lemma_chunk_at_bytes(c, Seq::empty());
    assert(s + Seq::<u8>::empty() =~= s);
    assert(be32_at(t, 0) == be32_at(s, 0));
    assert(be32_at(t, 8 + n) == be32_at(s, 8 + n));
}

/// Where the list has no `stEg` chunk, the one that embedding adds is the first.
pub proof fn lemma_embedded_found(cs: Seq<ChunkView>, data: Seq<u8>)
    requires
        lacks_type(cs, steg_code()),
    ensures
        0 <= end_index(cs) <= cs.len(),
        find_type(embedded(cs, data), steg_code()) == Some(end_index(cs)),
        embedded(cs, data)[end_index(cs)] == steg_chunk(data),
{
    lemma_find_type_some(cs, iend());
    let k = end_index(cs);
    let e = embedded(cs, data);
    assert forall|j: int| 0 <= j < k implies #[trigger] e[j].ty != steg_code() by {
        assert(e[j] == cs[j]);
    }
    assert(is_first_of_type(e, steg_code(), k));
    lemma_find_type_first(e, steg_code(), k);
}

/// Embed, then retrieve, without a password: the message comes back.
pub proof fn lemma_retrieve_plain(cs: Seq<ChunkView>, message: Seq<char>, salt: Seq<u8>, nonce: Seq<u8>)
    requires
        lacks_type(cs, steg_code()),
    ensures
        retrieved(embedded(cs, envelope(encode_utf8(message), None, salt, nonce)), None) == Ok::<
            Seq<char>,
            Error,
        >(message),
{
    let m = encode_utf8(message);
    let data = envelope(m, None, salt, nonce);
    lemma_embedded_found(cs, data);
    assert(data.subrange(1, data.len() as int) =~= m);
    encode_utf8_valid_utf8(message);
    encode_utf8_decode_utf8(message);
    assert(text_of(m) == message);
}

/// Hide a message without a password in an image's bytes, then read the
/// bytes that came out: the message comes back.
pub proof fn lemma_read_after_hide_plain(image: Seq<u8>, message: Seq<char>, salt: Seq<u8>, nonce: Seq<u8>)
    requires
        png_parse(image) matches Ok(cs) && lacks_type(cs, steg_code()),
        encode_utf8(message).len() + 1 <= u32::MAX,
    ensures
        hidden(image, encode_utf8(message), None, salt, nonce) matches Ok(out) && read_back(
            out,
            None,
        ) == Ok::<Seq<char>, Error>(message),
{
    let cs = png_parse(image)->Ok_0;
    let data = envelope(encode_utf8(message), None, salt, nonce);
    lemma_parsed_chunks_wf(image.subrange(8, image.len() as int));
    lemma_find_type_some(cs, iend());
    let e = embedded(cs, data);
    assert(steg_code() =~= seq![115u8, 116u8, 69u8, 103u8]);
    assert(steg_chunk(data).wf());
    assert forall|i: int| 0 <= i < e.len() implies (#[trigger] e[i]).wf() by {
        let k = end_index(cs);
        if i < k {
            assert(e[i] == cs[i]);
        } else if i > k {
            assert(e[i] == cs[i - 1]);
        }
    }
    lemma_png_round_trip(e);
    lemma_retrieve_plain(cs, message, salt, nonce);
}

/// Embed with a password, then retrieve with the same one: the message comes
/// back, given that the cipher opens what it sealed under the same key and
/// nonce (what every decryption call of the library is relied on for).
pub proof fn lemma_retrieve_sealed(
    cs: Seq<ChunkView>,
    message: Seq<char>,
    password: Seq<u8>,
    salt: Seq<u8>,
    nonce: Seq<u8>,
)
    requires
        lacks_type(cs, steg_code()),
        salt.len() == 16,
        nonce.len() == 12,
        ({
            let key = pbkdf2_sha256_of(password, salt, KDF_ROUNDS);
            aes256gcm_open_of(key, nonce, aes256gcm_seal_of(key, nonce, encode_utf8(message)))
                == Some(encode_utf8(message))
        }),
    ensures
        retrieved(
            embedded(cs, envelope(encode_utf8(message), Some(password), salt, nonce)),
            Some(password),
        ) == Ok::<Seq<char>, Error>(message),
{
    let m = encode_utf8(message);
    let data = envelope(m, Some(password), salt, nonce);
    let key = pbkdf2_sha256_of(password, salt, KDF_ROUNDS);
    lemma_embedded_found(cs, data);
    assert(data.subrange(1, 17) =~= salt);
    assert(data.subrange(17, 29) =~= nonce);
    assert(data.subrange(29, data.len() as int) =~= aes256gcm_seal_of(key, nonce, m));
    encode_utf8_valid_utf8(message);
    encode_utf8_decode_utf8(message);
    assert(text_of(m) == message);
}

/// Embed with a password, then retrieve without one: a password is required.
pub proof fn lemma_retrieve_needs_password(
    cs: Seq<ChunkView>,
    message: Seq<u8>,
    password: Seq<u8>,
    salt: Seq<u8>,
    nonce: Seq<u8>,
)
    requires
        lacks_type(cs, steg_code()),
    ensures
        retrieved(embedded(cs, envelope(message, Some(password), salt, nonce)), None) == Err::<
            Seq<char>,
            Error,
        >(Error::PasswordRequired),
{
    let data = envelope(message, Some(password), salt, nonce);
    lemma_embedded_found(cs, data);
}

/// Stripping an image with no hidden message fails and finds nothing.
pub proof fn lemma_strip_without_message(cs: Seq<ChunkView>)
    requires
        lacks_type(cs, steg_code()),
    ensures
        stripped(cs) == Err::<Seq<ChunkView>, Error>(Error::ChunkNotFound),
{
    lemma_find_type_none(cs, steg_code());
}

/// Stripping what embedding made gives back the image as it was: no `stEg`
/// chunk, and a valid container where the image was one.
pub proof fn lemma_strip_after_embed(cs: Seq<ChunkView>, data: Seq<u8>)
    requires
        lacks_type(cs, steg_code()),
    ensures
        stripped(embedded(cs, data)) == Ok::<Seq<ChunkView>, Error>(cs),
        valid_container(cs) ==> valid_container(stripped(embedded(cs, data))->Ok_0),
        lacks_type(stripped(embedded(cs, data))->Ok_0, steg_code()),
{
    lemma_embedded_found(cs, data);
    assert(embedded(cs, data).remove(end_index(cs)) =~= cs);
}

} // verus!
