//! Hiding a message inside a PNG image, in a chunk of its own.
//!
//! The image is handled as a container of checksummed chunks: it is parsed into
//! chunks, one chunk of type `stEg` is added, read or removed, and the container
//! is written back byte for byte.
use vstd::prelude::*;

pub mod bytes;
pub mod chunk;
pub mod chunk_type;
pub mod crypto;
pub mod laws;
pub mod png;
pub mod stego;

pub use chunk::Chunk;
pub use chunk_type::ChunkType;
pub use png::Png;

verus! {

/// An I/O error of the layer that reads and writes the image.
#[verifier::external_type_specification]
#[verifier::external_body]
pub struct ExIoError(std::io::Error);

/// Everything that can go wrong while reading, changing or writing an image.
#[derive(Debug)]
pub enum Error {
    /// A chunk type code holds a byte that is not an ASCII letter.
    InvalidChunkType,
    /// The buffer does not start with the PNG signature.
    InvalidSignature,
    /// The stored checksum of a chunk differs from the one computed.
    ChecksumMismatch,
    /// A chunk (or the hidden message's envelope) is shorter than it declares.
    Truncated,
    /// The image holds no chunk with the hidden message.
    ChunkNotFound,
    /// The hidden message is encrypted and no password was given.
    PasswordRequired,
    /// The encrypted message did not authenticate under the key.
    DecryptionFailed,
    /// An error of the layer that reads and writes the image.
    Io(std::io::Error),
}

pub type Result<T> = core::result::Result<T, Error>;

} // verus!
