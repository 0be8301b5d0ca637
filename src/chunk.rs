//! Chunks: a type code, opaque data and a CRC-32 over both.
use vstd::prelude::*;
use vstd::slice::{slice_subrange, slice_to_vec};

use crate::bytes::{be32, be32_at, push_be32, read_be32};
use crate::chunk_type::{all_letters, ChunkType};
use crate::Error;

verus! {

/// The CRC-32 (reflected, polynomial 0xEDB88320, as PNG and zlib use it) of a
/// byte sequence.
pub uninterp spec fn crc32_of(b: Seq<u8>) -> u32;

/// Relies on `crc32fast::hash`: the standard CRC-32 of the bytes, which depends
/// on the bytes alone.
#[verifier::external_body]
fn crc32(b: &[u8]) -> (r: u32)
    ensures
        r == crc32_of(b@),
{
    crc32fast::hash(b)
}

/// What a chunk holds: its type code, its data and its stored checksum.
pub struct ChunkView {
    pub ty: Seq<u8>,
    pub data: Seq<u8>,
    pub crc: u32,
}

impl ChunkView {
    /// A type code of four letters, a length that fits the 32-bit length
    /// field, and the checksum of the type code followed by the data.
    pub open spec fn wf(self) -> bool {
        &&& all_letters(self.ty)
        &&& self.data.len() <= u32::MAX
        &&& self.crc == crc32_of(self.ty + self.data)
    }

    /// The chunk as it is written: length, type code, data, checksum, with the
    /// integers big-endian.
    pub open spec fn bytes(self) -> Seq<u8> {
        be32(self.data.len() as u32) + self.ty + self.data + be32(self.crc)
    }
}

/// Reads the chunk at the front of `s`: the chunk and the number of bytes it
/// takes, or the first thing that is wrong with it.
pub open spec fn chunk_at(s: Seq<u8>) -> core::result::Result<(ChunkView, nat), Error> {
    if s.len() < 12 {
        Err(Error::Truncated)
    } else {
        let n = be32_at(s, 0) as int;
        if s.len() < 12 + n {
            Err(Error::Truncated)
        } else if be32_at(s, 8 + n) != crc32_of(s.subrange(4, 8 + n)) {
            Err(Error::ChecksumMismatch)
        } else if !all_letters(s.subrange(4, 8)) {
            Err(Error::InvalidChunkType)
        } else {
            Ok(
                (
                    ChunkView {
                        ty: s.subrange(4, 8),
                        data: s.subrange(8, 8 + n),
                        crc: be32_at(s, 8 + n),
                    },
                    (12 + n) as nat,
                ),
            )
        }
    }
}

/// One chunk of a PNG image.
pub struct Chunk {
    chunk_type: ChunkType,
    data: Vec<u8>,
    crc: u32,
}

impl View for Chunk {
    type V = ChunkView;

    closed spec fn view(&self) -> ChunkView {
        ChunkView { ty: self.chunk_type@, data: self.data@, crc: self.crc }
    }
}

impl Chunk {
    pub open spec fn wf(&self) -> bool {
        self@.wf()
    }

    /// A chunk of the given type and data, with its checksum computed.
    pub fn new(chunk_type: ChunkType, data: Vec<u8>) -> (r: Chunk)
        requires
            chunk_type.wf(),
            data@.len() <= u32::MAX,
        ensures
            r@.ty == chunk_type@,
            r@.data == data@,
            r.wf(),
    {
        let code = chunk_type.bytes();
        let mut buf: Vec<u8> = Vec::new();
        buf.push(code[0]);
        buf.push(code[1]);
        buf.push(code[2]);
        buf.push(code[3]);
        buf.extend_from_slice(data.as_slice());
        assert(buf@ =~= chunk_type@ + data@);
        let crc = crc32(buf.as_slice());
        Chunk { chunk_type, data, crc }
    }

    pub fn chunk_type(&self) -> (r: ChunkType)
        ensures
            r@ == self@.ty,
    {
        self.chunk_type
    }

    pub fn data(&self) -> (r: &[u8])
        ensures
            r@ == self@.data,
    {
        self.data.as_slice()
    }

    /// The length of the data.
    pub fn length(&self) -> (r: u32)
        requires
            self.wf(),
        ensures
            r == self@.data.len(),
    {
        self.data.len() as u32
    }

    /// The stored checksum.
    pub fn crc(&self) -> (r: u32)
        ensures
            r == self@.crc,
    {
        self.crc
    }

    /// The chunk's bytes: length, type code, data, checksum.
    pub fn serialize(&self) -> (r: Vec<u8>)
        requires
            self.wf(),
        ensures
            r@ == self@.bytes(),
    {
        let mut out: Vec<u8> = Vec::new();
        self.write_to(&mut out);
        assert(out@ =~= self@.bytes());
        out
    }

    /// Appends the chunk's bytes to `out`.
    pub fn write_to(&self, out: &mut Vec<u8>)
        requires
            self.wf(),
        ensures
            final(out)@ == old(out)@ + self@.bytes(),
    {
        let ghost start = out@;
        push_be32(out, self.data.len() as u32);
        let code = self.chunk_type.bytes();
        out.push(code[0]);
        out.push(code[1]);
        out.push(code[2]);
        out.push(code[3]);
        out.extend_from_slice(self.data.as_slice());
        push_be32(out, self.crc);
        assert(out@ =~= start + self@.bytes());
    }

    /// Reads the chunk that starts at offset `pos` of `s`, and the offset just
    /// past it.
    pub fn read_at(s: &[u8], pos: usize) -> (r: Result<(Chunk, usize), Error>)
        requires
            pos <= s@.len(),
        ensures
            match chunk_at(s@.subrange(pos as int, s@.len() as int)) {
                Ok((c, n)) => r matches Ok((k, end)) && k@ == c && k.wf() && end == pos + n,
                Err(e) => r matches Err(f) && f == e,
            },
    {
        let ghost t = s@.subrange(pos as int, s@.len() as int);
        if s.len() - pos < 12 {
            return Err(Error::Truncated);
        }
        let n = read_be32(s, pos);
        assert(n == be32_at(t, 0));
        let n = n as usize;
        if s.len() - pos - 12 < n {
            return Err(Error::Truncated);
        }
        let stored = read_be32(s, pos + 8 + n);
        assert(stored == be32_at(t, 8 + n));
        let covered = slice_subrange(s, pos + 4, pos + 8 + n);
        assert(covered@ =~= t.subrange(4, 8 + n as int));
        if crc32(covered) != stored {
            return Err(Error::ChecksumMismatch);
        }
        let code: [u8; 4] = [s[pos + 4], s[pos + 5], s[pos + 6], s[pos + 7]];
        assert(code@ =~= t.subrange(4, 8));
        let chunk_type = match ChunkType::from_bytes(code) {
            Ok(c) => c,
            Err(e) => {
                return Err(e);
            },
        };
        let data = slice_to_vec(slice_subrange(s, pos + 8, pos + 8 + n));
        assert(data@ =~= t.subrange(8, 8 + n as int));
        assert(t.subrange(4, 8 + n as int) =~= t.subrange(4, 8) + t.subrange(8, 8 + n as int));
        let chunk = Chunk { chunk_type, data, crc: stored };
        Ok((chunk, pos + 12 + n))
    }

    /// Reads the chunk at the front of `s`; bytes after it are not looked at.
    pub fn deserialize(s: &[u8]) -> (r: Result<Chunk, Error>)
        ensures
            match chunk_at(s@) {
                Ok((c, n)) => r matches Ok(k) && k@ == c && k.wf(),
                Err(e) => r matches Err(f) && f == e,
            },
    {
        assert(s@.subrange(0, s@.len() as int) =~= s@);
        match Chunk::read_at(s, 0) {
            Ok((c, _)) => Ok(c),
            Err(e) => Err(e),
        }
    }
}

} // verus!
