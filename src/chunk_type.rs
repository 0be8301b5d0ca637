//! Four-byte chunk type codes.
use vstd::prelude::*;

use vstd::string::StringSliceAdditionalSpecFns;

use crate::Error;

verus! {

/// An ASCII letter, upper or lower case.
pub open spec fn is_letter(b: u8) -> bool {
    (65 <= b && b <= 90) || (97 <= b && b <= 122)
}

/// Four bytes, each an ASCII letter.
pub open spec fn all_letters(s: Seq<u8>) -> bool {
    s.len() == 4 && forall|i: int| 0 <= i < 4 ==> #[trigger] is_letter(s[i])
}

/// Bit 5 (value 32) of a byte: clear in upper case letters, set in lower case.
pub open spec fn bit5(b: u8) -> bool {
    b & 32 != 0
}

/// The type code of a chunk: four ASCII letters.
#[derive(Clone, Copy, Debug, PartialEq, Eq, Structural)]
pub struct ChunkType {
    b0: u8,
    b1: u8,
    b2: u8,
    b3: u8,
}

impl View for ChunkType {
    type V = Seq<u8>;

    closed spec fn view(&self) -> Seq<u8> {
        seq![self.b0, self.b1, self.b2, self.b3]
    }
}

pub fn is_letter_byte(b: u8) -> (r: bool)
    ensures
        r == is_letter(b),
{
    (65 <= b && b <= 90) || (97 <= b && b <= 122)
}

impl ChunkType {
    /// A chunk type is well formed when its code is four ASCII letters.
    pub open spec fn wf(&self) -> bool {
        all_letters(self@)
    }

    /// The type code of the given four bytes, if each is an ASCII letter.
    pub fn from_bytes(code: [u8; 4]) -> (r: Result<ChunkType, Error>)
        ensures
            all_letters(code@) <==> r is Ok,
            r matches Ok(t) ==> t@ == code@ && t.wf(),
            r matches Err(e) ==> e == Error::InvalidChunkType,
    {
        let mut i: usize = 0;
        while i < 4
            invariant
                0 <= i <= 4,
                forall|j: int| 0 <= j < i ==> #[trigger] is_letter(code@[j]),
            decreases 4 - i,
        {
            if !is_letter_byte(code[i]) {
                return Err(Error::InvalidChunkType);
            }
            i = i + 1;
        }
        let t = ChunkType { b0: code[0], b1: code[1], b2: code[2], b3: code[3] };
        assert(t@ =~= code@);
        Ok(t)
    }

    /// The type code of four bytes known to be ASCII letters.
    pub fn from_letters(code: [u8; 4]) -> (r: ChunkType)
        requires
            all_letters(code@),
        ensures
            r@ == code@,
            r.wf(),
    {
        let t = ChunkType { b0: code[0], b1: code[1], b2: code[2], b3: code[3] };
        assert(t@ =~= code@);
        t
    }

    /// The type code spelled by a string of exactly four ASCII letters.
    pub fn from_str(s: &str) -> (r: Result<ChunkType, Error>)
        ensures
            all_letters(s.spec_bytes()) <==> r is Ok,
            r matches Ok(t) ==> t@ == s.spec_bytes() && t.wf(),
            r matches Err(e) ==> e == Error::InvalidChunkType,
    {
        let b = s.as_bytes();
        if b.len() != 4 {
            return Err(Error::InvalidChunkType);
        }
        let code: [u8; 4] = [b[0], b[1], b[2], b[3]];
        assert(code@ =~= b@);
        ChunkType::from_bytes(code)
    }

    /// The four bytes of the code.
    pub fn bytes(&self) -> (r: [u8; 4])
        ensures
            r@ == self@,
    {
        let r: [u8; 4] = [self.b0, self.b1, self.b2, self.b3];
        assert(r@ =~= self@);
        r
    }

    /// Critical: bit 5 of the first byte is clear.
    pub fn is_critical(&self) -> (r: bool)
        ensures
            r == !bit5(self@[0]),
    {
        self.b0 & 32 == 0
    }

    /// Public: bit 5 of the second byte is clear.
    pub fn is_public(&self) -> (r: bool)
        ensures
            r == !bit5(self@[1]),
    {
        self.b1 & 32 == 0
    }

    /// The reserved bit (bit 5 of the third byte) is clear.
    pub fn is_reserved_bit_valid(&self) -> (r: bool)
        ensures
            r == !bit5(self@[2]),
    {
        self.b2 & 32 == 0
    }

    /// Safe to copy: bit 5 of the fourth byte is set.
    pub fn is_safe_to_copy(&self) -> (r: bool)
        ensures
            r == bit5(self@[3]),
    {
        self.b3 & 32 != 0
    }

    /// Valid for the container: the reserved bit is clear.
    pub fn is_valid(&self) -> (r: bool)
        ensures
            r == !bit5(self@[2]),
    {
        self.is_reserved_bit_valid()
    }

    /// Whether two type codes are the same four bytes.
    pub fn same_as(&self, other: &ChunkType) -> (r: bool)
        ensures
            r == (self@ == other@),
    {
        let r = self.b0 == other.b0 && self.b1 == other.b1
            && self.b2 == other.b2 && self.b3 == other.b3;
        assert(r ==> self@ =~= other@);
        r
    }
}

} // verus!
