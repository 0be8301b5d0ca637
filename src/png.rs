//! The PNG container: the signature followed by an ordered list of chunks.
use vstd::prelude::*;

use crate::chunk::{chunk_at, Chunk, ChunkView};
use crate::chunk_type::ChunkType;
use crate::Error;

verus! {

/// The eight bytes that open every PNG file.
pub open spec fn png_signature() -> Seq<u8> {
    seq![137u8, 80u8, 78u8, 71u8, 13u8, 10u8, 26u8, 10u8]
}

/// The type code of the image header chunk, `IHDR`.
pub open spec fn ihdr() -> Seq<u8> {
    seq![73u8, 72u8, 68u8, 82u8]
}

/// The type code of the end-marker chunk, `IEND`.
pub open spec fn iend() -> Seq<u8> {
    seq![73u8, 69u8, 78u8, 68u8]
}

/// The bytes of a list of chunks, one after the other.
pub open spec fn chunks_bytes(cs: Seq<ChunkView>) -> Seq<u8>
    decreases cs.len(),
{
    if cs.len() == 0 {
        Seq::empty()
    } else {
        cs[0].bytes() + chunks_bytes(cs.drop_first())
    }
}

/// The bytes of a PNG file with the given chunks.
pub open spec fn png_bytes(cs: Seq<ChunkView>) -> Seq<u8> {
    png_signature() + chunks_bytes(cs)
}

/// Reads chunks until the bytes are used up.
pub open spec fn parse_chunks(s: Seq<u8>) -> core::result::Result<Seq<ChunkView>, Error>
    decreases s.len(),
{
    if s.len() == 0 {
        Ok(Seq::empty())
    } else {
        match chunk_at(s) {
            Err(e) => Err(e),
            Ok((c, n)) => {
                if 0 < n <= s.len() {
                    match parse_chunks(s.subrange(n as int, s.len() as int)) {
                        Ok(rest) => Ok(seq![c] + rest),
                        Err(e) => Err(e),
                    }
                } else {
                    Err(Error::Truncated)
                }
            },
        }
    }
}

/// Reads a whole PNG file: the signature, then its chunks.
pub open spec fn png_parse(s: Seq<u8>) -> core::result::Result<Seq<ChunkView>, Error> {
    if s.len() < 8 || s.subrange(0, 8) != png_signature() {
        Err(Error::InvalidSignature)
    } else {
        parse_chunks(s.subrange(8, s.len() as int))
    }
}

/// `a` followed by the chunks of `r`, or the error of `r`.
pub open spec fn prefixed(a: Seq<ChunkView>, r: core::result::Result<Seq<ChunkView>, Error>) -> core::result::Result<Seq<ChunkView>, Error> {
    match r {
        Ok(rest) => Ok(a + rest),
        Err(e) => Err(e),
    }
}

/// `i` is the first position of a chunk of type `ty`.
pub open spec fn is_first_of_type(cs: Seq<ChunkView>, ty: Seq<u8>, i: int) -> bool {
    &&& 0 <= i < cs.len()
    &&& cs[i].ty == ty
    &&& forall|j: int| 0 <= j < i ==> #[trigger] cs[j].ty != ty
}

/// The first position of a chunk of type `ty`, if there is one.
pub open spec fn find_type(cs: Seq<ChunkView>, ty: Seq<u8>) -> Option<int> {
    if exists|i: int| is_first_of_type(cs, ty, i) {
        Some(choose|i: int| is_first_of_type(cs, ty, i))
    } else {
        None
    }
}

/// No chunk of type `ty`.
pub open spec fn lacks_type(cs: Seq<ChunkView>, ty: Seq<u8>) -> bool {
    forall|i: int| 0 <= i < cs.len() ==> #[trigger] cs[i].ty != ty
}

/// Where a chunk is put so that it stands before the end marker: the position
/// of the first `IEND` chunk, or the end of the list if there is none.
pub open spec fn end_index(cs: Seq<ChunkView>) -> int {
    match find_type(cs, iend()) {
        Some(i) => i,
        None => cs.len() as int,
    }
}

/// A structurally valid image: it opens with the header chunk and closes with
/// the end marker, and every chunk is well formed.
pub open spec fn valid_container(cs: Seq<ChunkView>) -> bool {
    &&& cs.len() > 0
    &&& cs[0].ty == ihdr()
    &&& cs.last().ty == iend()
    &&& forall|i: int| 0 <= i < cs.len() ==> (#[trigger] cs[i]).wf()
}

pub proof fn lemma_find_type_first(cs: Seq<ChunkView>, ty: Seq<u8>, i: int)
    requires
        is_first_of_type(cs, ty, i),
    ensures
        find_type(cs, ty) == Some(i),
{
    let k = choose|k: int| is_first_of_type(cs, ty, k);
    if k < i {
        assert(cs[k].ty != ty);
    } else if k > i {
        assert(cs[i].ty != ty);
    }
}

pub proof fn lemma_find_type_none(cs: Seq<ChunkView>, ty: Seq<u8>)
    requires
        lacks_type(cs, ty),
    ensures
        find_type(cs, ty) is None,
{
}

pub proof fn lemma_find_type_some(cs: Seq<ChunkView>, ty: Seq<u8>)
    ensures
        find_type(cs, ty) matches Some(i) ==> is_first_of_type(cs, ty, i),
        find_type(cs, ty) is None ==> lacks_type(cs, ty),
{
    if find_type(cs, ty) is None {
        assert forall|i: int| 0 <= i < cs.len() implies #[trigger] cs[i].ty != ty by {
            if cs[i].ty == ty {
                lemma_first_exists(cs, ty, i);
            }
        }
    }
}

proof fn lemma_first_exists(cs: Seq<ChunkView>, ty: Seq<u8>, i: int)
    requires
        0 <= i < cs.len(),
        cs[i].ty == ty,
    ensures
        exists|k: int| is_first_of_type(cs, ty, k),
    decreases i,
{
    if exists|j: int| 0 <= j < i && cs[j].ty == ty {
        let j = choose|j: int| 0 <= j < i && cs[j].ty == ty;
        lemma_first_exists(cs, ty, j);
    } else {
        assert(is_first_of_type(cs, ty, i));
    }
}

pub proof fn lemma_chunks_bytes_push(cs: Seq<ChunkView>, c: ChunkView)
    ensures
        chunks_bytes(cs.push(c)) == chunks_bytes(cs) + c.bytes(),
    decreases cs.len(),
{
    let empty = Seq::<ChunkView>::empty();
    assert(chunks_bytes(empty) == Seq::<u8>::empty());
    if cs.len() == 0 {
        assert(cs.push(c).drop_first() =~= empty);
        assert(cs.push(c)[0] == c);
        assert(chunks_bytes(cs.push(c)) =~= chunks_bytes(cs) + c.bytes());
    } else {
        assert(cs.push(c).drop_first() =~= cs.drop_first().push(c));
        assert(cs.push(c)[0] == cs[0]);
        lemma_chunks_bytes_push(cs.drop_first(), c);
        assert(chunks_bytes(cs.push(c)) =~= chunks_bytes(cs) + c.bytes());
    }
}

/// A PNG image as a list of chunks.
pub struct Png {
    chunks: Vec<Chunk>,
}

impl View for Png {
    type V = Seq<ChunkView>;

    closed spec fn view(&self) -> Seq<ChunkView> {
        self.chunks@.map_values(|c: Chunk| c@)
    }
}

/// The views of a list of chunks.
pub open spec fn views(cs: Seq<Chunk>) -> Seq<ChunkView> {
    cs.map_values(|c: Chunk| c@)
}

impl Png {
    /// Every chunk is well formed.
    pub open spec fn wf(&self) -> bool {
        forall|i: int| 0 <= i < self@.len() ==> (#[trigger] self@[i]).wf()
    }

    /// An image with the given chunks, in order.
    pub fn from_chunks(chunks: Vec<Chunk>) -> (r: Png)
        requires
            forall|i: int| 0 <= i < chunks@.len() ==> (#[trigger] chunks@[i]).wf(),
        ensures
            r@ == views(chunks@),
            r.wf(),
    {
        Png { chunks }
    }

    /// The chunks, in order.
    pub fn chunks(&self) -> (r: &[Chunk])
        ensures
            views(r@) == self@,
    {
        self.chunks.as_slice()
    }

    /// Reads an image: the signature, then chunks until the bytes are used up.
    pub fn parse(s: &[u8]) -> (r: Result<Png, Error>)
        ensures
            match png_parse(s@) {
                Ok(cs) => r matches Ok(p) && p@ == cs && p.wf(),
                Err(e) => r matches Err(f) && f == e,
            },
    {
        if s.len() < 8 || s[0] != 137 || s[1] != 80 || s[2] != 78 || s[3] != 71 || s[4] != 13
            || s[5] != 10 || s[6] != 26 || s[7] != 10 {
            proof {
                if s@.len() >= 8 {
                    let t = s@.subrange(0, 8);
                    assert(t[0] == s@[0] && t[1] == s@[1] && t[2] == s@[2] && t[3] == s@[3]);
                    assert(t[4] == s@[4] && t[5] == s@[5] && t[6] == s@[6] && t[7] == s@[7]);
                    assert(t != png_signature());
                }
            }
            return Err(Error::InvalidSignature);
        }
        assert(s@.subrange(0, 8) =~= png_signature());
        let ghost body = s@.subrange(8, s@.len() as int);
        let mut chunks: Vec<Chunk> = Vec::new();
        let mut pos: usize = 8;
        assert(s@.subrange(8, s@.len() as int) =~= body);
        assert(views(chunks@) =~= Seq::<ChunkView>::empty());
        while pos < s.len()
            invariant
                8 <= pos <= s@.len(),
                s@.subrange(0, 8) == png_signature(),
                body == s@.subrange(8, s@.len() as int),
                forall|i: int| 0 <= i < chunks@.len() ==> (#[trigger] chunks@[i]).wf(),
                parse_chunks(body) == prefixed(
                    views(chunks@),
                    parse_chunks(s@.subrange(pos as int, s@.len() as int)),
                ),
            decreases s@.len() - pos,
        {
            let ghost t = s@.subrange(pos as int, s@.len() as int);
            match Chunk::read_at(s, pos) {
                Err(e) => {
                    assert(t.len() > 0);
                    assert(parse_chunks(t) == Err::<Seq<ChunkView>, Error>(e));
                    return Err(e);
                },
                Ok((c, end)) => {
                    let ghost n = (end - pos) as nat;
                    assert(t.subrange(n as int, t.len() as int) =~= s@.subrange(
                        end as int,
                        s@.len() as int,
                    ));
                    let ghost before = views(chunks@);
                    chunks.push(c);
                    assert(views(chunks@) =~= before + seq![c@]);
                    proof {
                        match parse_chunks(s@.subrange(end as int, s@.len() as int)) {
                            Ok(rest) => {
                                assert(before + (seq![c@] + rest) =~= (before + seq![c@])
                                    + rest);
                            },
                            Err(_) => {},
                        }
                    }
                    pos = end;
                },
            }
        }
        assert(s@.subrange(pos as int, s@.len() as int) =~= Seq::<u8>::empty());
        assert(views(chunks@) + Seq::<ChunkView>::empty() =~= views(chunks@));
        Ok(Png { chunks })
    }

    /// The image's bytes: the signature, then each chunk in order.
    pub fn serialize(&self) -> (r: Vec<u8>)
        requires
            self.wf(),
        ensures
            r@ == png_bytes(self@),
    {
        let mut out: Vec<u8> = Vec::new();
        out.push(137);
        out.push(80);
        out.push(78);
        out.push(71);
        out.push(13);
        out.push(10);
        out.push(26);
        out.push(10);
        assert(out@ =~= png_signature());
        assert(self@.take(0) =~= Seq::<ChunkView>::empty());
        assert(out@ =~= png_signature() + chunks_bytes(self@.take(0)));
        let mut i: usize = 0;
        while i < self.chunks.len()
            invariant
                0 <= i <= self.chunks@.len(),
                self@.len() == self.chunks@.len(),
                self.wf(),
                out@ == png_signature() + chunks_bytes(self@.take(i as int)),
            decreases self.chunks@.len() - i,
        {
            let ghost before = out@;
            assert(self@[i as int] == self.chunks@[i as int]@);
            self.chunks[i].write_to(&mut out);
            proof {
                assert(self@.take(i + 1) =~= self@.take(i as int).push(self@[i as int]));
                lemma_chunks_bytes_push(self@.take(i as int), self@[i as int]);
                assert(out@ =~= png_signature() + chunks_bytes(self@.take(i + 1)));
            }
            i = i + 1;
        }
        assert(self@.take(i as int) =~= self@);
        out
    }

    /// Adds a chunk at the end of the list.
    pub fn append_chunk(&mut self, chunk: Chunk)
        requires
            old(self).wf(),
            chunk.wf(),
        ensures
            final(self)@ == old(self)@.push(chunk@),
            final(self).wf(),
    {
        self.chunks.push(chunk);
        assert(self@ =~= old(self)@.push(chunk@));
    }

    /// Puts a chunk at position `index`; the chunks from there on move back
    /// by one.
    pub fn insert_chunk(&mut self, index: usize, chunk: Chunk)
        requires
            old(self).wf(),
            chunk.wf(),
            index <= old(self)@.len(),
        ensures
            final(self)@ == old(self)@.insert(index as int, chunk@),
            final(self).wf(),
    {
        self.chunks.insert(index, chunk);
        assert(self@ =~= old(self)@.insert(index as int, chunk@));
    }

    /// The position of the first chunk of type `ty`, if there is one.
    pub fn position_of(&self, ty: &ChunkType) -> (r: Option<usize>)
        ensures
            r matches Some(i) ==> find_type(self@, ty@) == Some(i as int),
            r is None <==> find_type(self@, ty@) is None,
    {
        let mut i: usize = 0;
        while i < self.chunks.len()
            invariant
                0 <= i <= self.chunks@.len(),
                self@.len() == self.chunks@.len(),
                forall|j: int| 0 <= j < i ==> #[trigger] self@[j].ty != ty@,
            decreases self.chunks@.len() - i,
        {
            assert(self@[i as int] == self.chunks@[i as int]@);
            if self.chunks[i].chunk_type().same_as(ty) {
                proof {
                    lemma_find_type_first(self@, ty@, i as int);
                }
                return Some(i);
            }
            i = i + 1;
        }
        proof {
            lemma_find_type_none(self@, ty@);
        }
        None
    }

    /// The first chunk of type `ty`, if there is one.
    pub fn chunk_by_type(&self, ty: &ChunkType) -> (r: Option<&Chunk>)
        ensures
            match find_type(self@, ty@) {
                Some(i) => r matches Some(c) && c@ == self@[i],
                None => r is None,
            },
    {
        match self.position_of(ty) {
            Some(i) => {
                proof {
                    lemma_find_type_some(self@, ty@);
                }
                assert(self@[i as int] == self.chunks@[i as int]@);
                Some(&self.chunks[i])
            },
            None => None,
        }
    }

    /// Takes out the first chunk of type `ty` and returns it; fails, leaving
    /// the image as it was, if there is no such chunk.
    pub fn remove_chunk(&mut self, ty: &ChunkType) -> (r: Result<Chunk, Error>)
        requires
            old(self).wf(),
        ensures
            final(self).wf(),
            match find_type(old(self)@, ty@) {
                Some(i) => r matches Ok(c) && c@ == old(self)@[i] && final(self)@ == old(
                    self,
                )@.remove(i),
                None => r matches Err(e) && e == Error::ChunkNotFound && final(self)@ == old(
                    self,
                )@,
            },
    {
        match self.position_of(ty) {
            Some(i) => {
                proof {
                    lemma_find_type_some(self@, ty@);
                }
                let c = self.chunks.remove(i);
                assert(self@ =~= old(self)@.remove(i as int));
                Ok(c)
            },
            None => Err(Error::ChunkNotFound),
        }
    }

    /// The position before which a new chunk keeps the end marker last: that
    /// of the first `IEND` chunk, or the end of the list.
    pub fn end_position(&self) -> (r: usize)
        ensures
            r == end_index(self@),
    {
        proof {
            assert(crate::chunk_type::is_letter(73) && crate::chunk_type::is_letter(69)
                && crate::chunk_type::is_letter(78) && crate::chunk_type::is_letter(68));
        }
        let code: [u8; 4] = [73, 69, 78, 68];
        assert(code@ =~= iend());
        let t = ChunkType::from_letters(code);
        match self.position_of(&t) {
            Some(i) => i,
            None => self.chunks.len(),
        }
    }
}

} // verus!
