use vstd::prelude::*;

use crate::chunk::{
    be_at, chunk_valid, decode_chunk, encode_chunk, lemma_decode_encoded, record_len, u32_from_be,
    Chunk, ChunkModel,
};
use crate::chunk_type::text_of;
use crate::errors::PngError;

verus! {

/// The eight bytes that open every PNG stream.
pub open spec fn png_signature() -> Seq<u8> {
    seq![137u8, 80u8, 78u8, 71u8, 13u8, 10u8, 26u8, 10u8]
}

/// What a PNG holds, as plain values.
pub struct PngModel {
    /// The leading eight bytes.
    pub signature: Seq<u8>,
    /// The chunks, in stream order.
    pub chunks: Seq<ChunkModel>,
}

/// A well-formed PNG: the fixed signature and well-formed chunks.
pub open spec fn png_valid(p: PngModel) -> bool {
    &&& p.signature == png_signature()
    &&& forall|i: int| 0 <= i < p.chunks.len() ==> chunk_valid(#[trigger] p.chunks[i])
}

/// The records of `cs`, one after the other.
pub open spec fn encode_chunks(cs: Seq<ChunkModel>) -> Seq<u8>
    decreases cs.len(),
{
    if cs.len() == 0 {
        Seq::empty()
    } else {
        encode_chunks(cs.drop_last()) + encode_chunk(cs.last())
    }
}

/// The byte stream of a PNG: its signature, then every chunk's record.
pub open spec fn encode_png(p: PngModel) -> Seq<u8> {
    p.signature + encode_chunks(p.chunks)
}

/// `acc` followed by the chunks of `r`, or the error of `r`.
pub open spec fn prepend(acc: Seq<ChunkModel>, r: Result<Seq<ChunkModel>, PngError>) -> Result<
    Seq<ChunkModel>,
    PngError,
> {
    match r {
        Ok(cs) => Ok(acc + cs),
        Err(e) => Err(e),
    }
}

/// What reading chunk records from `s` until it is used up gives.
pub open spec fn parse_chunks(s: Seq<u8>) -> Result<Seq<ChunkModel>, PngError>
    decreases s.len(),
{
    if s.len() == 0 {
        Ok(Seq::empty())
    } else if s.len() < 4 {
        Err(PngError::TruncatedInput)
    } else if s.len() < record_len(be_at(s, 0)) {
        Err(PngError::TruncatedInput)
    } else {
        let end = record_len(be_at(s, 0));
        match decode_chunk(s.subrange(0, end)) {
            Err(e) => Err(e),
            Ok(c) => prepend(seq![c], parse_chunks(s.subrange(end, s.len() as int))),
        }
    }
}

/// What decoding the byte stream `s` as a PNG gives.
pub open spec fn parse_png(s: Seq<u8>) -> Result<PngModel, PngError> {
    if s.len() < 8 {
        Err(PngError::TruncatedInput)
    } else if s.subrange(0, 8) != png_signature() {
        Err(PngError::InvalidPngSignature)
    } else {
        match parse_chunks(s.subrange(8, s.len() as int)) {
            Ok(cs) => Ok(PngModel { signature: s.subrange(0, 8), chunks: cs }),
            Err(e) => Err(e),
        }
    }
}

/// True when the type code of `m` reads as `q`.
pub open spec fn has_type(m: ChunkModel, q: Seq<char>) -> bool {
    text_of(m.chunk_type) == q
}

/// True when `i` is the first index of `cs` whose chunk has type code `q`.
pub open spec fn is_first_match(cs: Seq<ChunkModel>, q: Seq<char>, i: int) -> bool {
    &&& 0 <= i < cs.len()
    &&& has_type(cs[i], q)
    &&& forall|j: int| 0 <= j < i ==> !has_type(#[trigger] cs[j], q)
}

/// True when no chunk of `cs` has type code `q`.
pub open spec fn no_match(cs: Seq<ChunkModel>, q: Seq<char>) -> bool {
    forall|j: int| 0 <= j < cs.len() ==> !has_type(#[trigger] cs[j], q)
}

/// The models of a PNG decoding result.
pub open spec fn png_model_of(r: Result<Png, PngError>) -> Result<PngModel, PngError> {
    match r {
        Ok(p) => Ok(p@),
        Err(e) => Err(e),
    }
}

/// The records of a non-empty list start with the record of its first chunk.
proof fn lemma_encode_chunks_front(cs: Seq<ChunkModel>)
    requires
        cs.len() > 0,
    ensures
        encode_chunks(cs) == encode_chunk(cs[0]) + encode_chunks(cs.drop_first()),
    decreases cs.len(),
{
    if cs.len() == 1 {
        assert(cs.drop_last() =~= Seq::<ChunkModel>::empty());
        assert(cs.drop_first() =~= Seq::<ChunkModel>::empty());
        assert(encode_chunks(cs) =~= encode_chunk(cs[0]) + encode_chunks(cs.drop_first()));
    } else {
        let init = cs.drop_last();
        lemma_encode_chunks_front(init);
        assert(init.drop_first() =~= cs.drop_first().drop_last());
        assert(cs.drop_first().last() == cs.last());
        assert(encode_chunks(cs) =~= encode_chunk(cs[0]) + encode_chunks(cs.drop_first()));
    }
}

/// Reading back the records of well-formed chunks gives the same chunks.
proof fn lemma_parse_encoded(cs: Seq<ChunkModel>)
    requires
        forall|i: int| 0 <= i < cs.len() ==> chunk_valid(#[trigger] cs[i]),
    ensures
        parse_chunks(encode_chunks(cs)) == Ok::<Seq<ChunkModel>, PngError>(cs),
    decreases cs.len(),
{
    if cs.len() > 0 {
        let first = cs[0];
        let others = cs.drop_first();
        let tail = encode_chunks(others);
        let s = encode_chunks(cs);
        lemma_encode_chunks_front(cs);
        lemma_decode_encoded(first, tail);
        lemma_decode_encoded(first, Seq::empty());
        assert(encode_chunk(first) + Seq::<u8>::empty() =~= encode_chunk(first));
        let end = record_len(first.length);
        assert(be_at(s, 0) == first.length);
        assert(s.subrange(0, end) =~= encode_chunk(first));
        assert(s.subrange(end, s.len() as int) =~= tail);
        assert forall|i: int| 0 <= i < others.len() implies chunk_valid(#[trigger] others[i]) by {
            assert(others[i] == cs[i + 1]);
        }
        lemma_parse_encoded(others);
        assert(seq![first] + others =~= cs);
    } else {
        assert(encode_chunks(cs) =~= Seq::<u8>::empty());
        assert(cs =~= Seq::<ChunkModel>::empty());
    }
}

/// A stream whose first eight bytes are not the PNG signature is refused as
/// such, whatever follows them.
pub proof fn lemma_signature_gate(s: Seq<u8>)
    requires
        s.len() >= 8,
        s.subrange(0, 8) != png_signature(),
    ensures
        parse_png(s) == Err::<PngModel, PngError>(PngError::InvalidPngSignature),
{
}

/// A PNG stream in memory: the signature and an ordered list of chunks.
pub struct Png {
    signature: [u8; 8],
    chunks: Vec<Chunk>,
}

impl View for Png {
    type V = PngModel;

    closed spec fn view(&self) -> PngModel {
        PngModel { signature: self.signature@, chunks: self.chunks@.map_values(|c: Chunk| c@) }
    }
}

impl Png {
    /// The eight bytes that open every PNG stream.
    pub const PNG_FILE_SIGNATURE: [u8; 8] = [137, 80, 78, 71, 13, 10, 26, 10];

    /// The size of a chunk record with no data.
    pub const MIN_CHUNK_LENGTH: usize = 12;

    /// The PNG is well formed.
    pub open spec fn wf(&self) -> bool {
        png_valid(self@)
    }

    /// Encoding a well-formed PNG and decoding the bytes gives back the same
    /// signature and the same chunks in the same order.
    pub proof fn lemma_round_trip(p: &Png)
        requires
            p.wf(),
        ensures
            parse_png(encode_png(p@)) == Ok::<PngModel, PngError>(p@),
    {
        let s = encode_png(p@);
        lemma_parse_encoded(p@.chunks);
        assert(s.subrange(0, 8) =~= png_signature());
        assert(s.subrange(8, s.len() as int) =~= encode_chunks(p@.chunks));
    }

    /// Builds a PNG from chunks, with the fixed signature.
    pub fn from_chunks(chunks: Vec<Chunk>) -> (r: Png)
        requires
            forall|i: int| 0 <= i < chunks@.len() ==> (#[trigger] chunks@[i]).wf(),
        ensures
            r@.signature == png_signature(),
            r@.chunks == chunks@.map_values(|c: Chunk| c@),
            r.wf(),
    {
        let r = Png { signature: Self::PNG_FILE_SIGNATURE, chunks };
        assert(r.signature@ =~= png_signature());
        r
    }

    /// Decodes a PNG stream: the signature, then chunk records until the
    /// input is used up. The first failure ends the decoding.
    pub fn try_from(value: &[u8]) -> (r: Result<Png, PngError>)
        ensures
            png_model_of(r) == parse_png(value@),
            r matches Ok(p) ==> p.wf(),
    {
        if value.len() < 8 {
            return Err(PngError::TruncatedInput);
        }
        let mut signature: [u8; 8] = [0; 8];
        let mut k: usize = 0;
        while k < 8
            invariant
                k <= 8,
                value@.len() >= 8,
                forall|j: int| 0 <= j < k ==> signature@[j] == value@[j],
            decreases 8 - k,
        {
            signature[k] = value[k];
            k = k + 1;
        }
        assert(signature@ =~= value@.subrange(0, 8));
        let expected_signature = Self::PNG_FILE_SIGNATURE;
        assert(expected_signature@ =~= png_signature());
        let mut k: usize = 0;
        while k < 8
            invariant
                k <= 8,
                value@.len() >= 8,
                signature@ == value@.subrange(0, 8),
                expected_signature@ == png_signature(),
                forall|j: int| 0 <= j < k ==> signature@[j] == png_signature()[j],
            decreases 8 - k,
        {
            if signature[k] != expected_signature[k] {
                assert(value@.subrange(0, 8)[k as int] != png_signature()[k as int]);
                return Err(PngError::InvalidPngSignature);
            }
            k = k + 1;
        }
        assert(signature@ =~= png_signature());
        let len = value.len();
        let ghost whole = value@.subrange(8, len as int);
        let mut cursor: usize = 8;
        let mut chunks: Vec<Chunk> = Vec::new();
        while cursor < len
            invariant
                8 <= cursor <= len,
                len == value@.len(),
                signature@ == value@.subrange(0, 8),
                signature@ == png_signature(),
                whole == value@.subrange(8, len as int),
                forall|i: int| 0 <= i < chunks@.len() ==> (#[trigger] chunks@[i]).wf(),
                parse_chunks(whole) == prepend(
                    chunks@.map_values(|c: Chunk| c@),
                    parse_chunks(value@.subrange(cursor as int, len as int)),
                ),
            decreases len - cursor,
        {
            let ghost rest = value@.subrange(cursor as int, len as int);
            let remaining = len - cursor;
            if remaining < 4 {
                return Err(PngError::TruncatedInput);
            }
            let n: usize = u32_from_be(
                value[cursor],
                value[cursor + 1],
                value[cursor + 2],
                value[cursor + 3],
            ) as usize;
            assert(n == be_at(rest, 0));
            if remaining < Self::MIN_CHUNK_LENGTH || remaining - Self::MIN_CHUNK_LENGTH < n {
                return Err(PngError::TruncatedInput);
            }
            let end = cursor + Self::MIN_CHUNK_LENGTH + n;
            assert(value@.subrange(cursor as int, end as int) =~= rest.subrange(0, end - cursor));
            let chunk = match Chunk::try_from(&value[cursor..end]) {
                Ok(c) => c,
                Err(e) => {
                    return Err(e);
                },
            };
            assert(value@.subrange(end as int, len as int) =~= rest.subrange(
                end - cursor,
                rest.len() as int,
            ));
            let ghost before = chunks@.map_values(|c: Chunk| c@);
            chunks.push(chunk);
            assert(chunks@.map_values(|c: Chunk| c@) =~= before + seq![chunk@]);
            assert(before + seq![chunk@] + parse_chunks(value@.subrange(end as int, len as int))->Ok_0
                =~= before + (seq![chunk@] + parse_chunks(
                value@.subrange(end as int, len as int),
            )->Ok_0));
            cursor = end;
        }
        assert(value@.subrange(cursor as int, len as int) =~= Seq::<u8>::empty());
        assert(chunks@.map_values(|c: Chunk| c@) + Seq::<ChunkModel>::empty() =~= chunks@.map_values(
            |c: Chunk| c@,
        ));
        Ok(Png { signature, chunks })
    }

    /// The byte stream of the PNG: the signature, then every chunk's
    /// record in order.
    pub fn as_bytes(&self) -> (r: Vec<u8>)
        ensures
            r@ == encode_png(self@),
    {
        let mut out: Vec<u8> = Vec::new();
        out.extend_from_slice(self.signature.as_slice());
        let mut i: usize = 0;
        while i < self.chunks.len()
            invariant
                i <= self.chunks@.len(),
                out@ == self.signature@ + encode_chunks(
                    self.chunks@.map_values(|c: Chunk| c@).take(i as int),
                ),
            decreases self.chunks@.len() - i,
        {
            let record = self.chunks[i].as_bytes();
            out.extend_from_slice(record.as_slice());
            let ghost models = self.chunks@.map_values(|c: Chunk| c@);
            assert(models.take(i as int + 1).drop_last() =~= models.take(i as int));
            assert(out@ =~= self.signature@ + encode_chunks(models.take(i as int + 1)));
            i = i + 1;
        }
        assert(self.chunks@.map_values(|c: Chunk| c@).take(i as int) =~= self@.chunks);
        out
    }

    /// Finds the first chunk whose type code reads as `chunk_type`, with its
    /// index.
    pub fn search_chunk(&self, chunk_type: &str) -> (r: Option<(usize, &Chunk)>)
        ensures
            r is None <==> no_match(self@.chunks, chunk_type@),
            r matches Some(found) ==> is_first_match(self@.chunks, chunk_type@, found.0 as int)
                && found.1@ == self@.chunks[found.0 as int],
    {
        let mut i: usize = 0;
        while i < self.chunks.len()
            invariant
                i <= self.chunks@.len(),
                forall|j: int| 0 <= j < i ==> !has_type(#[trigger] self@.chunks[j], chunk_type@),
            decreases self.chunks@.len() - i,
        {
            if self.chunks[i].chunk_type().has_text(chunk_type) {
                assert(has_type(self@.chunks[i as int], chunk_type@));
                return Some((i, &self.chunks[i]));
            }
            i = i + 1;
        }
        None
    }

    /// Appends a chunk at the end.
    pub fn append_chunk(&mut self, chunk: Chunk)
        requires
            old(self).wf(),
            chunk.wf(),
        ensures
            final(self)@.signature == old(self)@.signature,
            final(self)@.chunks == old(self)@.chunks.push(chunk@),
            final(self).wf(),
    {
        self.chunks.push(chunk);
        assert(self@.chunks =~= old(self)@.chunks.push(chunk@));
    }

    /// Removes the first chunk whose type code reads as `chunk_type` and
    /// returns it; with no such chunk, nothing changes.
    pub fn remove_chunk(&mut self, chunk_type: &str) -> (r: Result<Chunk, PngError>)
        requires
            old(self).wf(),
        ensures
            r is Err <==> no_match(old(self)@.chunks, chunk_type@),
            r matches Err(e) ==> e == PngError::ChunkNotFound && final(self)@ == old(self)@,
            r matches Ok(c) ==> exists|i: int|
                is_first_match(old(self)@.chunks, chunk_type@, i) && c@ == old(self)@.chunks[i]
                    && final(self)@.chunks == old(self)@.chunks.remove(i),
            final(self)@.signature == old(self)@.signature,
            final(self).wf(),
            r matches Ok(c) ==> c.wf(),
    {
        let query = self.search_chunk(chunk_type);
        match query {
            None => Err(PngError::ChunkNotFound),
            Some((index, _)) => {
                let removed = self.chunks.remove(index);
                assert(self@.chunks =~= old(self)@.chunks.remove(index as int));
                Ok(removed)
            },
        }
    }

    /// The chunks, in stream order.
    pub fn chunks(&self) -> (r: &[Chunk])
        ensures
            r@.map_values(|c: Chunk| c@) == self@.chunks,
    {
        self.chunks.as_slice()
    }

    /// The signature.
    pub fn signature(&self) -> (r: &[u8; 8])
        ensures
            r@ == self@.signature,
    {
        &self.signature
    }
}

} // verus!
