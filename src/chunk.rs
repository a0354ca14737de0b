use vstd::prelude::*;
use vstd::utf8::{decode_utf8, valid_utf8};

use crate::chunk_type::{all_alpha, ChunkType};
use crate::errors::{Expectations, PngError};
use crate::text::string_from_utf8;

verus! {

/// The CRC-32 (ISO-HDLC) checksum of a byte sequence, as the `crc` crate
/// computes it.
pub uninterp spec fn crc32_of(b: Seq<u8>) -> u32;

/// Relies on `crc::Crc::<u32>::checksum` with the `CRC_32_ISO_HDLC`
/// algorithm: the checksum depends on the bytes alone.
#[verifier::external_body]
fn checksum(bytes: &[u8]) -> (r: u32)
    ensures
        r == crc32_of(bytes@),
{
    crc::Crc::<u32>::new(&crc::CRC_32_ISO_HDLC).checksum(bytes)
}

/// The four big-endian bytes of `x`.
pub open spec fn be_bytes(x: u32) -> Seq<u8> {
    seq![(x >> 24) as u8, (x >> 16) as u8, (x >> 8) as u8, x as u8]
}

/// The value of four big-endian bytes.
pub open spec fn be_value(b0: u8, b1: u8, b2: u8, b3: u8) -> u32 {
    ((b0 as u32) << 24) | ((b1 as u32) << 16) | ((b2 as u32) << 8) | (b3 as u32)
}

/// The value of the four bytes of `s` that start at `at`, big-endian.
pub open spec fn be_at(s: Seq<u8>, at: int) -> u32 {
    be_value(s[at], s[at + 1], s[at + 2], s[at + 3])
}

/// Reading back the big-endian bytes of a value gives the value.
pub proof fn lemma_be_round_trip(x: u32)
    ensures
        be_at(be_bytes(x), 0) == x,
{
    let b = be_bytes(x);
    assert(be_value((x >> 24) as u8, (x >> 16) as u8, (x >> 8) as u8, x as u8) == x)
        by (bit_vector);
    assert(b[0] == (x >> 24) as u8 && b[1] == (x >> 16) as u8 && b[2] == (x >> 8) as u8 && b[3]
        == x as u8);
}

fn u32_to_be(x: u32) -> (r: [u8; 4])
    ensures
        r@ == be_bytes(x),
{
    let r = [(x >> 24) as u8, (x >> 16) as u8, (x >> 8) as u8, x as u8];
    assert(r@ =~= be_bytes(x));
    r
}

pub(crate) fn u32_from_be(b0: u8, b1: u8, b2: u8, b3: u8) -> (r: u32)
    ensures
        r == be_value(b0, b1, b2, b3),
{
    ((b0 as u32) << 24) | ((b1 as u32) << 16) | ((b2 as u32) << 8) | (b3 as u32)
}

/// What a chunk holds, as plain values.
pub struct ChunkModel {
    /// The number of data bytes.
    pub length: u32,
    /// The four bytes of the type code.
    pub chunk_type: Seq<u8>,
    /// The data bytes.
    pub data: Seq<u8>,
    /// The stored checksum.
    pub crc: u32,
}

/// A well-formed chunk: a type code of four ASCII letters, a length equal to
/// the number of data bytes, and the checksum of type code and data.
pub open spec fn chunk_valid(m: ChunkModel) -> bool {
    &&& m.chunk_type.len() == 4
    &&& all_alpha(m.chunk_type)
    &&& m.length as int == m.data.len()
    &&& m.crc == crc32_of(m.chunk_type + m.data)
}

/// The byte record of a chunk: length, type code, data and checksum.
pub open spec fn encode_chunk(m: ChunkModel) -> Seq<u8> {
    be_bytes(m.length) + m.chunk_type + m.data + be_bytes(m.crc)
}

/// The number of bytes that a record with `n` data bytes takes.
pub open spec fn record_len(n: u32) -> int {
    n as int + 12
}

/// What decoding the record at the start of `s` gives; bytes after the
/// record are not read.
pub open spec fn decode_chunk(s: Seq<u8>) -> Result<ChunkModel, PngError> {
    if s.len() < 8 {
        Err(PngError::TruncatedInput)
    } else if !all_alpha(s.subrange(4, 8)) {
        Err(PngError::InvalidByte)
    } else if s.len() < record_len(be_at(s, 0)) {
        Err(PngError::TruncatedInput)
    } else {
        let n = be_at(s, 0);
        let chunk_type = s.subrange(4, 8);
        let data = s.subrange(8, 8 + n);
        let got = be_at(s, 8 + n);
        let expected = crc32_of(chunk_type + data);
        if got != expected {
            Err(PngError::InvalidCrc(Expectations { got, expected }))
        } else {
            Ok(ChunkModel { length: n, chunk_type, data, crc: got })
        }
    }
}

/// Decoding a well-formed record reads it back exactly, whatever follows it.
pub proof fn lemma_decode_encoded(m: ChunkModel, rest: Seq<u8>)
    requires
        chunk_valid(m),
    ensures
        decode_chunk(encode_chunk(m) + rest) == Ok::<ChunkModel, PngError>(m),
        encode_chunk(m).len() == record_len(m.length),
{
    let s = encode_chunk(m) + rest;
    let n = m.length;
    lemma_be_round_trip(n);
    lemma_be_round_trip(m.crc);
    assert(be_at(s, 0) == be_at(be_bytes(n), 0));
    assert(s.subrange(4, 8) =~= m.chunk_type);
    assert(s.subrange(8, 8 + n) =~= m.data);
    assert(be_at(s, 8 + n) == be_at(be_bytes(m.crc), 0));
}

/// One chunk of a PNG stream: length, type code, data and checksum.
#[derive(Debug)]
pub struct Chunk {
    length: u32,
    chunk_type: ChunkType,
    chunk_data: Vec<u8>,
    crc: u32,
}

impl View for Chunk {
    type V = ChunkModel;

    closed spec fn view(&self) -> ChunkModel {
        ChunkModel {
            length: self.length,
            chunk_type: self.chunk_type@,
            data: self.chunk_data@,
            crc: self.crc,
        }
    }
}

/// The models of a decoding result.
pub open spec fn model_of(r: Result<Chunk, PngError>) -> Result<ChunkModel, PngError> {
    match r {
        Ok(c) => Ok(c@),
        Err(e) => Err(e),
    }
}

impl Chunk {
    /// Encoding a well-formed chunk and decoding the bytes gives back the
    /// same length, type code, data and checksum.
    pub proof fn lemma_round_trip(c: &Chunk)
        requires
            c.wf(),
        ensures
            decode_chunk(encode_chunk(c@)) == Ok::<ChunkModel, PngError>(c@),
    {
        lemma_decode_encoded(c@, Seq::empty());
        assert(encode_chunk(c@) + Seq::<u8>::empty() =~= encode_chunk(c@));
    }

    /// The checksum of a well-formed chunk is determined by its type code
    /// and data: two chunks that agree on those carry the same checksum.
    pub proof fn lemma_checksum_determined(a: &Chunk, b: &Chunk)
        requires
            a.wf(),
            b.wf(),
            a@.chunk_type == b@.chunk_type,
            a@.data == b@.data,
        ensures
            a@.crc == b@.crc,
    {
    }

    /// The chunk is well formed.
    pub open spec fn wf(&self) -> bool {
        chunk_valid(self@)
    }

    /// Builds a chunk from a type code and data, computing its length and
    /// checksum.
    pub fn new(chunk_type: ChunkType, data: Vec<u8>) -> (r: Chunk)
        requires
            data@.len() <= u32::MAX,
        ensures
            r@ == (ChunkModel {
                length: data@.len() as u32,
                chunk_type: chunk_type@,
                data: data@,
                crc: crc32_of(chunk_type@ + data@),
            }),
            r.wf(),
    {
        let bytes = chunk_type.bytes();
        let mut buf: Vec<u8> = Vec::new();
        buf.push(bytes[0]);
        buf.push(bytes[1]);
        buf.push(bytes[2]);
        buf.push(bytes[3]);
        buf.extend_from_slice(data.as_slice());
        assert(buf@ =~= chunk_type@ + data@);
        let crc = checksum(buf.as_slice());
        Chunk { length: data.len() as u32, chunk_type, chunk_data: data, crc }
    }

    /// The stored checksum.
    pub fn crc(&self) -> (r: u32)
        ensures
            r == self@.crc,
    {
        self.crc
    }

    /// The number of data bytes.
    pub fn length(&self) -> (r: u32)
        ensures
            r == self@.length,
    {
        self.length
    }

    /// The type code.
    pub fn chunk_type(&self) -> (r: &ChunkType)
        ensures
            r@ == self@.chunk_type,
    {
        &self.chunk_type
    }

    /// The data bytes.
    pub fn data(&self) -> (r: &[u8])
        ensures
            r@ == self@.data,
    {
        self.chunk_data.as_slice()
    }

    /// The data read as UTF-8 text.
    pub fn data_as_string(&self) -> (r: Result<String, PngError>)
        ensures
            r is Ok <==> valid_utf8(self@.data),
            r matches Ok(s) ==> s@ == decode_utf8(self@.data),
            r matches Err(e) ==> e == PngError::InvalidUtf8,
    {
        match string_from_utf8(self.chunk_data.clone()) {
            Some(s) => Ok(s),
            None => Err(PngError::InvalidUtf8),
        }
    }

    /// The byte record of the chunk.
    pub fn as_bytes(&self) -> (r: Vec<u8>)
        ensures
            r@ == encode_chunk(self@),
    {
        let length = u32_to_be(self.length);
        let kind = self.chunk_type.bytes();
        let crc = u32_to_be(self.crc);
        let mut out: Vec<u8> = Vec::new();
        out.extend_from_slice(length.as_slice());
        out.extend_from_slice(kind.as_slice());
        out.extend_from_slice(self.chunk_data.as_slice());
        out.extend_from_slice(crc.as_slice());
        assert(out@ =~= encode_chunk(self@));
        out
    }

    /// Decodes the record at the start of `value`: length, type code, data
    /// and checksum, the checksum checked against type code and data.
    pub fn try_from(value: &[u8]) -> (r: Result<Chunk, PngError>)
        ensures
            model_of(r) == decode_chunk(value@),
            r matches Ok(c) ==> c.wf(),
    {
        if value.len() < 8 {
            return Err(PngError::TruncatedInput);
        }
        let length = u32_from_be(value[0], value[1], value[2], value[3]);
        let chunk_type = match ChunkType::from_bytes([value[4], value[5], value[6], value[7]]) {
            Ok(t) => t,
            Err(e) => {
                assert(value@.subrange(4, 8) =~= seq![value@[4], value@[5], value@[6], value@[7]]);
                return Err(e);
            },
        };
        assert(value@.subrange(4, 8) =~= chunk_type@);
        let n: usize = length as usize;
        if value.len() - 8 < n || value.len() - 8 - n < 4 {
            return Err(PngError::TruncatedInput);
        }
        let mut data: Vec<u8> = Vec::new();
        data.extend_from_slice(&value[8..8 + n]);
        assert(data@ =~= value@.subrange(8, 8 + n as int));
        let got = u32_from_be(value[8 + n], value[9 + n], value[10 + n], value[11 + n]);
        let mut buf: Vec<u8> = Vec::new();
        buf.extend_from_slice(&value[4..8]);
        buf.extend_from_slice(data.as_slice());
        assert(buf@ =~= chunk_type@ + data@);
        let expected = checksum(buf.as_slice());
        assert(got == be_at(value@, 8 + length));
        if got != expected {
            return Err(PngError::InvalidCrc(Expectations { got, expected }));
        }
        let c = Chunk::new(chunk_type, data);
        assert(c@ == decode_chunk(value@)->Ok_0);
        Ok(c)
    }
}

} // verus!
