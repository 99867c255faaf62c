//! One PNG chunk: a length-prefixed, type-tagged, checksummed record.
//!
//! On the wire a chunk is `length (4 bytes, big-endian) ++ type (4 bytes)
//! ++ payload (length bytes) ++ CRC-32 (4 bytes, big-endian)`, where the
//! checksum covers the type tag and the payload. A chunk value always
//! keeps its derived length and checksum consistent with its tag and
//! payload: they are computed at construction and never set directly.

use vstd::prelude::*;
use vstd::slice::slice_index_get;
use vstd::slice::slice_subrange;
use vstd::slice::slice_to_vec;
use vstd::utf8::decode_utf8;
use vstd::utf8::valid_utf8;

use crate::checksum::crc32;
use crate::checksum::crc32_of;
use crate::chunk_type::ChunkType;
use crate::error::PngError;
use crate::text::utf8_lossy;
use crate::text::utf8_lossy_of;

verus! {

broadcast use crate::chunk_type::lemma_chunk_type_view_len;

/// The mathematical content of a chunk: its type tag and its payload.
/// Length and checksum are derived from these two.
pub ghost struct ChunkModel {
    pub type_tag: Seq<u8>,
    pub data: Seq<u8>,
}

/// The four bytes of `n` in big-endian order.
pub open spec fn spec_u32_to_be(n: u32) -> Seq<u8> {
    seq![(n >> 24) as u8, (n >> 16) as u8, (n >> 8) as u8, n as u8]
}

/// The value of four big-endian bytes.
pub open spec fn spec_u32_from_be(s: Seq<u8>) -> u32
    recommends
        s.len() == 4,
{
    ((s[0] as u32) << 24) | ((s[1] as u32) << 16) | ((s[2] as u32) << 8) | (s[3] as u32)
}

/// Reading back the four big-endian bytes of a value yields the value.
pub proof fn lemma_u32_be_round_trip(n: u32)
    ensures
        spec_u32_from_be(spec_u32_to_be(n)) == n,
{
    let b0 = (n >> 24) as u8;
    let b1 = (n >> 16) as u8;
    let b2 = (n >> 8) as u8;
    let b3 = n as u8;
    assert((((b0 as u32) << 24) | ((b1 as u32) << 16) | ((b2 as u32) << 8) | (b3 as u32))
        == n) by (bit_vector)
        requires
            b0 == (n >> 24) as u8,
            b1 == (n >> 16) as u8,
            b2 == (n >> 8) as u8,
            b3 == n as u8,
    ;
    assert(spec_u32_to_be(n)[0] == b0);
    assert(spec_u32_to_be(n)[1] == b1);
    assert(spec_u32_to_be(n)[2] == b2);
    assert(spec_u32_to_be(n)[3] == b3);
}

/// The serialized form of a chunk with type tag `t` and payload `d`.
pub open spec fn spec_chunk_bytes(t: Seq<u8>, d: Seq<u8>) -> Seq<u8>
    recommends
        t.len() == 4,
        d.len() <= u32::MAX,
{
    spec_u32_to_be(d.len() as u32) + t + d + spec_u32_to_be(crc32_of(t + d))
}

/// The payload length that the first four bytes of `b` declare.
pub open spec fn spec_chunk_data_len(b: Seq<u8>) -> int
    recommends
        b.len() >= 4,
{
    spec_u32_from_be(b.subrange(0, 4)) as int
}

/// How many bytes of `b` the chunk at its front occupies: the fixed
/// twelve bytes of framing plus the declared payload length.
pub open spec fn spec_chunk_total_len(b: Seq<u8>) -> int
    recommends
        b.len() >= 4,
{
    12 + spec_chunk_data_len(b)
}

/// Whether the front of `b` carries a well-formed chunk: the buffer
/// reaches as far as the declared length implies, and the trailing
/// checksum agrees with the CRC-32 recomputed over tag and payload.
pub open spec fn chunk_parse_ok(b: Seq<u8>) -> bool {
    &&& b.len() >= 4
    &&& b.len() >= spec_chunk_total_len(b)
    &&& ({
        let n = spec_chunk_data_len(b);
        spec_u32_from_be(b.subrange(8 + n, 12 + n)) == crc32_of(
            b.subrange(4, 8) + b.subrange(8, 8 + n),
        )
    })
}

/// The chunk that the front of `b` carries, when `chunk_parse_ok(b)`.
pub open spec fn parsed_chunk(b: Seq<u8>) -> ChunkModel
    recommends
        chunk_parse_ok(b),
{
    ChunkModel { type_tag: b.subrange(4, 8), data: b.subrange(8, 8 + spec_chunk_data_len(b)) }
}

/// Which error parsing the front of `b` as a chunk reports, when
/// `chunk_parse_ok(b)` does not hold: a short buffer is `Truncated`, a
/// long enough one can only have failed its checksum.
pub open spec fn chunk_parse_err(b: Seq<u8>) -> PngError
    recommends
        !chunk_parse_ok(b),
{
    if b.len() < 4 || b.len() < spec_chunk_total_len(b) {
        PngError::Truncated
    } else {
        PngError::ChecksumMismatch
    }
}

/// Appends the four big-endian bytes of `n` to `buf`.
fn push_u32_be(buf: &mut Vec<u8>, n: u32)
    ensures
        final(buf)@ == old(buf)@ + spec_u32_to_be(n),
{
    buf.push(#[verifier::truncate] ((n >> 24) as u8));
    buf.push(#[verifier::truncate] ((n >> 16) as u8));
    buf.push(#[verifier::truncate] ((n >> 8) as u8));
    buf.push(#[verifier::truncate] (n as u8));
    proof {
        assert(buf@ =~= old(buf)@ + spec_u32_to_be(n));
    }
}

/// Reads a four-byte big-endian value.
fn u32_from_be(b: &[u8]) -> (n: u32)
    requires
        b@.len() == 4,
    ensures
        n == spec_u32_from_be(b@),
{
    ((b[0] as u32) << 24) | ((b[1] as u32) << 16) | ((b[2] as u32) << 8) | (b[3] as u32)
}

/// Appends every byte of `b` to `buf`.
fn push_bytes(buf: &mut Vec<u8>, b: &[u8])
    ensures
        final(buf)@ == old(buf)@ + b@,
{
    let mut i: usize = 0;
    while i < b.len()
        invariant
            i <= b@.len(),
            buf@ == old(buf)@ + b@.subrange(0, i as int),
        decreases b@.len() - i,
    {
        buf.push(b[i]);
        proof {
            assert(old(buf)@ + b@.subrange(0, i as int) + seq![b@[i as int]] =~= old(buf)@
                + b@.subrange(0, i + 1));
        }
        i += 1;
    }
    proof {
        assert(buf@ =~= old(buf)@ + b@);
    }
}

/// The CRC-32 over a chunk's type tag followed by its payload.
fn chunk_checksum(chunk_type: &ChunkType, data: &[u8]) -> (r: u32)
    ensures
        r == crc32_of(chunk_type@ + data@),
{
    let tag = chunk_type.bytes();
    let mut buf: Vec<u8> = Vec::new();
    buf.push(tag[0]);
    buf.push(tag[1]);
    buf.push(tag[2]);
    buf.push(tag[3]);
    push_bytes(&mut buf, data);
    proof {
        assert(buf@ =~= chunk_type@ + data@);
    }
    crc32(buf.as_slice())
}

/// One chunk of a PNG file.
#[derive(Debug)]
pub struct Chunk {
    length: u32,
    chunk_type: ChunkType,
    data: Vec<u8>,
    crc: u32,
}

impl View for Chunk {
    type V = ChunkModel;

    closed spec fn view(&self) -> ChunkModel {
        ChunkModel { type_tag: self.chunk_type@, data: self.data@ }
    }
}

impl Chunk {
    /// The stored length always counts the payload bytes, and the stored
    /// checksum is always the CRC-32 over type tag and payload.
    #[verifier::type_invariant]
    spec fn inv(self) -> bool {
        &&& self.length == self.data@.len()
        &&& self.crc == crc32_of(self.chunk_type@ + self.data@)
    }

    /// Builds a chunk from a type tag and a payload, computing length
    /// and checksum. The payload byte count must fit the 32-bit length
    /// field of the wire format.
    pub fn new(chunk_type: ChunkType, data: Vec<u8>) -> (c: Chunk)
        requires
            data@.len() <= u32::MAX,
        ensures
            c@ == (ChunkModel { type_tag: chunk_type@, data: data@ }),
    {
        let length: u32 = data.len() as u32;
        let crc = chunk_checksum(&chunk_type, data.as_slice());
        Chunk { length, chunk_type, data, crc }
    }

    /// The number of payload bytes.
    pub fn length(&self) -> (r: u32)
        ensures
            r == self@.data.len(),
    {
        proof {
            use_type_invariant(self);
        }
        self.length
    }

    /// The chunk's checksum: the CRC-32 over its type tag and payload.
    pub fn crc(&self) -> (r: u32)
        ensures
            r == crc32_of(self@.type_tag + self@.data),
    {
        proof {
            use_type_invariant(self);
        }
        self.crc
    }

    /// The raw payload.
    pub fn data(&self) -> (r: &[u8])
        ensures
            r@ == self@.data,
    {
        self.data.as_slice()
    }

    /// The payload decoded as text, lossily; this never fails.
    pub fn data_as_string(&self) -> (r: Result<String, PngError>)
        ensures
            match r {
                Ok(s) => {
                    &&& s@ == utf8_lossy_of(self@.data)
                    &&& valid_utf8(self@.data) ==> s@ == decode_utf8(self@.data)
                },
                Err(_) => false,
            },
    {
        Ok(utf8_lossy(self.data.as_slice()))
    }

    /// The chunk's type tag.
    pub fn chunk_type(&self) -> (r: &ChunkType)
        ensures
            r@ == self@.type_tag,
    {
        &self.chunk_type
    }

    /// Serializes the chunk: length, type tag, payload, checksum.
    pub fn as_bytes(&self) -> (r: Vec<u8>)
        ensures
            r@ == spec_chunk_bytes(self@.type_tag, self@.data),
    {
        proof {
            use_type_invariant(self);
        }
        let mut bytes: Vec<u8> = Vec::new();
        push_u32_be(&mut bytes, self.length);
        let tag = self.chunk_type.bytes();
        bytes.push(tag[0]);
        bytes.push(tag[1]);
        bytes.push(tag[2]);
        bytes.push(tag[3]);
        push_bytes(&mut bytes, self.data.as_slice());
        push_u32_be(&mut bytes, self.crc);
        proof {
            assert(bytes@ =~= spec_chunk_bytes(self@.type_tag, self@.data));
        }
        bytes
    }

    /// Reads one chunk from the front of `bytes`. Fails with `Truncated`
    /// when the buffer ends before the declared payload and checksum do,
    /// and with `ChecksumMismatch` when the trailing checksum disagrees
    /// with the one recomputed over type tag and payload.
    pub fn parse(bytes: &[u8]) -> (r: Result<Chunk, PngError>)
        ensures
            match r {
                Ok(c) => chunk_parse_ok(bytes@) && c@ == parsed_chunk(bytes@),
                Err(e) => !chunk_parse_ok(bytes@) && e == chunk_parse_err(bytes@),
            },
    {
        if bytes.len() < 12 {
            return Err(PngError::Truncated);
        }
        let n32 = u32_from_be(slice_subrange(bytes, 0, 4));
        let n = n32 as usize;
        if bytes.len() - 12 < n {
            return Err(PngError::Truncated);
        }
        let tag = [*slice_index_get(bytes, 4), *slice_index_get(bytes, 5), *slice_index_get(
            bytes,
            6,
        ), *slice_index_get(bytes, 7)];
        let chunk_type = ChunkType::from_bytes(tag);
        let data: Vec<u8> = slice_to_vec(slice_subrange(bytes, 8, 8 + n));
        let stored = u32_from_be(slice_subrange(bytes, 8 + n, 12 + n));
        let computed = chunk_checksum(&chunk_type, data.as_slice());
        proof {
            assert(tag@ =~= bytes@.subrange(4, 8));
            assert(chunk_type@ + data@ =~= bytes@.subrange(4, 8) + bytes@.subrange(
                8,
                8 + n as int,
            ));
        }
        if stored != computed {
            return Err(PngError::ChecksumMismatch);
        }
        let c = Chunk { length: n32, chunk_type, data, crc: computed };
        Ok(c)
    }
}

/// Parsing the serialized form of a chunk, with anything at all behind
/// it, succeeds, yields that chunk, and consumes exactly its bytes.
pub proof fn lemma_chunk_bytes_parse(t: Seq<u8>, d: Seq<u8>, rest: Seq<u8>)
    requires
        t.len() == 4,
        d.len() <= u32::MAX,
    ensures
        ({
            let b = spec_chunk_bytes(t, d) + rest;
            &&& chunk_parse_ok(b)
            &&& parsed_chunk(b) == (ChunkModel { type_tag: t, data: d })
            &&& spec_chunk_total_len(b) == 12 + d.len()
            &&& b.skip(12 + d.len() as int) == rest
        }),
{
    let b = spec_chunk_bytes(t, d) + rest;
    let n32 = d.len() as u32;
    let crc = crc32_of(t + d);
    assert(b.subrange(0, 4) =~= spec_u32_to_be(n32));
    lemma_u32_be_round_trip(n32);
    assert(spec_chunk_data_len(b) == d.len());
    assert(b.subrange(4, 8) =~= t);
    assert(b.subrange(8, 8 + d.len() as int) =~= d);
    assert(b.subrange(8 + d.len() as int, 12 + d.len() as int) =~= spec_u32_to_be(crc));
    lemma_u32_be_round_trip(crc);
    assert(chunk_parse_ok(b));
    assert(b.skip(12 + d.len() as int) =~= rest);
}

/// Round trip: a chunk built from a type tag and a payload, serialized
/// and parsed back, is accepted and yields the same type tag and
/// payload (and so the same length and checksum).
pub proof fn lemma_chunk_round_trip(t: Seq<u8>, d: Seq<u8>)
    requires
        t.len() == 4,
        d.len() <= u32::MAX,
    ensures
        chunk_parse_ok(spec_chunk_bytes(t, d)),
        parsed_chunk(spec_chunk_bytes(t, d)) == (ChunkModel { type_tag: t, data: d }),
{
    lemma_chunk_bytes_parse(t, d, Seq::<u8>::empty());
    assert(spec_chunk_bytes(t, d) + Seq::<u8>::empty() =~= spec_chunk_bytes(t, d));
}

} // verus!
