//! The whole PNG file: a fixed signature followed by chunks in order.
//!
//! A file buffer is the eight-byte signature and then chunks back to
//! back until the buffer is exhausted. Parsing walks the buffer chunk by
//! chunk and fails fast on the first bad chunk; serializing writes the
//! signature and every chunk in sequence order. Appending and removing
//! keep the order of the remaining chunks.

use vstd::prelude::*;
use vstd::slice::slice_index_get;
use vstd::slice::slice_subrange;
use vstd::string::StringSliceAdditionalSpecFns;

use crate::chunk::Chunk;
use crate::chunk::ChunkModel;
use crate::chunk::chunk_parse_err;
use crate::chunk::chunk_parse_ok;
use crate::chunk::lemma_chunk_bytes_parse;
use crate::chunk::parsed_chunk;
use crate::chunk::spec_chunk_bytes;
use crate::chunk::spec_chunk_total_len;
use crate::error::PngError;

verus! {

/// The eight-byte signature that every PNG file starts with.
pub open spec fn spec_signature() -> Seq<u8> {
    seq![0x89u8, 0x50u8, 0x4eu8, 0x47u8, 0x0du8, 0x0au8, 0x1au8, 0x0au8]
}

/// The serialized form of a sequence of chunks, back to back.
pub open spec fn spec_chunks_bytes(s: Seq<ChunkModel>) -> Seq<u8>
    decreases s.len(),
{
    if s.len() == 0 {
        Seq::empty()
    } else {
        spec_chunk_bytes(s[0].type_tag, s[0].data) + spec_chunks_bytes(s.drop_first())
    }
}

/// The serialized form of a whole file: signature, then chunks.
pub open spec fn spec_png_bytes(s: Seq<ChunkModel>) -> Seq<u8> {
    spec_signature() + spec_chunks_bytes(s)
}

/// The chunks that a byte buffer carries, parsed back to back until the
/// buffer is exhausted, or `None` on the first chunk that fails.
pub open spec fn spec_parse_chunks(b: Seq<u8>) -> Option<Seq<ChunkModel>>
    decreases b.len(),
{
    if b.len() == 0 {
        Some(Seq::empty())
    } else if chunk_parse_ok(b) {
        match spec_parse_chunks(b.skip(spec_chunk_total_len(b))) {
            Some(s) => Some(seq![parsed_chunk(b)] + s),
            None => None,
        }
    } else {
        None
    }
}

/// The error on which `spec_parse_chunks` fails: the chunk-level error
/// of the first chunk that does not parse.
pub open spec fn spec_parse_chunks_err(b: Seq<u8>) -> PngError
    recommends
        spec_parse_chunks(b) is None,
    decreases b.len(),
{
    if b.len() == 0 {
        PngError::Truncated
    } else if chunk_parse_ok(b) {
        spec_parse_chunks_err(b.skip(spec_chunk_total_len(b)))
    } else {
        chunk_parse_err(b)
    }
}

/// Whether a buffer starts with the standard signature.
pub open spec fn png_sig_ok(b: Seq<u8>) -> bool {
    b.len() >= 8 && b.subrange(0, 8) == spec_signature()
}

/// Whether a whole buffer parses as a file.
pub open spec fn png_parse_ok(b: Seq<u8>) -> bool {
    png_sig_ok(b) && spec_parse_chunks(b.skip(8)) is Some
}

/// Which error parsing a buffer as a file reports: a bad signature is
/// reported before any chunk is looked at.
pub open spec fn png_parse_err(b: Seq<u8>) -> PngError
    recommends
        !png_parse_ok(b),
{
    if !png_sig_ok(b) {
        PngError::InvalidSignature
    } else {
        spec_parse_chunks_err(b.skip(8))
    }
}

/// A PNG file: the signature and an ordered sequence of chunks.
#[derive(Debug)]
pub struct Png {
    chunks: Vec<Chunk>,
}

impl View for Png {
    type V = Seq<ChunkModel>;

    closed spec fn view(&self) -> Seq<ChunkModel> {
        self.chunks@.map_values(|c: Chunk| c@)
    }
}

impl Png {
    /// The standard eight-byte signature.
    pub fn standard_header() -> (r: [u8; 8])
        ensures
            r@ == spec_signature(),
    {
        let h = [0x89u8, 0x50u8, 0x4eu8, 0x47u8, 0x0du8, 0x0au8, 0x1au8, 0x0au8];
        proof {
            assert(h@ =~= spec_signature());
        }
        h
    }

    /// A container with no chunks yet.
    pub fn new() -> (p: Png)
        ensures
            p@ == Seq::<ChunkModel>::empty(),
    {
        let p = Png { chunks: Vec::new() };
        proof {
            assert(p@ =~= Seq::<ChunkModel>::empty());
        }
        p
    }

    /// Appends a chunk at the end of the sequence.
    pub fn append_chunk(&mut self, chunk: Chunk)
        ensures
            final(self)@ == old(self)@.push(chunk@),
    {
        let ghost m = chunk@;
        self.chunks.push(chunk);
        proof {
            assert(self@ =~= old(self)@.push(m));
        }
    }

    /// The first chunk whose type tag equals the bytes of `chunk_type`,
    /// if any.
    pub fn chunk_by_type(&self, chunk_type: &str) -> (r: Option<&Chunk>)
        ensures
            match r {
                Some(c) => exists|i: int|
                    {
                        &&& 0 <= i < self@.len()
                        &&& (#[trigger] self@[i]).type_tag == chunk_type.spec_bytes()
                        &&& c@ == self@[i]
                        &&& forall|j: int|
                            0 <= j < i ==> (#[trigger] self@[j]).type_tag
                                != chunk_type.spec_bytes()
                    },
                None => forall|i: int|
                    0 <= i < self@.len() ==> (#[trigger] self@[i]).type_tag
                        != chunk_type.spec_bytes(),
            },
    {
        let sb: &[u8] = chunk_type.as_bytes();
        let mut i: usize = 0;
        while i < self.chunks.len()
            invariant
                i <= self.chunks@.len(),
                sb@ == chunk_type.spec_bytes(),
                self@.len() == self.chunks@.len(),
                forall|j: int|
                    0 <= j < i ==> (#[trigger] self@[j]).type_tag != chunk_type.spec_bytes(),
            decreases self.chunks@.len() - i,
        {
            if self.chunks[i].chunk_type().matches_bytes(sb) {
                proof {
                    assert(self@[i as int] == self.chunks@[i as int]@);
                }
                return Some(&self.chunks[i]);
            }
            proof {
                assert(self@[i as int] == self.chunks@[i as int]@);
            }
            i += 1;
        }
        None
    }

    /// Removes and returns the first chunk whose type tag equals the
    /// bytes of `chunk_type`; fails with `ChunkNotFound` when no chunk
    /// matches, leaving the container unchanged.
    pub fn remove_chunk(&mut self, chunk_type: &str) -> (r: Result<Chunk, PngError>)
        ensures
            match r {
                Ok(c) => exists|i: int|
                    {
                        &&& 0 <= i < old(self)@.len()
                        &&& (#[trigger] old(self)@[i]).type_tag == chunk_type.spec_bytes()
                        &&& c@ == old(self)@[i]
                        &&& forall|j: int|
                            0 <= j < i ==> (#[trigger] old(self)@[j]).type_tag
                                != chunk_type.spec_bytes()
                        &&& final(self)@ == old(self)@.remove(i)
                    },
                Err(e) => {
                    &&& e == PngError::ChunkNotFound
                    &&& final(self)@ == old(self)@
                    &&& forall|i: int|
                        0 <= i < old(self)@.len() ==> (#[trigger] old(self)@[i]).type_tag
                            != chunk_type.spec_bytes()
                },
            },
    {
        let sb: &[u8] = chunk_type.as_bytes();
        let mut i: usize = 0;
        while i < self.chunks.len()
            invariant
                i <= self.chunks@.len(),
                sb@ == chunk_type.spec_bytes(),
                self@ == old(self)@,
                self@.len() == self.chunks@.len(),
                forall|j: int|
                    0 <= j < i ==> (#[trigger] self@[j]).type_tag != chunk_type.spec_bytes(),
            decreases self.chunks@.len() - i,
        {
            proof {
                assert(self@[i as int] == self.chunks@[i as int]@);
            }
            if self.chunks[i].chunk_type().matches_bytes(sb) {
                let c = self.chunks.remove(i);
                proof {
                    assert(self@ =~= old(self)@.remove(i as int));
                }
                return Ok(c);
            }
            i += 1;
        }
        Err(PngError::ChunkNotFound)
    }

    /// The chunks of the file, in file order.
    pub fn chunks(&self) -> (r: &Vec<Chunk>)
        ensures
            r@.map_values(|c: Chunk| c@) == self@,
    {
        &self.chunks
    }

    /// Serializes the file: the signature, then every chunk in order.
    pub fn as_bytes(&self) -> (r: Vec<u8>)
        ensures
            r@ == spec_png_bytes(self@),
    {
        let mut bytes: Vec<u8> = Vec::new();
        let hdr = Png::standard_header();
        let mut k: usize = 0;
        while k < 8
            invariant
                k <= 8,
                hdr@ == spec_signature(),
                bytes@ == spec_signature().subrange(0, k as int),
            decreases 8 - k,
        {
            bytes.push(hdr[k]);
            proof {
                assert(bytes@ =~= spec_signature().subrange(0, k + 1));
            }
            k += 1;
        }
        proof {
            assert(bytes@ =~= spec_signature() + spec_chunks_bytes(self@.take(0)));
        }
        let mut i: usize = 0;
        while i < self.chunks.len()
            invariant
                i <= self.chunks@.len(),
                self@.len() == self.chunks@.len(),
                bytes@ == spec_signature() + spec_chunks_bytes(self@.take(i as int)),
            decreases self.chunks@.len() - i,
        {
            let mut cb = self.chunks[i].as_bytes();
            bytes.append(&mut cb);
            proof {
                assert(self@[i as int] == self.chunks@[i as int]@);
                lemma_chunks_bytes_push(self@.take(i as int), self@[i as int]);
                assert(self@.take(i as int).push(self@[i as int]) =~= self@.take(i + 1));
                assert(bytes@ =~= spec_signature() + spec_chunks_bytes(self@.take(i + 1)));
            }
            i += 1;
        }
        proof {
            assert(self@.take(self@.len() as int) =~= self@);
        }
        bytes
    }

    /// Parses a whole file buffer: the signature, then chunks back to
    /// back until the buffer ends. A bad signature fails with
    /// `InvalidSignature` before any chunk is looked at; the first bad
    /// chunk fails with its own error.
    pub fn parse(bytes: &[u8]) -> (r: Result<Png, PngError>)
        ensures
            match r {
                Ok(p) => png_parse_ok(bytes@) && Some(p@) == spec_parse_chunks(bytes@.skip(8)),
                Err(e) => !png_parse_ok(bytes@) && e == png_parse_err(bytes@),
            },
    {
        let hdr = Png::standard_header();
        if bytes.len() < 8 {
            return Err(PngError::InvalidSignature);
        }
        let mut k: usize = 0;
        while k < 8
            invariant
                k <= 8,
                bytes@.len() >= 8,
                hdr@ == spec_signature(),
                forall|j: int| 0 <= j < k ==> bytes@[j] == spec_signature()[j],
            decreases 8 - k,
        {
            if *slice_index_get(bytes, k) != hdr[k] {
                proof {
                    assert(bytes@.subrange(0, 8)[k as int] != spec_signature()[k as int]);
                }
                return Err(PngError::InvalidSignature);
            }
            k += 1;
        }
        proof {
            assert(bytes@.subrange(0, 8) =~= spec_signature());
        }
        let mut chunks: Vec<Chunk> = Vec::new();
        let mut idx: usize = 8;
        while idx < bytes.len()
            invariant
                8 <= idx <= bytes@.len(),
                png_sig_ok(bytes@),
                ({
                    let whole = spec_parse_chunks(bytes@.skip(8));
                    let rest = spec_parse_chunks(bytes@.skip(idx as int));
                    &&& match rest {
                        Some(s) => whole == Some(chunks@.map_values(|c: Chunk| c@) + s),
                        None => whole is None,
                    }
                    &&& (rest is None ==> spec_parse_chunks_err(bytes@.skip(8))
                        == spec_parse_chunks_err(bytes@.skip(idx as int)))
                }),
            decreases bytes@.len() - idx,
        {
            let rest = slice_subrange(bytes, idx, bytes.len());
            proof {
                assert(rest@ =~= bytes@.skip(idx as int));
            }
            match Chunk::parse(rest) {
                Ok(c) => {
                    let dl = c.length();
                    let ghost prev = bytes@.skip(idx as int);
                    let ghost old_models = chunks@.map_values(|x: Chunk| x@);
                    proof {
                        assert(spec_chunk_total_len(prev) == 12 + dl);
                    }
                    let consumed: usize = 12 + dl as usize;
                    chunks.push(c);
                    idx = idx + consumed;
                    proof {
                        assert(prev.skip(consumed as int) =~= bytes@.skip(idx as int));
                        assert(chunks@.map_values(|x: Chunk| x@) =~= old_models.push(c@));
                        let rest2 = spec_parse_chunks(bytes@.skip(idx as int));
                        if rest2 is Some {
                            let s2 = rest2->Some_0;
                            assert(spec_parse_chunks(prev) == Some(seq![c@] + s2));
                            assert(old_models + (seq![c@] + s2) =~= old_models.push(c@) + s2);
                        }
                    }
                }
                Err(e) => {
                    proof {
                        let skipv = bytes@.skip(idx as int);
                        assert(skipv.len() > 0);
                        assert(spec_parse_chunks(skipv) is None);
                        assert(spec_parse_chunks_err(skipv) == chunk_parse_err(skipv));
                    }
                    return Err(e);
                }
            }
        }
        proof {
            assert(bytes@.skip(idx as int) =~= Seq::<u8>::empty());
            assert(spec_parse_chunks(bytes@.skip(idx as int)) == Some(Seq::<ChunkModel>::empty()));
            assert(chunks@.map_values(|c: Chunk| c@) + Seq::<ChunkModel>::empty() =~= chunks@
                .map_values(|c: Chunk| c@));
        }
        let p = Png { chunks };
        Ok(p)
    }
}

/// Serializing one more chunk appends its bytes at the end.
pub proof fn lemma_chunks_bytes_push(s: Seq<ChunkModel>, m: ChunkModel)
    ensures
        spec_chunks_bytes(s.push(m)) == spec_chunks_bytes(s) + spec_chunk_bytes(
            m.type_tag,
            m.data,
        ),
    decreases s.len(),
{
    let cb = spec_chunk_bytes(m.type_tag, m.data);
    if s.len() == 0 {
        assert(s.push(m)[0] == m);
        assert(s.push(m).drop_first() =~= Seq::<ChunkModel>::empty());
        assert(spec_chunks_bytes(Seq::<ChunkModel>::empty()) == Seq::<u8>::empty());
        assert(spec_chunks_bytes(s) == Seq::<u8>::empty());
        assert(spec_chunks_bytes(s.push(m)) == cb + Seq::<u8>::empty());
        assert(cb + Seq::<u8>::empty() =~= Seq::<u8>::empty() + cb);
    } else {
        lemma_chunks_bytes_push(s.drop_first(), m);
        assert(s.push(m)[0] == s[0]);
        assert(s.push(m).drop_first() =~= s.drop_first().push(m));
        let head = spec_chunk_bytes(s[0].type_tag, s[0].data);
        assert(spec_chunks_bytes(s.push(m)) == head + spec_chunks_bytes(s.drop_first().push(m)));
        assert(spec_chunks_bytes(s) == head + spec_chunks_bytes(s.drop_first()));
        assert(head + (spec_chunks_bytes(s.drop_first()) + cb) =~= (head + spec_chunks_bytes(
            s.drop_first(),
        )) + cb);
    }
}

/// Parsing the serialized form of any chunk sequence yields exactly
/// that sequence.
pub proof fn lemma_chunks_bytes_parse(s: Seq<ChunkModel>)
    requires
        forall|i: int|
            0 <= i < s.len() ==> (#[trigger] s[i]).type_tag.len() == 4 && s[i].data.len()
                <= u32::MAX,
    ensures
        spec_parse_chunks(spec_chunks_bytes(s)) == Some(s),
    decreases s.len(),
{
    if s.len() == 0 {
        assert(spec_chunks_bytes(s) == Seq::<u8>::empty());
        assert(Seq::<ChunkModel>::empty() =~= s);
    } else {
        let m = s[0];
        let rest_bytes = spec_chunks_bytes(s.drop_first());
        lemma_chunk_bytes_parse(m.type_tag, m.data, rest_bytes);
        lemma_chunks_bytes_parse(s.drop_first());
        let b = spec_chunk_bytes(m.type_tag, m.data) + rest_bytes;
        assert(spec_chunks_bytes(s) == b);
        assert(b.len() >= 12);
        assert(b.skip(spec_chunk_total_len(b)) == rest_bytes);
        assert(seq![m] + s.drop_first() =~= s);
    }
}

/// Round trip: serializing any sequence of chunks behind the signature
/// and parsing the buffer back yields the same sequence. Together with
/// the contract of `Png::as_bytes` this says that a buffer produced by
/// `as_bytes` parses back to the container it came from, and so
/// re-serializes to the same buffer.
#[verifier::rlimit(100)]
pub proof fn lemma_png_round_trip(s: Seq<ChunkModel>)
    requires
        forall|i: int|
            0 <= i < s.len() ==> (#[trigger] s[i]).type_tag.len() == 4 && s[i].data.len()
                <= u32::MAX,
    ensures
        png_parse_ok(spec_png_bytes(s)),
        spec_parse_chunks(spec_png_bytes(s).skip(8)) == Some(s),
{
    lemma_chunks_bytes_parse(s);
    let b = spec_png_bytes(s);
    assert(spec_signature().len() == 8);
    assert(b.subrange(0, 8) =~= spec_signature());
    assert(b.skip(8) =~= spec_chunks_bytes(s));
    assert(png_sig_ok(b));
}

} // verus!
