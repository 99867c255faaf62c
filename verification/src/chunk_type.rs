//! The four-byte chunk type tag and its property bits.
//!
//! A chunk type is four raw bytes. A tag built from a string must consist
//! of ASCII letters only; a tag read back from a file is taken as it
//! stands, so that previously written chunks round-trip. Bit 5 (`0x20`,
//! the ASCII case bit) of each byte carries one property of the chunk:
//! criticality, public/private, reserved-bit validity, and safe-to-copy.

use vstd::prelude::*;
use vstd::string::StringSliceAdditionalSpecFns;
use vstd::utf8::decode_utf8;
use vstd::utf8::valid_utf8;

use crate::error::PngError;
use crate::text::utf8_lossy;
use crate::text::utf8_lossy_of;

verus! {

/// Whether a byte is an ASCII letter, `A`-`Z` or `a`-`z`.
pub open spec fn is_ascii_letter(b: u8) -> bool {
    (65 <= b && b <= 90) || (97 <= b && b <= 122)
}

/// Whether a byte sequence is acceptable as a chunk type built from a
/// string: exactly four bytes, all ASCII letters.
pub open spec fn valid_type_bytes(s: Seq<u8>) -> bool {
    s.len() == 4 && forall|i: int| 0 <= i < s.len() ==> is_ascii_letter(#[trigger] s[i])
}

/// Whether bit 5 of a byte is clear, i.e. the byte is an uppercase
/// letter when it is a letter at all.
pub open spec fn bit5_clear(b: u8) -> bool {
    b & 0x20 == 0
}

/// The view of a chunk type always holds exactly four bytes.
pub broadcast proof fn lemma_chunk_type_view_len(t: ChunkType)
    ensures
        (#[trigger] t@).len() == 4,
{
}

/// A four-byte PNG chunk type tag.
#[derive(Debug, Clone, Copy, PartialEq, Eq)]
pub struct ChunkType {
    tag: [u8; 4],
}

impl View for ChunkType {
    type V = Seq<u8>;

    closed spec fn view(&self) -> Seq<u8> {
        self.tag@
    }
}

impl ChunkType {
    /// Builds a tag from four raw bytes. This path is deliberately
    /// permissive: it enforces no letter constraint, so that tags parsed
    /// out of an existing file are preserved byte for byte.
    pub fn from_bytes(bytes: [u8; 4]) -> (t: ChunkType)
        ensures
            t@ == bytes@,
    {
        ChunkType { tag: bytes }
    }

    /// Builds a tag from a string, which must be exactly four bytes of
    /// ASCII letters; anything else is an `InvalidFormat` error.
    pub fn from_str(s: &str) -> (r: Result<ChunkType, PngError>)
        ensures
            match r {
                Ok(t) => valid_type_bytes(s.spec_bytes()) && t@ == s.spec_bytes(),
                Err(e) => !valid_type_bytes(s.spec_bytes()) && e == PngError::InvalidFormat,
            },
    {
        let b: &[u8] = s.as_bytes();
        if b.len() != 4 {
            return Err(PngError::InvalidFormat);
        }
        let mut i: usize = 0;
        while i < 4
            invariant
                b@ == s.spec_bytes(),
                b@.len() == 4,
                i <= 4,
                forall|j: int| 0 <= j < i ==> is_ascii_letter(#[trigger] b@[j]),
            decreases 4 - i,
        {
            let x = b[i];
            if !((65 <= x && x <= 90) || (97 <= x && x <= 122)) {
                return Err(PngError::InvalidFormat);
            }
            i += 1;
        }
        let tag = [b[0], b[1], b[2], b[3]];
        proof {
            assert(tag@ =~= s.spec_bytes());
        }
        Ok(ChunkType { tag })
    }

    /// The raw four bytes of the tag.
    pub fn bytes(&self) -> (r: [u8; 4])
        ensures
            r@ == self@,
    {
        self.tag
    }

    /// What `is_critical` returns: bit 5 of byte 0 is clear.
    pub open spec fn spec_is_critical(&self) -> bool {
        bit5_clear(self@[0])
    }

    /// A chunk is critical when byte 0 is uppercase.
    pub fn is_critical(&self) -> (r: bool)
        ensures
            r == self.spec_is_critical(),
    {
        self.tag[0] & 0x20 == 0
    }

    /// What `is_public` returns: bit 5 of byte 1 is clear.
    pub open spec fn spec_is_public(&self) -> bool {
        bit5_clear(self@[1])
    }

    /// A chunk is public when byte 1 is uppercase.
    pub fn is_public(&self) -> (r: bool)
        ensures
            r == self.spec_is_public(),
    {
        self.tag[1] & 0x20 == 0
    }

    /// What `is_reserved_bit_valid` returns: bit 5 of byte 2 is clear.
    pub open spec fn spec_is_reserved_bit_valid(&self) -> bool {
        bit5_clear(self@[2])
    }

    /// The reserved bit is valid when byte 2 is uppercase.
    pub fn is_reserved_bit_valid(&self) -> (r: bool)
        ensures
            r == self.spec_is_reserved_bit_valid(),
    {
        self.tag[2] & 0x20 == 0
    }

    /// What `is_safe_to_copy` returns: bit 5 of byte 3 is set.
    pub open spec fn spec_is_safe_to_copy(&self) -> bool {
        !bit5_clear(self@[3])
    }

    /// A chunk is safe to copy when byte 3 is lowercase.
    pub fn is_safe_to_copy(&self) -> (r: bool)
        ensures
            r == self.spec_is_safe_to_copy(),
    {
        self.tag[3] & 0x20 != 0
    }

    /// A tag is valid exactly when its reserved bit is valid.
    pub fn is_valid(&self) -> (r: bool)
        ensures
            r == self.spec_is_reserved_bit_valid(),
    {
        self.is_reserved_bit_valid()
    }

    /// Whether the tag's four bytes equal the given bytes.
    pub fn matches_bytes(&self, b: &[u8]) -> (r: bool)
        ensures
            r == (self@ == b@),
    {
        if b.len() != 4 {
            return false;
        }
        let r = self.tag[0] == b[0] && self.tag[1] == b[1] && self.tag[2] == b[2] && self.tag[3]
            == b[3];
        proof {
            if r {
                assert(self@ =~= b@);
            }
        }
        r
    }

    /// The tag rendered as text: its four bytes decoded as UTF-8, with
    /// any invalid sequence replaced.
    pub fn to_string(&self) -> (r: String)
        ensures
            r@ == utf8_lossy_of(self@),
            valid_utf8(self@) ==> r@ == decode_utf8(self@),
    {
        let b: [u8; 4] = self.tag;
        utf8_lossy(b.as_slice())
    }
}

} // verus!
