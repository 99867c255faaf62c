//! The 32-bit checksum that guards every chunk.
//!
//! PNG chunks carry a CRC-32 over the type tag and the payload, using the
//! ISO-HDLC polynomial in its reflected form. The checksum itself is
//! computed by the `crc` crate; this module gives its result a name that
//! the rest of the library can reason with.

use vstd::prelude::*;

verus! {

/// The CRC-32 (ISO-HDLC) checksum of a byte sequence, as the `crc` crate
/// computes it. The value is a pure function of the bytes.
pub uninterp spec fn crc32_of(bytes: Seq<u8>) -> u32;

/// Relies on `crc::Crc::<u32>::new(&crc::CRC_32_ISO_HDLC).checksum`: the
/// checksum depends on the input bytes alone, so its result is named by
/// `crc32_of`.
#[verifier::external_body]
pub(crate) fn crc32(bytes: &[u8]) -> (r: u32)
    ensures
        r == crc32_of(bytes@),
{
    crc::Crc::<u32>::new(&crc::CRC_32_ISO_HDLC).checksum(bytes)
}

} // verus!
