//! The frame checksum: CRC-32 over the payload bytes.

use vstd::prelude::*;

verus! {

/// The CRC-32 checksum (IEEE 802.3 polynomial, reflected, init and xorout
/// `0xFFFFFFFF`) of a byte sequence.  The checksum of given bytes is a fixed
/// but unstated value; contracts relate checksums of equal byte sequences.
pub uninterp spec fn crc32_of(data: Seq<u8>) -> u32;

/// Relies on `crc::Crc::<u32>::checksum` with the `CRC_32_ISO_HDLC`
/// algorithm, which is CRC-32/IEEE (polynomial 0x04C11DB7, reflected in and
/// out, init and xorout 0xFFFFFFFF): the result depends on the input bytes
/// alone.
#[verifier::external_body]
pub(crate) fn crc32_ieee(data: &[u8]) -> (r: u32)
    ensures
        r == crc32_of(data@),
{
    crc::Crc::<u32>::new(&crc::CRC_32_ISO_HDLC).checksum(data)
}

} // verus!
