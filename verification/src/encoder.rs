//! The frame encoder: magic, length byte, payload, checksum.

use vstd::prelude::*;

use crate::checksum::{crc32_ieee, crc32_of};
use crate::packet::{PacketModel, TelemetryPacket};
use crate::payload::{encode_payload, payload_of};
use crate::wire::{magic_seq, push_u32_be, spec_u32_to_be_bytes, MAGIC_0, MAGIC_1, MAGIC_2};

verus! {

/// Why encoding failed.
#[derive(Debug, Clone, Copy, PartialEq, Eq, Structural)]
pub enum SerializeError {
    /// The destination buffer cannot hold magic, length, payload and
    /// checksum.
    BufferTooSmall,
}

/// Total length of every encoded frame: 3 magic bytes, 1 length byte,
/// 64 payload bytes and 4 checksum bytes.
pub const FRAME_LEN: usize = 72;

/// The complete frame for a record: magic, payload length, payload, and the
/// big-endian CRC-32 of the payload.
pub open spec fn frame_of(m: PacketModel) -> Seq<u8> {
    magic_seq() + seq![64u8] + payload_of(m) + spec_u32_to_be_bytes(crc32_of(payload_of(m)))
}

/// A well-formed record always frames to exactly 72 bytes.
pub proof fn lemma_frame_len(m: PacketModel)
    requires
        m.wf(),
    ensures
        frame_of(m).len() == 72,
{
    crate::payload::lemma_payload_len(m);
}

/// Build the complete frame for a record in a fresh vector.
pub fn encode_frame(telem: &TelemetryPacket) -> (out: Vec<u8>)
    ensures
        out@ == frame_of(telem@),
        out@.len() == 72,
{
    let mut out: Vec<u8> = Vec::new();
    out.push(MAGIC_0);
    out.push(MAGIC_1);
    out.push(MAGIC_2);
    out.push(64u8);
    let payload = encode_payload(telem);
    let checksum = crc32_ieee(payload.as_slice());
    let mut i: usize = 0;
    while i < 64
        invariant
            i <= 64,
            payload@ == payload_of(telem@),
            payload@.len() == 64,
            out@ =~= magic_seq() + seq![64u8] + payload@.take(i as int),
        decreases 64 - i,
    {
        out.push(payload[i]);
        i = i + 1;
    }
    proof {
        assert(out@ =~= magic_seq() + seq![64u8] + payload@);
    }
    push_u32_be(&mut out, checksum);
    proof {
        assert(out@ =~= frame_of(telem@));
    }
    out
}

/// Serialize a telemetry packet into a byte buffer, returning the length of
/// the written bytes.
///
/// The packet is written including a magic value, bytes and a checksum.  The
/// format is
///
/// ```text
///   magic      3 bytes - always 125, 8, 141
///   len        1 byte  - length of the encoded payload
///   bytes      `len` bytes - payload
///   checksum   4 bytes - a CRC-32 checksum of `bytes` (u32, network order)
/// ```
///
/// The frame occupies the first 72 bytes of `buf`; the rest of the buffer is
/// left as it was.  A buffer shorter than 72 bytes is refused and left
/// untouched.
pub fn serialize(telem: &TelemetryPacket, buf: &mut Vec<u8>) -> (r: Result<usize, SerializeError>)
    ensures
        old(buf)@.len() >= 72 ==> {
            &&& r == Ok::<usize, SerializeError>(72usize)
            &&& final(buf)@.len() == old(buf)@.len()
            &&& final(buf)@.subrange(0, 72) == frame_of(telem@)
            &&& final(buf)@.skip(72) == old(buf)@.skip(72)
        },
        old(buf)@.len() < 72 ==> {
            &&& r == Err::<usize, SerializeError>(SerializeError::BufferTooSmall)
            &&& final(buf)@ == old(buf)@
        },
{
    if buf.len() < 72 {
        return Err(SerializeError::BufferTooSmall);
    }
    let frame = encode_frame(telem);
    let mut i: usize = 0;
    while i < 72
        invariant
            i <= 72,
            buf@.len() == old(buf)@.len() >= 72,
            frame@ == frame_of(telem@),
            frame@.len() == 72,
            forall|j: int| 0 <= j < i ==> buf@[j] == frame@[j],
            forall|j: int| i <= j < buf@.len() ==> buf@[j] == old(buf)@[j],
        decreases 72 - i,
    {
        buf.set(i, frame[i]);
        i = i + 1;
    }
    proof {
        assert(buf@.subrange(0, 72) =~= frame_of(telem@));
        assert(buf@.skip(72) =~= old(buf)@.skip(72));
    }
    Ok(72)
}

} // verus!
