//! The field codec: the fixed 64-byte encoding of the thirteen record
//! fields, in declaration order.
//!
//! The sixteen identifier bytes come first; the twelve 32-bit words follow,
//! each big-endian, at fixed offsets.  Every record encodes to exactly 64
//! bytes, the largest payload the frame format allows.

use vstd::prelude::*;

use crate::packet::{PacketModel, TelemetryPacket};
use crate::wire::{spec_u32_from_be_bytes, spec_u32_to_be_bytes, push_u32_be, u32_from_be};

verus! {

/// Length of every encoded payload.
pub const PAYLOAD_LEN: usize = 64;

/// The payload bytes of a record: identifier bytes, then the twelve words.
pub open spec fn payload_of(m: PacketModel) -> Seq<u8> {
    m.device_id + spec_u32_to_be_bytes(m.loop_cnt) + spec_u32_to_be_bytes(m.tip_cnt)
        + spec_u32_to_be_bytes(m.vbat) + spec_u32_to_be_bytes(m.temperature_bits)
        + spec_u32_to_be_bytes(m.relative_humidity_bits) + spec_u32_to_be_bytes(m.usb_bytes_read)
        + spec_u32_to_be_bytes(m.usb_bytes_written) + spec_u32_to_be_bytes(m.usb_error_cnt)
        + spec_u32_to_be_bytes(m.lora_rx_bytes) + spec_u32_to_be_bytes(m.lora_tx_bytes)
        + spec_u32_to_be_bytes(m.lora_error_cnt) + spec_u32_to_be_bytes(m.hardware_err_other_cnt)
}

/// The record read back from a 64-byte payload.
pub open spec fn packet_of(s: Seq<u8>) -> PacketModel
    recommends
        s.len() == 64,
{
    PacketModel {
        device_id: s.subrange(0, 16),
        loop_cnt: spec_u32_from_be_bytes(s.subrange(16, 20)),
        tip_cnt: spec_u32_from_be_bytes(s.subrange(20, 24)),
        vbat: spec_u32_from_be_bytes(s.subrange(24, 28)),
        temperature_bits: spec_u32_from_be_bytes(s.subrange(28, 32)),
        relative_humidity_bits: spec_u32_from_be_bytes(s.subrange(32, 36)),
        usb_bytes_read: spec_u32_from_be_bytes(s.subrange(36, 40)),
        usb_bytes_written: spec_u32_from_be_bytes(s.subrange(40, 44)),
        usb_error_cnt: spec_u32_from_be_bytes(s.subrange(44, 48)),
        lora_rx_bytes: spec_u32_from_be_bytes(s.subrange(48, 52)),
        lora_tx_bytes: spec_u32_from_be_bytes(s.subrange(52, 56)),
        lora_error_cnt: spec_u32_from_be_bytes(s.subrange(56, 60)),
        hardware_err_other_cnt: spec_u32_from_be_bytes(s.subrange(60, 64)),
    }
}

/// Encoding a well-formed record always yields 64 bytes.
pub proof fn lemma_payload_len(m: PacketModel)
    requires
        m.wf(),
    ensures
        payload_of(m).len() == 64,
{
}

/// The field codec round-trips: reading back the payload of a well-formed
/// record gives the record again.
#[verifier::rlimit(30)]
pub proof fn lemma_payload_roundtrip(m: PacketModel)
    requires
        m.wf(),
    ensures
        payload_of(m).len() == 64,
        packet_of(payload_of(m)) == m,
{
    let s = payload_of(m);
    assert(s.subrange(0, 16) =~= m.device_id);
    assert(s.subrange(16, 20) =~= spec_u32_to_be_bytes(m.loop_cnt));
    assert(s.subrange(20, 24) =~= spec_u32_to_be_bytes(m.tip_cnt));
    assert(s.subrange(24, 28) =~= spec_u32_to_be_bytes(m.vbat));
    assert(s.subrange(28, 32) =~= spec_u32_to_be_bytes(m.temperature_bits));
    assert(s.subrange(32, 36) =~= spec_u32_to_be_bytes(m.relative_humidity_bits));
    assert(s.subrange(36, 40) =~= spec_u32_to_be_bytes(m.usb_bytes_read));
    assert(s.subrange(40, 44) =~= spec_u32_to_be_bytes(m.usb_bytes_written));
    assert(s.subrange(44, 48) =~= spec_u32_to_be_bytes(m.usb_error_cnt));
    assert(s.subrange(48, 52) =~= spec_u32_to_be_bytes(m.lora_rx_bytes));
    assert(s.subrange(52, 56) =~= spec_u32_to_be_bytes(m.lora_tx_bytes));
    assert(s.subrange(56, 60) =~= spec_u32_to_be_bytes(m.lora_error_cnt));
    assert(s.subrange(60, 64) =~= spec_u32_to_be_bytes(m.hardware_err_other_cnt));
    crate::wire::lemma_u32_be_bytes_roundtrip(m.loop_cnt);
    crate::wire::lemma_u32_be_bytes_roundtrip(m.tip_cnt);
    crate::wire::lemma_u32_be_bytes_roundtrip(m.vbat);
    crate::wire::lemma_u32_be_bytes_roundtrip(m.temperature_bits);
    crate::wire::lemma_u32_be_bytes_roundtrip(m.relative_humidity_bits);
    crate::wire::lemma_u32_be_bytes_roundtrip(m.usb_bytes_read);
    crate::wire::lemma_u32_be_bytes_roundtrip(m.usb_bytes_written);
    crate::wire::lemma_u32_be_bytes_roundtrip(m.usb_error_cnt);
    crate::wire::lemma_u32_be_bytes_roundtrip(m.lora_rx_bytes);
    crate::wire::lemma_u32_be_bytes_roundtrip(m.lora_tx_bytes);
    crate::wire::lemma_u32_be_bytes_roundtrip(m.lora_error_cnt);
    crate::wire::lemma_u32_be_bytes_roundtrip(m.hardware_err_other_cnt);
    assert(packet_of(payload_of(m)) =~= m);
}

/// Encode the thirteen fields of a record into a fresh 64-byte payload.
pub fn encode_payload(p: &TelemetryPacket) -> (out: Vec<u8>)
    ensures
        out@ == payload_of(p@),
        out@.len() == 64,
{
    let mut out: Vec<u8> = Vec::new();
    let mut i: usize = 0;
    while i < 16
        invariant
            i <= 16,
            out@ =~= p.device_id@.take(i as int),
        decreases 16 - i,
    {
        out.push(p.device_id[i]);
        i = i + 1;
    }
    proof {
        assert(out@ =~= p.device_id@);
    }
    push_u32_be(&mut out, p.loop_cnt);
    push_u32_be(&mut out, p.tip_cnt);
    push_u32_be(&mut out, p.vbat);
    push_u32_be(&mut out, p.temperature_bits);
    push_u32_be(&mut out, p.relative_humidity_bits);
    push_u32_be(&mut out, p.usb_bytes_read);
    push_u32_be(&mut out, p.usb_bytes_written);
    push_u32_be(&mut out, p.usb_error_cnt);
    push_u32_be(&mut out, p.lora_rx_bytes);
    push_u32_be(&mut out, p.lora_tx_bytes);
    push_u32_be(&mut out, p.lora_error_cnt);
    push_u32_be(&mut out, p.hardware_err_other_cnt);
    proof {
        lemma_payload_len(p@);
    }
    out
}

/// Decode a 64-byte payload back into a record.
pub fn decode_payload(s: &[u8]) -> (p: TelemetryPacket)
    requires
        s@.len() == 64,
    ensures
        p@ == packet_of(s@),
{
    let mut device_id: [u8; 16] = [0u8; 16];
    let mut i: usize = 0;
    while i < 16
        invariant
            i <= 16,
            s@.len() == 64,
            forall|j: int| 0 <= j < i ==> device_id@[j] == s@[j],
        decreases 16 - i,
    {
        device_id[i] = s[i];
        i = i + 1;
    }
    let p = TelemetryPacket {
        device_id,
        loop_cnt: u32_from_be(s[16], s[17], s[18], s[19]),
        tip_cnt: u32_from_be(s[20], s[21], s[22], s[23]),
        vbat: u32_from_be(s[24], s[25], s[26], s[27]),
        temperature_bits: u32_from_be(s[28], s[29], s[30], s[31]),
        relative_humidity_bits: u32_from_be(s[32], s[33], s[34], s[35]),
        usb_bytes_read: u32_from_be(s[36], s[37], s[38], s[39]),
        usb_bytes_written: u32_from_be(s[40], s[41], s[42], s[43]),
        usb_error_cnt: u32_from_be(s[44], s[45], s[46], s[47]),
        lora_rx_bytes: u32_from_be(s[48], s[49], s[50], s[51]),
        lora_tx_bytes: u32_from_be(s[52], s[53], s[54], s[55]),
        lora_error_cnt: u32_from_be(s[56], s[57], s[58], s[59]),
        hardware_err_other_cnt: u32_from_be(s[60], s[61], s[62], s[63]),
    };
    proof {
        assert(p.device_id@ =~= s@.subrange(0, 16));
        assert(seq![s@[16], s@[17], s@[18], s@[19]] =~= s@.subrange(16, 20));
        assert(seq![s@[20], s@[21], s@[22], s@[23]] =~= s@.subrange(20, 24));
        assert(seq![s@[24], s@[25], s@[26], s@[27]] =~= s@.subrange(24, 28));
        assert(seq![s@[28], s@[29], s@[30], s@[31]] =~= s@.subrange(28, 32));
        assert(seq![s@[32], s@[33], s@[34], s@[35]] =~= s@.subrange(32, 36));
        assert(seq![s@[36], s@[37], s@[38], s@[39]] =~= s@.subrange(36, 40));
        assert(seq![s@[40], s@[41], s@[42], s@[43]] =~= s@.subrange(40, 44));
        assert(seq![s@[44], s@[45], s@[46], s@[47]] =~= s@.subrange(44, 48));
        assert(seq![s@[48], s@[49], s@[50], s@[51]] =~= s@.subrange(48, 52));
        assert(seq![s@[52], s@[53], s@[54], s@[55]] =~= s@.subrange(52, 56));
        assert(seq![s@[56], s@[57], s@[58], s@[59]] =~= s@.subrange(56, 60));
        assert(seq![s@[60], s@[61], s@[62], s@[63]] =~= s@.subrange(60, 64));
        assert(p@ =~= packet_of(s@));
    }
    p
}

} // verus!
