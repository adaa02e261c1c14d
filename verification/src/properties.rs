//! The laws of the codec: what the streaming decoder yields on encoded
//! frames, corrupted frames, and garbage.
//!
//! Each public proof function here states one guarantee of the wire format
//! over the abstract machine of [`crate::decoder`]; the contract of
//! [`crate::decoder::PacketIterator::next`] carries these guarantees to the
//! executable decoder.

use vstd::prelude::*;

use crate::checksum::crc32_of;
use crate::decoder::{
    initial_state, next_from, shift_consumed, step, DecoderModel, ItemModel, NextModel,
};
use crate::encoder::frame_of;
use crate::packet::PacketModel;
use crate::payload::{packet_of, payload_of};
use crate::wire::{
    magic_seq, spec_u32_from_be_bytes, spec_u32_to_be_bytes, MAGIC_0,
};

verus! {

/// The state after consuming all of `input` from `s` without yielding an
/// item; `None` if some byte of `input` yields one.
pub open spec fn run_silent(s: DecoderModel, input: Seq<u8>) -> Option<DecoderModel>
    decreases input.len(),
{
    if input.len() <= 0 {
        Some(s)
    } else {
        let stepped = step(s, input[0]);
        match stepped.1 {
            Some(item) => None,
            None => run_silent(stepped.0, input.skip(1)),
        }
    }
}

/// `buf` with the bytes of `s` written at positions `at ..`.
pub open spec fn overwrite(buf: Seq<u8>, at: int, s: Seq<u8>) -> Seq<u8> {
    Seq::new(buf.len(), |i: int| if at <= i < at + s.len() { s[i - at] } else { buf[i] })
}

/// Shifting a consumed count twice is shifting it once by the sum.
proof fn lemma_shift_compose(n: NextModel, j: int, k: int)
    ensures
        shift_consumed(shift_consumed(n, j), k) == shift_consumed(n, j + k),
{
}

/// A `next` outcome is unchanged by a shift of zero.
proof fn lemma_shift_zero(n: NextModel)
    ensures
        shift_consumed(n, 0) == n,
{
}

/// Consuming one silent byte shifts the outcome of the rest by one.
proof fn lemma_next_from_unfold_silent(s: DecoderModel, input: Seq<u8>)
    requires
        input.len() > 0,
        step(s, input[0]).1 is None,
    ensures
        next_from(s, input) == shift_consumed(next_from(step(s, input[0]).0, input.skip(1)), 1),
{
}

/// A silently consumed prefix only shifts the outcome on the rest.
pub proof fn lemma_silent_prefix(s: DecoderModel, a: Seq<u8>, rest: Seq<u8>)
    requires
        run_silent(s, a) is Some,
    ensures
        next_from(s, a + rest) == shift_consumed(
            next_from(run_silent(s, a)->0, rest),
            a.len() as int,
        ),
    decreases a.len(),
{
    if a.len() == 0 {
        assert(a + rest =~= rest);
        lemma_shift_zero(next_from(s, rest));
    } else {
        let stepped = step(s, a[0]);
        assert((a + rest)[0] == a[0]);
        assert((a + rest).skip(1) =~= a.skip(1) + rest);
        lemma_next_from_unfold_silent(s, a + rest);
        lemma_silent_prefix(stepped.0, a.skip(1), rest);
        lemma_shift_compose(next_from(run_silent(s, a)->0, rest), (a.len() - 1) as int, 1);
    }
}

/// Silent runs compose across concatenation.
pub proof fn lemma_run_silent_compose(s: DecoderModel, a: Seq<u8>, b: Seq<u8>)
    requires
        run_silent(s, a) is Some,
        run_silent(run_silent(s, a)->0, b) is Some,
    ensures
        run_silent(s, a + b) == run_silent(run_silent(s, a)->0, b),
    decreases a.len(),
{
    if a.len() == 0 {
        assert(a + b =~= b);
    } else {
        let stepped = step(s, a[0]);
        assert((a + b)[0] == a[0]);
        assert((a + b).skip(1) =~= a.skip(1) + b);
        lemma_run_silent_compose(stepped.0, a.skip(1), b);
    }
}

/// After a silent run and one item-yielding byte, `next` yields that item
/// with everything after it untouched.
pub proof fn lemma_next_emit(s: DecoderModel, a: Seq<u8>, b: u8, rest: Seq<u8>)
    requires
        run_silent(s, a) is Some,
        (step(run_silent(s, a)->0, b).1 is Some),
    ensures
        next_from(s, a + seq![b] + rest) == (NextModel::Item {
            consumed: a.len() as int + 1,
            item: step(run_silent(s, a)->0, b).1->0,
            state: step(run_silent(s, a)->0, b).0,
        }),
{
    let s2 = run_silent(s, a)->0;
    assert(a + seq![b] + rest =~= a + (seq![b] + rest));
    lemma_silent_prefix(s, a, seq![b] + rest);
    assert((seq![b] + rest)[0] == b);
    assert(next_from(s2, seq![b] + rest) == NextModel::Item {
        consumed: 1,
        item: step(s2, b).1->0,
        state: step(s2, b).0,
    });
}

/// The three magic bytes walk the matcher from index 0 to the length state.
pub proof fn lemma_magic_silent()
    ensures
        run_silent(initial_state(), magic_seq()) == Some(DecoderModel::Length),
{
    let m = magic_seq();
    assert(m.skip(1) =~= seq![crate::wire::MAGIC_1, crate::wire::MAGIC_2]);
    assert(m.skip(1).skip(1) =~= seq![crate::wire::MAGIC_2]);
    assert(m.skip(1).skip(1).skip(1) =~= Seq::<u8>::empty());
    reveal_with_fuel(run_silent, 5);
}

/// Bytes that do not open the magic leave the waiting decoder waiting.
pub proof fn lemma_garbage_silent(g: Seq<u8>)
    requires
        forall|i: int| 0 <= i < g.len() ==> g[i] != MAGIC_0,
    ensures
        run_silent(initial_state(), g) == Some(initial_state()),
    decreases g.len(),
{
    if g.len() > 0 {
        assert(step(initial_state(), g[0]) == (initial_state(), None::<ItemModel>));
        lemma_garbage_silent(g.skip(1));
    }
}

/// Leading garbage resilience: prefixing bytes that never match the first
/// magic byte changes nothing of what a fresh decoder yields on the input,
/// beyond their own consumption.
pub proof fn lemma_leading_garbage(g: Seq<u8>, input: Seq<u8>)
    requires
        forall|i: int| 0 <= i < g.len() ==> g[i] != MAGIC_0,
    ensures
        next_from(initial_state(), g + input) == shift_consumed(
            next_from(initial_state(), input),
            g.len() as int,
        ),
{
    lemma_garbage_silent(g);
    lemma_silent_prefix(initial_state(), g, input);
}

/// Feeding the outstanding payload bytes fills the scratch buffer in order
/// and hands over to the checksum state.
proof fn lemma_fill_payload(len: int, filled: int, buf: Seq<u8>, s: Seq<u8>)
    requires
        1 <= len <= 64,
        0 <= filled < len,
        buf.len() == 64,
        s.len() == len - filled,
    ensures
        run_silent(DecoderModel::Payload { len, filled, buf }, s) == Some(
            DecoderModel::Check {
                len,
                buf: overwrite(buf, filled, s),
                filled: 0,
                crc: Seq::new(4, |i: int| 0u8),
            },
        ),
    decreases s.len(),
{
    let buf2 = buf.update(filled, s[0]);
    if filled + 1 >= len {
        assert(s.skip(1) =~= Seq::<u8>::empty());
        assert(buf2 =~= overwrite(buf, filled, s));
        reveal_with_fuel(run_silent, 2);
    } else {
        lemma_fill_payload(len, filled + 1, buf2, s.skip(1));
        assert(overwrite(buf2, filled + 1, s.skip(1)) =~= overwrite(buf, filled, s));
    }
}

/// Feeding checksum bytes up to the third fills the checksum buffer in
/// order without yielding.
proof fn lemma_fill_crc(len: int, buf: Seq<u8>, filled: int, crc: Seq<u8>, s: Seq<u8>)
    requires
        0 <= len <= 64,
        buf.len() == 64,
        crc.len() == 4,
        0 <= filled <= 3,
        s.len() == 3 - filled,
    ensures
        run_silent(DecoderModel::Check { len, buf, filled, crc }, s) == Some(
            DecoderModel::Check { len, buf, filled: 3, crc: overwrite(crc, filled, s) },
        ),
    decreases s.len(),
{
    if s.len() == 0 {
        assert(overwrite(crc, filled, s) =~= crc);
    } else {
        let crc2 = crc.update(filled, s[0]);
        lemma_fill_crc(len, buf, filled + 1, crc2, s.skip(1));
        assert(overwrite(crc2, filled + 1, s.skip(1)) =~= overwrite(crc, filled, s));
    }
}

/// The bytes of one whole frame carrying a 64-byte payload and a checksum.
pub open spec fn full_frame_bytes(payload: Seq<u8>, cb: Seq<u8>) -> Seq<u8> {
    magic_seq() + seq![64u8] + payload + cb
}

/// What a fresh decoder makes of one whole 64-byte-payload frame: exactly
/// its 72 bytes are consumed; a checksum match yields the decoded record, a
/// mismatch yields the checksum error with the received evidence; either
/// way the decoder is back at the resynchronization point.
pub proof fn lemma_full_frame(payload: Seq<u8>, cb: Seq<u8>, rest: Seq<u8>)
    requires
        payload.len() == 64,
        cb.len() == 4,
    ensures
        next_from(initial_state(), full_frame_bytes(payload, cb) + rest) == (NextModel::Item {
            consumed: 72,
            item: if spec_u32_from_be_bytes(cb) == crc32_of(payload) {
                ItemModel::Packet(packet_of(payload))
            } else {
                ItemModel::ChecksumError { crc: cb, buf: payload, len: 64 }
            },
            state: initial_state(),
        }),
{
    let zeros64 = Seq::new(64, |i: int| 0u8);
    let zeros4 = Seq::new(4, |i: int| 0u8);
    let head = magic_seq() + seq![64u8];
    let a = head + payload + cb.take(3);
    let b = cb[3];

    lemma_magic_silent();
    reveal_with_fuel(run_silent, 3);
    assert(seq![64u8].skip(1) =~= Seq::<u8>::empty());
    assert(run_silent(DecoderModel::Length, seq![64u8]) == Some(
        DecoderModel::Payload { len: 64, filled: 0, buf: zeros64 },
    ));
    lemma_run_silent_compose(initial_state(), magic_seq(), seq![64u8]);
    assert(magic_seq() + seq![64u8] =~= head);

    lemma_fill_payload(64, 0, zeros64, payload);
    assert(overwrite(zeros64, 0, payload) =~= payload);
    lemma_run_silent_compose(initial_state(), head, payload);

    lemma_fill_crc(64, payload, 0, zeros4, cb.take(3));
    lemma_run_silent_compose(initial_state(), head + payload, cb.take(3));
    let crc3 = overwrite(zeros4, 0, cb.take(3));
    assert(run_silent(initial_state(), a) == Some(
        DecoderModel::Check { len: 64, buf: payload, filled: 3, crc: crc3 },
    ));

    assert(crc3.update(3, b) =~= cb);
    assert(payload.take(64) =~= payload);
    assert((step(DecoderModel::Check { len: 64, buf: payload, filled: 3, crc: crc3 }, b).1
        is Some));
    lemma_next_emit(initial_state(), a, b, rest);
    assert(a + seq![b] + rest =~= full_frame_bytes(payload, cb) + rest);
}

/// Round-trip: a fresh decoder fed the encoded frame of a well-formed
/// record yields exactly that record, consumes exactly the frame's 72
/// bytes, and is back at the resynchronization point; an exhausted input
/// then yields end of stream.
pub proof fn lemma_round_trip(m: PacketModel, rest: Seq<u8>)
    requires
        m.wf(),
    ensures
        frame_of(m).len() == 72,
        next_from(initial_state(), frame_of(m) + rest) == (NextModel::Item {
            consumed: 72,
            item: ItemModel::Packet(m),
            state: initial_state(),
        }),
        next_from(initial_state(), Seq::<u8>::empty()) == (NextModel::End {
            state: initial_state(),
        }),
{
    crate::encoder::lemma_frame_len(m);
    let payload = payload_of(m);
    let cb = spec_u32_to_be_bytes(crc32_of(payload));
    crate::wire::lemma_u32_be_bytes_roundtrip(crc32_of(payload));
    lemma_full_frame(payload, cb, rest);
    assert(frame_of(m) =~= full_frame_bytes(payload, cb));
    crate::payload::lemma_payload_roundtrip(m);
}

/// Multi-frame stream: two encoded frames in sequence yield their two
/// records in order, each attempt consuming exactly its own frame.
#[verifier::rlimit(40)]
pub proof fn lemma_two_frames(m1: PacketModel, m2: PacketModel, rest: Seq<u8>)
    requires
        m1.wf(),
        m2.wf(),
    ensures
        next_from(initial_state(), frame_of(m1) + frame_of(m2) + rest) == (NextModel::Item {
            consumed: 72,
            item: ItemModel::Packet(m1),
            state: initial_state(),
        }),
        (frame_of(m1) + frame_of(m2) + rest).skip(72) == frame_of(m2) + rest,
        next_from(initial_state(), frame_of(m2) + rest) == (NextModel::Item {
            consumed: 72,
            item: ItemModel::Packet(m2),
            state: initial_state(),
        }),
{
    lemma_round_trip(m1, frame_of(m2) + rest);
    assert(frame_of(m1) + frame_of(m2) + rest =~= frame_of(m1) + (frame_of(m2) + rest));
    lemma_round_trip(m2, rest);
    assert((frame_of(m1) + frame_of(m2) + rest).skip(72) =~= frame_of(m2) + rest);
}

/// Length bound enforcement: after the magic, a length byte of 65 or more
/// yields the length error at once — only the magic and the length byte are
/// consumed — and the decoder is back at the resynchronization point.
pub proof fn lemma_length_bound(b: u8, rest: Seq<u8>)
    requires
        b > 64,
    ensures
        next_from(initial_state(), magic_seq() + seq![b] + rest) == (NextModel::Item {
            consumed: 4,
            item: ItemModel::LengthError,
            state: initial_state(),
        }),
{
    lemma_magic_silent();
    lemma_next_emit(initial_state(), magic_seq(), b, rest);
}

/// `s` with bit `k` of byte `i` flipped.
pub open spec fn flip_bit(s: Seq<u8>, i: int, k: int) -> Seq<u8> {
    s.update(i, s[i] ^ (1u8 << k as u8))
}

/// Checksum detection: flipping one bit in the payload region of a valid
/// frame yields the checksum error, whose evidence carries the original
/// payload length and the received bytes — equal to the pre-corruption
/// payload everywhere but the flipped byte — and the decoder is back at the
/// resynchronization point for the next frame.  This holds whenever the
/// flip changes the payload's checksum, which the checksum itself does not
/// guarantee for an uninterpreted checksum function; the CRC-32 polynomial
/// detects every single-bit error.
pub proof fn lemma_checksum_detection(m: PacketModel, i: int, k: int, rest: Seq<u8>)
    requires
        m.wf(),
        0 <= i < 64,
        0 <= k < 8,
    ensures
        ({
            let payload = payload_of(m);
            let corrupted = flip_bit(payload, i, k);
            let cb = spec_u32_to_be_bytes(crc32_of(payload));
            &&& corrupted.len() == 64
            &&& corrupted[i] != payload[i]
            &&& (forall|j: int| 0 <= j < 64 && j != i ==> corrupted[j] == payload[j])
            &&& (crc32_of(corrupted) != crc32_of(payload) ==> next_from(
                initial_state(),
                magic_seq() + seq![64u8] + corrupted + cb + rest,
            ) == (NextModel::Item {
                consumed: 72,
                item: ItemModel::ChecksumError { crc: cb, buf: corrupted, len: 64 },
                state: initial_state(),
            }))
            &&& (magic_seq() + seq![64u8] + corrupted + cb + rest).skip(72) == rest
        }),
{
    crate::payload::lemma_payload_len(m);
    let payload = payload_of(m);
    let corrupted = flip_bit(payload, i, k);
    let cb = spec_u32_to_be_bytes(crc32_of(payload));
    let x = payload[i];
    let kk = k as u8;
    assert(kk < 8 ==> x ^ (1u8 << kk) != x) by (bit_vector);
    crate::wire::lemma_u32_be_bytes_roundtrip(crc32_of(payload));
    lemma_full_frame(corrupted, cb, rest);
    assert(full_frame_bytes(corrupted, cb) + rest =~= magic_seq() + seq![64u8] + corrupted + cb
        + rest);
    assert((magic_seq() + seq![64u8] + corrupted + cb + rest).skip(72) =~= rest);
}

/// The round trip, executably: encode a record, feed the bytes to a fresh
/// decoder, and get the record back.
pub fn decoded_frame(p: &crate::packet::TelemetryPacket) -> (q: crate::packet::TelemetryPacket)
    ensures
        q@ == p@,
{
    let frame = crate::encoder::encode_frame(p);
    proof {
        lemma_round_trip(p@, Seq::<u8>::empty());
        assert(frame@ + Seq::<u8>::empty() =~= frame@);
    }
    let mut packets = crate::decoder::PacketIterator::new(frame);
    match packets.next() {
        Some(Ok(q)) => q,
        _ => {
            proof {
                assert(false);
            }
            crate::packet::TelemetryPacket::new()
        },
    }
}

} // verus!
