//! The resynchronizing streaming decoder.
//!
//! The decoder consumes one byte at a time and walks a four-state machine:
//!
//! ```text
//! ReadingMagic -> ReadingLength -> ReadingBytes -> ReadingChecksum
//! ```
//!
//! Every full frame attempt yields one item: a decoded record, or a
//! diagnosable error.  Whatever the outcome, the machine returns to
//! `ReadingMagic` with the match index reset to 0, the sole guaranteed
//! resynchronization point.
//!
//! One quirk of the magic matcher is kept on purpose: a byte that fails to
//! match the magic byte at index `i > 0` does not reset the match index; the
//! matcher keeps waiting for the expected byte at index `i`.  A partial
//! magic match followed by wrong bytes therefore resynchronizes only when
//! the literal expected byte reappears.  Likewise, a frame whose length byte
//! is 0 still consumes one payload byte before moving on to the checksum,
//! because the byte counter is only examined after a byte has arrived.

use vstd::prelude::*;

use crate::checksum::{crc32_ieee, crc32_of};
use crate::packet::{PacketModel, TelemetryPacket};
use crate::payload::{decode_payload, packet_of};
use crate::wire::{magic_byte, spec_u32_from_be_bytes, u32_from_be, MAGIC_0, MAGIC_1, MAGIC_2};

verus! {

/// Why a frame attempt failed.
#[derive(Debug, PartialEq, Eq)]
pub enum DeserializeError {
    /// The checksum matched but the payload was not a valid record
    /// encoding; `msg_len` is the payload length that could not decode.
    PayloadError { msg_len: u8 },
    /// The length byte exceeded 64.
    InvalidLength,
    /// The computed checksum of the received payload differed from the
    /// provided one; the raw evidence is carried for diagnostics.
    InvalidChecksum { crc32_buf: [u8; 4], msg_buf: [u8; 64], msg_len: u8 },
}

/// Abstract state of the decoder.
#[verifier::ext_equal]
pub ghost enum DecoderModel {
    /// Waiting for the magic byte at match index `matched`.
    Magic { matched: int },
    /// The next byte is the payload length.
    Length,
    /// Accumulating `len` payload bytes; `filled` have arrived into the
    /// 64-byte scratch buffer `buf`.
    Payload { len: int, filled: int, buf: Seq<u8> },
    /// Accumulating the four checksum bytes into `crc`; `filled` have
    /// arrived; `buf` holds the payload, of which the first `len` bytes are
    /// meaningful.
    Check { len: int, buf: Seq<u8>, filled: int, crc: Seq<u8> },
}

/// Abstract value of one yielded item.
#[verifier::ext_equal]
pub ghost enum ItemModel {
    /// A frame decoded to a record.
    Packet(PacketModel),
    /// The length byte exceeded 64.
    LengthError,
    /// The checksum did not match; the provided checksum bytes, the scratch
    /// buffer and the payload length are carried as evidence.
    ChecksumError { crc: Seq<u8>, buf: Seq<u8>, len: int },
    /// The checksum matched but the payload did not decode.
    PayloadFailure { len: int },
}

/// States the decoder can actually be in.
pub open spec fn state_wf(s: DecoderModel) -> bool {
    match s {
        DecoderModel::Magic { matched } => 0 <= matched <= 2,
        DecoderModel::Length => true,
        DecoderModel::Payload { len, filled, buf } => {
            &&& 0 <= len <= 64
            &&& buf.len() == 64
            &&& if len == 0 {
                filled == 0
            } else {
                0 <= filled < len
            }
        },
        DecoderModel::Check { len, buf, filled, crc } => {
            &&& 0 <= len <= 64
            &&& buf.len() == 64
            &&& crc.len() == 4
            &&& 0 <= filled < 4
        },
    }
}

/// The initial decoder state: waiting for the first magic byte.
pub open spec fn initial_state() -> DecoderModel {
    DecoderModel::Magic { matched: 0 }
}

/// One step of the state machine: the state after consuming byte `b`, and
/// the item yielded by that byte, if any.
pub open spec fn step(s: DecoderModel, b: u8) -> (DecoderModel, Option<ItemModel>) {
    match s {
        DecoderModel::Magic { matched } => {
            if b == magic_byte(matched) {
                if matched == 2 {
                    (DecoderModel::Length, None)
                } else {
                    (DecoderModel::Magic { matched: matched + 1 }, None)
                }
            } else {
                // a mismatched byte keeps the match index where it was
                (s, None)
            }
        },
        DecoderModel::Length => {
            if b > 64 {
                (initial_state(), Some(ItemModel::LengthError))
            } else {
                (
                    DecoderModel::Payload {
                        len: b as int,
                        filled: 0,
                        buf: Seq::new(64, |i: int| 0u8),
                    },
                    None,
                )
            }
        },
        DecoderModel::Payload { len, filled, buf } => {
            let buf2 = buf.update(filled, b);
            if filled + 1 >= len {
                (
                    DecoderModel::Check { len, buf: buf2, filled: 0, crc: Seq::new(4, |i: int| 0u8) },
                    None,
                )
            } else {
                (DecoderModel::Payload { len, filled: filled + 1, buf: buf2 }, None)
            }
        },
        DecoderModel::Check { len, buf, filled, crc } => {
            let crc2 = crc.update(filled, b);
            if filled + 1 >= 4 {
                let provided = spec_u32_from_be_bytes(crc2);
                let computed = crc32_of(buf.take(len));
                if provided == computed {
                    if len == 64 {
                        (initial_state(), Some(ItemModel::Packet(packet_of(buf))))
                    } else {
                        (initial_state(), Some(ItemModel::PayloadFailure { len }))
                    }
                } else {
                    (initial_state(), Some(ItemModel::ChecksumError { crc: crc2, buf, len }))
                }
            } else {
                (DecoderModel::Check { len, buf, filled: filled + 1, crc: crc2 }, None)
            }
        },
    }
}

/// What one call to `next` does, starting in state `s` with `input` still
/// unread: either the first `consumed` bytes produce one item and leave the
/// machine in `state`, or the whole input is consumed silently.
#[verifier::ext_equal]
pub ghost enum NextModel {
    Item { consumed: int, item: ItemModel, state: DecoderModel },
    End { state: DecoderModel },
}

/// The outcome of one `next` call from state `s` on the unread `input`.
pub open spec fn next_from(s: DecoderModel, input: Seq<u8>) -> NextModel
    decreases input.len(),
{
    if input.len() <= 0 {
        NextModel::End { state: s }
    } else {
        let stepped = step(s, input[0]);
        match stepped.1 {
            Some(item) => NextModel::Item { consumed: 1, item, state: stepped.0 },
            None => match next_from(stepped.0, input.skip(1)) {
                NextModel::Item { consumed, item, state } => NextModel::Item {
                    consumed: consumed + 1,
                    item,
                    state,
                },
                NextModel::End { state } => NextModel::End { state },
            },
        }
    }
}

/// `next_from` with its consumed count shifted by `k` more bytes.
pub open spec fn shift_consumed(n: NextModel, k: int) -> NextModel {
    match n {
        NextModel::Item { consumed, item, state } => NextModel::Item {
            consumed: consumed + k,
            item,
            state,
        },
        NextModel::End { state } => NextModel::End { state },
    }
}

/// Concrete decoder phase; the scratch buffers live in the iterator itself.
#[derive(Clone, Copy, Debug)]
enum Phase {
    ReadingMagic { matched: u8 },
    ReadingLength,
    ReadingBytes,
    ReadingChecksum,
}

/// Streaming decoder over a byte sequence.
///
/// The iterator owns its input bytes and a fixed scratch buffer of 64
/// payload bytes plus 4 checksum bytes; each call to [`PacketIterator::next`]
/// consumes bytes until one frame attempt completes or the input ends.
pub struct PacketIterator {
    bytes: Vec<u8>,
    pos: usize,
    phase: Phase,
    msg_len: u8,
    num_read: usize,
    msg_buf: [u8; 64],
    crc_buf: [u8; 4],
}

impl PacketIterator {
    /// The whole input byte sequence.
    pub closed spec fn stream(&self) -> Seq<u8> {
        self.bytes@
    }

    /// The bytes not yet consumed.
    pub closed spec fn remaining(&self) -> Seq<u8> {
        self.bytes@.skip(self.pos as int)
    }

    /// The abstract machine state the decoder is in.
    pub closed spec fn state_model(&self) -> DecoderModel {
        match self.phase {
            Phase::ReadingMagic { matched } => DecoderModel::Magic { matched: matched as int },
            Phase::ReadingLength => DecoderModel::Length,
            Phase::ReadingBytes => DecoderModel::Payload {
                len: self.msg_len as int,
                filled: self.num_read as int,
                buf: self.msg_buf@,
            },
            Phase::ReadingChecksum => DecoderModel::Check {
                len: self.msg_len as int,
                buf: self.msg_buf@,
                filled: self.num_read as int,
                crc: self.crc_buf@,
            },
        }
    }

    /// The decoder's internal invariant.
    pub closed spec fn wf(&self) -> bool {
        &&& self.pos <= self.bytes@.len()
        &&& self.msg_len <= 64
        &&& state_wf(self.state_model())
    }

    /// A fresh decoder over `bytes`, waiting for the first magic byte.
    pub fn new(bytes: Vec<u8>) -> (r: PacketIterator)
        ensures
            r.wf(),
            r.state_model() == initial_state(),
            r.remaining() == bytes@,
            r.stream() == bytes@,
    {
        let r = PacketIterator {
            bytes,
            pos: 0,
            phase: Phase::ReadingMagic { matched: 0 },
            msg_len: 0,
            num_read: 0,
            msg_buf: [0u8; 64],
            crc_buf: [0u8; 4],
        };
        proof {
            assert(r.remaining() =~= r.bytes@);
        }
        r
    }

    /// Consume bytes until one frame attempt completes, yielding its record
    /// or error, or until the input is exhausted, yielding `None`.
    pub fn next(&mut self) -> (r: Option<Result<TelemetryPacket, DeserializeError>>)
        requires
            old(self).wf(),
        ensures
            final(self).wf(),
            final(self).stream() == old(self).stream(),
            match next_from(old(self).state_model(), old(self).remaining()) {
                NextModel::Item { consumed, item, state } => {
                    &&& r matches Some(x) && result_model(x) == item
                    &&& final(self).remaining() == old(self).remaining().skip(consumed)
                    &&& final(self).state_model() == state
                },
                NextModel::End { state } => {
                    &&& r is None
                    &&& final(self).remaining().len() == 0
                    &&& final(self).state_model() == state
                },
            },
    {
        loop
            invariant
                self.wf(),
                self.bytes@ == old(self).stream(),
                old(self).pos@ <= self.pos@,
                next_from(old(self).state_model(), old(self).remaining()) == shift_consumed(
                    next_from(self.state_model(), self.remaining()),
                    self.pos - old(self).pos,
                ),
            decreases self.bytes@.len() - self.pos,
        {
            if self.pos >= self.bytes.len() {
                return None;
            }
            let ghost pre = *self;
            let b = self.bytes[self.pos];
            self.pos = self.pos + 1;
            proof {
                assert(pre.remaining()[0] == b);
                assert(pre.remaining().skip(1) =~= self.bytes@.skip(self.pos as int));
            }
            match self.phase {
                Phase::ReadingMagic { matched } => {
                    let expected = if matched == 0 {
                        MAGIC_0
                    } else if matched == 1 {
                        MAGIC_1
                    } else {
                        MAGIC_2
                    };
                    if b == expected {
                        if matched == 2 {
                            self.phase = Phase::ReadingLength;
                        } else {
                            self.phase = Phase::ReadingMagic { matched: matched + 1 };
                        }
                    }
                    proof {
                        assert(step(pre.state_model(), b) == (self.state_model(), None::<ItemModel>));
                    }
                },
                Phase::ReadingLength => {
                    if b > 64 {
                        self.phase = Phase::ReadingMagic { matched: 0 };
                        proof {
                            assert(step(pre.state_model(), b) == (
                                self.state_model(),
                                Some(ItemModel::LengthError),
                            ));
                        }
                        return Some(Err(DeserializeError::InvalidLength));
                    }
                    self.msg_len = b;
                    self.num_read = 0;
                    self.msg_buf = [0u8; 64];
                    self.phase = Phase::ReadingBytes;
                    proof {
                        assert(self.msg_buf@ =~= Seq::new(64, |i: int| 0u8));
                        assert(step(pre.state_model(), b) =~= (
                            self.state_model(),
                            None::<ItemModel>,
                        ));
                    }
                },
                Phase::ReadingBytes => {
                    self.msg_buf[self.num_read] = b;
                    self.num_read = self.num_read + 1;
                    if self.num_read >= self.msg_len as usize {
                        self.num_read = 0;
                        self.crc_buf = [0u8; 4];
                        self.phase = Phase::ReadingChecksum;
                        proof {
                            assert(self.crc_buf@ =~= Seq::new(4, |i: int| 0u8));
                        }
                    }
                    proof {
                        assert(step(pre.state_model(), b) =~= (
                            self.state_model(),
                            None::<ItemModel>,
                        ));
                    }
                },
                Phase::ReadingChecksum => {
                    self.crc_buf[self.num_read] = b;
                    self.num_read = self.num_read + 1;
                    if self.num_read >= 4 {
                        self.num_read = 0;
                        let len = self.msg_len as usize;
                        let payload = vstd::slice::slice_subrange(self.msg_buf.as_slice(), 0, len);
                        let calculated_sum = crc32_ieee(payload);
                        let provided_sum = u32_from_be(
                            self.crc_buf[0],
                            self.crc_buf[1],
                            self.crc_buf[2],
                            self.crc_buf[3],
                        );
                        proof {
                            assert(seq![
                                self.crc_buf@[0],
                                self.crc_buf@[1],
                                self.crc_buf@[2],
                                self.crc_buf@[3],
                            ] =~= self.crc_buf@);
                        }
                        let item: Result<TelemetryPacket, DeserializeError> = if calculated_sum
                            == provided_sum {
                            if self.msg_len == 64 {
                                Ok(decode_payload(self.msg_buf.as_slice()))
                            } else {
                                Err(DeserializeError::PayloadError { msg_len: self.msg_len })
                            }
                        } else {
                            Err(
                                DeserializeError::InvalidChecksum {
                                    crc32_buf: self.crc_buf,
                                    msg_buf: self.msg_buf,
                                    msg_len: self.msg_len,
                                },
                            )
                        };
                        self.phase = Phase::ReadingMagic { matched: 0 };
                        proof {
                            if self.msg_len == 64 {
                                assert(self.msg_buf@.take(64) =~= self.msg_buf@);
                            }
                            assert(step(pre.state_model(), b).0 =~= self.state_model());
                            assert(step(pre.state_model(), b).1 matches Some(it) && result_model(
                                item,
                            ) =~= it);
                        }
                        return Some(item);
                    }
                    proof {
                        assert(step(pre.state_model(), b) =~= (
                            self.state_model(),
                            None::<ItemModel>,
                        ));
                    }
                },
            }
        }
    }
}

/// The abstract item a concrete `next` result stands for.
pub open spec fn result_model(r: Result<TelemetryPacket, DeserializeError>) -> ItemModel {
    match r {
        Ok(p) => ItemModel::Packet(p@),
        Err(DeserializeError::InvalidLength) => ItemModel::LengthError,
        Err(DeserializeError::PayloadError { msg_len }) => ItemModel::PayloadFailure {
            len: msg_len as int,
        },
        Err(DeserializeError::InvalidChecksum { crc32_buf, msg_buf, msg_len }) => {
            ItemModel::ChecksumError { crc: crc32_buf@, buf: msg_buf@, len: msg_len as int }
        },
    }
}

} // verus!
