//! The telemetry record: the one domain entity of the wire format.

use vstd::prelude::*;

verus! {

/// Abstract value of a telemetry record: the thirteen fields as plain values.
///
/// The two temperature readings travel as the raw bit patterns of 32-bit
/// IEEE floats; the codec treats them as opaque 32-bit words, so the model
/// holds the words themselves.
#[verifier::ext_equal]
pub ghost struct PacketModel {
    pub device_id: Seq<u8>,
    pub loop_cnt: u32,
    pub tip_cnt: u32,
    pub vbat: u32,
    pub temperature_bits: u32,
    pub relative_humidity_bits: u32,
    pub usb_bytes_read: u32,
    pub usb_bytes_written: u32,
    pub usb_error_cnt: u32,
    pub lora_rx_bytes: u32,
    pub lora_tx_bytes: u32,
    pub lora_error_cnt: u32,
    pub hardware_err_other_cnt: u32,
}

impl PacketModel {
    /// A model is well formed when the hardware identifier holds exactly
    /// sixteen bytes.
    pub open spec fn wf(self) -> bool {
        self.device_id.len() == 16
    }

    /// The all-zero record: every counter zero, every identifier byte zero.
    pub open spec fn zero() -> PacketModel {
        PacketModel {
            device_id: Seq::new(16, |i: int| 0u8),
            loop_cnt: 0,
            tip_cnt: 0,
            vbat: 0,
            temperature_bits: 0,
            relative_humidity_bits: 0,
            usb_bytes_read: 0,
            usb_bytes_written: 0,
            usb_error_cnt: 0,
            lora_rx_bytes: 0,
            lora_tx_bytes: 0,
            lora_error_cnt: 0,
            hardware_err_other_cnt: 0,
        }
    }
}

/// TelemetryPacket is sent from the rain gauge.
///
/// The field order and types are fixed: the wire format encodes the fields
/// in declaration order and has no schema-evolution mechanism.
#[derive(Debug, Clone, Copy, PartialEq, Eq)]
pub struct TelemetryPacket {
    /// The hardware identifier.
    pub device_id: [u8; 16],
    /// The number of loops that have been run.  The device has no clock, so
    /// this is an approximation of time.  It will wrap back to 0.
    pub loop_cnt: u32,
    /// The number of times the rain gauge has tipped over.
    pub tip_cnt: u32,
    /// The last voltage recorded by the battery.
    pub vbat: u32,
    /// Temperature in degrees Celsius, as the bit pattern of a 32-bit IEEE
    /// float.
    pub temperature_bits: u32,
    /// Relative humidity in percent, as the bit pattern of a 32-bit IEEE
    /// float.
    pub relative_humidity_bits: u32,
    pub usb_bytes_read: u32,
    pub usb_bytes_written: u32,
    pub usb_error_cnt: u32,
    pub lora_rx_bytes: u32,
    pub lora_tx_bytes: u32,
    pub lora_error_cnt: u32,
    /// The number of other hardware errors that occurred, outside of a more
    /// specific hardware error.
    pub hardware_err_other_cnt: u32,
}

impl View for TelemetryPacket {
    type V = PacketModel;

    open spec fn view(&self) -> PacketModel {
        PacketModel {
            device_id: self.device_id@,
            loop_cnt: self.loop_cnt,
            tip_cnt: self.tip_cnt,
            vbat: self.vbat,
            temperature_bits: self.temperature_bits,
            relative_humidity_bits: self.relative_humidity_bits,
            usb_bytes_read: self.usb_bytes_read,
            usb_bytes_written: self.usb_bytes_written,
            usb_error_cnt: self.usb_error_cnt,
            lora_rx_bytes: self.lora_rx_bytes,
            lora_tx_bytes: self.lora_tx_bytes,
            lora_error_cnt: self.lora_error_cnt,
            hardware_err_other_cnt: self.hardware_err_other_cnt,
        }
    }
}

impl TelemetryPacket {
    /// A fresh record with every field zero, ready for the producer to fill.
    pub fn new() -> (r: TelemetryPacket)
        ensures
            r@ == PacketModel::zero(),
    {
        let r = TelemetryPacket {
            device_id: [0u8; 16],
            loop_cnt: 0,
            tip_cnt: 0,
            vbat: 0,
            temperature_bits: 0,
            relative_humidity_bits: 0,
            usb_bytes_read: 0,
            usb_bytes_written: 0,
            usb_error_cnt: 0,
            lora_rx_bytes: 0,
            lora_tx_bytes: 0,
            lora_error_cnt: 0,
            hardware_err_other_cnt: 0,
        };
        proof {
            assert(r@ =~= PacketModel::zero());
        }
        r
    }
}

/// Pack the four 32-bit words of the hardware's serial number into the
/// record's 16-byte identifier, each word big-endian, in order.
pub fn encode_device_id(word0: u32, word1: u32, word2: u32, word3: u32) -> (r: [u8; 16])
    ensures
        r@ == crate::wire::spec_u32_to_be_bytes(word0) + crate::wire::spec_u32_to_be_bytes(word1)
            + crate::wire::spec_u32_to_be_bytes(word2) + crate::wire::spec_u32_to_be_bytes(word3),
{
    let mut device_id: [u8; 16] = [0u8; 16];
    device_id[0] = ((word0 >> 24) & 0xff) as u8;
    device_id[1] = ((word0 >> 16) & 0xff) as u8;
    device_id[2] = ((word0 >> 8) & 0xff) as u8;
    device_id[3] = (word0 & 0xff) as u8;
    device_id[4] = ((word1 >> 24) & 0xff) as u8;
    device_id[5] = ((word1 >> 16) & 0xff) as u8;
    device_id[6] = ((word1 >> 8) & 0xff) as u8;
    device_id[7] = (word1 & 0xff) as u8;
    device_id[8] = ((word2 >> 24) & 0xff) as u8;
    device_id[9] = ((word2 >> 16) & 0xff) as u8;
    device_id[10] = ((word2 >> 8) & 0xff) as u8;
    device_id[11] = (word2 & 0xff) as u8;
    device_id[12] = ((word3 >> 24) & 0xff) as u8;
    device_id[13] = ((word3 >> 16) & 0xff) as u8;
    device_id[14] = ((word3 >> 8) & 0xff) as u8;
    device_id[15] = (word3 & 0xff) as u8;
    proof {
        assert(device_id@ =~= crate::wire::spec_u32_to_be_bytes(word0)
            + crate::wire::spec_u32_to_be_bytes(word1) + crate::wire::spec_u32_to_be_bytes(word2)
            + crate::wire::spec_u32_to_be_bytes(word3));
    }
    device_id
}

} // verus!
