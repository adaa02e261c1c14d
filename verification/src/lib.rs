//! Telemetry codec and supporting logic for a battery powered rain gauge
//! sensor node.
//!
//! The heart of the crate is the packet codec: a binary wire format for a
//! telemetry record, an encoder that frames a record with a magic prefix, a
//! length byte and a CRC-32 checksum, and a resynchronizing streaming decoder
//! that turns an untrusted byte stream into a sequence of validated records
//! or diagnosable errors.  Around it stand the small state machines of the
//! rest of the system: the text scanners that pick `TIPS=<n>` readings out of
//! a serial stream, the tip counter of the gauge itself, and the pulse
//! decoder of the humidity and temperature sensor.

pub mod buffer;
pub mod capture;
pub mod capture_strict;
pub mod checksum;
pub mod decoder;
pub mod dht22;
pub mod digits;
pub mod encoder;
pub mod gauge;
pub mod metrics;
pub mod packet;
pub mod payload;
pub mod properties;
pub mod usb_write;
pub mod wire;
