//! Transport and radio health counters, owned as one value and passed by
//! reference into whatever updates them.  Every counter wraps on overflow,
//! as a counter that only diagnoses may.

use vstd::prelude::*;

verus! {

/// The mutable health counters of the device.
#[derive(Debug, Clone, Copy, PartialEq, Eq, Structural)]
pub struct Metrics {
    usb_error_cnt: u32,
    lora_transmit_error_cnt: u32,
    lora_transmit_bytes: u32,
}

impl Metrics {
    /// How many USB write errors have been counted.
    pub closed spec fn usb_errors(&self) -> u32 {
        self.usb_error_cnt
    }

    /// How many radio transmit errors have been counted.
    pub closed spec fn lora_errors(&self) -> u32 {
        self.lora_transmit_error_cnt
    }

    /// How many bytes have been handed to the radio.
    pub closed spec fn lora_bytes(&self) -> u32 {
        self.lora_transmit_bytes
    }

    /// All counters at zero.
    pub fn new() -> (r: Metrics)
        ensures
            r.usb_errors() == 0,
            r.lora_errors() == 0,
            r.lora_bytes() == 0,
    {
        Metrics { usb_error_cnt: 0, lora_transmit_error_cnt: 0, lora_transmit_bytes: 0 }
    }

    /// Count one USB write error.
    pub fn increment_usb_error_cnt(&mut self)
        ensures
            final(self).usb_errors() == old(self).usb_errors().wrapping_add(1),
            final(self).lora_errors() == old(self).lora_errors(),
            final(self).lora_bytes() == old(self).lora_bytes(),
    {
        self.usb_error_cnt = self.usb_error_cnt.wrapping_add(1);
    }

    /// How many USB write errors have been counted.
    pub fn get_usb_error_cnt(&self) -> (r: u32)
        ensures
            r == self.usb_errors(),
    {
        self.usb_error_cnt
    }

    /// Count one radio transmit error.
    pub fn increment_lora_transmit_error_cnt(&mut self)
        ensures
            final(self).lora_errors() == old(self).lora_errors().wrapping_add(1),
            final(self).usb_errors() == old(self).usb_errors(),
            final(self).lora_bytes() == old(self).lora_bytes(),
    {
        self.lora_transmit_error_cnt = self.lora_transmit_error_cnt.wrapping_add(1);
    }

    /// How many radio transmit errors have been counted.
    pub fn get_lora_transmit_error_cnt(&self) -> (r: u32)
        ensures
            r == self.lora_errors(),
    {
        self.lora_transmit_error_cnt
    }

    /// Count `bytes` more bytes handed to the radio; only the low 32 bits
    /// of the count are kept.
    pub fn increment_lora_transmit_bytes(&mut self, bytes: usize)
        ensures
            final(self).lora_bytes() == old(self).lora_bytes().wrapping_add(bytes as u32),
            final(self).usb_errors() == old(self).usb_errors(),
            final(self).lora_errors() == old(self).lora_errors(),
    {
        self.lora_transmit_bytes = self.lora_transmit_bytes.wrapping_add(bytes as u32);
    }

    /// How many bytes have been handed to the radio.
    pub fn get_lora_transmit_bytes(&self) -> (r: u32)
        ensures
            r == self.lora_bytes(),
    {
        self.lora_transmit_bytes
    }
}

} // verus!
