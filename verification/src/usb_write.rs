//! Writing text out over the USB serial port.  The polling of the USB
//! device belongs to the surrounding program; this module holds the
//! writer's handle type and the accounting of its retry loop.

use vstd::prelude::*;

verus! {

/// A writer that sends text to the USB serial port.
pub struct UsbWrite {}

impl UsbWrite {
    /// A fresh USB writer.
    pub fn new() -> UsbWrite {
        UsbWrite {  }
    }
}

/// Where the write loop stands after one attempt.
#[derive(Debug, Clone, Copy, PartialEq, Eq, Structural)]
pub struct WriteProgress {
    /// How many of the string's bytes have been accepted so far.
    pub written: usize,
    /// Whether the loop is done, because everything was accepted or
    /// because an attempt failed.
    pub stop: bool,
    /// Whether this attempt failed and the error counter is to rise.
    pub usb_error: bool,
}

/// Account for one attempt of the write loop: the port accepted `result`
/// of the `total - written` outstanding bytes, or failed.  A failed
/// attempt ends the loop rather than stalling on a port that would block.
pub fn write_step(written: usize, total: usize, result: Result<usize, ()>) -> (r: WriteProgress)
    requires
        written <= total,
        (result matches Ok(n) ==> n <= total - written),
    ensures
        result matches Ok(n) ==> {
            &&& r.written == written + n
            &&& r.stop == (written + n == total)
            &&& !r.usb_error
        },
        (result is Err) ==> r == (WriteProgress { written, stop: true, usb_error: true }),
{
    match result {
        Ok(bytes_written) => {
            let now_written = written + bytes_written;
            WriteProgress { written: now_written, stop: now_written == total, usb_error: false }
        },
        Err(_) => WriteProgress { written, stop: true, usb_error: true },
    }
}

} // verus!
