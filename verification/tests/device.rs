//! Tests of the firmware-side helpers: the text buffer, the health
//! counters, the USB writer handle and the sensor pulse decoder.

use raingauge::buffer::Buffer;
use raingauge::dht22::{decode, DhtError, Reading};
use raingauge::metrics::Metrics;
use raingauge::usb_write::{write_step, UsbWrite, WriteProgress};

#[test]
fn buffer_collects_written_text() {
    let mut buf = Buffer::new();
    assert_eq!(0, buf.size());
    buf.write_str("TIPS=");
    buf.write_str("41");
    assert_eq!(7, buf.size());
    let bytes = buf.as_bytes();
    assert_eq!(b"TIPS=41", &bytes[0..7]);
    assert_eq!(0, bytes[7]);
}

#[test]
fn buffer_position_saturates_at_the_last_cell() {
    let mut buf = Buffer::new();
    let long = "x".repeat(300);
    buf.write_str(&long);
    assert_eq!(254, buf.size());
    buf.write_str("y");
    assert_eq!(254, buf.size());
    let bytes = buf.as_bytes();
    assert_eq!(b'x', bytes[253]);
    assert_eq!(b'y', bytes[254], "the last cell holds the last byte written");
}

#[test]
fn usb_write_constructs() {
    let _ = UsbWrite::new();
}

#[test]
fn usb_write_loop_accounting() {
    let partial = write_step(0, 10, Ok(4));
    assert_eq!(WriteProgress { written: 4, stop: false, usb_error: false }, partial);

    let done = write_step(4, 10, Ok(6));
    assert_eq!(WriteProgress { written: 10, stop: true, usb_error: false }, done);

    let failed = write_step(4, 10, Err(()));
    assert_eq!(WriteProgress { written: 4, stop: true, usb_error: true }, failed);
}

#[test]
fn metrics_count_and_wrap() {
    let mut m = Metrics::new();
    assert_eq!(0, m.get_usb_error_cnt());
    m.increment_usb_error_cnt();
    m.increment_usb_error_cnt();
    assert_eq!(2, m.get_usb_error_cnt());

    m.increment_lora_transmit_error_cnt();
    assert_eq!(1, m.get_lora_transmit_error_cnt());

    m.increment_lora_transmit_bytes(u32::MAX as usize);
    assert_eq!(u32::MAX, m.get_lora_transmit_bytes());
    m.increment_lora_transmit_bytes(1);
    assert_eq!(0, m.get_lora_transmit_bytes(), "the byte counter wraps");
}

/// Pulse counts encoding the five bytes `data`, with every low phase 50
/// ticks, a 1 bit's high phase 100 ticks and a 0 bit's 10 ticks.
fn pulses_for(data: [u8; 5]) -> [usize; 82] {
    let mut arr = [50usize; 82];
    for k in 0..5 {
        for n in 0..8 {
            let bit = (data[k] >> (7 - n)) & 1;
            arr[3 + 2 * (8 * k + n)] = if bit == 1 { 100 } else { 10 };
        }
    }
    arr
}

#[test]
fn dht22_decodes_a_valid_answer() {
    // humidity 0x0101 = 25.7%, temperature 0x0102 = 25.8 C, checksum 5
    let arr = pulses_for([1, 1, 1, 2, 5]);
    assert_eq!(
        Ok(Reading { humidity_tenths: 257, temperature_tenths: 258, temperature_negative: false }),
        decode(&arr)
    );
}

#[test]
fn dht22_reads_the_sign_bit() {
    // temperature byte 0x81: sign bit set, magnitude 0x0103
    let arr = pulses_for([0, 95, 0x81, 3, 0x81u8.wrapping_add(95).wrapping_add(3)]);
    assert_eq!(
        Ok(Reading { humidity_tenths: 95, temperature_tenths: 259, temperature_negative: true }),
        decode(&arr)
    );
}

#[test]
fn dht22_rejects_a_bad_checksum() {
    let arr = pulses_for([1, 1, 1, 2, 6]);
    assert_eq!(Err(DhtError::Checksum), decode(&arr));
}
