//! Tests of the frame encoder and the streaming decoder.

use raingauge::decoder::{DeserializeError, PacketIterator};
use raingauge::encoder::{serialize, SerializeError};
use raingauge::packet::TelemetryPacket;

/// The telemetry record used by several tests: `loop_cnt` 52, `vbat` 1200,
/// everything else zero.
fn sample_packet() -> TelemetryPacket {
    let mut packet = TelemetryPacket::new();
    packet.loop_cnt = 52;
    packet.vbat = 1200;
    packet
}

/// Encode `packet` into a fresh buffer of exactly one frame.
fn encode_to_frame(packet: &TelemetryPacket) -> Vec<u8> {
    let mut buf = vec![0u8; 72];
    let cnt = serialize(packet, &mut buf).unwrap();
    assert_eq!(72, cnt);
    buf
}

#[test]
fn largest_packet() {
    let mut packet = TelemetryPacket::new();
    packet.device_id = [255; 16];
    packet.loop_cnt = u32::MAX;
    packet.tip_cnt = u32::MAX;
    packet.vbat = u32::MAX;
    packet.temperature_bits = (0.0f32).to_bits();
    packet.relative_humidity_bits = (0.0f32).to_bits();
    packet.usb_bytes_read = u32::MAX;
    packet.usb_bytes_written = u32::MAX;
    packet.usb_error_cnt = u32::MAX;
    packet.lora_rx_bytes = u32::MAX;
    packet.lora_tx_bytes = u32::MAX;
    packet.lora_error_cnt = u32::MAX;
    packet.hardware_err_other_cnt = u32::MAX;

    let mut buf = vec![0u8; 127];

    let cnt = serialize(&packet, &mut buf).unwrap();
    println!("{:?}", buf);
    assert_eq!(72, cnt);
}

#[test]
fn test_serialize_deserialize_zero() {
    let mut buf = vec![0u8; 255];

    let packet = TelemetryPacket::new();
    serialize(&packet, &mut buf).unwrap();
    println!("{:?}", buf);

    let mut iter = PacketIterator::new(buf);
    assert_eq!(Some(Ok(packet)), iter.next());
    assert_eq!(None, iter.next());
}

#[test]
fn test_serialize_deserialize_full() {
    let mut buf = vec![0u8; 255];

    let mut packet = TelemetryPacket::new();
    packet.device_id = [10, 20, 30, 40, 50, 60, 70, 80, 90, 100, 120, 130, 140, 150, 160, 170];
    packet.loop_cnt = 180;
    packet.vbat = 190 as u32;
    packet.usb_bytes_read = 200;
    packet.usb_error_cnt = 210;
    packet.lora_error_cnt = 220;
    packet.lora_tx_bytes = 230;

    serialize(&packet, &mut buf).unwrap();

    let mut iter = PacketIterator::new(buf);
    let first_packet = iter.next().unwrap().unwrap();
    assert_eq!(packet, first_packet);
    assert_eq!(None, iter.next());
}

#[test]
fn test_bad_checksum() {
    let mut buf = vec![0u8; 128];

    let packet = TelemetryPacket::new();
    serialize(&packet, &mut buf).unwrap();
    // Random Change
    buf[28] = 23;

    let mut iter = PacketIterator::new(buf);
    if let Some(Err(_)) = iter.next() {
    } else {
        panic!("expected to get an error");
    }
    assert_eq!(None, iter.next());
}

#[test]
fn buffer_too_small_is_refused() {
    let packet = TelemetryPacket::new();
    let mut buf = vec![0u8; 71];
    assert_eq!(Err(SerializeError::BufferTooSmall), serialize(&packet, &mut buf));
    assert_eq!(vec![0u8; 71], buf);
}

#[test]
fn literal_scenario() {
    let packet = sample_packet();
    let frame = encode_to_frame(&packet);

    let mut iter = PacketIterator::new(frame);
    let decoded = iter.next().unwrap().unwrap();
    assert_eq!(52, decoded.loop_cnt);
    assert_eq!(1200, decoded.vbat);
    assert_eq!([0u8; 16], decoded.device_id);
    assert_eq!(0, decoded.tip_cnt);
    assert_eq!(0, decoded.temperature_bits);
    assert_eq!(0, decoded.relative_humidity_bits);
    assert_eq!(0, decoded.usb_bytes_read);
    assert_eq!(0, decoded.usb_bytes_written);
    assert_eq!(0, decoded.usb_error_cnt);
    assert_eq!(0, decoded.lora_rx_bytes);
    assert_eq!(0, decoded.lora_tx_bytes);
    assert_eq!(0, decoded.lora_error_cnt);
    assert_eq!(0, decoded.hardware_err_other_cnt);
    assert_eq!(None, iter.next());
}

#[test]
fn literal_scenario_wire_bytes() {
    // The complete expected frame, checksum computed independently of the
    // library: magic, length 64, the fixed 64-byte payload with loop_cnt 52
    // at offsets 20..24 and vbat 1200 at offsets 28..32, and the big-endian
    // CRC-32 (0x86E7DCF1) of the payload.
    let expected: Vec<u8> = vec![
        125, 8, 141, 64, 0, 0, 0, 0, 0, 0, 0, 0, 0, 0, 0, 0, 0, 0, 0, 0, 0, 0, 0, 52, 0, 0, 0, 0,
        0, 0, 4, 176, 0, 0, 0, 0, 0, 0, 0, 0, 0, 0, 0, 0, 0, 0, 0, 0, 0, 0, 0, 0, 0, 0, 0, 0, 0,
        0, 0, 0, 0, 0, 0, 0, 0, 0, 0, 0, 134, 231, 220, 241,
    ];
    assert_eq!(expected, encode_to_frame(&sample_packet()));
}

#[test]
fn zero_payload_crc_is_pinned() {
    // CRC-32/IEEE of 64 zero bytes is 0x758D6336; the encoder must put it,
    // big-endian, after the payload.
    let frame = encode_to_frame(&TelemetryPacket::new());
    assert_eq!(&[0x75, 0x8D, 0x63, 0x36], &frame[68..72]);
}

#[test]
fn leading_garbage_is_skipped() {
    let packet = sample_packet();
    let frame = encode_to_frame(&packet);

    let mut noisy: Vec<u8> = vec![1, 2, 3, 200, 77];
    noisy.extend_from_slice(&frame);

    let mut iter = PacketIterator::new(noisy);
    assert_eq!(Some(Ok(packet)), iter.next());
    assert_eq!(None, iter.next());
}

#[test]
fn single_bit_flip_is_detected_and_decoding_resumes() {
    let packet = sample_packet();
    let frame = encode_to_frame(&packet);
    let original_payload = frame[4..68].to_vec();
    let original_crc = frame[68..72].to_vec();

    let mut second = TelemetryPacket::new();
    second.tip_cnt = 9;
    let second_frame = encode_to_frame(&second);

    // flip one bit in the payload region, then append an intact frame
    let mut stream = frame.clone();
    stream[14] ^= 1;
    let corrupted_payload = stream[4..68].to_vec();
    stream.extend_from_slice(&second_frame);

    let mut iter = PacketIterator::new(stream);
    match iter.next() {
        Some(Err(DeserializeError::InvalidChecksum { crc32_buf, msg_buf, msg_len })) => {
            assert_eq!(64, msg_len);
            assert_eq!(corrupted_payload[..], msg_buf[..]);
            assert_eq!(original_crc[..], crc32_buf[..]);
            // the evidence equals the pre-corruption payload except at the
            // flipped byte
            for j in 0..64 {
                if j == 10 {
                    assert_ne!(original_payload[j], msg_buf[j]);
                } else {
                    assert_eq!(original_payload[j], msg_buf[j]);
                }
            }
        }
        other => panic!("expected a checksum error, got {:?}", other),
    }
    assert_eq!(Some(Ok(second)), iter.next());
    assert_eq!(None, iter.next());
}

#[test]
fn length_byte_over_64_fails_immediately() {
    let packet = sample_packet();
    let frame = encode_to_frame(&packet);

    // magic, then a length of 65, then an intact frame with nothing between:
    // the bad length consumes no payload or checksum bytes
    let mut stream: Vec<u8> = vec![125, 8, 141, 65];
    stream.extend_from_slice(&frame);

    let mut iter = PacketIterator::new(stream);
    assert_eq!(Some(Err(DeserializeError::InvalidLength)), iter.next());
    assert_eq!(Some(Ok(packet)), iter.next());
    assert_eq!(None, iter.next());
}

#[test]
fn two_frames_decode_in_order() {
    let first = sample_packet();
    let mut second = TelemetryPacket::new();
    second.device_id = [7; 16];
    second.lora_rx_bytes = 31;

    let mut stream = encode_to_frame(&first);
    stream.extend_from_slice(&encode_to_frame(&second));

    let mut iter = PacketIterator::new(stream);
    assert_eq!(Some(Ok(first)), iter.next());
    assert_eq!(Some(Ok(second)), iter.next());
    assert_eq!(None, iter.next());
}

#[test]
fn short_payload_with_matching_checksum_is_a_payload_error() {
    // a frame whose 5-byte payload checksums correctly (CRC-32 of
    // [1,2,3,4,5] is 0x470B99F4) still cannot decode as a record
    let stream: Vec<u8> = vec![125, 8, 141, 5, 1, 2, 3, 4, 5, 0x47, 0x0B, 0x99, 0xF4];
    let mut iter = PacketIterator::new(stream);
    assert_eq!(Some(Err(DeserializeError::PayloadError { msg_len: 5 })), iter.next());
    assert_eq!(None, iter.next());
}

#[test]
fn zero_length_payload_still_consumes_one_byte() {
    // the kept quirk: a length byte of 0 consumes one byte into the scratch
    // buffer before the checksum; the CRC-32 of the empty payload is 0
    let stream: Vec<u8> = vec![125, 8, 141, 0, 99, 0, 0, 0, 0];
    let mut iter = PacketIterator::new(stream);
    assert_eq!(Some(Err(DeserializeError::PayloadError { msg_len: 0 })), iter.next());
    assert_eq!(None, iter.next());
}

#[test]
fn empty_input_yields_nothing() {
    let mut iter = PacketIterator::new(Vec::new());
    assert_eq!(None, iter.next());
    assert_eq!(None, iter.next());
}

#[test]
fn truncated_frame_yields_nothing() {
    let frame = encode_to_frame(&sample_packet());
    let mut iter = PacketIterator::new(frame[0..40].to_vec());
    assert_eq!(None, iter.next());
}

#[test]
fn executable_round_trip_helper_returns_the_record() {
    let packet = sample_packet();
    assert_eq!(packet, raingauge::properties::decoded_frame(&packet));
}

#[test]
fn device_id_words_pack_big_endian() {
    let id = raingauge::packet::encode_device_id(
        0x00010203, 0x04050607, 0x08090A0B, 0x0C0D0E0F,
    );
    assert_eq!([0, 1, 2, 3, 4, 5, 6, 7, 8, 9, 10, 11, 12, 13, 14, 15], id);
}
