//! Tests of the two `TIPS=` serial stream scanners.

use raingauge::capture;
use raingauge::capture_strict;

/// Run the tolerant scanner and report the last value it found, or 0.
fn last_reading(input: &[u8]) -> u32 {
    let mut cnt = 0;
    for x in capture::read_telem(input) {
        cnt = x;
    }
    cnt
}

#[test]
fn simple() {
    let cnt = last_reading(b"xxxxTIPS=4vvv");
    assert!(cnt == 4);
}

#[test]
fn nothing() {
    let mut cnt = 0;
    for _ in capture::read_telem(b"xxxxvv") {
        cnt = 1;
    }
    assert!(cnt == 0);
}

#[test]
fn no_number() {
    let mut cnt = 0;
    for _ in capture::read_telem(b"xxxxTIPS=z") {
        cnt = 1;
    }
    assert!(cnt == 0);
}

#[test]
fn partial_pattern() {
    let mut cnt = 0;
    for _ in capture::read_telem(b"xxxxTIPSz") {
        cnt = 1;
    }
    assert!(cnt == 0);
}

#[test]
fn repeating_values() {
    let cnt = last_reading(b"xxxxTIPS=4TIPS=99vvv");
    assert!(cnt == 99);
}

#[test]
fn reset_after_number() {
    let cnt = last_reading(b"xxxxTIPS=TIPS=99vvv");
    assert!(cnt == 99);
}

#[test]
fn reset_after_pattern() {
    let cnt = last_reading(b"xxxxTITIPS=99vvv");
    assert!(cnt == 99);
}

#[test]
fn telemetry_capture_it_works() {
    let mut cnt = 0;
    for x in capture_strict::read_telem(b"xxxxTIPS=4vvv") {
        cnt = x;
    }
    assert!(cnt == 4);
}

#[test]
fn tolerant_scanner_reports_every_reading() {
    assert_eq!(vec![4, 99], capture::read_telem(b"xxxxTIPS=4TIPS=99vvv"));
    assert_eq!(vec![0], capture::read_telem(b"TIPS=0."));
    assert_eq!(
        vec![4294967295],
        capture::read_telem(b"TIPS=4294967295 "),
        "the largest counter value parses"
    );
}

#[test]
fn tolerant_scanner_run_at_end_of_input_is_not_reported() {
    // a digit run is reported only when a non-digit closes it
    assert_eq!(Vec::<u32>::new(), capture::read_telem(b"TIPS=123"));
}

#[test]
fn strict_scanner_discards_the_closing_byte() {
    // the byte that closes a reading is consumed outright, so a `T` that
    // closes one reading does not begin the next pattern match
    assert_eq!(vec![4], capture_strict::read_telem(b"TIPS=4TIPS"));
    assert_eq!(vec![4, 99], capture_strict::read_telem(b"TIPS=4 TIPS=99;"));
}
