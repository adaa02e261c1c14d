//! Tests of the rain gauge tip counter.

use raingauge::gauge::{Output, RainGauge};

struct TestOutput {
    val: bool,
}

impl Output for TestOutput {
    fn value(&mut self, val: bool) {
        self.val = val;
    }
}

#[test]
fn lib_it_works() {
    let mut tx_pwr = TestOutput { val: true };
    let mut sink: Vec<u8> = Vec::new();
    let mut rg = RainGauge::new(0);

    for reading in [false, true, true] {
        let act = rg.tip(reading);
        if act.transmit {
            sink.extend_from_slice(format!("TIPS={}", act.tips).as_bytes());
            tx_pwr.value(false);
        }
    }
    rg.stop();

    println!("{}", std::str::from_utf8(&sink).unwrap());
}

#[test]
fn rising_edges_are_counted_and_transmitted() {
    let mut rg = RainGauge::new(10);

    let first = rg.tip(true);
    assert!(!first.record_tip, "the first reading has no known predecessor");
    assert!(!first.transmit);
    assert_eq!(10, first.tips);

    let falling = rg.tip(false);
    assert!(!falling.record_tip);

    let rising = rg.tip(true);
    assert!(rising.record_tip);
    assert!(rising.transmit);
    assert_eq!(11, rising.tips);

    let held = rg.tip(true);
    assert!(!held.record_tip, "a held contact is one tip, not many");
    assert_eq!(11, held.tips);
}

#[test]
fn timeout_retransmits_without_counting() {
    let mut rg = RainGauge::new(3);
    let act = rg.transmit_timeout();
    assert!(act.transmit);
    assert!(!act.record_tip);
    assert_eq!(3, act.tips);
    let again = rg.transmit_timeout();
    assert_eq!(3, again.tips);
}
