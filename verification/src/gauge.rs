//! The tip counter of the rain gauge: the decisions behind the event loop.
//!
//! The gauge watches a tipper contact.  A reading that goes from `false` to
//! `true` is one tip: the count rises by one, the tip is recorded, and the
//! new total is transmitted.  A transmit timeout retransmits the current
//! total without counting anything.  The surrounding program owns the
//! channel, the persistent store and the radio; it feeds events in and
//! carries the returned actions out.

use vstd::prelude::*;

verus! {

/// A sink for a level signal, such as the transmit power control; the
/// surrounding program implements it.
pub trait Output {
    fn value(&mut self, new_value: bool);
}

/// What the caller is to do after handing the gauge an event.
#[derive(Debug, Clone, Copy, PartialEq, Eq, Structural)]
pub struct GaugeAction {
    /// Record one tip in the persistent store.
    pub record_tip: bool,
    /// Transmit the current total.
    pub transmit: bool,
    /// The total to transmit.
    pub tips: i64,
}

/// The tip counter and the last tipper reading.
pub struct RainGauge {
    tips: i64,
    last_value: Option<bool>,
    stopped: bool,
}

impl RainGauge {
    /// The current tip total.
    pub closed spec fn tips(&self) -> i64 {
        self.tips
    }

    /// The last tipper reading seen, if any.
    pub closed spec fn last_value(&self) -> Option<bool> {
        self.last_value
    }

    /// Whether the gauge has been stopped.
    pub closed spec fn stopped(&self) -> bool {
        self.stopped
    }

    /// Whether a reading of `value` is a rising edge: the previous reading
    /// is known and was `false`, and the new one is `true`.
    pub open spec fn rising_edge(&self, value: bool) -> bool {
        &&& self.last_value() matches Some(prev)
        &&& value != prev
        &&& value
    }

    /// The current tip total.
    pub fn tips_value(&self) -> (r: i64)
        ensures
            r == self.tips(),
    {
        self.tips
    }

    /// Whether the gauge has been stopped.
    pub fn is_stopped(&self) -> (r: bool)
        ensures
            r == self.stopped(),
    {
        self.stopped
    }

    /// A gauge that has already counted `initial_tips` tips (the sum the
    /// persistent store holds) and has seen no tipper reading yet.
    pub fn new(initial_tips: i64) -> (r: RainGauge)
        ensures
            r.tips() == initial_tips,
            r.last_value() is None,
            !r.stopped(),
    {
        RainGauge { tips: initial_tips, last_value: None, stopped: false }
    }

    /// Hand the gauge one tipper reading.  A rising edge counts one tip and
    /// asks the caller to record and transmit it; any other reading only
    /// remembers the level.
    pub fn tip(&mut self, value: bool) -> (act: GaugeAction)
        requires
            !old(self).stopped(),
            old(self).rising_edge(value) ==> old(self).tips() < i64::MAX,
        ensures
            final(self).tips() == old(self).tips() + if old(self).rising_edge(value) {
                1int
            } else {
                0int
            },
            final(self).last_value() == Some(value),
            !final(self).stopped(),
            act.record_tip == old(self).rising_edge(value),
            act.transmit == old(self).rising_edge(value),
            act.tips == final(self).tips(),
    {
        let mut xmit = false;
        match self.last_value {
            Some(last_val) => {
                if value != last_val && value {
                    self.tips = self.tips + 1;
                    xmit = true;
                }
            },
            None => {},
        }
        self.last_value = Some(value);
        GaugeAction { record_tip: xmit, transmit: xmit, tips: self.tips }
    }

    /// A transmit timeout: retransmit the current total, count nothing.
    pub fn transmit_timeout(&mut self) -> (act: GaugeAction)
        requires
            !old(self).stopped(),
        ensures
            final(self).tips() == old(self).tips(),
            final(self).last_value() == old(self).last_value(),
            !final(self).stopped(),
            act == (GaugeAction { record_tip: false, transmit: true, tips: old(self).tips() }),
    {
        GaugeAction { record_tip: false, transmit: true, tips: self.tips }
    }

    /// Stop the gauge; it accepts no further events.
    pub fn stop(&mut self)
        requires
            !old(self).stopped(),
        ensures
            final(self).tips() == old(self).tips(),
            final(self).last_value() == old(self).last_value(),
            final(self).stopped(),
    {
        self.stopped = true;
    }
}

} // verus!
