//! Pulse codes: the unit in which a waveform is handed to the transmitter.
//!
//! A pulse code describes two consecutive segments of the output signal,
//! each a logic level held for a number of clock ticks. A code with a
//! segment of no duration ends a transmission.

use vstd::prelude::*;

verus! {

/// The longest duration, in ticks, that one segment of a pulse code can
/// carry: durations are 15-bit quantities.
pub const MAX_LEN: u16 = 0x7FFF;

/// A logic level of the output line.
#[derive(Clone, Copy, Debug, PartialEq, Eq, Structural)]
pub enum Level {
    Low,
    High,
}

/// Two consecutive segments of the output signal: `level1` held for
/// `length1` ticks, then `level2` held for `length2` ticks.
#[derive(Clone, Copy, Debug, PartialEq, Eq, Structural)]
pub struct PulseCode {
    pub level1: Level,
    pub length1: u16,
    pub level2: Level,
    pub length2: u16,
}

/// The pulse code that ends a transmission and leaves the line low: both
/// segments low and without duration.
pub open spec fn end_marker() -> PulseCode {
    PulseCode { level1: Level::Low, length1: 0, level2: Level::Low, length2: 0 }
}

impl PulseCode {
    /// Both durations fit the 15 bits that a transmitter gives them.
    pub open spec fn in_range(self) -> bool {
        self.length1 <= MAX_LEN && self.length2 <= MAX_LEN
    }

    /// The transmitter stops at this code: one of its segments has no
    /// duration.
    pub open spec fn ends_transmission(self) -> bool {
        self.length1 == 0 || self.length2 == 0
    }

    /// A pulse code of the two given segments.
    pub fn new(level1: Level, length1: u16, level2: Level, length2: u16) -> (code: PulseCode)
        requires
            length1 <= MAX_LEN,
            length2 <= MAX_LEN,
        ensures
            code == (PulseCode { level1, length1, level2, length2 }),
            code.in_range(),
    {
        PulseCode { level1, length1, level2, length2 }
    }

    /// The pulse code that ends a transmission with the line low.
    pub fn end_marker() -> (code: PulseCode)
        ensures
            code == end_marker(),
            code.in_range(),
            code.ends_transmission(),
    {
        PulseCode { level1: Level::Low, length1: 0, level2: Level::Low, length2: 0 }
    }

    /// Whether the transmitter stops at this code.
    pub fn is_end_marker(&self) -> (stops: bool)
        ensures
            stops == self.ends_transmission(),
    {
        self.length1 == 0 || self.length2 == 0
    }
}

} // verus!
