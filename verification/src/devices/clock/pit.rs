//! The programmable interval timer: its command bytes, and the time kept
//! by counting its ticks.
//!
//! The caller performs the port writes listed here and hands in the
//! counter values it reads.

use vstd::prelude::*;
use super::{ClockTime, FEMTOS_PER_SEC, NANOS_PER_FEMTO};

verus! {

// Port Addresses
pub const PORT_CONTROL: u16 = 0x43;
pub const PORT_CHANNEL_0: u16 = 0x40;
pub const PORT_CHANNEL_1: u16 = 0x41;
pub const PORT_CHANNEL_2: u16 = 0x42;

// Channel Selection
pub const SELECT_CHANNEL_0: u8 = 0x00;
pub const SELECT_CHANNEL_1: u8 = 0x40;
pub const SELECT_CHANNEL_2: u8 = 0x80;
pub const SELECT_READ_BACK: u8 = 0xC0;

// Access Modes
pub const ACCESS_LATCH_COUNT: u8 = 0x00;
pub const ACCESS_LOBYTE: u8 = 0x10;
pub const ACCESS_HIBYTE: u8 = 0x20;
pub const ACCESS_LOBYTE_HIBYTE: u8 = 0x30;

// Operating Modes
pub const MODE_INTERRUPT_ON_TERMINAL_COUNT: u8 = 0x00;
pub const MODE_HARDWARE_RETRIGGERABLE_ONE_SHOT: u8 = 0x02;
pub const MODE_RATE_GENERATOR: u8 = 0x04;
pub const MODE_SQUARE_WAVE_GENERATOR: u8 = 0x06;
pub const MODE_SOFTWARE_TRIGGERED_STROBE: u8 = 0x08;
pub const MODE_HARDWARE_TRIGGERED_STROBE: u8 = 0x0A;

// BCD/Binary Mode
pub const MODE_BINARY: u8 = 0x00;
pub const MODE_BCD: u8 = 0x01;

pub const DEFAULT_INTERRUPT: u8 = 0;

/// The length of one tick in femtoseconds.
pub const PIT_TICK_PERIOD_FEMTOS: u64 = 838095345;
/// The length of one tick in whole nanoseconds.
pub const PIT_TICK_PERIOD_NANOS: u64 = PIT_TICK_PERIOD_FEMTOS / NANOS_PER_FEMTO;
/// The whole number of ticks in a second.
pub const PIT_TICKS_PER_SECOND: u64 = FEMTOS_PER_SEC / PIT_TICK_PERIOD_FEMTOS;

/// A byte written to an I/O port.
#[derive(Debug, Clone, Copy, PartialEq, Eq, Structural)]
pub struct PortByte {
    pub port: u16,
    pub value: u8,
}

/// The writes that silence the timer: channel 0 in one-shot mode with a
/// reload value of 1, so it fires once right away and then never again.
pub fn disable() -> (r: Vec<PortByte>)
    ensures
        r@ == seq![PortByte { port: 0x43, value: 0x10 }, PortByte { port: 0x40, value: 1 }],
{
    let mut v: Vec<PortByte> = Vec::new();
    proof {
        crate::bits::lemma_constants();
    }
    v.push(
        PortByte {
            port: PORT_CONTROL,
            value: SELECT_CHANNEL_0 | ACCESS_LOBYTE | MODE_INTERRUPT_ON_TERMINAL_COUNT | MODE_BINARY,
        },
    );
    v.push(PortByte { port: PORT_CHANNEL_0, value: 1 });
    v
}

/// The writes that start channel 0 as a rate generator with the largest
/// reload value (0, meaning 0x10000).
pub fn start_commands() -> (r: Vec<PortByte>)
    ensures
        r@ == seq![
            PortByte { port: 0x43, value: 0x34 },
            PortByte { port: 0x40, value: 0 },
            PortByte { port: 0x40, value: 0 },
        ],
{
    let reload_value: u16 = 0x0000;
    let mut v: Vec<PortByte> = Vec::new();
    proof {
        crate::bits::lemma_constants();
    }
    v.push(
        PortByte {
            port: PORT_CONTROL,
            value: SELECT_CHANNEL_0 | ACCESS_LOBYTE_HIBYTE | MODE_RATE_GENERATOR | MODE_BINARY,
        },
    );
    v.push(PortByte { port: PORT_CHANNEL_0, value: (reload_value & 0xFF) as u8 });
    v.push(PortByte { port: PORT_CHANNEL_0, value: (reload_value >> 8u16) as u8 });
    v
}

/// The write that latches the count of channel 0 before it is read.
pub fn latch_command() -> (r: PortByte)
    ensures
        r == (PortByte { port: 0x43, value: 0 }),
{
    proof {
        crate::bits::lemma_constants();
    }
    PortByte { port: PORT_CONTROL, value: SELECT_CHANNEL_0 | ACCESS_LATCH_COUNT | MODE_BINARY }
}

/// The count from its low and high bytes, read in that order.
pub fn counter_from_bytes(lo: u8, hi: u8) -> (r: u16)
    ensures
        r == hi as int * 256 + lo as int,
{
    let r = ((hi as u16) << 8u16) | (lo as u16);
    proof {
        crate::bits::lemma_join_u8(lo, hi);
    }
    r
}

/// The timer counted by software: the ticks so far, and the last count
/// read (the hardware counts down).
pub struct Pit {
    pub total_counter: u64,
    pub last_counter: u16,
}

impl Pit {
    pub fn new() -> (r: Pit)
        ensures
            r.total_counter == 0,
            r.last_counter == 0,
    {
        Pit { last_counter: 0, total_counter: 0 }
    }

    /// The ticks since the last count read, from the new count `counter`,
    /// which becomes the last one.
    pub fn get_elapsed(&mut self, counter: u16) -> (r: u64)
        ensures
            r == (if old(self).last_counter >= counter {
                old(self).last_counter - counter
            } else {
                old(self).last_counter - counter + 0x10000
            }),
            final(self).last_counter == counter,
            final(self).total_counter == old(self).total_counter,
    {
        let last = self.last_counter;
        self.last_counter = counter;
        last.wrapping_sub(counter) as u64
    }

    /// Adds the ticks since the last read, wrapping around, and returns the
    /// total.
    pub fn tick_total_counter(&mut self, counter: u16) -> (r: u64)
        ensures
            final(self).last_counter == counter,
            final(self).total_counter == (old(self).total_counter + (if old(self).last_counter >= counter {
                old(self).last_counter - counter
            } else {
                old(self).last_counter - counter + 0x10000
            })) % 0x1_0000_0000_0000_0000,
            r == final(self).total_counter,
    {
        let elapsed = self.get_elapsed(counter);
        self.total_counter = self.total_counter.wrapping_add(elapsed);
        self.total_counter
    }

    /// The time counted so far, after adding the ticks up to `counter`.
    pub fn get_time(&mut self, counter: u16) -> (r: ClockTime)
        ensures
            final(self).last_counter == counter,
            final(self).total_counter == (old(self).total_counter + (if old(self).last_counter >= counter {
                old(self).last_counter - counter
            } else {
                old(self).last_counter - counter + 0x10000
            })) % 0x1_0000_0000_0000_0000,
            r.seconds == final(self).total_counter / 1193181,
            r.nanoseconds == (final(self).total_counter % 1193181) * 838,
            r.normalized(),
    {
        let counter = self.tick_total_counter(counter);
        let seconds_divider = PIT_TICKS_PER_SECOND;
        let seconds = counter / seconds_divider;
        let rem = counter % seconds_divider;
        assert(rem * 838 < 1_000_000_000);
        let nanoseconds = rem * PIT_TICK_PERIOD_NANOS;
        ClockTime { seconds, nanoseconds }
    }

    pub fn granularity(&self) -> (r: u64)
        ensures
            r == 838,
    {
        PIT_TICK_PERIOD_NANOS
    }

    pub fn name(&self) -> (r: &'static str)
        ensures
            r@ == "PIT"@,
    {
        "PIT"
    }

    pub fn require_calibration(&self) -> (r: bool)
        ensures
            !r,
    {
        false
    }

    pub fn rating(&self) -> (r: u64)
        ensures
            r == 40,
    {
        40
    }
}

} // verus!
