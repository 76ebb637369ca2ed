//! Timing of the half-duplex link.
//!
//! A node may key its driver only when the bus has been idle for one and a
//! half byte times, and must hold it until the last byte has left the wire.
//! The durations follow from the baud rate; waiting for them is the link
//! adapter's work.
use vstd::prelude::*;

verus! {

/// The number of bits that one byte takes on the wire: a start bit, eight
/// data bits and a stop bit.
pub const BITS_PER_BYTE: u32 = 10;

/// The durations, in microseconds, that the link adapter waits for.
#[derive(Debug, Clone, Copy, PartialEq, Eq)]
pub struct LinkTiming {
    byte_time_micro: u64,
    tx_finish_margin_micro: u64,
}

impl LinkTiming {
    #[verifier::type_invariant]
    spec fn bounded(&self) -> bool {
        self.byte_time_micro <= 1_000_000 * BITS_PER_BYTE
    }

    /// The time that one byte takes on the wire.
    pub closed spec fn byte_time(&self) -> nat {
        self.byte_time_micro as nat
    }

    /// The time added to a transmission before the driver is released.
    pub closed spec fn margin(&self) -> nat {
        self.tx_finish_margin_micro as nat
    }

    /// The timing of a link at `baud_rate`: a byte takes ten bit times, and
    /// the margin behind a transmission is one byte time.
    pub fn new(baud_rate: u32) -> (timing: LinkTiming)
        requires
            baud_rate > 0,
        ensures
            timing.byte_time() == (1_000_000 * BITS_PER_BYTE) / (baud_rate as int),
            timing.margin() == timing.byte_time(),
    {
        let byte_time_us: u32 = (1_000_000 * BITS_PER_BYTE) / baud_rate;
        LinkTiming {
            byte_time_micro: byte_time_us as u64,
            tx_finish_margin_micro: byte_time_us as u64,
        }
    }

    pub fn byte_time_micro(&self) -> (t: u64)
        ensures
            t == self.byte_time(),
    {
        self.byte_time_micro
    }

    pub fn tx_finish_margin_micro(&self) -> (t: u64)
        ensures
            t == self.margin(),
    {
        self.tx_finish_margin_micro
    }

    /// How long the bus must be silent before a transmission starts: one and
    /// a half byte times.
    pub fn idle_micros(&self) -> (t: u64)
        ensures
            t == self.byte_time() + self.byte_time() / 2,
    {
        proof {
            use_type_invariant(self);
        }
        self.byte_time_micro + (self.byte_time_micro / 2)
    }

    /// How long the driver stays keyed after `written_len` bytes were handed
    /// to the transmitter: their time on the wire and the margin.
    pub fn tx_wait_micros(&self, written_len: usize) -> (t: u64)
        requires
            self.byte_time() * written_len + self.margin() <= u64::MAX,
        ensures
            t == self.byte_time() * written_len + self.margin(),
    {
        let wait_us: u64 = self.byte_time_micro * (written_len as u64);
        wait_us + self.tx_finish_margin_micro
    }
}

} // verus!
