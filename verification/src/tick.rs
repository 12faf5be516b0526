//! Extends a free-running 32-bit hardware counter (e.g. the Cortex-M DWT
//! cycle counter) into a monotonic 64-bit tick, for the ISR-driven fast
//! commutation path. A 32-bit cycle counter at the core clock wraps in
//! seconds, so something has to extend it.
use vstd::prelude::*;

verus! {

/// The 64-bit tick made of `high` wraps and the latest low reading.
pub open spec fn extended(high: u32, low: u32) -> u64 {
    (high as int * 0x1_0000_0000 + low as int) as u64
}

/// Extends 32-bit hardware-counter readings into a monotonic 64-bit tick by
/// detecting wraparound (a new reading numerically less than the last one
/// means the counter wrapped since the last call). Must be called often
/// enough that at most one wraparound can occur between calls.
pub struct TickExtender {
    high: u32,
    last_low: u32,
}

impl TickExtender {
    /// How many wraps have been seen.
    pub closed spec fn high(&self) -> u32 {
        self.high
    }

    /// The last raw reading.
    pub closed spec fn last_low(&self) -> u32 {
        self.last_low
    }

    /// The 64-bit tick of the last reading (0 before any).
    pub open spec fn current(&self) -> u64 {
        extended(self.high(), self.last_low())
    }

    pub fn new() -> (r: Self)
        ensures
            r.high() == 0,
            r.last_low() == 0,
    {
        TickExtender { high: 0, last_low: 0 }
    }

    /// How many wraps have been seen.
    pub fn wraps(&self) -> (r: u32)
        ensures
            r == self.high(),
    {
        self.high
    }

    /// Feeds one raw reading and returns its 64-bit extension:
    /// `(wraps << 32) | raw`, where a reading below the previous one counts
    /// one more wrap. After `u32::MAX` wraps (over 2^64 counts, far beyond
    /// any run) the high word cannot grow any more; that input is excluded.
    pub fn extend(&mut self, raw: u32) -> (r: u64)
        requires
            raw < old(self).last_low() ==> old(self).high() < u32::MAX,
        ensures
            final(self).high() == (if raw < old(self).last_low() {
                (old(self).high() + 1) as u32
            } else {
                old(self).high()
            }),
            final(self).last_low() == raw,
            r == extended(final(self).high(), raw),
            r == final(self).current(),
            // Monotonic: never less than the previous tick, and equal only
            // for an identical repeated reading.
            r >= old(self).current(),
            r == old(self).current() <==> raw == old(self).last_low(),
    {
        if raw < self.last_low {
            self.high = self.high + 1;
        }
        self.last_low = raw;
        let h = self.high as u64;
        let l = raw as u64;
        let r = (h << 32) | l;
        proof {
            assert((h << 32) | l == h * 0x1_0000_0000 + l) by (bit_vector)
                requires
                    h < 0x1_0000_0000,
                    l < 0x1_0000_0000,
            ;
        }
        r
    }
}

impl Default for TickExtender {
    /// Same as `new`: no wraps, no reading yet.
    fn default() -> (r: Self)
        ensures
            r.high() == 0,
            r.last_low() == 0,
    {
        Self::new()
    }
}

} // verus!
