//! A 64-bit microsecond timeline from a 32-bit counter that wraps and jitters.

use vstd::prelude::*;

verus! {

/// The last reading and how often the counter has wrapped.
#[derive(Clone, Copy, PartialEq, Eq, Structural)]
pub struct Clock {
    pub last: u32,
    pub epoch: u32,
}

impl Clock {
    /// The instant the clock has reached.
    pub open spec fn reached(self) -> int {
        self.epoch * 4_294_967_296 + self.last
    }

    /// The clock after reading the counter: a step back by more than half its range is a wrap, a
    /// smaller one is jitter and holds the clock where it is.
    pub open spec fn after(self, raw: u32) -> Clock {
        if raw >= self.last {
            Clock { last: raw, epoch: self.epoch }
        } else if self.last - raw > 0x8000_0000 {
            Clock { last: raw, epoch: self.epoch.wrapping_add(1) }
        } else {
            self
        }
    }

    /// A clock at zero.
    pub fn new() -> (c: Clock)
        ensures
            c == (Clock { last: 0, epoch: 0 }),
    {
        Clock { last: 0, epoch: 0 }
    }

    /// Takes a reading of the counter and returns the instant.
    pub fn now_us(&mut self, raw: u32) -> (t: u64)
        ensures
            *final(self) == old(self).after(raw),
            t == final(self).reached(),
    {
        if raw < self.last {
            if self.last - raw > 0x8000_0000 {
                self.epoch = self.epoch.wrapping_add(1);
                self.last = raw;
            }
        } else {
            self.last = raw;
        }
        self.epoch as u64 * 4_294_967_296 + self.last as u64
    }
}

/// The timeline never runs backwards, whatever the counter reads, for as many wraps as the epoch
/// counts.
pub proof fn clock_is_monotonic(c: Clock, raw: u32)
    requires
        c.epoch < u32::MAX,
    ensures
        c.after(raw).reached() >= c.reached(),
{
}

/// A counter that has wrapped is seen as a step forward, by the true amount.
pub proof fn wrap_is_a_step_forward(c: Clock, step: u32)
    requires
        c.epoch < u32::MAX,
        step < 0x7FFF_FFFF,
    ensures
        c.after(c.last.wrapping_add(step)).reached() == c.reached() + step,
{
}

} // verus!
