//! The free-running counter of the node, as a 64-bit clock and as a deadline.

use vstd::prelude::*;

verus! {

/// Counter ticks in a microsecond.
pub const TICKS_PER_US: u32 = 16;
/// Closer than this to a deadline the counter is polled: 200 microseconds.
pub const SCHED_SPIN_TICKS: u32 = 3_200;
/// Furthest ahead a transmission is scheduled, in microseconds.
pub const MAX_SCHED_DELAY_US: u32 = 1_000_000;
/// The same, in ticks.
pub const MAX_SCHED_DELAY_TICKS: u64 = 16_000_000;
/// What a host adds to an announced airtime before it gives up, in microseconds.
pub const HOST_AIRTIME_SLACK_US: u32 = 2_000_000;

/// The counter's last reading and how often it has wrapped.
#[derive(Clone, Copy, PartialEq, Eq, Structural)]
pub struct MacClock {
    pub hi: u32,
    pub last: u32,
}

impl MacClock {
    /// The instant the clock has reached.
    pub open spec fn reached(self) -> int {
        self.hi * 4_294_967_296 + self.last
    }

    /// The clock after a reading: one below the last means the counter has wrapped.
    pub open spec fn after(self, ticks: u32) -> MacClock {
        MacClock {
            hi: if ticks < self.last {
                self.hi.wrapping_add(1)
            } else {
                self.hi
            },
            last: ticks,
        }
    }

    /// A clock that starts at a reading.
    pub fn new(ticks: u32) -> (c: MacClock)
        ensures
            c == (MacClock { hi: 0, last: ticks }),
    {
        MacClock { hi: 0, last: ticks }
    }

    /// Takes a reading, and returns the instant that this reading means.
    pub fn now64(&mut self, ticks: u32) -> (t: u64)
        ensures
            *final(self) == old(self).after(ticks),
            t == final(self).reached(),
    {
        if ticks < self.last {
            self.hi = self.hi.wrapping_add(1);
        }
        self.last = ticks;
        self.hi as u64 * 4_294_967_296 + ticks as u64
    }
}

/// The clock never runs backwards, for as many wraps as it can count.
pub proof fn clock_is_monotonic(c: MacClock, ticks: u32)
    requires
        c.hi < u32::MAX,
    ensures
        c.after(ticks).reached() >= c.reached(),
        c.after(ticks).reached() - c.reached() < 4_294_967_296,
        c.after(ticks).reached() % 4_294_967_296 == ticks,
{
}

/// What to do about a deadline.
#[derive(Clone, Copy, PartialEq, Eq, Structural)]
pub enum WaitStep {
    /// It is due, or past.
    Due,
    /// Poll the counter.
    Spin,
    /// Sleep this long, then look again.
    Sleep { us: u32 },
}

/// What to do about a deadline on the 32-bit counter: what lies in the half behind the counter is
/// past.
pub open spec fn wait_action(target: u32, now: u32) -> WaitStep {
    let remaining: u32 = target.wrapping_sub(now);
    if remaining == 0 || remaining > 0x7FFF_FFFF {
        WaitStep::Due
    } else if remaining > 3_200 {
        WaitStep::Sleep { us: ((remaining - 3_200) / 16) as u32 }
    } else {
        WaitStep::Spin
    }
}

/// What to do about a deadline.
pub fn wait_until(target: u32, now: u32) -> (s: WaitStep)
    ensures
        s == wait_action(target, now),
{
    let remaining: u32 = target.wrapping_sub(now);
    if remaining == 0 || remaining > 0x7FFF_FFFF {
        return WaitStep::Due;
    }
    if remaining > SCHED_SPIN_TICKS {
        return WaitStep::Sleep { us: (remaining - SCHED_SPIN_TICKS) / TICKS_PER_US };
    }
    WaitStep::Spin
}

/// A sleep ends no later than the last 200 microseconds before the deadline.
pub proof fn sleep_ends_early(target: u32, now: u32)
    ensures
        wait_action(target, now) matches WaitStep::Sleep { us } ==> us * 16 + 3_200
            <= target.wrapping_sub(now),
{
}

/// A deadline that a schedule accepts is met on the 32-bit counter, across a wrap too: it is due
/// exactly when the 64-bit clock has reached it.
pub proof fn deadline_is_exact(target: u64, now: u64)
    requires
        target <= now + 16_000_000,
        now - target <= 0x7FFF_FFFF,
    ensures
        wait_action(
            (target % 4_294_967_296) as u32,
            (now % 4_294_967_296) as u32,
        ) == WaitStep::Due <==> target <= now,
{
}

/// The longest schedule fits in what a host waits after an announcement.
pub proof fn schedule_fits_the_host()
    ensures
        MAX_SCHED_DELAY_US < HOST_AIRTIME_SLACK_US,
        MAX_SCHED_DELAY_TICKS == MAX_SCHED_DELAY_US * TICKS_PER_US,
{
}

} // verus!
