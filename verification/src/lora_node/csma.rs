//! Channel access state: contention window, sensing thresholds, counters and the backoff generator.

use vstd::prelude::*;

verus! {

/// What the channel access remembers.
#[derive(Clone, Copy, PartialEq, Eq, Structural)]
pub struct Csma {
    /// Preamble length, in symbols.
    pub preamble: u16,
    /// Contention window, in milliseconds.
    pub lbt_cw: u32,
    /// Doublings of the window.
    pub lbt_max_backoff: u8,
    /// Attempts before giving up.
    pub lbt_max_attempts: u8,
    /// Backoff generator.
    pub rng: u32,
    /// Busy channels seen, free-running.
    pub cad_busy: u16,
    /// Where the host's view of that counter starts.
    pub cad_busy_base: u16,
    /// Transmissions given up.
    pub defer: u16,
    /// Energy threshold in dBm; the least value switches energy detection off.
    pub rssi_thresh: i16,
    /// Activity detections per attempt.
    pub cad_repeat: u8,
}

/// One step of the backoff generator.
pub open spec fn xorshift(x: u32) -> u32 {
    let a = x ^ (x << 13u32);
    let b = a ^ (a >> 17u32);
    b ^ (b << 5u32)
}

/// The generator never leaves a non-zero state for zero, where it would stay.
pub proof fn xorshift_never_sticks(x: u32)
    by (bit_vector)
    requires
        x != 0,
    ensures
        xorshift(x) != 0,
{
}

impl Csma {
    /// The window came over a 16-bit field, and a preamble has a symbol.
    pub open spec fn wf(self) -> bool {
        &&& self.lbt_cw <= 65_535
        &&& self.preamble >= 1
        &&& self.cad_repeat >= 1
    }

    /// The state at start-up: energy detection off.
    pub fn new() -> (c: Csma)
        ensures
            c.wf(),
            c == (Csma {
                preamble: 8,
                lbt_cw: 20,
                lbt_max_backoff: 4,
                lbt_max_attempts: 6,
                rng: 0x1234_5678,
                cad_busy: 0,
                cad_busy_base: 0,
                defer: 0,
                rssi_thresh: i16::MIN,
                cad_repeat: 1,
            }),
    {
        Csma {
            preamble: 8,
            lbt_cw: 20,
            lbt_max_backoff: 4,
            lbt_max_attempts: 6,
            rng: 0x1234_5678,
            cad_busy: 0,
            cad_busy_base: 0,
            defer: 0,
            rssi_thresh: i16::MIN,
            cad_repeat: 1,
        }
    }

    /// The state with a seeded generator.
    pub open spec fn seeded(self, mac: Seq<u8>, random: u32, now: u64) -> Csma {
        let s = (crate::bytes::u32_at(mac, 2) ^ random) ^ (now as u32);
        Csma {
            rng: if s == 0 {
                0xA5A5_5A5A
            } else {
                s
            },
            ..self
        }
    }

    /// Seeds the generator from the node's address, a random word and the clock. A zero seed is
    /// replaced, since the generator could not leave it.
    pub fn seed(&mut self, mac: &[u8; 6], random: u32, now: u64)
        ensures
            *final(self) == old(self).seeded(mac@, random, now),
            final(self).rng != 0,
    {
        let m: u32 = crate::bytes::get_be32(mac.as_slice(), 2);
        let s: u32 = (m ^ random) ^ (now as u32);
        self.rng = if s == 0 {
            0xA5A5_5A5A
        } else {
            s
        };
    }

    /// Draws the next random word.
    pub fn next_rand(&mut self) -> (r: u32)
        ensures
            r == xorshift(old(self).rng),
            *final(self) == (Csma { rng: r, ..*old(self) }),
    {
        let x: u32 = self.rng;
        let a: u32 = x ^ (x << 13u32);
        let b: u32 = a ^ (a >> 17u32);
        let c: u32 = b ^ (b << 5u32);
        self.rng = c;
        c
    }

    /// The busy count since the host last reset it.
    pub open spec fn busy_since_reset(self) -> u16 {
        self.cad_busy.wrapping_sub(self.cad_busy_base)
    }

    /// The busy count since the host last reset it.
    pub fn cad_busy_view(&self) -> (n: u16)
        ensures
            n == self.busy_since_reset(),
    {
        self.cad_busy.wrapping_sub(self.cad_busy_base)
    }
}

/// The counter runs on while the host's view restarts: after a reset it reads 0, and from there it
/// counts every further busy channel, also across the wrap of the counter.
pub proof fn busy_view_counts_from_the_reset(c: Csma, n: u16)
    ensures
        (Csma { cad_busy_base: c.cad_busy, ..c }).busy_since_reset() == 0,
        (Csma {
            cad_busy_base: c.cad_busy,
            cad_busy: c.cad_busy.wrapping_add(n),
            ..c
        }).busy_since_reset() == n,
{
}

} // verus!
