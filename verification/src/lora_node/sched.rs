//! The one scheduled transmission a node holds.

use vstd::prelude::*;

verus! {

/// A transmission waiting for its instant. Times are ticks of a microsecond.
#[derive(Clone, Copy, PartialEq, Eq, Structural)]
pub enum SchedTx {
    /// None.
    Idle,
    /// Waiting, the radio still free: staged at `stage_at`, fired at `fire_at`.
    Pending { fire_at: u64, stage_at: u64, len: usize, air_ms: u32 },
    /// Loaded into the radio, which it occupies until `fire_at`.
    Staged { fire_at: u64, len: usize, air_ms: u32 },
}

/// When to load a frame of `len` bytes that fires at `fire_at`.
pub open spec fn stage_time(fire_at: u64, len: usize) -> u64 {
    let budget = 1_500 + 5 * len;
    if fire_at >= budget {
        (fire_at - budget) as u64
    } else {
        0
    }
}

impl SchedTx {
    /// A waiting transmission.
    pub open spec fn waiting(fire_at: u64, len: usize, air_ms: u32) -> SchedTx {
        SchedTx::Pending { fire_at, stage_at: stage_time(fire_at, len), len, air_ms }
    }

    /// The frame fits the buffer, and staging happens when it should.
    pub open spec fn wf(self) -> bool {
        match self {
            SchedTx::Idle => true,
            SchedTx::Pending { fire_at, stage_at, len, air_ms } => len <= 255 && stage_at
                == stage_time(fire_at, len),
            SchedTx::Staged { fire_at, len, air_ms } => len <= 255,
        }
    }

    /// The instant the transmission is for.
    pub open spec fn deadline(self) -> Option<u64> {
        match self {
            SchedTx::Idle => None,
            SchedTx::Pending { fire_at, stage_at, len, air_ms } => Some(fire_at),
            SchedTx::Staged { fire_at, len, air_ms } => Some(fire_at),
        }
    }

    /// Takes a transmission on.
    pub fn pending(fire_at: u64, len: usize, air_ms: u32) -> (s: SchedTx)
        requires
            len <= 255,
        ensures
            s == SchedTx::waiting(fire_at, len, air_ms),
            s.wf(),
    {
        let budget: u64 = crate::lora_node::params::STAGE_FIXED_US
            + crate::lora_node::params::STAGE_PER_BYTE_US * len as u64;
        let stage_at: u64 = fire_at.saturating_sub(budget);
        SchedTx::Pending { fire_at, stage_at, len, air_ms }
    }

    /// When the node must next look at it.
    pub open spec fn next_look(self) -> Option<u64> {
        match self {
            SchedTx::Idle => None,
            SchedTx::Pending { fire_at, stage_at, len, air_ms } => Some(stage_at),
            SchedTx::Staged { fire_at, len, air_ms } => Some(fire_at),
        }
    }

    /// When the node must next look at it.
    pub fn wake_at(&self) -> (t: Option<u64>)
        ensures
            t == self.next_look(),
    {
        match *self {
            SchedTx::Idle => None,
            SchedTx::Pending { fire_at: _, stage_at, len: _, air_ms: _ } => Some(stage_at),
            SchedTx::Staged { fire_at, len: _, air_ms: _ } => Some(fire_at),
        }
    }

    /// Whether it occupies the radio.
    pub fn owns_radio(&self) -> (b: bool)
        ensures
            b == (self is Staged),
    {
        match *self {
            SchedTx::Staged { .. } => true,
            _ => false,
        }
    }

    /// Whether there is one.
    pub fn is_armed(&self) -> (b: bool)
        ensures
            b == (self !is Idle),
    {
        match *self {
            SchedTx::Idle => false,
            _ => true,
        }
    }

    /// Gives the radio back: a loaded transmission waits again, for the same instant.
    pub open spec fn demoted(self) -> SchedTx {
        match self {
            SchedTx::Staged { fire_at, len, air_ms } => SchedTx::waiting(fire_at, len, air_ms),
            _ => self,
        }
    }

    /// Gives the radio back; says whether a loaded frame must be abandoned.
    pub fn demote(&mut self) -> (abandon: bool)
        requires
            old(self).wf(),
        ensures
            *final(self) == old(self).demoted(),
            final(self).wf(),
            abandon == (*old(self) is Staged),
    {
        match *self {
            SchedTx::Staged { fire_at, len, air_ms } => {
                *self = SchedTx::pending(fire_at, len, air_ms);
                true
            },
            _ => false,
        }
    }
}

/// A command that takes the radio away from a loaded transmission costs it neither its slot nor its
/// deadline, and never leaves the radio occupied.
pub proof fn demotion_keeps_the_deadline(s: SchedTx)
    requires
        s.wf(),
    ensures
        s.demoted().wf(),
        s.demoted().deadline() == s.deadline(),
        s.demoted() is Idle <==> s is Idle,
        s.demoted() !is Staged,
{
}

} // verus!
