//! The paced Bluetooth advertiser: each payload gets its own burst on the air.

use vstd::prelude::*;

use crate::bytes::copy_range;

verus! {

/// Longest payload of one advertisement.
pub const BLE_MAXPAY: usize = 27;
/// Payloads that can wait.
pub const ADVQ_MAX: usize = 7;
/// Default hold time of a payload, in milliseconds.
pub const BLE_BURST_MS_DEFAULT: u32 = 60;

/// Waiting payloads, and the burst on the air.
pub struct AdvQueue {
    q: Vec<Vec<u8>>,
    active: bool,
    until: u64,
}

/// What an advertiser holds.
#[verifier::ext_equal]
pub struct AdvView {
    /// Waiting payloads, oldest first.
    pub waiting: Seq<Seq<u8>>,
    /// The end of the burst on the air, where there is one.
    pub burst: Option<u64>,
}

impl View for AdvQueue {
    type V = AdvView;

    closed spec fn view(&self) -> AdvView {
        AdvView {
            waiting: self.q@.map_values(|p: Vec<u8>| p@),
            burst: if self.active {
                Some(self.until)
            } else {
                None
            },
        }
    }
}

/// What the controller must do.
pub struct AdvAction {
    /// Stop the advertisement on the air.
    pub stop: bool,
    /// Then start this one.
    pub start: Option<Vec<u8>>,
}

impl AdvView {
    /// The queue after a payload: an empty one, a longer one than fits and one that finds the queue
    /// full are dropped.
    pub open spec fn offered(self, payload: Seq<u8>) -> AdvView {
        if 1 <= payload.len() <= 27 && self.waiting.len() < 7 {
            AdvView { waiting: self.waiting.push(payload), ..self }
        } else {
            self
        }
    }

    /// The burst on the air still runs.
    pub open spec fn holds(self, now: u64) -> bool {
        self.burst matches Some(t) && now < t
    }

    /// What a service asks of the controller: a burst that has run out stops, the oldest payload
    /// starts.
    pub open spec fn acted(self, now: u64, act: AdvAction) -> bool {
        &&& act.stop == (self.burst is Some && !self.holds(now))
        &&& act.start is Some <==> !self.holds(now) && self.waiting.len() > 0
        &&& act.start matches Some(p) ==> p@ == self.waiting[0]
    }

    /// The queue after a service: nothing while a burst runs; else the next payload starts its own.
    pub open spec fn served(self, now: u64, burst_ms: u32) -> AdvView {
        if self.holds(now) {
            self
        } else if self.waiting.len() == 0 {
            AdvView { burst: None, ..self }
        } else {
            AdvView {
                waiting: self.waiting.skip(1),
                burst: Some((now + burst_ms * 1000) as u64),
            }
        }
    }
}

impl AdvQueue {
    /// At most seven wait.
    pub closed spec fn wf(self) -> bool {
        self.q@.len() <= 7
    }

    /// Nothing waiting, nothing on the air.
    pub fn new() -> (a: AdvQueue)
        ensures
            a.wf(),
            a@ == (AdvView { waiting: Seq::empty(), burst: None }),
    {
        let a = AdvQueue { q: Vec::new(), active: false, until: 0 };
        assert(a@.waiting =~= Seq::<Seq<u8>>::empty());
        a
    }

    /// Queues one payload.
    pub fn push(&mut self, payload: &[u8])
        requires
            old(self).wf(),
        ensures
            final(self).wf(),
            final(self)@ == old(self)@.offered(payload@),
    {
        if payload.len() == 0 || payload.len() > BLE_MAXPAY {
            return;
        }
        if self.q.len() < ADVQ_MAX {
            let p: Vec<u8> = copy_range(payload, 0, payload.len());
            assert(p@ =~= payload@);
            let ghost before = self@;
            self.q.push(p);
            assert(self@.waiting =~= before.waiting.push(payload@));
        }
    }

    /// Retires a burst that has run out, then starts the next payload.
    pub fn service(&mut self, now: u64, burst_ms: u32) -> (act: AdvAction)
        requires
            old(self).wf(),
            now + burst_ms * 1000 <= u64::MAX,
        ensures
            final(self).wf(),
            final(self)@ == old(self)@.served(now, burst_ms),
            old(self)@.acted(now, act),
    {
        let mut stop: bool = false;
        if self.active {
            if now < self.until {
                return AdvAction { stop: false, start: None };
            }
            stop = true;
            self.active = false;
        }
        if self.q.len() == 0 {
            assert(self@.waiting =~= old(self)@.waiting);
            return AdvAction { stop, start: None };
        }
        let ghost before = self@;
        let p: Vec<u8> = self.q.remove(0);
        assert(self@.waiting =~= before.waiting.skip(1));
        self.active = true;
        self.until = now + burst_ms as u64 * 1000;
        AdvAction { stop, start: Some(p) }
    }
}

/// Payloads go on the air one at a time, in the order they came, each for its whole burst: while a
/// burst runs nothing replaces it.
pub proof fn bursts_are_not_cut_short(a: AdvView, now: u64, later: u64, burst_ms: u32, payload: Seq<u8>)
    requires
        !a.holds(now),
        a.waiting.len() > 0,
        now <= later < now + burst_ms * 1000 <= u64::MAX,
    ensures
        ({
            let on_air = a.served(now, burst_ms).offered(payload);
            on_air.served(later, burst_ms) == on_air
        }),
{
}

} // verus!
