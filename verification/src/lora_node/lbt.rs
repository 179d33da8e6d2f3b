//! Listen before talk: random backoff, activity detection, energy detection, transmission.
//!
//! The node says what to do next; the radio task does it and reports what came of it.

use vstd::arithmetic::power2::{lemma2_to64, lemma_pow2_strictly_increases, pow2};
use vstd::bits::lemma_u32_shl_is_mul;
use vstd::prelude::*;

use crate::lora_node::csma::Csma;
use crate::lora_node::node::{bump, Node};
use crate::lora_node::params::{airtime_ms, tsym_us};

verus! {

/// A transmission that listens first.
#[derive(Clone, Copy, PartialEq, Eq, Structural)]
pub struct Lbt {
    /// Busy channels met so far.
    pub attempt: u8,
    /// Activity detections left in this attempt.
    pub cads_left: u8,
    /// Bytes to send.
    pub len: usize,
}

/// What the radio task does next.
#[derive(Clone, Copy, PartialEq, Eq, Structural)]
pub enum LbtAction {
    /// Wait, then report it.
    Wait { ms: u32 },
    /// Detect activity; a symbol takes `tsym_us`.
    Cad { tsym_us: u64 },
    /// Read the channel energy.
    SenseRssi,
    /// Transmit; the frame takes `air_ms`.
    Transmit { air_ms: u32 },
    /// It is over.
    Done { sent: bool, attempts: u8 },
}

/// What an activity detection found.
#[derive(Clone, Copy, PartialEq, Eq, Structural)]
pub enum CadOutcome {
    Clear,
    Heard,
    Failed,
}

/// The window of an attempt, in milliseconds: it doubles with every busy channel, up to the
/// configured number of times and never more than ten.
pub open spec fn backoff_window(c: Csma, attempt: u8) -> int {
    let w: int = (c.lbt_cw * pow2(backoff_shift(c, attempt))) as int;
    if w < 1 {
        1
    } else {
        w
    }
}

/// How often the window has doubled.
pub open spec fn backoff_shift(c: Csma, attempt: u8) -> nat {
    let a: nat = if attempt <= c.lbt_max_backoff {
        attempt as nat
    } else {
        c.lbt_max_backoff as nat
    };
    if a <= 10 {
        a
    } else {
        10
    }
}

/// Attempts before a transmission is given up: at least one.
pub open spec fn attempt_limit(c: Csma) -> u8 {
    if c.lbt_max_attempts == 0 {
        1
    } else {
        c.lbt_max_attempts
    }
}

/// The channel state with the next random word drawn.
pub open spec fn drawn(c: Csma) -> Csma {
    Csma { rng: crate::lora_node::csma::xorshift(c.rng), ..c }
}

/// The wait of an attempt.
pub open spec fn backoff_wait(c: Csma, attempt: u8) -> LbtAction {
    LbtAction::Wait {
        ms: (crate::lora_node::csma::xorshift(c.rng) as int % backoff_window(c, attempt)) as u32,
    }
}

/// The channel state after a busy channel, before the next wait.
pub open spec fn busy_counted(c: Csma) -> Csma {
    Csma { cad_busy: c.cad_busy.wrapping_add(1), ..c }
}

/// The channel state after giving up.
pub open spec fn deferred(c: Csma) -> Csma {
    Csma { defer: c.defer.wrapping_add(1), ..c }
}

proof fn lemma_window(c: Csma, attempt: u8)
    requires
        c.wf(),
    ensures
        1 <= pow2(backoff_shift(c, attempt)) <= 1024,
        0 <= c.lbt_cw * pow2(backoff_shift(c, attempt)) <= 67_107_840,
        1 <= backoff_window(c, attempt) <= 67_107_840,
{
    let s = backoff_shift(c, attempt);
    lemma2_to64();
    lemma_pow2_strictly_increases(s, 11);
    if s > 0 {
        lemma_pow2_strictly_increases(0, s);
    }
    if s < 10 {
        lemma_pow2_strictly_increases(s, 10);
    }
    assert(0 <= c.lbt_cw * pow2(s) <= 65_535 * 1024) by (nonlinear_arith)
        requires
            0 <= c.lbt_cw <= 65_535,
            1 <= pow2(s) <= 1024,
    ;
}

/// A wait is always shorter than its window, so that every attempt comes to an end.
pub proof fn wait_is_inside_the_window(c: Csma, attempt: u8)
    requires
        c.wf(),
    ensures
        backoff_wait(c, attempt) matches LbtAction::Wait { ms } && ms < backoff_window(c, attempt),
        backoff_window(c, attempt) <= 67_107_840,
{
    lemma_window(c, attempt);
    let w = backoff_window(c, attempt);
    let r = crate::lora_node::csma::xorshift(c.rng) as int;
    assert(0 <= r % w < w) by (nonlinear_arith)
        requires
            w >= 1,
            r >= 0,
    ;
}

impl Node {
    fn draw_wait(&mut self, attempt: u8) -> (a: LbtAction)
        requires
            old(self).wf(),
        ensures
            final(self).wf(),
            *final(self) == (Node { csma: drawn(old(self).csma), ..*old(self) }),
            a == backoff_wait(old(self).csma, attempt),
    {
        let mut shift: u32 = attempt as u32;
        if shift > self.csma.lbt_max_backoff as u32 {
            shift = self.csma.lbt_max_backoff as u32;
        }
        if shift > 10 {
            shift = 10;
        }
        proof {
            lemma_window(self.csma, attempt);
            assert(shift == backoff_shift(self.csma, attempt));
            lemma_u32_shl_is_mul(self.csma.lbt_cw, shift);
        }
        let spread: u32 = self.csma.lbt_cw << shift;
        let window: u32 = if spread < 1 {
            1
        } else {
            spread
        };
        proof {
            wait_is_inside_the_window(self.csma, attempt);
        }
        let r: u32 = self.csma.next_rand();
        LbtAction::Wait { ms: r % window }
    }

    /// Starts a transmission of `len` bytes that listens first.
    pub fn lbt_begin(&mut self, len: usize) -> (r: (Lbt, LbtAction))
        requires
            old(self).wf(),
        ensures
            final(self).wf(),
            *final(self) == (Node { csma: drawn(old(self).csma), ..*old(self) }),
            r.0 == (Lbt { attempt: 0, cads_left: 0, len }),
            r.1 == backoff_wait(old(self).csma, 0),
    {
        let a: LbtAction = self.draw_wait(0);
        (Lbt { attempt: 0, cads_left: 0, len }, a)
    }

    /// The wait is over: detect activity, as often as configured.
    pub fn lbt_waited(&self, l: &mut Lbt) -> (a: LbtAction)
        requires
            self.wf(),
        ensures
            *final(l) == (Lbt { cads_left: self.csma.cad_repeat, ..*old(l) }),
            a == self.cad_action(),
    {
        l.cads_left = self.csma.cad_repeat;
        LbtAction::Cad { tsym_us: tsym_us(self.p.sf, self.p.bw_hz) }
    }

    /// A detection at the symbol time in use.
    pub open spec fn cad_action(self) -> LbtAction {
        LbtAction::Cad {
            tsym_us: crate::airtime::lora_symbol_us(self.p.sf, self.p.bw_hz) as u64,
        }
    }

    /// The action when the channel was found clear of activity: energy, where a threshold is set,
    /// else transmit.
    pub open spec fn after_cads(self, l: Lbt) -> LbtAction {
        if self.csma.rssi_thresh > i16::MIN {
            LbtAction::SenseRssi
        } else {
            self.transmit_action(l)
        }
    }

    /// Transmit now.
    pub open spec fn transmit_action(self, l: Lbt) -> LbtAction {
        LbtAction::Transmit {
            air_ms: crate::lora_node::params::frame_ms(
                self.p,
                l.len as int,
                self.csma.preamble,
            ) as u32,
        }
    }

    fn clear_channel(&self, l: &Lbt) -> (a: LbtAction)
        requires
            self.wf(),
            l.len <= 255,
        ensures
            a == self.after_cads(*l),
    {
        if self.csma.rssi_thresh > i16::MIN {
            LbtAction::SenseRssi
        } else {
            LbtAction::Transmit { air_ms: airtime_ms(&self.p, l.len, self.csma.preamble) }
        }
    }

    /// What a busy channel leads to: it is counted, and the next attempt waits, or the transmission
    /// is given up.
    pub open spec fn busy_next(self, l: Lbt) -> (Node, Lbt, LbtAction) {
        let c = busy_counted(self.csma);
        let next = (l.attempt + 1) as u8;
        if l.attempt + 1 < attempt_limit(self.csma) {
            (
                Node { csma: drawn(c), ..self },
                Lbt { attempt: next, ..l },
                backoff_wait(c, next),
            )
        } else {
            (
                Node { csma: deferred(c), ..self },
                Lbt { attempt: next, ..l },
                LbtAction::Done { sent: false, attempts: next },
            )
        }
    }

    /// What the end of a detection leads to.
    pub open spec fn cad_next(self, l: Lbt, outcome: CadOutcome) -> (Node, Lbt, LbtAction) {
        match outcome {
            CadOutcome::Heard => self.busy_next(l),
            CadOutcome::Failed => (
                Node {
                    radio_errors: crate::lora_node::node::sat16(self.radio_errors),
                    ..self
                },
                l,
                self.after_cads(l),
            ),
            CadOutcome::Clear => if l.cads_left > 1 {
                (self, Lbt { cads_left: (l.cads_left - 1) as u8, ..l }, self.cad_action())
            } else {
                (self, Lbt { cads_left: 0, ..l }, self.after_cads(l))
            },
        }
    }

    /// What an energy reading leads to.
    pub open spec fn rssi_next(self, l: Lbt, rssi: Option<i16>) -> (Node, Lbt, LbtAction) {
        if rssi matches Some(r) && r >= self.csma.rssi_thresh {
            self.busy_next(l)
        } else {
            (self, l, self.transmit_action(l))
        }
    }

    /// What the end of the transmission leads to.
    pub open spec fn sent_next(self, l: Lbt, ok: bool) -> (Node, Lbt, LbtAction) {
        let n = if ok {
            self
        } else {
            Node {
                csma: deferred(self.csma),
                radio_errors: crate::lora_node::node::sat16(self.radio_errors),
                ..self
            }
        };
        (n, l, LbtAction::Done { sent: ok, attempts: l.attempt })
    }

    fn busy_channel(&mut self, l: &mut Lbt) -> (a: LbtAction)
        requires
            old(self).wf(),
            old(l).attempt < attempt_limit(old(self).csma),
        ensures
            final(self).wf(),
            (*final(self), *final(l), a) == old(self).busy_next(*old(l)),
    {
        self.csma.cad_busy = self.csma.cad_busy.wrapping_add(1);
        l.attempt += 1;
        let limit: u8 = if self.csma.lbt_max_attempts == 0 {
            1
        } else {
            self.csma.lbt_max_attempts
        };
        if l.attempt < limit {
            self.draw_wait(l.attempt)
        } else {
            self.csma.defer = self.csma.defer.wrapping_add(1);
            LbtAction::Done { sent: false, attempts: l.attempt }
        }
    }

    /// A detection has ended. Activity makes the channel busy; a failure is counted and ends the
    /// detections as if the channel were clear; a clear channel is checked again as configured.
    pub fn lbt_cad(&mut self, l: &mut Lbt, outcome: CadOutcome) -> (a: LbtAction)
        requires
            old(self).wf(),
            old(l).attempt < attempt_limit(old(self).csma),
            old(l).len <= 255,
        ensures
            final(self).wf(),
            (*final(self), *final(l), a) == old(self).cad_next(*old(l), outcome),
    {
        match outcome {
            CadOutcome::Heard => self.busy_channel(l),
            CadOutcome::Failed => {
                self.radio_errors = bump(self.radio_errors);
                self.clear_channel(l)
            },
            CadOutcome::Clear => {
                if l.cads_left > 1 {
                    l.cads_left -= 1;
                    LbtAction::Cad { tsym_us: tsym_us(self.p.sf, self.p.bw_hz) }
                } else {
                    l.cads_left = 0;
                    self.clear_channel(l)
                }
            },
        }
    }

    /// The energy has been read, or could not be. At the threshold or above it the channel is busy.
    pub fn lbt_rssi(&mut self, l: &mut Lbt, rssi: Option<i16>) -> (a: LbtAction)
        requires
            old(self).wf(),
            old(l).attempt < attempt_limit(old(self).csma),
            old(l).len <= 255,
        ensures
            final(self).wf(),
            (*final(self), *final(l), a) == old(self).rssi_next(*old(l), rssi),
    {
        let busy: bool = match rssi {
            Some(r) => r >= self.csma.rssi_thresh,
            None => false,
        };
        if busy {
            self.busy_channel(l)
        } else {
            LbtAction::Transmit { air_ms: airtime_ms(&self.p, l.len, self.csma.preamble) }
        }
    }

    /// The transmission has ended. A failure is counted as an error and as a deferral.
    pub fn lbt_sent(&mut self, l: &Lbt, ok: bool) -> (a: LbtAction)
        requires
            old(self).wf(),
        ensures
            final(self).wf(),
            (*final(self), *l, a) == old(self).sent_next(*l, ok),
    {
        if !ok {
            self.radio_errors = bump(self.radio_errors);
            self.csma.defer = self.csma.defer.wrapping_add(1);
        }
        LbtAction::Done { sent: ok, attempts: l.attempt }
    }
}

/// What the radio task reports while a transmission listens first.
pub enum LbtEvent {
    /// The wait is over.
    Waited,
    /// A detection has ended.
    Cad(CadOutcome),
    /// The energy has been read, or could not be.
    Rssi(Option<i16>),
    /// The transmission has ended, well or not.
    Sent(bool),
}

/// One step: the report that the action asks for, and what follows from it. `None` where the
/// report answers another action.
pub open spec fn lbt_step(s: (Node, Lbt, LbtAction), ev: LbtEvent) -> Option<
    (Node, Lbt, LbtAction),
> {
    match (s.2, ev) {
        (LbtAction::Wait { .. }, LbtEvent::Waited) => Some(
            (s.0, Lbt { cads_left: s.0.csma.cad_repeat, ..s.1 }, s.0.cad_action()),
        ),
        (LbtAction::Cad { .. }, LbtEvent::Cad(outcome)) => Some(s.0.cad_next(s.1, outcome)),
        (LbtAction::SenseRssi, LbtEvent::Rssi(rssi)) => Some(s.0.rssi_next(s.1, rssi)),
        (LbtAction::Transmit { .. }, LbtEvent::Sent(ok)) => Some(s.0.sent_next(s.1, ok)),
        _ => None,
    }
}

/// Where a transmission of `len` bytes that listens first stands after a list of reports.
pub open spec fn lbt_run(n: Node, len: usize, events: Seq<LbtEvent>) -> Option<
    (Node, Lbt, LbtAction),
>
    decreases events.len(),
{
    if events.len() == 0 {
        Some(
            (
                Node { csma: drawn(n.csma), ..n },
                Lbt { attempt: 0, cads_left: 0, len },
                backoff_wait(n.csma, 0),
            ),
        )
    } else {
        match lbt_run(n, len, events.drop_last()) {
            Some(s) => lbt_step(s, events.last()),
            None => None,
        }
    }
}

/// Whether a report finds the channel busy.
pub open spec fn finds_busy(c: Csma, ev: LbtEvent) -> bool {
    match ev {
        LbtEvent::Cad(outcome) => outcome is Heard,
        LbtEvent::Rssi(Some(r)) => r >= c.rssi_thresh,
        _ => false,
    }
}

/// How many of the reports find the channel busy.
pub open spec fn busy_reports(c: Csma, events: Seq<LbtEvent>) -> nat
    decreases events.len(),
{
    if events.len() == 0 {
        0
    } else {
        busy_reports(c, events.drop_last()) + if finds_busy(c, events.last()) {
            1nat
        } else {
            0nat
        }
    }
}

/// How many transmissions the reports tell of.
pub open spec fn transmissions(events: Seq<LbtEvent>) -> nat
    decreases events.len(),
{
    if events.len() == 0 {
        0
    } else {
        transmissions(events.drop_last()) + if events.last() is Sent {
            1nat
        } else {
            0nat
        }
    }
}

proof fn lemma_lbt_run(n: Node, len: usize, events: Seq<LbtEvent>)
    requires
        lbt_run(n, len, events) is Some,
    ensures
        ({
            let (m, l, a) = lbt_run(n, len, events)->0;
            let k = busy_reports(n.csma, events);
            let limit = attempt_limit(n.csma);
            &&& m.csma == (Csma {
                rng: m.csma.rng,
                defer: m.csma.defer,
                cad_busy: n.csma.cad_busy.wrapping_add(k as u16),
                ..n.csma
            })
            &&& m == (Node { csma: m.csma, radio_errors: m.radio_errors, ..n })
            &&& l.len == len
            &&& l.attempt == k <= limit
            &&& match a {
                LbtAction::Done { sent, attempts } => {
                    &&& attempts == k
                    &&& transmissions(events) == if k < limit {
                        1nat
                    } else {
                        0nat
                    }
                    &&& sent == (events.last() == LbtEvent::Sent(true))
                    &&& m.csma.defer == if sent {
                        n.csma.defer
                    } else {
                        n.csma.defer.wrapping_add(1)
                    }
                },
                _ => k < limit && transmissions(events) == 0 && m.csma.defer == n.csma.defer,
            }
        }),
    decreases events.len(),
{
    if events.len() > 0 {
        lemma_lbt_run(n, len, events.drop_last());
    }
}

/// A transmission that listens first and meets `k` busy channels goes out exactly once where `k` is
/// below the limit of attempts, and not at all where it reaches the limit. Its end reports the `k`,
/// the busy counter has grown by it, a transmission that did not go out counts as one deferral, and
/// beside these counters, the error counter and the generator the node is what it was.
pub proof fn listening_sends_once_or_gives_up(n: Node, len: usize, events: Seq<LbtEvent>)
    requires
        lbt_run(n, len, events) matches Some(s) && s.2 is Done,
    ensures
        ({
            let (m, l, a) = lbt_run(n, len, events)->0;
            let k = busy_reports(n.csma, events);
            let sent = events.last() == LbtEvent::Sent(true);
            &&& k <= attempt_limit(n.csma)
            &&& transmissions(events) == if k < attempt_limit(n.csma) {
                1nat
            } else {
                0nat
            }
            &&& a == (LbtAction::Done { sent, attempts: k as u8 })
            &&& m == (Node {
                csma: Csma {
                    rng: m.csma.rng,
                    cad_busy: n.csma.cad_busy.wrapping_add(k as u16),
                    defer: if sent {
                        n.csma.defer
                    } else {
                        n.csma.defer.wrapping_add(1)
                    },
                    ..n.csma
                },
                radio_errors: m.radio_errors,
                ..n
            })
        }),
{
    lemma_lbt_run(n, len, events);
}

} // verus!
