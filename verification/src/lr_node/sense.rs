//! Energy sensing, and listening before a transmission.

use vstd::arithmetic::power2::{lemma2_to64, lemma_pow2_strictly_increases, pow2};
use vstd::bits::lemma_u32_shl_is_mul;
use vstd::prelude::*;

use crate::lr_node::phy::PhyState;

verus! {

/// How often the channel is sampled in the background, in milliseconds.
pub const SENSE_PERIOD_MS: u64 = 5;
/// Length of one sense, in the chip's steps: about one frame.
pub const CCA_STEPS: u32 = 4_096;
/// Largest code of a sense length.
pub const CAD_SYM_MAX: u8 = 4;
/// Longest backoff window, in microseconds.
pub const MAX_BACKOFF_US: u32 = 1_000_000;
/// What a transmission may take beside its airtime, in milliseconds.
pub const TX_TIMEOUT_FLOOR_MS: u64 = 20;

/// The power of a raw energy reading, which counts half dB below zero.
pub open spec fn raw_dbm(raw: u16) -> int {
    -crate::flrc_link::half_toward_zero(crate::bytes::from_twos16(raw) as int)
}

/// The power of a raw energy reading, in dBm.
pub fn dbm_of(raw: u16) -> (dbm: i16)
    ensures
        dbm == raw_dbm(raw),
{
    if raw < 0x8000 {
        -((raw / 2) as i16)
    } else {
        ((65_536 - raw as u32) / 2) as i16
    }
}

/// What the channel access remembers.
#[derive(Clone, Copy, PartialEq, Eq, Structural)]
pub struct Sense {
    /// Above this the channel is busy, in dBm.
    pub thresh_dbm: i16,
    /// Senses before a transmission.
    pub repeat: u8,
    /// Length of one sense, in the chip's steps.
    pub cca_steps: u32,
    /// Contention window, in milliseconds.
    pub lbt_cw_ms: u16,
    /// Doublings of the window.
    pub lbt_max_backoff: u8,
    /// Attempts before giving up.
    pub lbt_max_attempts: u8,
    /// Backoff generator.
    pub rng: u32,
    /// Busy observations, free-running.
    pub activity: u16,
    /// Senses that found the channel busy before a transmission.
    pub cad_busy: u16,
    /// Transmissions that did not go out.
    pub defer: u16,
    /// Last reading of an idle channel, in dBm; the least value before the first.
    pub noise_floor_dbm: i16,
}

/// The signal above the noise, cut to what the field holds.
pub open spec fn snr_of(s: Sense, rssi_dbm: i16) -> int {
    let d: int = rssi_dbm - s.noise_floor_dbm;
    if s.noise_floor_dbm == i16::MIN {
        0
    } else if d > 32_767 {
        32_767
    } else if d < -32_768 {
        -32_768
    } else {
        d
    }
}

/// The window of an attempt, in microseconds: at least a millisecond, doubled with every busy
/// channel up to the configured number of times, and never more than a second.
pub open spec fn window_us(s: Sense, attempt: u8) -> int {
    let cw: int = if s.lbt_cw_ms == 0 {
        1
    } else {
        s.lbt_cw_ms as int
    };
    let w: int = cw * 1000 * pow2(doublings(s, attempt)) as int;
    if w > 1_000_000 {
        1_000_000
    } else {
        w
    }
}

/// How often the window has doubled.
pub open spec fn doublings(s: Sense, attempt: u8) -> nat {
    let a: nat = if attempt <= s.lbt_max_backoff {
        attempt as nat
    } else {
        s.lbt_max_backoff as nat
    };
    if a <= 16 {
        a
    } else {
        16
    }
}

/// Attempts before a transmission is given up: at least one.
pub open spec fn limit(s: Sense) -> u8 {
    if s.lbt_max_attempts == 0 {
        1
    } else {
        s.lbt_max_attempts
    }
}

/// Senses of an attempt: at least one.
pub open spec fn senses(s: Sense) -> u8 {
    if s.repeat == 0 {
        1
    } else {
        s.repeat
    }
}

impl Sense {
    /// The state at start-up. A zero seed is replaced, since the generator could not leave it.
    pub open spec fn at_start(seed: u32) -> Sense {
        Sense {
            thresh_dbm: -90i16,
            repeat: 1,
            cca_steps: 4_096,
            lbt_cw_ms: 1,
            lbt_max_backoff: 4,
            lbt_max_attempts: 6,
            rng: if seed == 0 {
                0x9E37_79B9
            } else {
                seed
            },
            activity: 0,
            cad_busy: 0,
            defer: 0,
            noise_floor_dbm: i16::MIN,
        }
    }

    /// The state at start-up. A zero seed is replaced, since the generator could not leave it.
    pub fn new(seed: u32) -> (s: Sense)
        ensures
            s == Sense::at_start(seed),
    {
        Sense {
            thresh_dbm: -90,
            repeat: 1,
            cca_steps: CCA_STEPS,
            lbt_cw_ms: 1,
            lbt_max_backoff: 4,
            lbt_max_attempts: 6,
            rng: if seed == 0 {
                0x9E37_79B9
            } else {
                seed
            },
            activity: 0,
            cad_busy: 0,
            defer: 0,
            noise_floor_dbm: i16::MIN,
        }
    }

    /// Draws the next random word.
    pub fn next_rand(&mut self) -> (r: u32)
        ensures
            r == crate::lora_node::csma::xorshift(old(self).rng),
            *final(self) == (Sense { rng: r, ..*old(self) }),
    {
        let x: u32 = self.rng;
        let a: u32 = x ^ (x << 13u32);
        let b: u32 = a ^ (a >> 17u32);
        let c: u32 = b ^ (b << 5u32);
        self.rng = c;
        c
    }

    /// The signal above the noise of a packet, 0 before the noise is known.
    pub fn snr_for(&self, rssi_dbm: i16) -> (snr: i16)
        ensures
            snr == snr_of(*self, rssi_dbm),
    {
        if self.noise_floor_dbm == i16::MIN {
            0
        } else {
            let d: i32 = rssi_dbm as i32 - self.noise_floor_dbm as i32;
            if d > 32_767 {
                32_767
            } else if d < -32_768 {
                -32_768
            } else {
                d as i16
            }
        }
    }

    /// The verdict of a sense: the strongest reading of its window is above the threshold. A sense
    /// that failed does not block.
    pub fn cca_busy(&self, rssi_max: Option<u16>) -> (busy: bool)
        ensures
            busy == finds_busy(*self, rssi_max),
    {
        match rssi_max {
            Some(raw) => dbm_of(raw) > self.thresh_dbm,
            None => false,
        }
    }

    /// The verdict of a sense that the host asked for, which counts as activity.
    pub fn sensed(&mut self, rssi_max: Option<u16>) -> (busy: bool)
        ensures
            busy == finds_busy(*old(self), rssi_max),
            *final(self) == (Sense {
                activity: if busy {
                    old(self).activity.wrapping_add(1)
                } else {
                    old(self).activity
                },
                ..*old(self)
            }),
    {
        let busy: bool = self.cca_busy(rssi_max);
        if busy {
            self.activity = self.activity.wrapping_add(1);
        }
        busy
    }

    /// A background reading while listening: busy counts as activity, idle is the noise floor.
    pub fn sampled(&mut self, raw: Option<u16>)
        ensures
            *final(self) == (match raw {
                Some(r) => if raw_dbm(r) > old(self).thresh_dbm {
                    Sense { activity: old(self).activity.wrapping_add(1), ..*old(self) }
                } else {
                    Sense { noise_floor_dbm: raw_dbm(r) as i16, ..*old(self) }
                },
                None => *old(self),
            }),
    {
        match raw {
            Some(r) => {
                let d: i16 = dbm_of(r);
                if d > self.thresh_dbm {
                    self.activity = self.activity.wrapping_add(1);
                } else {
                    self.noise_floor_dbm = d;
                }
            },
            None => {},
        }
    }
}

/// How long a transmission may take before it counts as lost: twice its airtime and a floor.
pub open spec fn timeout_ms(mode: crate::lr_node::phy::PhyMode, len: int) -> int {
    2 * crate::airtime::ceil_div(mode.frame_us(len), 1000) + 20
}

/// How long a transmission may take before it counts as lost, in milliseconds.
pub fn tx_timeout_ms(st: &PhyState, len: u16) -> (ms: u64)
    requires
        st.wf(),
        len <= 255,
    ensures
        ms == timeout_ms(st.mode, len as int),
{
    let air: u64 = (st.airtime_us(len) as u64 + 999) / 1000;
    2 * air + TX_TIMEOUT_FLOOR_MS
}

/// A transmission always gets more time than it is on the air.
pub proof fn timeout_outlasts_the_frame(mode: crate::lr_node::phy::PhyMode, len: int)
    requires
        mode.frame_us(len) >= 0,
    ensures
        timeout_ms(mode, len) * 1000 > 2 * mode.frame_us(len),
{
}

/// A transmission that listens first.
#[derive(Clone, Copy, PartialEq, Eq, Structural)]
pub struct Listen {
    /// Busy channels met so far.
    pub attempt: u8,
    /// Senses left in this attempt.
    pub left: u8,
    /// Bytes to send.
    pub len: u16,
}

/// What the radio does next.
#[derive(Clone, Copy, PartialEq, Eq, Structural)]
pub enum ListenAction {
    /// Wait, then report it.
    Wait { us: u32 },
    /// Sense the channel over this many steps.
    Cca { steps: u32 },
    /// Load the frame.
    Stage,
    /// Announce it where the host asked for it, key up, and give it this long.
    Fire { timeout_ms: u64 },
    /// It is over.
    Done { sent: bool, attempts: u8 },
}

/// The wait of an attempt.
pub open spec fn wait_of(s: Sense, attempt: u8) -> ListenAction {
    ListenAction::Wait {
        us: (crate::lora_node::csma::xorshift(s.rng) as int % window_us(s, attempt)) as u32,
    }
}

/// The channel state with the next random word drawn.
pub open spec fn drawn(s: Sense) -> Sense {
    Sense { rng: crate::lora_node::csma::xorshift(s.rng), ..s }
}

/// The channel state after a transmission that did not go out.
pub open spec fn deferred(s: Sense) -> Sense {
    Sense { defer: s.defer.wrapping_add(1), ..s }
}

/// The channel state after a busy sense before a transmission.
pub open spec fn met_busy(s: Sense) -> Sense {
    Sense {
        cad_busy: s.cad_busy.wrapping_add(1),
        activity: s.activity.wrapping_add(1),
        ..s
    }
}

/// Whether a sense finds the channel busy: its strongest reading is above the threshold.
pub open spec fn finds_busy(s: Sense, rssi_max: Option<u16>) -> bool {
    rssi_max matches Some(raw) && raw_dbm(raw) > s.thresh_dbm
}

/// What a sense leads to: a busy channel costs an attempt and another wait, or ends it; a clear one
/// leads to the next sense or to the frame.
pub open spec fn sensed_next(s: Sense, l: Listen, rssi_max: Option<u16>) -> (
    Sense,
    Listen,
    ListenAction,
) {
    let next = (l.attempt + 1) as u8;
    if !finds_busy(s, rssi_max) {
        (
            s,
            Listen { left: (l.left - 1) as u8, ..l },
            if l.left > 1 {
                ListenAction::Cca { steps: s.cca_steps }
            } else {
                ListenAction::Stage
            },
        )
    } else if l.attempt + 1 < limit(s) {
        (drawn(met_busy(s)), Listen { attempt: next, ..l }, wait_of(met_busy(s), next))
    } else {
        (
            deferred(met_busy(s)),
            Listen { attempt: next, ..l },
            ListenAction::Done { sent: false, attempts: next },
        )
    }
}

/// What loading the frame leads to.
pub open spec fn staged_next(
    s: Sense,
    l: Listen,
    mode: crate::lr_node::phy::PhyMode,
    ok: bool,
) -> (Sense, Listen, ListenAction) {
    if ok {
        (s, l, ListenAction::Fire { timeout_ms: timeout_ms(mode, l.len as int) as u64 })
    } else {
        (deferred(s), l, ListenAction::Done { sent: false, attempts: l.attempt })
    }
}

/// What keying up leads to.
pub open spec fn fired_next(s: Sense, l: Listen, ok: bool) -> (Sense, Listen, ListenAction) {
    (
        if ok {
            s
        } else {
            deferred(s)
        },
        l,
        ListenAction::Done { sent: ok, attempts: l.attempt },
    )
}

proof fn lemma_window(s: Sense, attempt: u8)
    ensures
        1 <= pow2(doublings(s, attempt)) <= 65_536,
        1000 <= window_us(s, attempt) <= 1_000_000,
{
    let d = doublings(s, attempt);
    lemma2_to64();
    if d > 0 {
        lemma_pow2_strictly_increases(0, d);
    }
    if d < 16 {
        lemma_pow2_strictly_increases(d, 16);
    }
    let cw: int = if s.lbt_cw_ms == 0 {
        1
    } else {
        s.lbt_cw_ms as int
    };
    let p: int = pow2(d) as int;
    assert(cw * 1000 * p >= 1000) by (nonlinear_arith)
        requires
            cw >= 1,
            p >= 1,
    ;
}

/// A wait is always shorter than its window, and a window never longer than a second.
pub proof fn wait_is_inside_the_window(s: Sense, attempt: u8)
    ensures
        wait_of(s, attempt) matches ListenAction::Wait { us } && us < window_us(s, attempt),
        window_us(s, attempt) <= 1_000_000,
{
    lemma_window(s, attempt);
    let w = window_us(s, attempt);
    let r = crate::lora_node::csma::xorshift(s.rng) as int;
    assert(0 <= r % w < w) by (nonlinear_arith)
        requires
            w >= 1,
            r >= 0,
    ;
}

impl Sense {
    fn draw_wait(&mut self, attempt: u8) -> (a: ListenAction)
        ensures
            *final(self) == drawn(*old(self)),
            a == wait_of(*old(self), attempt),
    {
        let mut shift: u32 = attempt as u32;
        if shift > self.lbt_max_backoff as u32 {
            shift = self.lbt_max_backoff as u32;
        }
        if shift > 16 {
            shift = 16;
        }
        let cw: u32 = if self.lbt_cw_ms == 0 {
            1
        } else {
            self.lbt_cw_ms as u32
        };
        proof {
            lemma_window(*self, attempt);
            assert(shift == doublings(*self, attempt));
            assert(1 * pow2(shift as nat) == pow2(shift as nat)) by (nonlinear_arith);
            lemma_u32_shl_is_mul(1, shift);
        }
        let factor: u32 = 1u32 << shift;
        assert(0 <= cw * 1000 * factor <= 65_535_000 * 65_536) by (nonlinear_arith)
            requires
                cw <= 65_535,
                factor <= 65_536,
        ;
        let spread: u64 = (cw as u64 * 1000) * factor as u64;
        let window: u32 = if spread > MAX_BACKOFF_US as u64 {
            MAX_BACKOFF_US
        } else {
            spread as u32
        };
        assert(window == window_us(*self, attempt));
        proof {
            wait_is_inside_the_window(*self, attempt);
        }
        let r: u32 = self.next_rand();
        ListenAction::Wait { us: r % window }
    }

    /// Starts a transmission of `len` bytes that listens first, with a random wait.
    pub fn lbt_begin(&mut self, len: u16) -> (r: (Listen, ListenAction))
        ensures
            *final(self) == drawn(*old(self)),
            r.0 == (Listen { attempt: 0, left: 0, len }),
            r.1 == wait_of(*old(self), 0),
    {
        let a: ListenAction = self.draw_wait(0);
        (Listen { attempt: 0, left: 0, len }, a)
    }

    /// The wait is over: sense.
    pub fn lbt_waited(&self, l: &mut Listen) -> (a: ListenAction)
        ensures
            *final(l) == (Listen { left: senses(*self), ..*old(l) }),
            a == (ListenAction::Cca { steps: self.cca_steps }),
    {
        l.left = if self.repeat == 0 {
            1
        } else {
            self.repeat
        };
        ListenAction::Cca { steps: self.cca_steps }
    }

    /// What a sense says: a busy channel costs an attempt and another wait, or ends it; a clear one
    /// leads to the next sense or to the frame.
    pub fn lbt_sensed(&mut self, l: &mut Listen, rssi_max: Option<u16>) -> (a: ListenAction)
        requires
            old(l).left >= 1,
            old(l).attempt < limit(*old(self)),
        ensures
            (*final(self), *final(l), a) == sensed_next(*old(self), *old(l), rssi_max),
            limit(*final(self)) == limit(*old(self)),
    {
        if !self.cca_busy(rssi_max) {
            l.left = l.left - 1;
            if l.left > 0 {
                return ListenAction::Cca { steps: self.cca_steps };
            }
            return ListenAction::Stage;
        }
        self.cad_busy = self.cad_busy.wrapping_add(1);
        self.activity = self.activity.wrapping_add(1);
        l.attempt = l.attempt + 1;
        let most: u8 = if self.lbt_max_attempts == 0 {
            1
        } else {
            self.lbt_max_attempts
        };
        if l.attempt < most {
            return self.draw_wait(l.attempt);
        }
        self.defer = self.defer.wrapping_add(1);
        ListenAction::Done { sent: false, attempts: l.attempt }
    }

    /// Whether the frame could be loaded.
    pub fn lbt_staged(&mut self, l: &Listen, st: &PhyState, ok: bool) -> (a: ListenAction)
        requires
            st.wf(),
            l.len <= 255,
        ensures
            (*final(self), *l, a) == staged_next(*old(self), *l, st.mode, ok),
    {
        if ok {
            ListenAction::Fire { timeout_ms: tx_timeout_ms(st, l.len) }
        } else {
            self.defer = self.defer.wrapping_add(1);
            ListenAction::Done { sent: false, attempts: l.attempt }
        }
    }

    /// Whether the frame went out.
    pub fn lbt_fired(&mut self, l: &Listen, ok: bool) -> (a: ListenAction)
        ensures
            (*final(self), *l, a) == fired_next(*old(self), *l, ok),
    {
        if !ok {
            self.defer = self.defer.wrapping_add(1);
        }
        ListenAction::Done { sent: ok, attempts: l.attempt }
    }
}

/// What the radio reports while a transmission listens first.
pub enum ListenEvent {
    /// The wait is over.
    Waited,
    /// A sense has ended with this strongest reading, or failed.
    Sensed(Option<u16>),
    /// The frame was loaded for this waveform, or could not be.
    Staged(crate::lr_node::phy::PhyMode, bool),
    /// The frame went out, or did not.
    Fired(bool),
}

/// One step: the report that the action asks for, and what follows from it. `None` where the
/// report answers another action.
pub open spec fn listen_step(s: (Sense, Listen, ListenAction), ev: ListenEvent) -> Option<
    (Sense, Listen, ListenAction),
> {
    match (s.2, ev) {
        (ListenAction::Wait { .. }, ListenEvent::Waited) => Some(
            (
                s.0,
                Listen { left: senses(s.0), ..s.1 },
                ListenAction::Cca { steps: s.0.cca_steps },
            ),
        ),
        (ListenAction::Cca { .. }, ListenEvent::Sensed(rssi_max)) => Some(
            sensed_next(s.0, s.1, rssi_max),
        ),
        (ListenAction::Stage, ListenEvent::Staged(mode, ok)) => Some(
            staged_next(s.0, s.1, mode, ok),
        ),
        (ListenAction::Fire { .. }, ListenEvent::Fired(ok)) => Some(fired_next(s.0, s.1, ok)),
        _ => None,
    }
}

/// Where a transmission of `len` bytes that listens first stands after a list of reports.
pub open spec fn listen_run(s: Sense, len: u16, events: Seq<ListenEvent>) -> Option<
    (Sense, Listen, ListenAction),
>
    decreases events.len(),
{
    if events.len() == 0 {
        Some((drawn(s), Listen { attempt: 0, left: 0, len }, wait_of(s, 0)))
    } else {
        match listen_run(s, len, events.drop_last()) {
            Some(now) => listen_step(now, events.last()),
            None => None,
        }
    }
}

/// How many of the reports find the channel busy.
pub open spec fn busy_reports(s: Sense, events: Seq<ListenEvent>) -> nat
    decreases events.len(),
{
    if events.len() == 0 {
        0
    } else {
        busy_reports(s, events.drop_last()) + if events.last() matches ListenEvent::Sensed(r)
            && finds_busy(s, r) {
            1nat
        } else {
            0nat
        }
    }
}

/// How many frames the reports tell of: loaded, or not to be loaded.
pub open spec fn frames(events: Seq<ListenEvent>) -> nat
    decreases events.len(),
{
    if events.len() == 0 {
        0
    } else {
        frames(events.drop_last()) + if events.last() is Staged {
            1nat
        } else {
            0nat
        }
    }
}

/// How often the reports tell of keying up.
pub open spec fn transmissions(events: Seq<ListenEvent>) -> nat
    decreases events.len(),
{
    if events.len() == 0 {
        0
    } else {
        transmissions(events.drop_last()) + if events.last() is Fired {
            1nat
        } else {
            0nat
        }
    }
}

/// The channel state after `k` busy senses before a transmission.
pub open spec fn met_busy_often(s: Sense, k: nat) -> Sense {
    Sense {
        cad_busy: s.cad_busy.wrapping_add(k as u16),
        activity: s.activity.wrapping_add(k as u16),
        ..s
    }
}

proof fn lemma_listen_run(s: Sense, len: u16, events: Seq<ListenEvent>)
    requires
        listen_run(s, len, events) is Some,
    ensures
        ({
            let (t, l, a) = listen_run(s, len, events)->0;
            let k = busy_reports(s, events);
            let met = met_busy_often(s, k);
            &&& l.len == len
            &&& l.attempt == k <= limit(s)
            &&& t == (Sense { rng: t.rng, defer: t.defer, ..met })
            &&& match a {
                ListenAction::Done { sent, attempts } => {
                    &&& attempts == k
                    &&& sent == (events.last() == ListenEvent::Fired(true))
                    &&& frames(events) == if k < limit(s) {
                        1nat
                    } else {
                        0nat
                    }
                    &&& transmissions(events) == if events.last() is Fired {
                        1nat
                    } else {
                        0nat
                    }
                    &&& k < limit(s) ==> events.last() is Fired || events.last() is Staged
                    &&& k == limit(s) ==> events.last() is Sensed
                    &&& t.defer == if sent {
                        s.defer
                    } else {
                        s.defer.wrapping_add(1)
                    }
                },
                _ => {
                    &&& k < limit(s)
                    &&& t.defer == s.defer
                    &&& transmissions(events) == 0
                    &&& frames(events) == if a is Fire {
                        1nat
                    } else {
                        0nat
                    }
                    &&& a is Cca ==> l.left >= 1
                },
            }
        }),
    decreases events.len(),
{
    if events.len() > 0 {
        lemma_listen_run(s, len, events.drop_last());
    }
}

/// A transmission that listens first and meets `k` busy channels loads its frame exactly once where
/// `k` is below the limit of attempts, and keys up exactly once where the frame could be loaded; at
/// the limit it does neither. Its end reports the `k`, both busy counters have grown by it, and a
/// transmission that did not go out counts as one deferral. Beside these counters and the generator
/// nothing moves: thresholds, windows and the noise floor stay what they were.
pub proof fn listening_sends_once_or_gives_up(s: Sense, len: u16, events: Seq<ListenEvent>)
    requires
        listen_run(s, len, events) matches Some(now) && now.2 is Done,
    ensures
        ({
            let (t, l, a) = listen_run(s, len, events)->0;
            let k = busy_reports(s, events);
            let sent = events.last() == ListenEvent::Fired(true);
            &&& k <= limit(s)
            &&& frames(events) == if k < limit(s) {
                1nat
            } else {
                0nat
            }
            &&& transmissions(events) == if events.last() is Fired {
                1nat
            } else {
                0nat
            }
            &&& k < limit(s) <==> events.last() is Fired || events.last() is Staged
            &&& a == (ListenAction::Done { sent, attempts: k as u8 })
            &&& t == (Sense {
                rng: t.rng,
                defer: if sent {
                    s.defer
                } else {
                    s.defer.wrapping_add(1)
                },
                ..met_busy_often(s, k)
            })
        }),
{
    lemma_listen_run(s, len, events);
}

} // verus!
