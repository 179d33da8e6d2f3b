//! The node's state and its main loop: when to wake, what a wake-up means, what the timer owes.

use vstd::prelude::*;

use crate::bytes::{push_all, push_be16, push_be16_signed, push_be32};
use crate::lora_node::csma::Csma;
use crate::lora_node::fire::Mode;
use crate::lora_node::hop::Hop;
use crate::lora_node::params::{airtime_ms, cut_ms, Params};
use crate::lora_node::sched::SchedTx;
use crate::regs::RegOp;
use crate::serial::Frame;
use crate::text::BufWriter;

verus! {

/// Everything a node remembers between two events.
pub struct Node {
    pub p: Params,
    pub csma: Csma,
    pub debug: bool,
    pub beacon_on: bool,
    /// Beacon period, in ticks.
    pub beacon_period: u64,
    pub beacon_seq: u32,
    pub radio_errors: u16,
    pub rx_trunc: u16,
    pub sched: SchedTx,
    /// The frame of the scheduled transmission.
    pub sched_buf: Vec<u8>,
    pub sched_late: u16,
    pub hop: Hop,
    /// Detector registers the host chose, as written.
    pub det: Option<(u8, u8)>,
    /// Gain register the host chose.
    pub lna: Option<u8>,
    /// The mode the radio is in.
    pub mode: Mode,
}

/// One more, stopping at the top.
pub open spec fn sat16(n: u16) -> u16 {
    if n == 65_535 {
        n
    } else {
        (n + 1) as u16
    }
}

/// Counts up, stopping at the top.
pub fn bump(n: u16) -> (m: u16)
    ensures
        m == sat16(n),
{
    n.saturating_add(1)
}

/// An event for the host.
pub fn event(typ: u8, body: Vec<u8>) -> (f: Frame)
    ensures
        f@ == (crate::serial::FrameView { typ, payload: body@ }),
{
    Frame { typ, payload: body }
}

/// A two-byte event.
pub fn event2(typ: u8, a: u8, b: u8) -> (f: Frame)
    ensures
        f@ == (crate::serial::FrameView { typ, payload: seq![a, b] }),
{
    let mut body: Vec<u8> = Vec::new();
    body.push(a);
    body.push(b);
    assert(body@ =~= seq![a, b]);
    Frame { typ, payload: body }
}

/// 1 for yes.
pub open spec fn flag(b: bool) -> u8 {
    if b {
        1
    } else {
        0
    }
}

/// 1 for yes.
pub fn as_flag(b: bool) -> (f: u8)
    ensures
        f == flag(b),
{
    if b {
        1
    } else {
        0
    }
}

/// What can wake the loop.
#[derive(Clone, Copy, PartialEq, Eq, Structural)]
pub enum WaitSet {
    /// A command or the timer: the radio holds a loaded frame.
    CommandOrTimer,
    /// Also the radio's interrupt.
    CommandIrqTimer,
    /// Also the hop interrupt.
    CommandIrqHopTimer,
}

/// What the timer owes to the scheduled transmission.
pub enum TimerPlan {
    /// Nothing yet.
    Nothing,
    /// Tell the host that the transmission starts, then load the frame.
    Stage { started: Frame, len: usize, air_ms: u32 },
    /// Key the transmitter.
    Fire { fire_at: u64, air_ms: u32 },
}

/// A beacon to transmit.
pub struct Beacon {
    pub payload: Vec<u8>,
    pub air_ms: u32,
}

/// What the name plane decided about a received frame.
pub enum PlaneAction {
    /// Not wanted.
    Drop,
    /// Answered from the content store.
    Serve { data: Vec<u8> },
    /// For the host.
    Deliver,
    /// For the host, and for the next node.
    RelayAndDeliver,
}

/// What to do with a received frame, in this order.
pub struct RxPlan {
    /// Log it.
    pub log: Option<Frame>,
    /// Transmit this, listening first.
    pub serve: Option<Vec<u8>>,
    /// Transmit the frame again, listening first.
    pub relay: bool,
    /// Hand the frame to the host.
    pub deliver: bool,
    /// The receiver must be armed again.
    pub disturbed: bool,
}

/// The text of a truth value.
pub open spec fn bool_text(b: bool) -> Seq<u8> {
    if b {
        crate::text::text("true")
    } else {
        crate::text::text("false")
    }
}

fn write_bool(w: &mut BufWriter, b: bool)
    ensures
        final(w)@ == crate::text::cut(old(w)@ + bool_text(b), 96),
{
    if b {
        w.write_str("true");
    } else {
        w.write_str("false");
    }
}

/// The frame of a beacon.
pub open spec fn beacon_text(seq: u32) -> Seq<u8> {
    crate::text::cut(
        crate::text::cut(crate::text::text("LORA-BEACON seq="), 96) + crate::text::decimal(
            seq as nat,
        ),
        96,
    )
}

/// The placement error of a transmission, in microseconds, cut to a thousand seconds.
pub open spec fn placement_error(fire_at: u64, keyed: u64) -> int {
    let e = keyed - fire_at;
    if e < -1_000_000_000 {
        -1_000_000_000
    } else if e > 1_000_000_000 {
        1_000_000_000
    } else {
        e
    }
}

/// Outside the declared granularity.
pub open spec fn is_late(err: int) -> bool {
    err > 99 || err < -99
}

impl Node {
    /// What holds of the state between two events. While hopping is on, the list starts with the
    /// carrier in use: that is the carrier every packet begins on.
    pub open spec fn wf(self) -> bool {
        &&& self.p.wf()
        &&& self.csma.wf()
        &&& self.hop.wf()
        &&& self.sched.wf()
        &&& self.sched matches SchedTx::Pending { fire_at, stage_at, len, air_ms }
            ==> len == self.sched_buf@.len()
        &&& self.sched matches SchedTx::Staged { fire_at, len, air_ms } ==> len
            == self.sched_buf@.len()
        &&& self.beacon_period <= 2_550_000_000
        &&& self.hop.enabled ==> self.hop.hz@[0] == self.p.freq_hz
    }

    /// The state at start-up.
    pub fn new() -> (n: Node)
        ensures
            n.wf(),
            n.p == (Params { freq_hz: 915_000_000, sf: 9, bw_hz: 125_000, cr: 1, pwr: 17 }),
            !n.debug,
            !n.beacon_on,
            n.beacon_period == 10_000_000,
            n.beacon_seq == 0,
            n.radio_errors == 0,
            n.rx_trunc == 0,
            n.sched == SchedTx::Idle,
            n.sched_late == 0,
            !n.hop.enabled,
            n.hop.n == 0,
            n.det is None,
            n.lna is None,
            n.mode == Mode::Standby,
            n.hop.base_hz == 0,
            n.hop.period == 0,
            n.hop.hops == 0,
            n.hop.pll_timeouts == 0,
            n.hop.last_idx == 0,
            n.hop.trace@ == Seq::<crate::lora_node::hop::HopEntry>::empty(),
            n.sched_buf@.len() == 0,
            n.csma == (Csma {
                preamble: 8,
                lbt_cw: 20,
                lbt_max_backoff: 4,
                lbt_max_attempts: 6,
                rng: 0x1234_5678,
                cad_busy: 0,
                cad_busy_base: 0,
                defer: 0,
                rssi_thresh: i16::MIN,
                cad_repeat: 1,
            }),
    {
        Node {
            p: Params { freq_hz: 915_000_000, sf: 9, bw_hz: 125_000, cr: 1, pwr: 17 },
            csma: Csma::new(),
            debug: false,
            beacon_on: false,
            beacon_period: 10_000_000,
            beacon_seq: 0,
            radio_errors: 0,
            rx_trunc: 0,
            sched: SchedTx::Idle,
            sched_buf: Vec::new(),
            sched_late: 0,
            hop: Hop::new(),
            det: None,
            lna: None,
            mode: Mode::Standby,
        }
    }

    /// The receiver is armed before waiting, unless it is or a loaded frame holds the radio.
    pub open spec fn arms(self, rx_armed: bool) -> bool {
        !rx_armed && self.sched !is Staged
    }

    /// What can wake the loop.
    pub open spec fn waits(self) -> WaitSet {
        if self.sched is Staged {
            WaitSet::CommandOrTimer
        } else if self.hop.enabled {
            WaitSet::CommandIrqHopTimer
        } else {
            WaitSet::CommandIrqTimer
        }
    }

    /// The node after a hop met while listening.
    pub open spec fn hop_served(self, ok: bool) -> Node {
        if ok {
            self
        } else {
            Node {
                radio_errors: sat16(self.radio_errors),
                hop: Hop { enabled: false, ..self.hop },
                ..self
            }
        }
    }

    /// The node after a transmission that the host asked for.
    pub open spec fn transmitted(self, ok: bool) -> Node {
        Node {
            radio_errors: if ok {
                self.radio_errors
            } else {
                sat16(self.radio_errors)
            },
            ..self
        }
    }

    /// Whether the receiver is to be armed before waiting.
    pub fn must_arm(&self, rx_armed: bool) -> (b: bool)
        ensures
            b == self.arms(rx_armed),
    {
        !rx_armed && !self.sched.owns_radio()
    }

    /// When the timer must wake the loop: an hour from now at the latest, a quarter of a second
    /// after arming failed, the next beacon, the scheduled transmission.
    pub open spec fn wake_time(self, now: u64, arm_failed: bool, next_beacon: u64) -> int {
        let a: int = now + 3_600_000_000;
        let b: int = if arm_failed {
            now + 250_000
        } else {
            a
        };
        let c: int = if self.beacon_on && next_beacon < b {
            next_beacon as int
        } else {
            b
        };
        match self.sched.next_look() {
            Some(t) => if t < c {
                t as int
            } else {
                c
            },
            None => c,
        }
    }

    /// When the timer must wake the loop.
    pub fn next_wake(&self, now: u64, arm_failed: bool, next_beacon: u64) -> (t: u64)
        requires
            now <= u64::MAX - 3_600_000_000,
        ensures
            t == self.wake_time(now, arm_failed, next_beacon),
    {
        let mut t: u64 = now + 3_600_000_000;
        if arm_failed {
            t = now + 250_000;
        }
        if self.beacon_on && next_beacon < t {
            t = next_beacon;
        }
        match self.sched.wake_at() {
            Some(s) => {
                if s < t {
                    t = s;
                }
            },
            None => {},
        }
        t
    }

    /// What can wake the loop.
    pub fn wait_set(&self) -> (w: WaitSet)
        ensures
            w == self.waits(),
    {
        if self.sched.owns_radio() {
            WaitSet::CommandOrTimer
        } else if self.hop.enabled {
            WaitSet::CommandIrqHopTimer
        } else {
            WaitSet::CommandIrqTimer
        }
    }

    /// Counts a radio operation that failed.
    pub fn count_error(&mut self)
        requires
            old(self).wf(),
        ensures
            final(self).wf(),
            *final(self) == (Node { radio_errors: sat16(old(self).radio_errors), ..*old(self) }),
    {
        self.radio_errors = bump(self.radio_errors);
    }

    /// The node whose radio has been taken back from a loaded frame: the chip rests in standby with
    /// it, and no command is needed.
    pub open spec fn preempted(self) -> Node {
        Node {
            sched: self.sched.demoted(),
            mode: if self.sched is Staged {
                Mode::Standby
            } else {
                self.mode
            },
            ..self
        }
    }

    /// A command has arrived: the radio is taken back from a loaded frame. Says whether there was
    /// one.
    pub fn preempt(&mut self) -> (abandon: bool)
        requires
            old(self).wf(),
        ensures
            final(self).wf(),
            *final(self) == old(self).preempted(),
            abandon == (old(self).sched is Staged),
    {
        let abandon: bool = self.sched.demote();
        if abandon {
            self.mode = Mode::Standby;
        }
        abandon
    }

    /// A hop met while listening has been served, or its service failed. A failure is counted, ends
    /// the hopping and is logged; the access returned must reach the chip.
    pub fn on_hop_service(&mut self, ok: bool) -> (r: Option<(RegOp, Frame)>)
        requires
            old(self).wf(),
        ensures
            final(self).wf(),
            *final(self) == old(self).hop_served(ok),
            r is Some <==> !ok,
            r matches Some((op, log)) ==> op == (RegOp::Write { addr: 0x24, val: 0 }) && log@ == (
            crate::serial::FrameView {
                typ: 0x84,
                payload: crate::text::cut(
                    Seq::<u8>::empty() + crate::text::text("hop service failed; hopping disabled"),
                    96,
                ),
            }),
    {
        if ok {
            return None;
        }
        self.radio_errors = bump(self.radio_errors);
        let op: RegOp = self.hop.abandon();
        let mut w = BufWriter::new();
        w.write_str("hop service failed; hopping disabled");
        Some((op, event(crate::lora_node::opcode::EVT_LOG, w.into_vec())))
    }

    /// Whether the receiver must be armed before the channel energy can be read.
    pub fn must_arm_to_sense(&self) -> (b: bool)
        ensures
            b == (self.mode != Mode::Receive),
    {
        self.mode != Mode::Receive
    }

    /// Whether the timer finds something to do for the scheduled transmission.
    pub open spec fn timer_due(self, now: u64) -> bool {
        self.sched.next_look() matches Some(t) && now >= t
    }

    /// What the timer finds to do: load the waiting frame when it is time to, key the loaded one when
    /// its instant has come.
    pub open spec fn timer_says(self, now: u64, plan: TimerPlan) -> bool {
        match plan {
            TimerPlan::Nothing => !self.timer_due(now),
            TimerPlan::Stage { started, len, air_ms } => {
                &&& self.timer_due(now)
                &&& self.sched matches SchedTx::Pending {
                    fire_at: _,
                    stage_at: _,
                    len: l,
                    air_ms: a,
                }
                &&& len == l
                &&& air_ms == a
                &&& started@ == started_event(air_ms)
            },
            TimerPlan::Fire { fire_at, air_ms } => {
                &&& self.timer_due(now)
                &&& self.sched matches SchedTx::Staged { fire_at: f, len: _, air_ms: a }
                &&& fire_at == f
                &&& air_ms == a
            },
        }
    }

    /// The timer has fired. A scheduled frame is never keyed before its instant.
    pub fn on_timer(&self, now: u64) -> (plan: TimerPlan)
        ensures
            plan matches TimerPlan::Fire { fire_at, air_ms } ==> fire_at <= now,
            self.timer_says(now, plan),
    {
        match self.sched {
            SchedTx::Pending { fire_at: _, stage_at, len, air_ms } => {
                if now >= stage_at {
                    return TimerPlan::Stage { started: tx_started(air_ms), len, air_ms };
                }
            },
            SchedTx::Staged { fire_at, len: _, air_ms } => {
                if now >= fire_at {
                    return TimerPlan::Fire { fire_at, air_ms };
                }
            },
            SchedTx::Idle => {},
        }
        TimerPlan::Nothing
    }

    /// The node after the scheduled frame was loaded, or could not be.
    pub open spec fn staged(self, ok: bool) -> Node {
        match self.sched {
            SchedTx::Pending { fire_at, stage_at, len, air_ms } => if ok {
                Node { sched: SchedTx::Staged { fire_at, len, air_ms }, ..self }
            } else {
                Node { sched: SchedTx::Idle, radio_errors: sat16(self.radio_errors), ..self }
            },
            _ => self,
        }
    }

    /// The node after the scheduled transmission has ended.
    pub open spec fn fired(self, fire_at: u64, keyed: u64, ok: bool) -> Node {
        Node {
            sched: SchedTx::Idle,
            radio_errors: if ok {
                self.radio_errors
            } else {
                sat16(self.radio_errors)
            },
            sched_late: if is_late(placement_error(fire_at, keyed)) {
                sat16(self.sched_late)
            } else {
                self.sched_late
            },
            ..self
        }
    }

    /// What the host is told when the scheduled transmission has ended: how far off it was, where
    /// that is out of bounds or diagnostics are on, and then the verdict.
    pub open spec fn fired_events(self, fire_at: u64, keyed: u64, ok: bool) -> Seq<
        crate::serial::FrameView,
    > {
        let err = placement_error(fire_at, keyed);
        let log = crate::serial::FrameView {
            typ: 0x84,
            payload: sched_log(err, self.fired(fire_at, keyed, ok).sched_late),
        };
        if is_late(err) || self.debug {
            seq![log, txdone_view(ok, 0)]
        } else {
            seq![txdone_view(ok, 0)]
        }
    }

    /// Loading the scheduled frame has ended. A failure drops it and answers the host.
    pub fn on_staged(&mut self, ok: bool) -> (reply: Option<Frame>)
        requires
            old(self).wf(),
            old(self).sched is Pending,
        ensures
            final(self).wf(),
            *final(self) == old(self).staged(ok),
            reply is Some <==> !ok,
            reply matches Some(f) ==> f@ == txdone_view(false, 0),
    {
        match self.sched {
            SchedTx::Pending { fire_at, stage_at: _, len, air_ms } => {
                if ok {
                    self.sched = SchedTx::Staged { fire_at, len, air_ms };
                    None
                } else {
                    self.radio_errors = bump(self.radio_errors);
                    self.sched = SchedTx::Idle;
                    Some(txdone(false, 0))
                }
            },
            _ => None,
        }
    }

    /// The scheduled transmission has ended: its slot is free, its placement is judged against the
    /// declared granularity, and the host is answered.
    pub fn on_fired(&mut self, fire_at: u64, keyed: u64, ok: bool) -> (replies: Vec<Frame>)
        requires
            old(self).wf(),
            fire_at <= i64::MAX,
            keyed <= i64::MAX,
        ensures
            final(self).wf(),
            *final(self) == old(self).fired(fire_at, keyed, ok),
            replies@.map_values(|f: Frame| f@) == old(self).fired_events(fire_at, keyed, ok),
    {
        self.sched = SchedTx::Idle;
        if !ok {
            self.radio_errors = bump(self.radio_errors);
        }
        let diff: i64 = keyed as i64 - fire_at as i64;
        let err: i64 = if diff < -1_000_000_000 {
            -1_000_000_000
        } else if diff > 1_000_000_000 {
            1_000_000_000
        } else {
            diff
        };
        let late: bool = err > 99 || err < -99;
        if late {
            self.sched_late = bump(self.sched_late);
        }
        let mut replies: Vec<Frame> = Vec::new();
        if late || self.debug {
            let mut w = BufWriter::new();
            w.write_str("sched err=");
            w.write_signed(err);
            w.write_str("us gran=99us late=");
            w.write_dec(self.sched_late as u64);
            replies.push(event(crate::lora_node::opcode::EVT_LOG, w.into_vec()));
        }
        replies.push(txdone(ok, 0));
        assert(replies@.map_values(|f: Frame| f@) =~= old(self).fired_events(fire_at, keyed, ok));
        replies
    }

    /// Whether a beacon is due. The period restarts in any case; while a transmission is scheduled
    /// the beacon itself is skipped.
    pub fn on_beacon_time(&mut self, now: u64, next_beacon: &mut u64) -> (b: Option<Beacon>)
        requires
            old(self).wf(),
            now <= u64::MAX - 2_550_000_000,
        ensures
            final(self).wf(),
            beaconed(*old(self), now, *old(next_beacon), *final(self), *final(next_beacon), b),
    {
        if !self.beacon_on || now < *next_beacon {
            return None;
        }
        *next_beacon = now + self.beacon_period;
        if self.sched.is_armed() {
            return None;
        }
        let mut w = BufWriter::new();
        w.write_str("LORA-BEACON seq=");
        w.write_dec(self.beacon_seq as u64);
        let payload: Vec<u8> = w.into_vec();
        proof {
            assert(Seq::<u8>::empty() + crate::text::text("LORA-BEACON seq=") =~= crate::text::text(
                "LORA-BEACON seq=",
            ));
        }
        self.beacon_seq = self.beacon_seq.wrapping_add(1);
        let air_ms: u32 = airtime_ms(&self.p, payload.len(), self.csma.preamble);
        Some(Beacon { payload, air_ms })
    }

    /// A plain transmission has ended.
    pub fn on_sent(&mut self, ok: bool) -> (reply: Frame)
        requires
            old(self).wf(),
        ensures
            final(self).wf(),
            *final(self) == old(self).transmitted(ok),
            reply@ == txdone_view(ok, 0),
            forall|air_ms: u32| #[trigger]
                (crate::lora_node::command::Plan::Transmit { air_ms }).answered_by(reply@.typ),
    {
        if !ok {
            self.radio_errors = bump(self.radio_errors);
        }
        txdone(ok, 0)
    }

    /// Whether a received frame of `n` bytes is taken, and the node then.
    pub open spec fn rx_taken(self, n: usize) -> (Node, bool) {
        if n <= 247 {
            (self, true)
        } else {
            (Node { rx_trunc: sat16(self.rx_trunc), ..self }, false)
        }
    }

    /// Whether a received frame can be delivered; one that is too long is counted.
    pub fn accept_rx(&mut self, n: usize) -> (ok: bool)
        requires
            old(self).wf(),
        ensures
            final(self).wf(),
            (*final(self), ok) == old(self).rx_taken(n),
    {
        if n > crate::lora_node::params::RX_MAX {
            self.rx_trunc = bump(self.rx_trunc);
            return false;
        }
        true
    }

    /// What to do with a received frame of `n` bytes, given the name plane's verdict.
    pub fn on_rx(&self, n: usize, action: PlaneAction) -> (plan: RxPlan)
        ensures
            rx_planned(*self, n, action, plan),
    {
        let (deliver, relay, serve): (bool, bool, Option<Vec<u8>>) = match action {
            PlaneAction::Drop => (false, false, None),
            PlaneAction::Serve { data } => {
                if data.len() > 0 {
                    (false, false, Some(data))
                } else {
                    (false, false, None)
                }
            },
            PlaneAction::Deliver => (true, false, None),
            PlaneAction::RelayAndDeliver => (true, true, None),
        };
        let serving: bool = serve.is_some();
        let log: Option<Frame> = if self.debug {
            let mut w = BufWriter::new();
            w.write_str("rx n=");
            w.write_dec(n as u64);
            w.write_str(" serve=");
            write_bool(&mut w, serving);
            w.write_str(" relay=");
            write_bool(&mut w, relay);
            w.write_str(" deliver=");
            write_bool(&mut w, deliver);
            Some(event(crate::lora_node::opcode::EVT_LOG, w.into_vec()))
        } else {
            None
        };
        RxPlan { log, serve, relay, deliver, disturbed: serving || relay }
    }
}

/// What the time of a beacon leads to: where it is due the period restarts, and a beacon goes out
/// unless a transmission is scheduled.
pub open spec fn beaconed(
    n: Node,
    now: u64,
    next: u64,
    after: Node,
    after_next: u64,
    b: Option<Beacon>,
) -> bool {
    let due = n.beacon_on && now >= next;
    let send = due && n.sched is Idle;
    &&& after_next == (if due {
        (now + n.beacon_period) as u64
    } else {
        next
    })
    &&& after == (Node {
        beacon_seq: if send {
            n.beacon_seq.wrapping_add(1)
        } else {
            n.beacon_seq
        },
        ..n
    })
    &&& b is Some <==> send
    &&& b matches Some(x) ==> x.payload@ == beacon_text(n.beacon_seq) && x.air_ms
        == crate::lora_node::params::frame_ms(n.p, x.payload@.len() as int, n.csma.preamble)
}

/// The log line of a placement error.
pub open spec fn sched_log(err: int, late: u16) -> Seq<u8> {
    let a = crate::text::cut(Seq::<u8>::empty() + crate::text::text("sched err="), 96);
    let b = crate::text::cut(a + crate::text::signed(err), 96);
    let c = crate::text::cut(b + crate::text::text("us gran=99us late="), 96);
    crate::text::cut(c + crate::text::decimal(late as nat), 96)
}

/// The log line of a received frame.
pub open spec fn rx_log(n: usize, serve: bool, relay: bool, deliver: bool) -> Seq<u8> {
    let a = crate::text::cut(Seq::<u8>::empty() + crate::text::text("rx n="), 96);
    let b = crate::text::cut(a + crate::text::decimal(n as nat), 96);
    let c = crate::text::cut(b + crate::text::text(" serve="), 96);
    let d = crate::text::cut(c + bool_text(serve), 96);
    let e = crate::text::cut(d + crate::text::text(" relay="), 96);
    let f = crate::text::cut(e + bool_text(relay), 96);
    let g = crate::text::cut(f + crate::text::text(" deliver="), 96);
    crate::text::cut(g + bool_text(deliver), 96)
}

/// The event that a transmission has ended.
pub open spec fn txdone_view(ok: bool, attempts: u8) -> crate::serial::FrameView {
    crate::serial::FrameView { typ: 0x82, payload: seq![flag(ok), attempts] }
}

/// The event that a transmission has ended.
pub fn txdone(ok: bool, attempts: u8) -> (f: Frame)
    ensures
        f@ == txdone_view(ok, attempts),
        crate::lora_node::command::Plan::Scheduled.answered_by(f@.typ),
        forall|started: Frame| #[trigger]
            (crate::lora_node::command::Plan::TransmitLbt { started }).answered_by(f@.typ),
{
    event2(crate::lora_node::opcode::EVT_TXDONE, as_flag(ok), attempts)
}

/// The event that a transmission starts, with its airtime.
pub open spec fn started_event(air_ms: u32) -> crate::serial::FrameView {
    crate::serial::FrameView {
        typ: 0x88,
        payload: crate::bytes::be16(crate::lora_node::params::started_ms(air_ms)),
    }
}

/// The event that delivers a frame.
pub open spec fn heard_event(rssi: i16, snr: i16, ts: u32, frame: Seq<u8>) -> crate::serial::FrameView {
    crate::serial::FrameView {
        typ: 0x81,
        payload: crate::bytes::be16_signed(rssi) + crate::bytes::be16_signed(snr)
            + crate::bytes::be32(ts) + frame,
    }
}

/// What the name plane's verdict on a received frame of `n` bytes leads to.
pub open spec fn rx_planned(node: Node, n: usize, action: PlaneAction, plan: RxPlan) -> bool {
    &&& plan.deliver == (action is Deliver || action is RelayAndDeliver)
    &&& plan.relay == (action is RelayAndDeliver)
    &&& plan.serve == (match action {
        PlaneAction::Serve { data } => if data@.len() > 0 {
            Some(data)
        } else {
            None
        },
        _ => None,
    })
    &&& plan.disturbed == (plan.serve is Some || plan.relay)
    &&& plan.log is Some <==> node.debug
    &&& plan.log matches Some(f) ==> f@ == (crate::serial::FrameView {
        typ: 0x84,
        payload: rx_log(n, plan.serve is Some, plan.relay, plan.deliver),
    })
}

/// The event that a transmission starts.
pub fn tx_started(air_ms: u32) -> (f: Frame)
    ensures
        f@ == started_event(air_ms),
{
    let mut body: Vec<u8> = Vec::new();
    push_be16(&mut body, cut_ms(air_ms));
    assert(body@ =~= crate::bytes::be16(crate::lora_node::params::started_ms(air_ms)));
    event(crate::lora_node::opcode::EVT_TX_STARTED, body)
}

/// The event that delivers a frame: signal strength, signal-to-noise ratio, clock, bytes.
pub fn rx_event(rssi: i16, snr: i16, ts: u32, frame: &[u8]) -> (f: Frame)
    ensures
        f@ == heard_event(rssi, snr, ts, frame@),
{
    let mut body: Vec<u8> = Vec::new();
    push_be16_signed(&mut body, rssi);
    push_be16_signed(&mut body, snr);
    push_be32(&mut body, ts);
    push_all(&mut body, frame);
    assert(body@ =~= crate::bytes::be16_signed(rssi) + crate::bytes::be16_signed(snr)
        + crate::bytes::be32(ts) + frame@);
    event(crate::lora_node::opcode::EVT_RX, body)
}

} // verus!
