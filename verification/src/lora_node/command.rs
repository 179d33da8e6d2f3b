//! Host commands: what each one changes, what the radio must do for it, and how the host is
//! answered.
//!
//! [`Node::handle_cmd`] takes a command as far as the node can go alone and says what has to happen
//! next. Where that involves the radio, the outcome comes back through one of the `on_` functions.

use vstd::prelude::*;

use crate::bytes::{as_signed, copy_range, get_be16, get_be16_signed, get_be32, get_be64, push_be64};
use crate::lora_node::hop::{HOP_MAX, HOP_ON, HOP_PERIOD_MAX};
use crate::lora_node::node::{event, tx_started, txdone, Node};
use crate::lora_node::opcode;
use crate::lora_node::params::{airtime_ms, bw_hz_of_code, cr_from, sf_from, tsym_us, Params};
use crate::lora_node::report::{cap, unsupported};
use crate::lora_node::sched::SchedTx;
use crate::regs::{clamp_det_opt, clamp_det_thresh, lna_reg};
use crate::serial::Frame;
use crate::text::BufWriter;

verus! {

/// What a command needs next.
pub enum Plan {
    /// Answer, and nothing else.
    Reply { event: Frame },
    /// Answer with the information event.
    Info,
    /// Answer with the build line and the information event.
    BuildInfo,
    /// Nothing now: the answer comes when the scheduled transmission ends.
    Scheduled,
    /// Transmit the payload.
    Transmit { air_ms: u32 },
    /// Announce the transmission, then transmit the payload, listening first.
    TransmitLbt { started: Frame },
    /// Ask the driver for these parameters.
    Build { trial: Params, preamble: u16 },
    /// Enter standby and write the sync word.
    WriteSync { word: u8 },
    /// Detect activity.
    Cad { tsym_us: u64 },
    /// Read the channel energy.
    Rssi,
    /// Look for activity at every spreading factor.
    ScanSf,
    /// Enter standby and write the detector pair; then log the line, where there is one.
    SetDetector { opt: u8, thresh: u8, log: Option<Frame> },
    /// Write the gain register.
    WriteGain { reg: u8 },
    /// Give the name plane its filter.
    SetFilter { hashes: Vec<u64> },
    /// Give the name plane its relay set.
    SetRelay { hashes: Vec<u64> },
    /// Configure the name plane.
    SetPlane { serve: bool, dedup: bool, hop: bool, base: u8, span: u8 },
    /// Answer with the statistics event.
    Stats,
    /// Reset the name plane's counters and the lost bytes.
    ResetPlane,
    /// Read three chip registers and log the state.
    DebugReport,
    /// Read the operating mode.
    CheckPhy { want: u8 },
    /// Enter standby and program the hop registers.
    SetHop { on: bool, period: u8, list: Vec<u32> },
    /// Detect activity `count` times, then read the energy.
    Sense { tsym_us: u64, count: u8 },
}

impl Plan {
    /// Whether the information event ends the answer, once the radio has done its part.
    pub open spec fn ends_in_info(self) -> bool {
        match self {
            Plan::Info => true,
            Plan::BuildInfo => true,
            Plan::Build { .. } => true,
            Plan::WriteSync { .. } => true,
            Plan::SetDetector { .. } => true,
            Plan::WriteGain { .. } => true,
            Plan::SetFilter { .. } => true,
            Plan::SetRelay { .. } => true,
            Plan::SetPlane { .. } => true,
            Plan::ResetPlane => true,
            Plan::DebugReport => true,
            Plan::SetHop { .. } => true,
            _ => false,
        }
    }

    /// Whether the information event ends the answer, once the radio has done its part.
    pub fn wants_info(&self) -> (b: bool)
        ensures
            b == self.ends_in_info(),
    {
        match self {
            Plan::Info => true,
            Plan::BuildInfo => true,
            Plan::Build { .. } => true,
            Plan::WriteSync { .. } => true,
            Plan::SetDetector { .. } => true,
            Plan::WriteGain { .. } => true,
            Plan::SetFilter { .. } => true,
            Plan::SetRelay { .. } => true,
            Plan::SetPlane { .. } => true,
            Plan::ResetPlane => true,
            Plan::DebugReport => true,
            Plan::SetHop { .. } => true,
            _ => false,
        }
    }

    /// Whether the answer ends in an event of this type: the one that the plan holds, the
    /// information or the statistics, or the one with which the outcome of the radio's part is
    /// reported. A scheduled transmission is answered when its slot falls free.
    pub open spec fn answered_by(self, typ: u8) -> bool {
        match self {
            Plan::Reply { event } => typ == event@.typ,
            Plan::Scheduled => typ == opcode::EVT_TXDONE,
            Plan::Transmit { .. } => typ == opcode::EVT_TXDONE,
            Plan::TransmitLbt { .. } => typ == opcode::EVT_TXDONE,
            Plan::Cad { .. } => typ == opcode::EVT_CAD,
            Plan::Rssi => typ == opcode::EVT_RSSI,
            Plan::ScanSf => typ == opcode::EVT_SF_DETECTED,
            Plan::Stats => typ == opcode::EVT_STATS,
            Plan::Sense { .. } => typ == opcode::EVT_SENSE,
            Plan::CheckPhy { .. } => typ == opcode::EVT_CAP || typ == opcode::EVT_PHY_ERR,
            _ => self.ends_in_info() && typ == opcode::EVT_INFO,
        }
    }
}

/// A number pulled into a range.
pub open spec fn clamp8(v: i8, lo: i8, hi: i8) -> i8 {
    if v < lo {
        lo
    } else if v > hi {
        hi
    } else {
        v
    }
}

/// The first 24 whole 64-bit numbers of a payload.
pub open spec fn hashes_of(buf: Seq<u8>) -> Seq<u64> {
    let count: nat = if buf.len() / 8 <= 24 {
        buf.len() / 8
    } else {
        24
    };
    Seq::new(count, |i: int| crate::bytes::u64_at(buf, 8 * i))
}

/// The clock, as an event.
pub open spec fn clock_view(now: u64) -> crate::serial::FrameView {
    crate::serial::FrameView { typ: 0x8A, payload: crate::bytes::be64(now) }
}

/// The carriers of a hop command.
pub open spec fn hop_list(buf: Seq<u8>) -> Seq<u32> {
    Seq::new(buf[3] as nat, |i: int| crate::bytes::u32_at(buf, 4 + 4 * i))
}

/// Every carrier lies in the band.
pub open spec fn in_band(list: Seq<u32>) -> bool {
    forall|i: int| 0 <= i < list.len() ==> 902_000_000 <= #[trigger] list[i] <= 928_000_000
}

/// What a plan answers at once, where it answers without the radio.
pub open spec fn replies_with(plan: Plan, f: crate::serial::FrameView) -> bool {
    plan matches Plan::Reply { event } && event@ == f
}

/// A refusal that leaves the node as it was.
pub open spec fn refused(n: Node, after: Node, plan: Plan, op: u8, reason: u8) -> bool {
    after == n && replies_with(plan, crate::lora_node::report::unsupported_view(op, reason))
}

/// The log line of a detector setting that was not taken as sent.
pub open spec fn detector_log(sym: u8, opt: u8, thresh: u8) -> Seq<u8> {
    let a = crate::text::cut(Seq::<u8>::empty() + crate::text::text("cad_cfg sym="), 96);
    let b = crate::text::cut(a + crate::text::decimal(sym as nat), 96);
    let c = crate::text::cut(b + crate::text::text(" ignored, opt=0x"), 96);
    let d = crate::text::cut(c + crate::text::hex(opt as nat, 2), 96);
    let e = crate::text::cut(d + crate::text::text(" thr=0x"), 96);
    crate::text::cut(e + crate::text::hex(thresh as nat, 2), 96)
}

/// The threshold a detector setting ends at.
pub open spec fn detector_thresh(v: u8) -> u8 {
    if v < 0x0A {
        0x0A
    } else if v > 0x0C {
        0x0C
    } else {
        v
    }
}

/// The code a detector setting ends at.
pub open spec fn detector_opt(v: u8) -> u8 {
    if v == 0x05 {
        0x05
    } else {
        0x03
    }
}

/// What a command does to the node, and what it needs next.
pub open spec fn decided(
    n: Node,
    op: u8,
    buf: Seq<u8>,
    now: u64,
    after: Node,
    plan: Plan,
) -> bool {
    if op == 0x16 {
        refused(n, after, plan, op, 0x02)
    } else if !opcode::implemented(op) {
        refused(n, after, plan, op, 0x01)
    } else if buf.len() < opcode::min_len(op) {
        refused(n, after, plan, op, 0x03)
    } else if op == 0x01 {
        after == n && plan == (Plan::Transmit {
            air_ms: crate::lora_node::params::frame_ms(
                n.p,
                buf.len() as int,
                n.csma.preamble,
            ) as u32,
        })
    } else if op == 0x0E {
        after == n && (plan matches Plan::TransmitLbt { started } && started@ == started_view(
            n,
            buf.len() as int,
        ))
    } else if op == 0x02 {
        after == n && plan == (Plan::Build {
            trial: Params { freq_hz: crate::bytes::u32_at(buf, 0), ..n.p },
            preamble: n.csma.preamble,
        })
    } else if op == 0x03 {
        after == n && plan == (Plan::Build {
            trial: Params {
                sf: crate::lora_node::params::spreading(buf[0]),
                bw_hz: crate::lora_node::params::bandwidth(buf[1]),
                cr: crate::lora_node::params::coding(buf[2]),
                ..n.p
            },
            preamble: n.csma.preamble,
        })
    } else if op == 0x0C {
        let v = crate::bytes::u16_at(buf, 0);
        after == n && plan == (Plan::Build {
            trial: n.p,
            preamble: if v == 0 {
                1
            } else {
                v
            },
        })
    } else if op == 0x04 {
        plan == Plan::Info && after == (Node {
            p: Params { pwr: clamp8(crate::bytes::from_twos8(buf[0]), 2, 20), ..n.p },
            ..n
        })
    } else if op == 0x05 {
        after == n && plan == (Plan::WriteSync { word: buf[0] })
    } else if op == 0x07 {
        plan == Plan::Info && after == (Node {
            beacon_on: buf[0] != 0,
            beacon_period: if buf.len() >= 2 {
                beacon_ticks(buf[1])
            } else {
                n.beacon_period
            },
            ..n
        })
    } else if op == 0x08 {
        after == n && plan == (Plan::Cad { tsym_us: symbol_us(n) })
    } else if op == 0x09 {
        after == n && plan == Plan::Rssi
    } else if op == 0x0D {
        after == n && plan == Plan::ScanSf
    } else if op == 0x0A {
        let opt = detector_opt(buf[2]);
        let thresh = detector_thresh(buf[1]);
        &&& after == n
        &&& plan matches Plan::SetDetector { opt: o, thresh: t, log }
        &&& o == opt
        &&& t == thresh
        &&& log is Some <==> (buf[0] != 0 || buf[1] != thresh || buf[2] != opt)
        &&& log matches Some(f) ==> f@ == (crate::serial::FrameView {
            typ: 0x84,
            payload: detector_log(buf[0], opt, thresh),
        })
    } else if op == 0x0B {
        plan == Plan::Info && after == (Node {
            csma: crate::lora_node::csma::Csma {
                lbt_cw: crate::bytes::u16_at(buf, 0) as u32,
                lbt_max_backoff: buf[2],
                lbt_max_attempts: buf[3],
                ..n.csma
            },
            ..n
        })
    } else if op == 0x1C {
        if buf[0] > 1 {
            refused(n, after, plan, op, 0x04)
        } else {
            let reg: u8 = if buf[0] == 1 {
                0x23
            } else {
                0x20
            };
            after == (Node { lna: Some(reg), ..n }) && plan == (Plan::WriteGain { reg })
        }
    } else if op == 0x12 {
        plan == Plan::Info && after == (Node {
            csma: crate::lora_node::csma::Csma {
                rssi_thresh: crate::bytes::from_twos16(crate::bytes::u16_at(buf, 0)),
                cad_repeat: if buf[2] == 0 {
                    1
                } else {
                    buf[2]
                },
                ..n.csma
            },
            ..n
        })
    } else if op == 0x0F {
        after == n && (plan matches Plan::SetFilter { hashes } && hashes@ == hashes_of(buf))
    } else if op == 0x10 {
        after == n && (plan matches Plan::SetRelay { hashes } && hashes@ == hashes_of(buf))
    } else if op == 0x11 {
        after == n && plan == (Plan::SetPlane {
            serve: buf[0] != 0,
            dedup: buf[1] != 0,
            hop: buf[2] != 0,
            base: buf[3],
            span: buf[4],
        })
    } else if op == 0x13 {
        after == n && plan == Plan::Stats
    } else if op == 0x14 {
        plan == Plan::ResetPlane && after == (Node {
            csma: crate::lora_node::csma::Csma {
                cad_busy_base: n.csma.cad_busy,
                defer: 0,
                ..n.csma
            },
            rx_trunc: 0,
            radio_errors: 0,
            ..n
        })
    } else if op == 0x15 {
        after == (Node { debug: buf[0] != 0, ..n }) && plan == (if buf[0] != 0 {
            Plan::DebugReport
        } else {
            Plan::Info
        })
    } else if op == 0x06 {
        after == n && plan == Plan::BuildInfo
    } else if op == 0x17 {
        after == n && replies_with(plan, clock_view(now))
    } else if op == 0x18 {
        let delay = crate::bytes::u32_at(buf, 0);
        if delay > 60_000_000 {
            refused(n, after, plan, op, 0x04)
        } else {
            scheduled(n, after, plan, (now + delay) as u64, buf.skip(4))
        }
    } else if op == 0x1F {
        let target = crate::bytes::u64_at(buf, 0);
        if target > now + 60_000_000 {
            refused(n, after, plan, op, 0x04)
        } else {
            scheduled(n, after, plan, target, buf.skip(8))
        }
    } else if op == 0x1D {
        if buf[0] != 0 {
            refused(n, after, plan, op, 0x04)
        } else {
            after == n && plan == (Plan::CheckPhy { want: 0 })
        }
    } else if op == 0x1E {
        let on = buf[0] == 1;
        let period = crate::bytes::u16_at(buf, 1);
        if buf[0] > 1 || buf[3] > 40 || (on && (buf[3] == 0 || period == 0 || period > 255)) {
            refused(n, after, plan, op, 0x04)
        } else if buf.len() < 4 + 4 * buf[3] {
            refused(n, after, plan, op, 0x03)
        } else if !in_band(hop_list(buf)) {
            refused(n, after, plan, op, 0x04)
        } else {
            &&& after == n
            &&& plan matches Plan::SetHop { on: o, period: q, list }
            &&& o == on
            &&& q == (if on {
                period as u8
            } else {
                0
            })
            &&& list@ == hop_list(buf)
        }
    } else if op == 0x1A {
        after == n && replies_with(
            plan,
            crate::serial::FrameView { typ: 0x8B, payload: crate::lora_node::report::cap_body() },
        )
    } else if op == 0x20 {
        after == n && replies_with(
            plan,
            crate::serial::FrameView {
                typ: 0x8E,
                payload: crate::lora_node::hop::trace_body(1_000_000, n.hop.trace@),
            },
        )
    } else {
        after == n && plan == (Plan::Sense { tsym_us: symbol_us(n), count: n.csma.cad_repeat })
    }
}

/// A scheduled transmission taken on, or refused because there is one already: the slot is one
/// deep, and the first one keeps it.
pub open spec fn scheduled(
    n: Node,
    after: Node,
    plan: Plan,
    fire_at: u64,
    frame: Seq<u8>,
) -> bool {
    if n.sched !is Idle {
        after == n && replies_with(plan, crate::lora_node::node::txdone_view(false, 0))
    } else {
        &&& plan == Plan::Scheduled
        &&& after.sched_buf@ == frame
        &&& after == (Node {
            sched: SchedTx::waiting(
                fire_at,
                frame.len() as usize,
                crate::lora_node::params::frame_ms(
                    n.p,
                    frame.len() as int,
                    n.csma.preamble,
                ) as u32,
            ),
            sched_buf: after.sched_buf,
            ..n
        })
    }
}

/// The symbol time in use.
pub open spec fn symbol_us(n: Node) -> u64 {
    crate::airtime::lora_symbol_us(n.p.sf, n.p.bw_hz) as u64
}

/// The event that a transmission of `len` bytes starts.
pub open spec fn started_view(n: Node, len: int) -> crate::serial::FrameView {
    crate::serial::FrameView {
        typ: 0x88,
        payload: crate::bytes::be16(
            crate::lora_node::params::started_ms(
                crate::lora_node::params::frame_ms(n.p, len, n.csma.preamble) as u32,
            ),
        ),
    }
}

/// The beacon period of its wire value: ten seconds each, at least one.
pub open spec fn beacon_ticks(mult: u8) -> u64 {
    if mult == 0 {
        10_000_000
    } else {
        (mult * 10_000_000) as u64
    }
}

fn parse_hashes(buf: &[u8]) -> (hashes: Vec<u64>)
    ensures
        hashes@ == hashes_of(buf@),
{
    let count: usize = if buf.len() / 8 <= 24 {
        buf.len() / 8
    } else {
        24
    };
    let mut hashes: Vec<u64> = Vec::new();
    let mut i: usize = 0;
    while i < count
        invariant
            i <= count <= buf.len() / 8,
            count <= 24,
            hashes@ == hashes_of(buf@).take(i as int),
            hashes_of(buf@).len() == count,
        decreases count - i,
    {
        hashes.push(get_be64(buf, 8 * i));
        i += 1;
        assert(hashes@ =~= hashes_of(buf@).take(i as int));
    }
    assert(hashes@ =~= hashes_of(buf@));
    hashes
}

fn parse_hop_list(buf: &[u8], n: usize) -> (list: Vec<u32>)
    requires
        4 <= buf.len(),
        n == buf[3],
        4 + 4 * n <= buf.len(),
    ensures
        list@ == hop_list(buf@),
{
    let mut list: Vec<u32> = Vec::new();
    let mut i: usize = 0;
    while i < n
        invariant
            i <= n,
            4 <= buf.len(),
            n == buf[3],
            4 + 4 * n <= buf.len(),
            list@ == hop_list(buf@).take(i as int),
        decreases n - i,
    {
        list.push(get_be32(buf, 4 + 4 * i));
        i += 1;
        assert(list@ =~= hop_list(buf@).take(i as int));
    }
    assert(list@ =~= hop_list(buf@));
    list
}

fn all_in_band(list: &Vec<u32>) -> (ok: bool)
    ensures
        ok == in_band(list@),
{
    let mut i: usize = 0;
    while i < list.len()
        invariant
            i <= list.len(),
            forall|k: int|
                0 <= k < i ==> 902_000_000 <= #[trigger] list@[k] <= 928_000_000,
        decreases list.len() - i,
    {
        if list[i] < crate::lora_node::params::FREQ_MIN_HZ || list[i]
            > crate::lora_node::params::FREQ_MAX_HZ {
            return false;
        }
        i += 1;
    }
    true
}

impl Node {
    fn refuse(&self, op: u8, reason: u8) -> (plan: Plan)
        ensures
            refused(*self, *self, plan, op, reason),
    {
        Plan::Reply { event: unsupported(op, reason) }
    }

    fn schedule(&mut self, fire_at: u64, frame: Vec<u8>) -> (plan: Plan)
        requires
            old(self).wf(),
            frame.len() <= 255,
        ensures
            final(self).wf(),
            scheduled(*old(self), *final(self), plan, fire_at, frame@),
    {
        if self.sched.is_armed() {
            return Plan::Reply { event: txdone(false, 0) };
        }
        let air: u32 = airtime_ms(&self.p, frame.len(), self.csma.preamble);
        self.sched = SchedTx::pending(fire_at, frame.len(), air);
        self.sched_buf = frame;
        Plan::Scheduled
    }

    fn set_cad_cfg(&self, buf: &[u8]) -> (plan: Plan)
        requires
            buf.len() >= 3,
        ensures
            decided(*self, 0x0A, buf@, 0, *self, plan),
    {
        let thresh: u8 = clamp_det_thresh(buf[1]);
        let opt: u8 = clamp_det_opt(buf[2]);
        let log: Option<Frame> = if buf[0] != 0 || buf[1] != thresh || buf[2] != opt {
            let mut w = BufWriter::new();
            w.write_str("cad_cfg sym=");
            w.write_dec(buf[0] as u64);
            w.write_str(" ignored, opt=0x");
            w.write_hex(opt as u32, 2);
            w.write_str(" thr=0x");
            w.write_hex(thresh as u32, 2);
            Some(event(opcode::EVT_LOG, w.into_vec()))
        } else {
            None
        };
        Plan::SetDetector { opt, thresh, log }
    }

    fn set_hop(&self, buf: &[u8]) -> (plan: Plan)
        requires
            buf.len() >= 4,
        ensures
            decided(*self, 0x1E, buf@, 0, *self, plan),
    {
        let ctrl: u8 = buf[0];
        let period: u16 = get_be16(buf, 1);
        let n: usize = buf[3] as usize;
        let on: bool = ctrl == HOP_ON;
        if ctrl > HOP_ON || n > HOP_MAX || (on && (n == 0 || period == 0 || period
            > HOP_PERIOD_MAX)) {
            return self.refuse(0x1E, opcode::UNSUP_OUT_OF_RANGE);
        }
        if buf.len() < 4 + 4 * n {
            return self.refuse(0x1E, opcode::UNSUP_BAD_LENGTH);
        }
        let list: Vec<u32> = parse_hop_list(buf, n);
        if !all_in_band(&list) {
            return self.refuse(0x1E, opcode::UNSUP_OUT_OF_RANGE);
        }
        Plan::SetHop {
            on,
            period: if on {
                period as u8
            } else {
                0
            },
            list,
        }
    }

    fn transmit(&self, op: u8, len: usize) -> (plan: Plan)
        requires
            self.wf(),
            len <= 255,
            op == 0x01 || op == 0x0E,
        ensures
            forall|buf: Seq<u8>| buf.len() == len ==> decided(*self, op, buf, 0, *self, plan),
    {
        let air: u32 = airtime_ms(&self.p, len, self.csma.preamble);
        if op == opcode::CMD_TX {
            Plan::Transmit { air_ms: air }
        } else {
            Plan::TransmitLbt { started: tx_started(air) }
        }
    }

    fn build(&self, op: u8, buf: &[u8]) -> (plan: Plan)
        requires
            op == 0x02 || op == 0x03 || op == 0x0C,
            buf.len() >= opcode::min_len(op),
        ensures
            decided(*self, op, buf@, 0, *self, plan),
    {
        let mut trial: Params = self.p;
        let mut preamble: u16 = self.csma.preamble;
        if op == opcode::CMD_SET_FREQ {
            trial.freq_hz = get_be32(buf, 0);
        } else if op == opcode::CMD_SET_MOD {
            trial.sf = sf_from(buf[0]);
            trial.bw_hz = bw_hz_of_code(buf[1]);
            trial.cr = cr_from(buf[2]);
        } else {
            let v: u16 = get_be16(buf, 0);
            preamble = if v == 0 {
                1
            } else {
                v
            };
        }
        Plan::Build { trial, preamble }
    }

    fn configure(&mut self, op: u8, buf: &[u8]) -> (plan: Plan)
        requires
            old(self).wf(),
            op == 0x04 || op == 0x07 || op == 0x0B || op == 0x12 || op == 0x14 || op == 0x15 || op
                == 0x1C,
            buf.len() >= opcode::min_len(op),
        ensures
            final(self).wf(),
            decided(*old(self), op, buf@, 0, *final(self), plan),
    {
        if op == opcode::CMD_SET_PWR {
            let v: i8 = as_signed(buf[0]);
            self.p.pwr = if v < crate::lora_node::params::PWR_MIN_DBM {
                crate::lora_node::params::PWR_MIN_DBM
            } else if v > crate::lora_node::params::PWR_MAX_DBM {
                crate::lora_node::params::PWR_MAX_DBM
            } else {
                v
            };
            Plan::Info
        } else if op == opcode::CMD_SET_BEACON {
            self.beacon_on = buf[0] != 0;
            if buf.len() >= 2 {
                let mult: u64 = if buf[1] == 0 {
                    1
                } else {
                    buf[1] as u64
                };
                self.beacon_period = mult * 10_000_000;
            }
            Plan::Info
        } else if op == opcode::CMD_SET_LBT_CFG {
            self.csma.lbt_cw = get_be16(buf, 0) as u32;
            self.csma.lbt_max_backoff = buf[2];
            self.csma.lbt_max_attempts = buf[3];
            Plan::Info
        } else if op == opcode::CMD_SET_SENSE_CFG {
            self.csma.rssi_thresh = get_be16_signed(buf, 0);
            self.csma.cad_repeat = if buf[2] == 0 {
                1
            } else {
                buf[2]
            };
            Plan::Info
        } else if op == opcode::CMD_RESET_STATS {
            self.csma.cad_busy_base = self.csma.cad_busy;
            self.csma.defer = 0;
            self.rx_trunc = 0;
            self.radio_errors = 0;
            Plan::ResetPlane
        } else if op == opcode::CMD_SET_DEBUG {
            self.debug = buf[0] != 0;
            if self.debug {
                Plan::DebugReport
            } else {
                Plan::Info
            }
        } else {
            if buf[0] > 1 {
                return self.refuse(0x1C, opcode::UNSUP_OUT_OF_RANGE);
            }
            let reg: u8 = lna_reg(buf[0] != 0);
            self.lna = Some(reg);
            Plan::WriteGain { reg }
        }
    }

    /// Takes a host command. Every opcode and every length has a plan: what the node does not have,
    /// cannot do or does not understand is refused by name, and a refusal changes nothing.
    pub fn handle_cmd(&mut self, op: u8, buf: &[u8], now: u64) -> (plan: Plan)
        requires
            old(self).wf(),
            buf.len() <= 255,
            op == opcode::CMD_TX_AT ==> now <= u64::MAX - 60_000_000,
        ensures
            final(self).wf(),
            decided(*old(self), op, buf@, now, *final(self), plan),
    {
        if op == opcode::CMD_ENTER_BOOTLOADER {
            return self.refuse(op, opcode::UNSUP_NO_HARDWARE);
        }
        if !opcode::is_implemented(op) || buf.len() < shortest(op) {
            let reason: u8 = opcode::refusal_reason(op);
            return self.refuse(op, reason);
        }
        if op == opcode::CMD_TX || op == opcode::CMD_TX_LBT {
            self.transmit(op, buf.len())
        } else if op == opcode::CMD_SET_FREQ || op == opcode::CMD_SET_MOD || op
            == opcode::CMD_SET_PREAMBLE {
            self.build(op, buf)
        } else if op == opcode::CMD_SET_PWR || op == opcode::CMD_SET_BEACON || op
            == opcode::CMD_SET_LBT_CFG || op == opcode::CMD_SET_SENSE_CFG || op
            == opcode::CMD_RESET_STATS || op == opcode::CMD_SET_DEBUG || op
            == opcode::CMD_SET_RX_GAIN {
            self.configure(op, buf)
        } else if op == opcode::CMD_SET_SYNC {
            Plan::WriteSync { word: buf[0] }
        } else if op == opcode::CMD_CAD {
            Plan::Cad { tsym_us: tsym_us(self.p.sf, self.p.bw_hz) }
        } else if op == opcode::CMD_GET_RSSI {
            Plan::Rssi
        } else if op == opcode::CMD_SF_SCAN {
            Plan::ScanSf
        } else if op == opcode::CMD_SET_CAD_CFG {
            self.set_cad_cfg(buf)
        } else if op == opcode::CMD_SET_NAME_FILTER {
            Plan::SetFilter { hashes: parse_hashes(buf) }
        } else if op == opcode::CMD_SET_RELAY {
            Plan::SetRelay { hashes: parse_hashes(buf) }
        } else if op == opcode::CMD_DATAPLANE {
            Plan::SetPlane {
                serve: buf[0] != 0,
                dedup: buf[1] != 0,
                hop: buf[2] != 0,
                base: buf[3],
                span: buf[4],
            }
        } else if op == opcode::CMD_GET_STATS {
            Plan::Stats
        } else if op == opcode::CMD_GET_INFO {
            Plan::BuildInfo
        } else if op == opcode::CMD_READ_CLOCK {
            Plan::Reply { event: clock_event(now) }
        } else if op == opcode::CMD_TX_AT {
            let delay: u32 = get_be32(buf, 0);
            if delay > crate::lora_node::params::SCHED_MAX_DELAY_US {
                return self.refuse(op, opcode::UNSUP_OUT_OF_RANGE);
            }
            let frame: Vec<u8> = copy_range(buf, 4, buf.len());
            assert(frame@ =~= buf@.skip(4));
            self.schedule(now + delay as u64, frame)
        } else if op == opcode::CMD_TX_AT_ABS {
            let target: u64 = get_be64(buf, 0);
            if target.saturating_sub(now) > crate::lora_node::params::SCHED_MAX_DELAY_US as u64 {
                return self.refuse(op, opcode::UNSUP_OUT_OF_RANGE);
            }
            let frame: Vec<u8> = copy_range(buf, 8, buf.len());
            assert(frame@ =~= buf@.skip(8));
            self.schedule(target, frame)
        } else if op == opcode::CMD_SET_PHY {
            if buf[0] != crate::lora_node::params::PHY_LORA {
                return self.refuse(op, opcode::UNSUP_OUT_OF_RANGE);
            }
            Plan::CheckPhy { want: 0 }
        } else if op == opcode::CMD_SET_HOP {
            self.set_hop(buf)
        } else if op == opcode::CMD_GET_CAP {
            Plan::Reply { event: cap() }
        } else if op == opcode::CMD_GET_HOPTRACE {
            Plan::Reply { event: self.send_hoptrace() }
        } else {
            Plan::Sense { tsym_us: tsym_us(self.p.sf, self.p.bw_hz), count: self.csma.cad_repeat }
        }
    }
}

fn shortest(op: u8) -> (n: usize)
    ensures
        n == opcode::min_len(op),
{
    if op == opcode::CMD_SET_FREQ || op == opcode::CMD_SET_LBT_CFG || op == opcode::CMD_SET_HOP {
        4
    } else if op == opcode::CMD_SET_MOD || op == opcode::CMD_SET_CAD_CFG || op
        == opcode::CMD_SET_SENSE_CFG {
        3
    } else if op == opcode::CMD_SET_PWR || op == opcode::CMD_SET_SYNC || op
        == opcode::CMD_SET_BEACON || op == opcode::CMD_SET_RX_GAIN || op == opcode::CMD_SET_DEBUG
        || op == opcode::CMD_SET_PHY {
        1
    } else if op == opcode::CMD_SET_PREAMBLE {
        2
    } else if op == opcode::CMD_DATAPLANE || op == opcode::CMD_TX_AT {
        5
    } else if op == opcode::CMD_TX_AT_ABS {
        9
    } else {
        0
    }
}

fn clock_event(now: u64) -> (f: Frame)
    ensures
        f@ == clock_view(now),
{
    let mut b: Vec<u8> = Vec::new();
    push_be64(&mut b, now);
    assert(b@ =~= crate::bytes::be64(now));
    event(opcode::EVT_CLOCK, b)
}

} // verus!
