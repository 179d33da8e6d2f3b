//! The host commands of the node.
//!
//! A command changes the node and says what to do next; what the radio then answers comes back
//! through the functions of [`crate::lr_node::flow`].

use vstd::prelude::*;

use crate::bytes::{as_signed, copy_range, get_be16, get_be16_signed, get_be32, get_be64, push_be64};
use crate::flrc_link::{preamble_from_bits, FlrcParams};
use crate::lora_node::node::event;
use crate::lora_node::opcode::{
    CMD_CAD, CMD_DATAPLANE, CMD_ENTER_BOOTLOADER, CMD_GET_CAP, CMD_GET_HOPTRACE, CMD_GET_INFO,
    CMD_GET_RSSI, CMD_GET_STATS, CMD_READ_CLOCK, CMD_RESET_STATS, CMD_SENSE, CMD_SET_BEACON,
    CMD_SET_CAD_CFG, CMD_SET_DEBUG, CMD_SET_FREQ, CMD_SET_HOP, CMD_SET_LBT_CFG, CMD_SET_MOD,
    CMD_SET_NAME_FILTER, CMD_SET_PHY, CMD_SET_PREAMBLE, CMD_SET_PWR, CMD_SET_RELAY, CMD_SET_RX_GAIN,
    CMD_SET_SENSE_CFG, CMD_SET_SYNC, CMD_SF_SCAN, CMD_TX, CMD_TX_AT, CMD_TX_AT_ABS, CMD_TX_LBT,
    EVT_CAP, EVT_CLOCK, EVT_HOPTRACE, EVT_LOG, UNSUP_BAD_LENGTH, UNSUP_NO_HARDWARE,
    UNSUP_OUT_OF_RANGE, UNSUP_UNKNOWN_OPCODE,
};
use crate::lora_node::report::unsupported;
use crate::lr_node::clock::{MacClock, MAX_SCHED_DELAY_TICKS, MAX_SCHED_DELAY_US, TICKS_PER_US};
use crate::lr_node::info::caps_for;
use crate::lr_node::irq::{dio_irq_mask, Timeline};
use crate::lr_node::phy::{check_hop, HopPlan, LoraParams, Phy, PhyMode, PhyState, Profile, MAX_HOPS};
use crate::lr_node::sense::{Sense, CAD_SYM_MAX, CCA_STEPS};
use crate::serial::Frame;
use crate::text::{append_cut, decimal_digits};

verus! {

/// Base period of the beacon, in milliseconds.
pub const BEACON_BASE_PERIOD_MS: u64 = 1_000;
/// Gain that hands the front end to the automatic control.
pub const RX_GAIN_AUTO: u8 = 0;
/// Greatest manual gain.
pub const RX_GAIN_MAX: u8 = 13;

/// The state of the node.
pub struct Bridge {
    pub pr: Profile,
    pub st: PhyState,
    pub sense: Sense,
    pub clock: MacClock,
    pub tl: Timeline,
    /// Diagnostics go to the host.
    pub debug: bool,
    pub beacon_on: bool,
    pub beacon_period_ms: u64,
    pub beacon_seq: u32,
    /// When the next beacon is due, in microseconds.
    pub next_beacon: u64,
    /// When the next background sample is due, in microseconds.
    pub next_sense: u64,
    pub n_rx: u32,
    pub n_tx: u32,
}

/// What the node holds.
#[verifier::ext_equal]
pub struct BridgeView {
    pub pr: Profile,
    pub st: crate::lr_node::phy::PhyView,
    pub sense: Sense,
    pub clock: MacClock,
    pub tl: crate::lr_node::irq::TimelineView,
    pub debug: bool,
    pub beacon_on: bool,
    pub beacon_period_ms: u64,
    pub beacon_seq: u32,
    pub next_beacon: u64,
    pub next_sense: u64,
    pub n_rx: u32,
    pub n_tx: u32,
}

impl View for Bridge {
    type V = BridgeView;

    open spec fn view(&self) -> BridgeView {
        BridgeView {
            pr: self.pr,
            st: self.st@,
            sense: self.sense,
            clock: self.clock,
            tl: self.tl@,
            debug: self.debug,
            beacon_on: self.beacon_on,
            beacon_period_ms: self.beacon_period_ms,
            beacon_seq: self.beacon_seq,
            next_beacon: self.next_beacon,
            next_sense: self.next_sense,
            n_rx: self.n_rx,
            n_tx: self.n_tx,
        }
    }
}

/// How a transmission was asked for.
#[derive(Clone, Copy, PartialEq, Eq, Structural)]
pub enum TxKind {
    /// Now.
    Plain,
    /// After a delay that ends at this reading of the counter.
    At { target: u32 },
    /// At an instant whose low half is this reading of the counter.
    Abs { target: u32 },
}

/// What to do next.
pub enum LrPlan {
    /// Send these events.
    Reply { frames: Vec<Frame> },
    /// Read status and errors, and send the information event.
    Info,
    /// Program the whole link, listen, then as for `Info`.
    Retune,
    /// From the synthesizer, set the detector; listen, then as for `Info`.
    CadParams { steps: u32, thresh: u8 },
    /// From the synthesizer, set the gain; listen, then as for `Info`.
    RxGain { gain: u8 },
    /// Read the channel energy and report it.
    Rssi,
    /// Sense, listen, report the verdict.
    Cad { steps: u32 },
    /// Sense, listen, read the channel energy, report both.
    Sense { steps: u32 },
    /// Load, announce, wait for the instant if there is one, key up, report.
    Transmit { payload: Vec<u8>, kind: TxKind, wait: bool },
    /// Listen before talking.
    Listen { payload: Vec<u8> },
    /// Hand these hashes to the name plane as its filter, then as for `Info`.
    SetFilter { hashes: Vec<u64> },
    /// Hand these hashes to the name plane as its relay list, then as for `Info`.
    SetRelay { hashes: Vec<u64> },
    /// Switch serving and deduplication of the name plane, then as for `Info`.
    Plane { serve: bool, dedup: bool },
    /// Report the counters.
    Stats,
    /// Clear the name plane's counters, then as for `Info`.
    ResetPlane,
    /// Program the new modem; `prev` is what to go back to.
    SwitchPhy { to: Phy, prev: PhyState },
    /// Program the link, route the interrupts of `mask`, clear them, probe where `probe` says so,
    /// then as for `Info`.
    HopSet { mask: u32, probe: bool },
}

/// A plan, by its contents.
#[verifier::ext_equal]
pub enum LrPlanView {
    Reply { frames: Seq<crate::serial::FrameView> },
    Info,
    Retune,
    CadParams { steps: u32, thresh: u8 },
    RxGain { gain: u8 },
    Rssi,
    Cad { steps: u32 },
    Sense { steps: u32 },
    Transmit { payload: Seq<u8>, kind: TxKind, wait: bool },
    Listen { payload: Seq<u8> },
    SetFilter { hashes: Seq<u64> },
    SetRelay { hashes: Seq<u64> },
    Plane { serve: bool, dedup: bool },
    Stats,
    ResetPlane,
    SwitchPhy { to: Phy, prev: crate::lr_node::phy::PhyView },
    HopSet { mask: u32, probe: bool },
}

impl View for LrPlan {
    type V = LrPlanView;

    open spec fn view(&self) -> LrPlanView {
        match *self {
            LrPlan::Reply { frames } => LrPlanView::Reply {
                frames: frames@.map_values(|f: Frame| f@),
            },
            LrPlan::Info => LrPlanView::Info,
            LrPlan::Retune => LrPlanView::Retune,
            LrPlan::CadParams { steps, thresh } => LrPlanView::CadParams { steps, thresh },
            LrPlan::RxGain { gain } => LrPlanView::RxGain { gain },
            LrPlan::Rssi => LrPlanView::Rssi,
            LrPlan::Cad { steps } => LrPlanView::Cad { steps },
            LrPlan::Sense { steps } => LrPlanView::Sense { steps },
            LrPlan::Transmit { payload, kind, wait } => LrPlanView::Transmit {
                payload: payload@,
                kind,
                wait,
            },
            LrPlan::Listen { payload } => LrPlanView::Listen { payload: payload@ },
            LrPlan::SetFilter { hashes } => LrPlanView::SetFilter { hashes: hashes@ },
            LrPlan::SetRelay { hashes } => LrPlanView::SetRelay { hashes: hashes@ },
            LrPlan::Plane { serve, dedup } => LrPlanView::Plane { serve, dedup },
            LrPlan::Stats => LrPlanView::Stats,
            LrPlan::ResetPlane => LrPlanView::ResetPlane,
            LrPlan::SwitchPhy { to, prev } => LrPlanView::SwitchPhy { to, prev: prev@ },
            LrPlan::HopSet { mask, probe } => LrPlanView::HopSet { mask, probe },
        }
    }
}

impl LrPlanView {
    /// Whether the information event ends the answer, once the radio has done its part.
    pub open spec fn ends_in_info(self) -> bool {
        match self {
            LrPlanView::Info => true,
            LrPlanView::Retune => true,
            LrPlanView::CadParams { .. } => true,
            LrPlanView::RxGain { .. } => true,
            LrPlanView::SetFilter { .. } => true,
            LrPlanView::SetRelay { .. } => true,
            LrPlanView::Plane { .. } => true,
            LrPlanView::ResetPlane => true,
            LrPlanView::HopSet { .. } => true,
            _ => false,
        }
    }

    /// Whether an event of this type answers: the first that the plan holds, the information or
    /// the statistics, or the one with which the outcome of the radio's part is reported.
    pub open spec fn answered_by(self, typ: u8) -> bool {
        match self {
            LrPlanView::Reply { frames } => frames.len() > 0 && frames[0].typ == typ,
            LrPlanView::Rssi => typ == 0x86,
            LrPlanView::Cad { .. } => typ == 0x85,
            LrPlanView::Sense { .. } => typ == 0x8C,
            LrPlanView::Transmit { .. } => typ == 0x82,
            LrPlanView::Listen { .. } => typ == 0x82,
            LrPlanView::Stats => typ == 0x89,
            LrPlanView::SwitchPhy { .. } => typ == 0x8B || typ == 0x8D,
            _ => self.ends_in_info() && typ == 0x83,
        }
    }
}

impl LrPlan {
    /// Whether the information event ends the answer, once the radio has done its part.
    pub fn wants_info(&self) -> (b: bool)
        ensures
            b == self@.ends_in_info(),
    {
        match self {
            LrPlan::Info => true,
            LrPlan::Retune => true,
            LrPlan::CadParams { .. } => true,
            LrPlan::RxGain { .. } => true,
            LrPlan::SetFilter { .. } => true,
            LrPlan::SetRelay { .. } => true,
            LrPlan::Plane { .. } => true,
            LrPlan::ResetPlane => true,
            LrPlan::HopSet { .. } => true,
            _ => false,
        }
    }
}

/// A diagnostic line: text and a number, cut to the buffer.
pub open spec fn kv(prefix: &str, v: u32, cap: nat) -> Seq<u8> {
    crate::text::cut(crate::text::text(prefix) + crate::text::decimal(v as nat), cap)
}

/// A diagnostic line: text and a number, cut to `cap` bytes.
pub fn fmt_kv(prefix: &str, v: u32, cap: usize) -> (line: Vec<u8>)
    ensures
        line@ == kv(prefix, v, cap as nat),
{
    let mut line: Vec<u8> = Vec::new();
    append_cut(&mut line, prefix.as_bytes(), cap);
    let digits: Vec<u8> = decimal_digits(v as u64);
    append_cut(&mut line, digits.as_slice(), cap);
    proof {
        let t = crate::text::text(prefix);
        assert(Seq::<u8>::empty() + t =~= t);
        crate::text::lemma_cut_append(t, digits@, cap as nat);
    }
    line
}

/// The hashes of a payload: whole groups of eight bytes, at most eight of them.
pub open spec fn hashes_of(pl: Seq<u8>) -> Seq<u64> {
    let n: int = if pl.len() / 8 <= 8 {
        pl.len() as int / 8
    } else {
        8
    };
    Seq::new(n as nat, |i: int| crate::bytes::u64_at(pl, 8 * i))
}

/// Reads the hashes of a payload.
pub fn read_hashes(pl: &[u8]) -> (h: Vec<u64>)
    ensures
        h@ == hashes_of(pl@),
{
    let n: usize = if pl.len() / 8 <= 8 {
        pl.len() / 8
    } else {
        8
    };
    let mut h: Vec<u64> = Vec::new();
    let mut i: usize = 0;
    while i < n
        invariant
            i <= n <= 8,
            8 * n <= pl.len(),
            n == hashes_of(pl@).len(),
            h@ == hashes_of(pl@).take(i as int),
        decreases n - i,
    {
        h.push(get_be64(pl, 8 * i));
        i += 1;
        assert(h@ =~= hashes_of(pl@).take(i as int));
    }
    assert(h@ =~= hashes_of(pl@));
    h
}

/// The carriers of a hop command that are there.
pub open spec fn carriers_of(pl: Seq<u8>, n: int) -> Seq<u32> {
    Seq::new(n as nat, |i: int| crate::bytes::u32_at(pl, 4 + 4 * i))
}

fn read_carriers(pl: &[u8], n: usize) -> (f: Vec<u32>)
    requires
        n <= 40,
        4 + 4 * n <= pl.len(),
    ensures
        f@ == carriers_of(pl@, n as int),
{
    let mut f: Vec<u32> = Vec::new();
    let mut i: usize = 0;
    while i < n
        invariant
            i <= n <= 40,
            4 + 4 * n <= pl.len(),
            f@ == carriers_of(pl@, n as int).take(i as int),
        decreases n - i,
    {
        f.push(get_be32(pl, 4 + 4 * i));
        i += 1;
        assert(f@ =~= carriers_of(pl@, n as int).take(i as int));
    }
    assert(f@ =~= carriers_of(pl@, n as int));
    f
}

/// One event.
pub open spec fn one(typ: u8, payload: Seq<u8>) -> LrPlanView {
    LrPlanView::Reply { frames: seq![crate::serial::FrameView { typ, payload }] }
}

/// A refusal.
pub open spec fn refused(op: u8, reason: u8) -> LrPlanView {
    one(0x8F, seq![op, reason])
}

fn reply(frame: Frame) -> (p: LrPlan)
    ensures
        p@ == (LrPlanView::Reply { frames: seq![frame@] }),
{
    let mut frames: Vec<Frame> = Vec::new();
    frames.push(frame);
    let p = LrPlan::Reply { frames };
    assert(p@->frames =~= seq![frame@]);
    p
}

fn refuse(op: u8, reason: u8) -> (p: LrPlan)
    ensures
        p@ == refused(op, reason),
{
    reply(unsupported(op, reason))
}

/// The shortest payload of an opcode that acts.
pub open spec fn shortest(op: u8) -> int {
    if op == 0x02 || op == 0x0B || op == 0x18 || op == 0x1E {
        4
    } else if op == 0x03 || op == 0x0A || op == 0x12 {
        3
    } else if op == 0x0C || op == 0x11 {
        2
    } else if op == 0x04 || op == 0x07 || op == 0x15 || op == 0x1C || op == 0x1D {
        1
    } else if op == 0x1F {
        8
    } else {
        0
    }
}

/// The mode after a preamble command, where the modem has such a preamble: LoRa takes symbols,
/// FLRC bits in steps of four, LR-FHSS none.
pub open spec fn with_preamble(m: PhyMode, v: u16) -> Option<PhyMode> {
    match m {
        PhyMode::Lora(p) => if v > 0 {
            Some(PhyMode::Lora(LoraParams { preamble_syms: v, ..p }))
        } else {
            None
        },
        PhyMode::Flrc(p) => match crate::airtime::preamble_code(v as int) {
            Some(code) => Some(
                PhyMode::Flrc(FlrcParams { preamble: pbl(code), ..p }),
            ),
            None => None,
        },
        PhyMode::LrFhss(_) => None,
    }
}

/// The preamble register of a code.
pub open spec fn pbl(code: int) -> crate::flrc_link::AgcPblLen {
    if code == 0 {
        crate::flrc_link::AgcPblLen::Len4Bits
    } else if code == 1 {
        crate::flrc_link::AgcPblLen::Len8Bits
    } else if code == 2 {
        crate::flrc_link::AgcPblLen::Len12Bits
    } else if code == 3 {
        crate::flrc_link::AgcPblLen::Len16Bits
    } else if code == 4 {
        crate::flrc_link::AgcPblLen::Len20Bits
    } else if code == 5 {
        crate::flrc_link::AgcPblLen::Len24Bits
    } else if code == 6 {
        crate::flrc_link::AgcPblLen::Len28Bits
    } else {
        crate::flrc_link::AgcPblLen::Len32Bits
    }
}

/// The detector's threshold, which counts dB below zero.
pub open spec fn cad_thresh(dbm: i16) -> u8 {
    if dbm >= 0 {
        0
    } else if dbm < -255 {
        255
    } else {
        (-dbm) as u8
    }
}

/// The node after a command, and what to do next. `ticks` is the counter, `now` the time in
/// microseconds.
pub open spec fn decided(
    b: BridgeView,
    op: u8,
    pl: Seq<u8>,
    ticks: u32,
    now: u64,
) -> (BridgeView, LrPlanView) {
    let n: int = pl.len() as int;
    if op == 0x16 || op == 0x05 || op == 0x0D {
        (b, refused(op, 0x02))
    } else if op == 0 || op > 0x20 || op == 0x19 {
        (b, refused(op, 0x01))
    } else if n < shortest(op) {
        (b, refused(op, 0x03))
    } else if op == 0x01 {
        (b, LrPlanView::Transmit { payload: pl, kind: TxKind::Plain, wait: false })
    } else if op == 0x0E {
        (b, LrPlanView::Listen { payload: pl })
    } else if op == 0x02 {
        let f = crate::bytes::u32_at(pl, 0);
        if b.pr.covers(f) {
            (b.linked(crate::lr_node::phy::PhyView { freq_hz: f, ..b.st }), LrPlanView::Retune)
        } else {
            (b, refused(op, 0x04))
        }
    } else if op == 0x04 {
        let reg = b.pr.power_register(crate::bytes::from_twos8(pl[0])) as i8;
        (
            b.linked(crate::lr_node::phy::PhyView { tx_power_half_db: reg, ..b.st }),
            LrPlanView::Retune,
        )
    } else if op == 0x03 {
        match b.st.mode.with_triple(pl[0], pl[1], pl[2]) {
            Some(m) => (
                b.linked(crate::lr_node::phy::PhyView { mode: m, ..b.st }),
                LrPlanView::Retune,
            ),
            None => (b, refused(op, 0x04)),
        }
    } else if op == 0x06 {
        (b, LrPlanView::Info)
    } else if op == 0x09 {
        (b, LrPlanView::Rssi)
    } else if op == 0x08 {
        (b, LrPlanView::Cad { steps: b.sense.cca_steps })
    } else if op == 0x1B {
        (b, LrPlanView::Sense { steps: b.sense.cca_steps })
    } else if op == 0x0B {
        (
            b.sensing(
                Sense {
                    lbt_cw_ms: crate::bytes::u16_at(pl, 0),
                    lbt_max_backoff: pl[2],
                    lbt_max_attempts: pl[3],
                    ..b.sense
                },
            ),
            LrPlanView::Info,
        )
    } else if op == 0x12 {
        (
            b.sensing(
                Sense {
                    thresh_dbm: crate::bytes::from_twos16(crate::bytes::u16_at(pl, 0)),
                    repeat: pl[2],
                    ..b.sense
                },
            ),
            LrPlanView::Info,
        )
    } else if op == 0x0A {
        if pl[0] > 4 || pl[1] != 0 || pl[2] != 0 {
            (b, refused(op, 0x04))
        } else {
            let steps = cca_length(pl[0]);
            (
                b.sensing(Sense { cca_steps: steps, ..b.sense }),
                LrPlanView::CadParams { steps, thresh: cad_thresh(b.sense.thresh_dbm) },
            )
        }
    } else if op == 0x0C {
        match with_preamble(b.st.mode, crate::bytes::u16_at(pl, 0)) {
            Some(m) => (
                b.linked(crate::lr_node::phy::PhyView { mode: m, ..b.st }),
                LrPlanView::Retune,
            ),
            None => (b, refused(op, 0x04)),
        }
    } else if op == 0x07 {
        let period: int = if n >= 2 {
            1000 * (if pl[1] == 0 {
                1
            } else {
                pl[1] as int
            })
        } else {
            b.beacon_period_ms as int
        };
        (
            BridgeView {
                beacon_on: pl[0] != 0,
                beacon_period_ms: period as u64,
                next_beacon: (now + 1000 * period) as u64,
                ..b
            },
            LrPlanView::Info,
        )
    } else if op == 0x20 {
        let trace = crate::serial::FrameView {
            typ: 0x8E,
            payload: crate::lora_node::hop::trace_body(16_000_000, b.tl.trace),
        };
        let line = crate::serial::FrameView {
            typ: 0x84,
            payload: kv("HOPTRACE coalesced=", b.tl.coalesced, 40),
        };
        (
            b,
            LrPlanView::Reply {
                frames: if b.debug {
                    seq![trace, line]
                } else {
                    seq![trace]
                },
            },
        )
    } else if op == 0x15 {
        (BridgeView { debug: pl[0] != 0, ..b }, LrPlanView::Info)
    } else if op == 0x1C {
        if pl[0] == 0 {
            (b, LrPlanView::RxGain { gain: 0 })
        } else if pl[0] == 1 {
            (b, LrPlanView::RxGain { gain: 13 })
        } else {
            (b, refused(op, 0x04))
        }
    } else if op == 0x0F {
        (b, LrPlanView::SetFilter { hashes: hashes_of(pl) })
    } else if op == 0x10 {
        (b, LrPlanView::SetRelay { hashes: hashes_of(pl) })
    } else if op == 0x11 {
        if n >= 3 && pl[2] != 0 {
            (b, refused(op, 0x04))
        } else {
            (b, LrPlanView::Plane { serve: pl[0] != 0, dedup: pl[1] != 0 })
        }
    } else if op == 0x13 {
        (b, LrPlanView::Stats)
    } else if op == 0x14 {
        (
            BridgeView {
                n_rx: 0,
                n_tx: 0,
                sense: Sense { cad_busy: 0, defer: 0, ..b.sense },
                ..b
            },
            LrPlanView::ResetPlane,
        )
    } else if op == 0x17 {
        let c = b.clock.after(ticks);
        (
            BridgeView { clock: c, ..b },
            one(0x8A, crate::bytes::be64(c.reached() as u64)),
        )
    } else if op == 0x1A {
        (b, one(0x8B, crate::lr_node::info::cap_bytes(b.pr, b.st.mode.spec_phy())))
    } else if op == 0x18 {
        let delay = crate::bytes::u32_at(pl, 0);
        if delay > 1_000_000 || n - 4 > b.payload_cap() {
            (b, refused(op, 0x04))
        } else {
            let target = ticks.wrapping_add((delay * 16) as u32);
            (
                b,
                LrPlanView::Transmit {
                    payload: pl.skip(4),
                    kind: TxKind::At { target },
                    wait: delay > 0,
                },
            )
        }
    } else if op == 0x1F {
        let c = b.clock.after(ticks);
        let t = crate::bytes::u64_at(pl, 0);
        let after = BridgeView { clock: c, ..b };
        if t > c.reached() + 16_000_000 || n - 8 > b.payload_cap() {
            (after, refused(op, 0x04))
        } else {
            (
                after,
                LrPlanView::Transmit {
                    payload: pl.skip(8),
                    kind: TxKind::Abs { target: (t % 4_294_967_296) as u32 },
                    wait: t > c.reached(),
                },
            )
        }
    } else if op == 0x1D {
        match phy_of(pl[0]) {
            Some(p) => if b.pr.offers(p) {
                (
                    BridgeView {
                        st: b.st.switched(b.pr, p),
                        tl: b.tl.armed_with(0),
                        ..b
                    },
                    LrPlanView::SwitchPhy { to: p, prev: b.st },
                )
            } else {
                (b, refused(op, 0x04))
            },
            None => (b, refused(op, 0x04)),
        }
    } else {
        let depth: int = pl[3] as int;
        let period = crate::bytes::u16_at(pl, 1);
        if depth > 40 {
            (b, refused(op, 0x04))
        } else if (n - 4) / 4 < depth {
            (b, refused(op, 0x03))
        } else {
            let f = carriers_of(pl, depth);
            if crate::lr_node::phy::hop_fault(b.pr, b.st.mode.spec_phy(), pl[0], period, f) is Some {
                (b, refused(op, 0x04))
            } else {
                let tl = b.tl.armed_with(
                    if pl[0] == 1 {
                        depth as u8
                    } else {
                        0
                    },
                );
                (
                    BridgeView {
                        st: crate::lr_node::phy::PhyView {
                            hop_enabled: pl[0] == 1,
                            hop_period: period,
                            hop_freqs: f,
                            ..b.st
                        },
                        tl,
                        ..b
                    },
                    LrPlanView::HopSet {
                        mask: crate::lr_node::irq::pin_mask(tl.tracing()),
                        probe: b.debug && b.st.mode.spec_phy() == Phy::LrFhss,
                    },
                )
            }
        }
    }
}

/// The modem of a packet type.
pub open spec fn phy_of(code: u8) -> Option<Phy> {
    if code == 0 {
        Some(Phy::Lora)
    } else if code == 5 {
        Some(Phy::Flrc)
    } else if code == 7 {
        Some(Phy::LrFhss)
    } else {
        None
    }
}

/// The length of a sense: it doubles with its code.
pub open spec fn cca_length(sym: u8) -> u32 {
    if sym == 0 {
        4_096
    } else if sym == 1 {
        8_192
    } else if sym == 2 {
        16_384
    } else if sym == 3 {
        32_768
    } else {
        65_536
    }
}

impl BridgeView {
    /// The node with another link.
    pub open spec fn linked(self, st: crate::lr_node::phy::PhyView) -> BridgeView {
        BridgeView { st, ..self }
    }

    /// The node with other channel access.
    pub open spec fn sensing(self, sense: Sense) -> BridgeView {
        BridgeView { sense, ..self }
    }

    /// The longest payload of the modem in use.
    pub open spec fn payload_cap(self) -> int {
        PhyState::payload_cap(self.pr, self.st.mode.spec_phy()) as int
    }
}

impl Bridge {
    /// The parts are sound, and the beacon's period is one that a command can set.
    pub open spec fn wf(self) -> bool {
        &&& self.pr.wf()
        &&& self.st.wf()
        &&& self.tl.wf()
        &&& self.beacon_period_ms <= 255_000
    }

    /// A node that has just started: FLRC, silent, nothing recorded. `seed` comes from the chip's
    /// random numbers and the counter, `ticks` is the counter and `now` the time in microseconds.
    pub fn new(pr: Profile, seed: u32, ticks: u32, now: u64) -> (b: Bridge)
        requires
            pr.wf(),
            now <= u64::MAX - 1_000_000,
        ensures
            b.wf(),
            b@ == (BridgeView {
                pr,
                st: crate::lr_node::phy::PhyView {
                    freq_hz: 915_000_000,
                    tx_power_half_db: 12,
                    mode: PhyMode::Flrc(pr.flrc_start),
                    hop_enabled: false,
                    hop_period: 0,
                    hop_freqs: Seq::empty(),
                },
                sense: Sense::at_start(seed),
                clock: MacClock { hi: 0, last: ticks },
                tl: crate::lr_node::irq::TimelineView {
                    trace: Seq::empty(),
                    depth: 0,
                    next: 0,
                    coalesced: 0,
                },
                debug: false,
                beacon_on: false,
                beacon_period_ms: 1_000,
                beacon_seq: 0,
                next_beacon: (now + 1_000_000) as u64,
                next_sense: now,
                n_rx: 0,
                n_tx: 0,
            }),
    {
        Bridge {
            pr,
            st: PhyState::start(&pr),
            sense: Sense::new(seed),
            clock: MacClock::new(ticks),
            tl: Timeline::new(),
            debug: false,
            beacon_on: false,
            beacon_period_ms: BEACON_BASE_PERIOD_MS,
            beacon_seq: 0,
            next_beacon: now + 1_000_000,
            next_sense: now,
            n_rx: 0,
            n_tx: 0,
        }
    }

    /// Takes a host command.
    #[verifier::rlimit(60)]
    pub fn handle_cmd(&mut self, op: u8, pl: &[u8], ticks: u32, now: u64) -> (plan: LrPlan)
        requires
            old(self).wf(),
            pl.len() <= 255,
            op == CMD_SET_BEACON ==> now <= u64::MAX - 255_000_000,
        ensures
            final(self).wf(),
            (final(self)@, plan@) == decided(old(self)@, op, pl@, ticks, now),
    {
        if op == CMD_ENTER_BOOTLOADER || op == CMD_SET_SYNC || op == CMD_SF_SCAN {
            return refuse(op, UNSUP_NO_HARDWARE);
        }
        if op == 0 || op > CMD_GET_HOPTRACE || op == 0x19 {
            return refuse(op, UNSUP_UNKNOWN_OPCODE);
        }
        if pl.len() < shortest_len(op) {
            return refuse(op, UNSUP_BAD_LENGTH);
        }
        if op == CMD_TX {
            let payload: Vec<u8> = copy_range(pl, 0, pl.len());
            assert(payload@ =~= pl@);
            LrPlan::Transmit { payload, kind: TxKind::Plain, wait: false }
        } else if op == CMD_TX_LBT {
            let payload: Vec<u8> = copy_range(pl, 0, pl.len());
            assert(payload@ =~= pl@);
            LrPlan::Listen { payload }
        } else if op == CMD_SET_FREQ {
            let f: u32 = get_be32(pl, 0);
            if !self.pr.in_band(f) {
                return refuse(op, UNSUP_OUT_OF_RANGE);
            }
            self.st.freq_hz = f;
            LrPlan::Retune
        } else if op == CMD_SET_PWR {
            self.st.tx_power_half_db = self.pr.dbm_to_half_db(as_signed(pl[0]));
            LrPlan::Retune
        } else if op == CMD_SET_MOD {
            if self.st.set_mod(pl[0], pl[1], pl[2]) {
                LrPlan::Retune
            } else {
                refuse(op, UNSUP_OUT_OF_RANGE)
            }
        } else if op == CMD_GET_INFO {
            LrPlan::Info
        } else if op == CMD_GET_RSSI {
            LrPlan::Rssi
        } else if op == CMD_CAD {
            LrPlan::Cad { steps: self.sense.cca_steps }
        } else if op == CMD_SENSE {
            LrPlan::Sense { steps: self.sense.cca_steps }
        } else if op == CMD_SET_LBT_CFG {
            self.sense.lbt_cw_ms = get_be16(pl, 0);
            self.sense.lbt_max_backoff = pl[2];
            self.sense.lbt_max_attempts = pl[3];
            LrPlan::Info
        } else if op == CMD_SET_SENSE_CFG {
            self.sense.thresh_dbm = get_be16_signed(pl, 0);
            self.sense.repeat = pl[2];
            LrPlan::Info
        } else if op == CMD_SET_CAD_CFG {
            self.set_cad_cfg(pl)
        } else if op == CMD_SET_PREAMBLE {
            if self.set_preamble(get_be16(pl, 0)) {
                LrPlan::Retune
            } else {
                refuse(op, UNSUP_OUT_OF_RANGE)
            }
        } else if op == CMD_SET_BEACON {
            self.beacon_on = pl[0] != 0;
            if pl.len() >= 2 {
                let scale: u64 = if pl[1] == 0 {
                    1
                } else {
                    pl[1] as u64
                };
                self.beacon_period_ms = BEACON_BASE_PERIOD_MS * scale;
            }
            self.next_beacon = now + 1000 * self.beacon_period_ms;
            LrPlan::Info
        } else if op == CMD_GET_HOPTRACE {
            self.hop_trace()
        } else if op == CMD_SET_DEBUG {
            self.debug = pl[0] != 0;
            LrPlan::Info
        } else if op == CMD_SET_RX_GAIN {
            if pl[0] == 0 {
                LrPlan::RxGain { gain: RX_GAIN_AUTO }
            } else if pl[0] == 1 {
                LrPlan::RxGain { gain: RX_GAIN_MAX }
            } else {
                refuse(op, UNSUP_OUT_OF_RANGE)
            }
        } else if op == CMD_SET_NAME_FILTER {
            LrPlan::SetFilter { hashes: read_hashes(pl) }
        } else if op == CMD_SET_RELAY {
            LrPlan::SetRelay { hashes: read_hashes(pl) }
        } else if op == CMD_DATAPLANE {
            if pl.len() >= 3 && pl[2] != 0 {
                refuse(op, UNSUP_OUT_OF_RANGE)
            } else {
                LrPlan::Plane { serve: pl[0] != 0, dedup: pl[1] != 0 }
            }
        } else if op == CMD_GET_STATS {
            LrPlan::Stats
        } else if op == CMD_RESET_STATS {
            self.n_rx = 0;
            self.n_tx = 0;
            self.sense.cad_busy = 0;
            self.sense.defer = 0;
            LrPlan::ResetPlane
        } else if op == CMD_READ_CLOCK {
            let t: u64 = self.clock.now64(ticks);
            let mut body: Vec<u8> = Vec::new();
            push_be64(&mut body, t);
            assert(body@ =~= crate::bytes::be64(t));
            reply(event(EVT_CLOCK, body))
        } else if op == CMD_GET_CAP {
            reply(event(EVT_CAP, caps_for(&self.pr, &self.st)))
        } else if op == CMD_TX_AT {
            self.tx_at(pl, ticks)
        } else if op == CMD_TX_AT_ABS {
            self.tx_at_abs(pl, ticks)
        } else if op == CMD_SET_PHY {
            self.switch_phy(pl[0])
        } else {
            assert(op == CMD_SET_HOP);
            self.set_hop(pl)
        }
    }

    fn set_cad_cfg(&mut self, pl: &[u8]) -> (plan: LrPlan)
        requires
            old(self).wf(),
            3 <= pl.len() <= 255,
        ensures
            final(self).wf(),
            (final(self)@, plan@) == decided(old(self)@, 0x0A, pl@, 0, 0),
    {
        if pl[0] > CAD_SYM_MAX || pl[1] != 0 || pl[2] != 0 {
            return refuse(CMD_SET_CAD_CFG, UNSUP_OUT_OF_RANGE);
        }
        let steps: u32 = match pl[0] {
            0 => CCA_STEPS,
            1 => 2 * CCA_STEPS,
            2 => 4 * CCA_STEPS,
            3 => 8 * CCA_STEPS,
            _ => 16 * CCA_STEPS,
        };
        self.sense.cca_steps = steps;
        let dbm: i16 = self.sense.thresh_dbm;
        let thresh: u8 = if dbm >= 0 {
            0
        } else if dbm < -255 {
            255
        } else {
            (-dbm) as u8
        };
        LrPlan::CadParams { steps, thresh }
    }

    fn set_preamble(&mut self, v: u16) -> (ok: bool)
        requires
            old(self).wf(),
        ensures
            final(self).wf(),
            (match with_preamble(old(self).st.mode, v) {
                Some(m) => ok && final(self)@ == old(self)@.linked(
                    (crate::lr_node::phy::PhyView { mode: m, ..old(self)@.st }),
                ),
                None => !ok && final(self)@ == old(self)@,
            }),
    {
        match self.st.mode {
            PhyMode::Lora(p) => {
                if v == 0 {
                    return false;
                }
                self.st.mode = PhyMode::Lora(
                    LoraParams { sf: p.sf, bw_hz: p.bw_hz, cr: p.cr, preamble_syms: v },
                );
                true
            },
            PhyMode::Flrc(p) => match preamble_from_bits(v) {
                Some(l) => {
                    assert(pbl(crate::airtime::preamble_code(v as int)->0) == l);
                    self.st.mode = PhyMode::Flrc(
                        FlrcParams { bitrate: p.bitrate, coding: p.coding, preamble: l },
                    );
                    true
                },
                None => false,
            },
            PhyMode::LrFhss(_) => false,
        }
    }

    fn hop_trace(&self) -> (plan: LrPlan)
        requires
            self.wf(),
        ensures
            (self@, plan@) == decided(self@, 0x20, Seq::empty(), 0, 0),
    {
        let mut frames: Vec<Frame> = Vec::new();
        frames.push(event(EVT_HOPTRACE, self.tl.trace.encode(crate::lr_node::irq::STAMP_HZ)));
        if self.debug {
            frames.push(event(EVT_LOG, fmt_kv("HOPTRACE coalesced=", self.tl.coalesced, 40)));
        }
        let plan = LrPlan::Reply { frames };
        assert(plan@->frames =~= decided(self@, 0x20, Seq::empty(), 0, 0).1->frames);
        plan
    }

    fn tx_at(&self, pl: &[u8], ticks: u32) -> (plan: LrPlan)
        requires
            self.wf(),
            4 <= pl.len() <= 255,
        ensures
            (self@, plan@) == decided(self@, 0x18, pl@, ticks, 0),
    {
        let delay_us: u32 = get_be32(pl, 0);
        if delay_us > MAX_SCHED_DELAY_US || pl.len() - 4 > self.st.max_payload(&self.pr) as usize {
            return refuse(CMD_TX_AT, UNSUP_OUT_OF_RANGE);
        }
        let target: u32 = ticks.wrapping_add(delay_us * TICKS_PER_US);
        let payload: Vec<u8> = copy_range(pl, 4, pl.len());
        assert(payload@ =~= pl@.skip(4));
        LrPlan::Transmit { payload, kind: TxKind::At { target }, wait: delay_us > 0 }
    }

    fn tx_at_abs(&mut self, pl: &[u8], ticks: u32) -> (plan: LrPlan)
        requires
            old(self).wf(),
            8 <= pl.len() <= 255,
        ensures
            final(self).wf(),
            (final(self)@, plan@) == decided(old(self)@, 0x1F, pl@, ticks, 0),
    {
        let target: u64 = get_be64(pl, 0);
        let now: u64 = self.clock.now64(ticks);
        let ahead: u64 = if target > now {
            target - now
        } else {
            0
        };
        if ahead > MAX_SCHED_DELAY_TICKS || pl.len() - 8 > self.st.max_payload(&self.pr) as usize {
            return refuse(CMD_TX_AT_ABS, UNSUP_OUT_OF_RANGE);
        }
        let payload: Vec<u8> = copy_range(pl, 8, pl.len());
        assert(payload@ =~= pl@.skip(8));
        let low: u32 = (target % 4_294_967_296) as u32;
        LrPlan::Transmit { payload, kind: TxKind::Abs { target: low }, wait: target > now }
    }

    fn switch_phy(&mut self, code: u8) -> (plan: LrPlan)
        requires
            old(self).wf(),
        ensures
            final(self).wf(),
            (final(self)@, plan@) == decided(old(self)@, 0x1D, seq![code], 0, 0),
    {
        match Phy::from_code(code) {
            Some(p) => {
                if !self.pr.advertised(p) {
                    return refuse(CMD_SET_PHY, UNSUP_OUT_OF_RANGE);
                }
                let prev: PhyState = self.st.copy();
                let pr: Profile = self.pr;
                self.st.set_phy(&pr, p);
                self.tl.arm(0);
                LrPlan::SwitchPhy { to: p, prev }
            },
            None => refuse(CMD_SET_PHY, UNSUP_OUT_OF_RANGE),
        }
    }

    fn set_hop(&mut self, pl: &[u8]) -> (plan: LrPlan)
        requires
            old(self).wf(),
            4 <= pl.len() <= 255,
        ensures
            final(self).wf(),
            (final(self)@, plan@) == decided(old(self)@, 0x1E, pl@, 0, 0),
    {
        let period: u16 = get_be16(pl, 1);
        let n: usize = pl[3] as usize;
        if n > MAX_HOPS {
            return refuse(CMD_SET_HOP, UNSUP_OUT_OF_RANGE);
        }
        if (pl.len() - 4) / 4 < n {
            return refuse(CMD_SET_HOP, UNSUP_BAD_LENGTH);
        }
        let freqs: Vec<u32> = read_carriers(pl, n);
        match check_hop(&self.pr, self.st.phy(), pl[0], period, freqs.as_slice()) {
            Ok(enable) => {
                self.st.hop = HopPlan { enabled: enable, period, freqs };
                self.tl.arm(
                    if enable {
                        n as u8
                    } else {
                        0
                    },
                );
                let probe: bool = match self.st.phy() {
                    Phy::LrFhss => self.debug,
                    _ => false,
                };
                LrPlan::HopSet { mask: dio_irq_mask(self.tl.armed()), probe }
            },
            Err(_) => refuse(CMD_SET_HOP, UNSUP_OUT_OF_RANGE),
        }
    }
}

fn shortest_len(op: u8) -> (n: usize)
    ensures
        n == shortest(op),
{
    if op == CMD_SET_FREQ || op == CMD_SET_LBT_CFG || op == CMD_TX_AT || op == CMD_SET_HOP {
        4
    } else if op == CMD_SET_MOD || op == CMD_SET_CAD_CFG || op == CMD_SET_SENSE_CFG {
        3
    } else if op == CMD_SET_PREAMBLE || op == CMD_DATAPLANE {
        2
    } else if op == CMD_SET_PWR || op == CMD_SET_BEACON || op == CMD_SET_DEBUG || op
        == CMD_SET_RX_GAIN || op == CMD_SET_PHY {
        1
    } else if op == CMD_TX_AT_ABS {
        8
    } else {
        0
    }
}

} // verus!
