//! What the node makes of the radio's part in a host command.

use vstd::prelude::*;

use crate::bytes::{push_be16, push_be16_signed};
use crate::lora_node::command::Plan;
use crate::lora_node::hop::HOP_MAX;
use crate::lora_node::lbt::CadOutcome;
use crate::lora_node::node::{as_flag, bump, event, Node};
use crate::lora_node::opcode;
use crate::lora_node::params::Params;
use crate::lora_node::report::{cap, phy_err};
use crate::regs::frf_of_hz;
use crate::serial::Frame;
use crate::text::BufWriter;

verus! {

/// An error count after an operation.
pub open spec fn errors_after(n: u16, ok: bool) -> u16 {
    if ok {
        n
    } else {
        crate::lora_node::node::sat16(n)
    }
}

/// What a scan of the spreading factors does next.
#[derive(Clone, Copy, PartialEq, Eq, Structural)]
pub enum ScanNext {
    /// Listen at this one.
    Listen { sf: u8 },
    /// Nothing more to try; 0 where nothing was heard.
    Finish { found: u8 },
}

/// How a scan goes on after listening at a spreading factor.
pub open spec fn scan_then(sf: u8, heard: bool) -> ScanNext {
    if heard {
        ScanNext::Finish { found: sf }
    } else if sf < 12 {
        ScanNext::Listen { sf: (sf + 1) as u8 }
    } else {
        ScanNext::Finish { found: 0 }
    }
}

/// What a look at the operating mode leads to: the capabilities where the chip runs LoRa, else a
/// complaint with what it runs, behind a line where that could not be read.
pub open spec fn phy_answered(
    n: Node,
    want: u8,
    op_mode: Option<u8>,
    after: Node,
    replies: Seq<Frame>,
) -> bool {
    let lora = op_mode matches Some(op) && op & 0x80 != 0;
    &&& after == (Node { radio_errors: errors_after(n.radio_errors, lora), ..n })
    &&& lora ==> replies.len() == 1 && replies[0]@ == (crate::serial::FrameView {
        typ: 0x8B,
        payload: crate::lora_node::report::cap_body(),
    })
    &&& !lora && op_mode is Some ==> replies.len() == 1 && replies[0]@ == phy_err_view(
        want,
        op_mode->0,
    )
    &&& op_mode is None ==> replies.len() == 2 && replies[0]@.typ == 0x84 && replies[0]@.payload
        == crate::text::cut(
        Seq::<u8>::empty() + crate::text::text("set_phy: RegOpMode readback failed (SPI)"),
        96,
    ) && replies[1]@ == phy_err_view(want, 0)
}

/// A spreading factor has been tried. Activity ends the scan; a factor the driver rejects, a clear
/// channel and a failed detection go on to the next.
pub fn scan_next(sf: u8, heard: bool) -> (next: ScanNext)
    requires
        7 <= sf <= 12,
    ensures
        next == scan_then(sf, heard),
{
    if heard {
        ScanNext::Finish { found: sf }
    } else if sf < crate::lora_node::params::SF_MAX {
        ScanNext::Listen { sf: sf + 1 }
    } else {
        ScanNext::Finish { found: 0 }
    }
}

/// The result of a scan that starts at `sf`, where `heard` says at which factors there is activity.
pub open spec fn scan_result(sf: u8, heard: spec_fn(u8) -> bool) -> u8
    decreases 13 - sf,
{
    if sf > 12 {
        0
    } else if heard(sf) {
        sf
    } else {
        scan_result((sf + 1) as u8, heard)
    }
}

/// A scan finds the lowest spreading factor with activity, and 0 only where there is none.
pub proof fn scan_finds_the_lowest(sf: u8, heard: spec_fn(u8) -> bool)
    requires
        7 <= sf <= 13,
    ensures
        ({
            let r = scan_result(sf, heard);
            &&& r == 0 || (sf <= r <= 12 && heard(r))
            &&& forall|x: u8| sf <= x <= 12 && (r == 0 || x < r) ==> !(#[trigger] heard(x))
        }),
    decreases 13 - sf,
{
    if sf <= 12 && !heard(sf) {
        scan_finds_the_lowest((sf + 1) as u8, heard);
    }
}

impl Node {
    /// The driver has taken or rejected new parameters. Rejected ones leave the old in use, so that
    /// the information event reports what the radio is really on.
    pub fn on_built(&mut self, trial: Params, preamble: u16, ok: bool)
        requires
            old(self).wf(),
            trial.wf(),
            preamble >= 1,
        ensures
            final(self).wf(),
            built_with(*old(self), trial, preamble, ok, *final(self)),
    {
        if ok {
            self.p = trial;
            self.csma.preamble = preamble;
        } else {
            self.radio_errors = bump(self.radio_errors);
        }
        let freq: u32 = self.p.freq_hz;
        self.hop.pin_base(freq);
    }

    /// A register write has ended.
    pub fn on_written(&mut self, ok: bool)
        requires
            old(self).wf(),
        ensures
            final(self).wf(),
            *final(self) == (Node {
                radio_errors: errors_after(old(self).radio_errors, ok),
                ..*old(self)
            }),
    {
        if !ok {
            self.radio_errors = bump(self.radio_errors);
        }
    }

    /// A requested detection has ended.
    pub fn on_cad(&mut self, outcome: CadOutcome) -> (reply: Frame)
        requires
            old(self).wf(),
        ensures
            final(self).wf(),
            *final(self) == counted(*old(self), outcome),
            reply@ == cad_event(outcome),
            forall|tsym_us: u64| #[trigger] (Plan::Cad { tsym_us }).answered_by(reply@.typ),
    {
        self.count_cad(outcome);
        let mut b: Vec<u8> = Vec::new();
        let heard: bool = match outcome {
            CadOutcome::Heard => true,
            _ => false,
        };
        b.push(as_flag(heard));
        assert(b@ =~= seq![crate::lora_node::node::flag(outcome == CadOutcome::Heard)]);
        event(opcode::EVT_CAD, b)
    }

    /// Counts what a detection found.
    pub fn count_cad(&mut self, outcome: CadOutcome)
        requires
            old(self).wf(),
        ensures
            final(self).wf(),
            *final(self) == counted(*old(self), outcome),
    {
        match outcome {
            CadOutcome::Heard => {
                self.csma.cad_busy = self.csma.cad_busy.wrapping_add(1);
            },
            CadOutcome::Failed => {
                self.radio_errors = bump(self.radio_errors);
            },
            CadOutcome::Clear => {},
        }
    }

    /// The channel energy has been read, or could not be: the least value stands for that, never a
    /// plausible one.
    pub fn on_rssi(&mut self, rssi: Option<i16>) -> (reply: Frame)
        requires
            old(self).wf(),
        ensures
            final(self).wf(),
            *final(self) == (Node {
                radio_errors: errors_after(old(self).radio_errors, rssi is Some),
                ..*old(self)
            }),
            reply@ == rssi_event(rssi),
            Plan::Rssi.answered_by(reply@.typ),
    {
        let r: i16 = self.take_rssi(rssi);
        let mut b: Vec<u8> = Vec::new();
        push_be16_signed(&mut b, r);
        assert(b@ =~= crate::bytes::be16_signed(rssi_or_least(rssi)));
        event(opcode::EVT_RSSI, b)
    }

    fn take_rssi(&mut self, rssi: Option<i16>) -> (r: i16)
        requires
            old(self).wf(),
        ensures
            final(self).wf(),
            *final(self) == (Node {
                radio_errors: errors_after(old(self).radio_errors, rssi is Some),
                ..*old(self)
            }),
            r == rssi_or_least(rssi),
    {
        match rssi {
            Some(r) => r,
            None => {
                self.radio_errors = bump(self.radio_errors);
                i16::MIN
            },
        }
    }

    /// A sensing command has ended: the free-running busy count, and the energy.
    pub fn on_sensed(&mut self, rssi: Option<i16>) -> (reply: Frame)
        requires
            old(self).wf(),
        ensures
            final(self).wf(),
            *final(self) == (Node {
                radio_errors: errors_after(old(self).radio_errors, rssi is Some),
                ..*old(self)
            }),
            reply@ == sense_event(old(self).csma.cad_busy, rssi),
            forall|tsym_us: u64, count: u8| #[trigger]
                (Plan::Sense { tsym_us, count }).answered_by(reply@.typ),
    {
        let r: i16 = self.take_rssi(rssi);
        let mut b: Vec<u8> = Vec::new();
        push_be16(&mut b, self.csma.cad_busy);
        push_be16_signed(&mut b, r);
        assert(b@ =~= crate::bytes::be16(self.csma.cad_busy) + crate::bytes::be16_signed(
            rssi_or_least(rssi),
        ));
        event(opcode::EVT_SENSE, b)
    }

    /// A scan has ended, and the driver was asked for the operating parameters again.
    pub fn on_scanned(&mut self, found: u8, rebuilt: bool) -> (reply: Frame)
        requires
            old(self).wf(),
        ensures
            final(self).wf(),
            *final(self) == (Node {
                radio_errors: errors_after(old(self).radio_errors, rebuilt),
                ..*old(self)
            }),
            reply@ == scan_event(found),
            Plan::ScanSf.answered_by(reply@.typ),
    {
        self.on_written(rebuilt);
        let mut b: Vec<u8> = Vec::new();
        b.push(found);
        assert(b@ =~= seq![found]);
        event(opcode::EVT_SF_DETECTED, b)
    }

    /// The detector pair has been written; `full` is the optimisation byte with its reserved bits.
    pub fn on_detector(&mut self, full: Option<u8>, thresh: u8)
        requires
            old(self).wf(),
        ensures
            final(self).wf(),
            *final(self) == detector_set(*old(self), full, thresh),
    {
        match full {
            Some(f) => {
                self.det = Some((f, thresh));
            },
            None => {
                self.radio_errors = bump(self.radio_errors);
            },
        }
    }

    /// The operating mode has been read for a modem change. The modem in use must show in its top
    /// bit; anything else is an error that names the chip's own status.
    pub fn on_phy(&mut self, want: u8, op_mode: Option<u8>) -> (replies: Vec<Frame>)
        requires
            old(self).wf(),
        ensures
            final(self).wf(),
            phy_answered(*old(self), want, op_mode, *final(self), replies@),
            replies@.len() > 0,
            (Plan::CheckPhy { want }).answered_by(replies@.last()@.typ),
    {
        let mut replies: Vec<Frame> = Vec::new();
        match op_mode {
            Some(op) => {
                if op & 0x80 != 0 {
                    replies.push(cap());
                } else {
                    self.radio_errors = bump(self.radio_errors);
                    replies.push(phy_err(want, op));
                }
            },
            None => {
                self.radio_errors = bump(self.radio_errors);
                replies.push(log_line("set_phy: RegOpMode readback failed (SPI)"));
                replies.push(phy_err(want, 0));
            },
        }
        replies
    }

    /// The carrier a hop command moves the node to: the first of the list when hopping starts; the
    /// one from before hopping when it stops, which it also does when the registers could not be
    /// programmed.
    pub open spec fn hop_freq(self, on: bool, list: Seq<u32>, regs_ok: bool) -> u32 {
        if on && regs_ok {
            list[0]
        } else if self.hop.base_hz != 0 {
            self.hop.base_hz
        } else {
            self.p.freq_hz
        }
    }

    /// The parameters to ask the driver for, once the hop registers have been programmed.
    pub fn hop_trial(&self, on: bool, list: &Vec<u32>, regs_ok: bool) -> (trial: Params)
        requires
            self.wf(),
            on ==> list.len() > 0,
        ensures
            trial == (Params { freq_hz: self.hop_freq(on, list@, regs_ok), ..self.p }),
            trial.wf(),
    {
        let mut trial: Params = self.p;
        if on && regs_ok {
            trial.freq_hz = list[0];
        } else if self.hop.base_hz != 0 {
            trial.freq_hz = self.hop.base_hz;
        }
        trial
    }

    /// The carrier in use after a hop command.
    pub open spec fn hop_freq_after(
        self,
        on: bool,
        list: Seq<u32>,
        regs_ok: bool,
        built: bool,
    ) -> u32 {
        if regs_ok && on && !built {
            self.p.freq_hz
        } else {
            self.hop_freq(on, list, regs_ok)
        }
    }

    /// A hop command has ended: `regs_ok` says whether the hop registers were programmed, `built`
    /// whether the driver took the parameters of [`Node::hop_trial`].
    ///
    /// The list is kept in any case. While hopping is on, its first carrier is the one in use, and
    /// the carrier from before hopping is remembered. Switching hopping off goes back to it, and so
    /// does a failure to program the registers, which leaves hopping off.
    pub fn on_hop_set(
        &mut self,
        on: bool,
        period: u8,
        list: &Vec<u32>,
        regs_ok: bool,
        built: bool,
    ) -> (log: Option<Frame>)
        requires
            old(self).wf(),
            list.len() <= 40,
            on ==> list.len() > 0,
        ensures
            final(self).wf(),
            hop_set(*old(self), on, period, list@, regs_ok, built, *final(self)),
            log is Some <==> !regs_ok,
            log matches Some(f) ==> f@.typ == 0x84 && f@.payload == crate::text::cut(
                Seq::<u8>::empty() + crate::text::text(
                    "set_hop: SPI error, hopping left disabled",
                ),
                96,
            ),
    {
        let trial: Params = self.hop_trial(on, list, regs_ok);
        let prev: Params = self.p;
        self.write_list(list);
        self.hop.period = if on {
            period
        } else {
            0
        };
        self.hop.enabled = on && regs_ok;
        if on && regs_ok {
            if self.hop.base_hz == 0 {
                self.hop.base_hz = prev.freq_hz;
            }
            if built {
                self.p = trial;
            }
        } else {
            self.p = trial;
            self.hop.base_hz = 0;
        }
        if !regs_ok {
            self.radio_errors = bump(self.radio_errors);
        }
        if !built {
            self.radio_errors = bump(self.radio_errors);
        }
        let freq: u32 = self.p.freq_hz;
        self.hop.pin_base(freq);
        if regs_ok {
            None
        } else {
            Some(log_line("set_hop: SPI error, hopping left disabled"))
        }
    }

    fn write_list(&mut self, list: &Vec<u32>)
        requires
            list.len() <= 40,
        ensures
            *final(self) == (Node { hop: final(self).hop, ..*old(self) }),
            final(self).hop == (crate::lora_node::hop::Hop {
                hz: final(self).hop.hz,
                frf: final(self).hop.frf,
                n: list.len(),
                ..old(self).hop
            }),
            forall|i: int| 0 <= i < list.len() ==> #[trigger] final(self).hop.hz@[i] == list@[i],
            forall|i: int|
                0 <= i < list.len() ==> #[trigger] final(self).hop.frf@[i]
                    == crate::lora_node::hop::carrier_word(list@[i]),
            forall|i: int|
                list.len() <= i < 40 ==> #[trigger] final(self).hop.hz@[i] == old(self).hop.hz@[i],
            forall|i: int|
                list.len() <= i < 40 ==> #[trigger] final(self).hop.frf@[i] == old(
                    self,
                ).hop.frf@[i],
    {
        let mut hz: [u32; HOP_MAX] = self.hop.hz;
        let mut frf: [u32; HOP_MAX] = self.hop.frf;
        let mut i: usize = 0;
        while i < list.len()
            invariant
                i <= list.len() <= 40,
                forall|k: int| 0 <= k < i ==> #[trigger] hz@[k] == list@[k],
                forall|k: int|
                    0 <= k < i ==> #[trigger] frf@[k] == crate::lora_node::hop::carrier_word(
                        list@[k],
                    ),
                forall|k: int| i <= k < 40 ==> #[trigger] hz@[k] == self.hop.hz@[k],
                forall|k: int| i <= k < 40 ==> #[trigger] frf@[k] == self.hop.frf@[k],
            decreases list.len() - i,
        {
            hz[i] = list[i];
            frf[i] = frf_of_hz(list[i]);
            i += 1;
        }
        self.hop.hz = hz;
        self.hop.frf = frf;
        self.hop.n = list.len();
    }

    /// The five lines of the debug report, given three chip registers.
    pub fn debug_report(&self, op: u8, modem: u8, sync: u8) -> (lines: Vec<Frame>)
        requires
            self.wf(),
        ensures
            lines@.len() == 5,
            lines@[0]@ == log_view(self.chip_line(op, modem, sync)),
            lines@[1]@ == log_view(self.knob_line()),
            lines@[2]@ == log_view(self.hop_line()),
            lines@[3]@ == log_view(
                put(Seq::empty(), crate::text::text(
                    "phy cur=0 bitmap=0x00000001 rtt_mean=10733us",
                )),
            ),
            lines@[4]@ == log_view(self.trace_line()),
    {
        let mut lines: Vec<Frame> = Vec::new();
        let mut a = BufWriter::new();
        a.write_str("chip op_mode=0x");
        a.write_hex(op as u32, 2);
        a.write_str(" modem_stat=0x");
        a.write_hex(modem as u32, 2);
        a.write_str(" sync=0x");
        a.write_hex(sync as u32, 2);
        a.write_str(" err=");
        a.write_dec(self.radio_errors as u64);
        a.write_str(" trunc=");
        a.write_dec(self.rx_trunc as u64);
        lines.push(event(opcode::EVT_LOG, a.into_vec()));
        let (dopt, dthr): (u8, u8) = match self.det {
            Some((o, t)) => (o, t),
            None => (0, 0),
        };
        let gain: u8 = match self.lna {
            Some(g) => g,
            None => 0,
        };
        let mut b = BufWriter::new();
        b.write_str("knobs det=0x");
        b.write_hex(dopt as u32, 2);
        b.write_str("/0x");
        b.write_hex(dthr as u32, 2);
        b.write_str(" lna=0x");
        b.write_hex(gain as u32, 2);
        b.write_str(" sched_late=");
        b.write_dec(self.sched_late as u64);
        b.write_str(" gran=99us");
        lines.push(event(opcode::EVT_LOG, b.into_vec()));
        let mut c = BufWriter::new();
        c.write_str("hop on=");
        c.write_dec(as_flag(self.hop.enabled) as u64);
        c.write_str(" n=");
        c.write_dec(self.hop.n as u64);
        c.write_str(" per=");
        c.write_dec(self.hop.period as u64);
        c.write_str(" hops=");
        c.write_dec(self.hop.hops as u64);
        c.write_str(" pll_to=");
        c.write_dec(self.hop.pll_timeouts as u64);
        c.write_str(" idx=");
        c.write_dec(self.hop.last_idx as u64);
        c.write_str(" hz0=");
        c.write_dec(self.hop.hz[0] as u64);
        lines.push(event(opcode::EVT_LOG, c.into_vec()));
        lines.push(log_line("phy cur=0 bitmap=0x00000001 rtt_mean=10733us"));
        let mut d = BufWriter::new();
        d.write_str("hoptrace n=");
        d.write_dec(self.hop.trace.len() as u64);
        d.write_str("/32 txf=");
        d.write_dec(self.hop.trace.tx_flagged() as u64);
        d.write_str(" stamp_hz=1000000 bitmap_ext=0x00000001");
        lines.push(event(opcode::EVT_LOG, d.into_vec()));
        lines
    }

    /// The line on the chip.
    pub open spec fn chip_line(self, op: u8, modem: u8, sync: u8) -> Seq<u8> {
        let a = put_hex(put(Seq::empty(), crate::text::text("chip op_mode=0x")), op);
        let b = put_hex(put(a, crate::text::text(" modem_stat=0x")), modem);
        let c = put_hex(put(b, crate::text::text(" sync=0x")), sync);
        let d = put_dec(put(c, crate::text::text(" err=")), self.radio_errors as nat);
        put_dec(put(d, crate::text::text(" trunc=")), self.rx_trunc as nat)
    }

    /// The line on what the host has set.
    pub open spec fn knob_line(self) -> Seq<u8> {
        let det: (u8, u8) = match self.det {
            Some(d) => d,
            None => (0, 0),
        };
        let gain: u8 = match self.lna {
            Some(g) => g,
            None => 0,
        };
        let a = put_hex(put(Seq::empty(), crate::text::text("knobs det=0x")), det.0);
        let b = put_hex(put(a, crate::text::text("/0x")), det.1);
        let c = put_hex(put(b, crate::text::text(" lna=0x")), gain);
        let d = put_dec(put(c, crate::text::text(" sched_late=")), self.sched_late as nat);
        put(d, crate::text::text(" gran=99us"))
    }

    /// The line on hopping.
    pub open spec fn hop_line(self) -> Seq<u8> {
        let a = put_dec(
            put(Seq::empty(), crate::text::text("hop on=")),
            crate::lora_node::node::flag(self.hop.enabled) as nat,
        );
        let b = put_dec(put(a, crate::text::text(" n=")), self.hop.n as nat);
        let c = put_dec(put(b, crate::text::text(" per=")), self.hop.period as nat);
        let d = put_dec(put(c, crate::text::text(" hops=")), self.hop.hops as nat);
        let e = put_dec(put(d, crate::text::text(" pll_to=")), self.hop.pll_timeouts as nat);
        let f = put_dec(put(e, crate::text::text(" idx=")), self.hop.last_idx as nat);
        put_dec(put(f, crate::text::text(" hz0=")), self.hop.hz@[0] as nat)
    }

    /// The line on the trace.
    pub open spec fn trace_line(self) -> Seq<u8> {
        let a = put_dec(
            put(Seq::empty(), crate::text::text("hoptrace n=")),
            self.hop.trace@.len(),
        );
        let b = put_dec(
            put(a, crate::text::text("/32 txf=")),
            crate::lora_node::hop::flagged(self.hop.trace@),
        );
        put(b, crate::text::text(" stamp_hz=1000000 bitmap_ext=0x00000001"))
    }
}

/// `after` is `n` once the driver has taken or rejected new parameters: what it took is in use, and
/// while hopping the list starts with the carrier in use.
pub open spec fn built_with(n: Node, trial: Params, preamble: u16, ok: bool, after: Node) -> bool {
    &&& after.p == (if ok {
        trial
    } else {
        n.p
    })
    &&& after.csma == (if ok {
        crate::lora_node::csma::Csma { preamble, ..n.csma }
    } else {
        n.csma
    })
    &&& after.radio_errors == errors_after(n.radio_errors, ok)
    &&& after == (Node {
        p: after.p,
        csma: after.csma,
        radio_errors: after.radio_errors,
        hop: after.hop,
        ..n
    })
    &&& after.hop == (crate::lora_node::hop::Hop {
        hz: after.hop.hz,
        frf: after.hop.frf,
        ..n.hop
    })
    &&& n.hop.enabled ==> after.hop.hz@ == n.hop.hz@.update(0, after.p.freq_hz)
    &&& !n.hop.enabled ==> after.hop == n.hop
}

/// The event that says whether a detection found activity.
pub open spec fn cad_event(outcome: CadOutcome) -> crate::serial::FrameView {
    crate::serial::FrameView {
        typ: 0x85,
        payload: seq![crate::lora_node::node::flag(outcome == CadOutcome::Heard)],
    }
}

/// The event with the channel energy.
pub open spec fn rssi_event(rssi: Option<i16>) -> crate::serial::FrameView {
    crate::serial::FrameView {
        typ: 0x86,
        payload: crate::bytes::be16_signed(rssi_or_least(rssi)),
    }
}

/// The event with the busy count and the channel energy.
pub open spec fn sense_event(cad_busy: u16, rssi: Option<i16>) -> crate::serial::FrameView {
    crate::serial::FrameView {
        typ: 0x8C,
        payload: crate::bytes::be16(cad_busy) + crate::bytes::be16_signed(rssi_or_least(rssi)),
    }
}

/// The event with the spreading factor that a scan found.
pub open spec fn scan_event(found: u8) -> crate::serial::FrameView {
    crate::serial::FrameView { typ: 0x87, payload: seq![found] }
}

/// The node after the detector pair was written, or could not be.
pub open spec fn detector_set(n: Node, full: Option<u8>, thresh: u8) -> Node {
    match full {
        Some(f) => Node { det: Some((f, thresh)), ..n },
        None => Node { radio_errors: crate::lora_node::node::sat16(n.radio_errors), ..n },
    }
}

/// `after` is `n` after a hop command: the list is kept, hopping is on only if asked for and
/// programmed, the carrier and the remembered one are as they should be, and nothing else changes.
pub open spec fn hop_set(
    n: Node,
    on: bool,
    period: u8,
    list: Seq<u32>,
    regs_ok: bool,
    built: bool,
    after: Node,
) -> bool {
    &&& after.p == (Params { freq_hz: n.hop_freq_after(on, list, regs_ok, built), ..n.p })
    &&& after.radio_errors == errors_after(errors_after(n.radio_errors, regs_ok), built)
    &&& after == (Node {
        p: after.p,
        radio_errors: after.radio_errors,
        hop: after.hop,
        ..n
    })
    &&& after.hop == (crate::lora_node::hop::Hop {
        frf: after.hop.frf,
        hz: after.hop.hz,
        n: list.len() as usize,
        period: if on {
            period
        } else {
            0
        },
        enabled: on && regs_ok,
        base_hz: if !(on && regs_ok) {
            0
        } else if n.hop.base_hz == 0 {
            n.p.freq_hz
        } else {
            n.hop.base_hz
        },
        ..n.hop
    })
    &&& on && regs_ok ==> after.hop.hz@[0] == after.p.freq_hz
    &&& list.len() > 0 && !(on && regs_ok) ==> after.hop.hz@[0] == list[0]
    &&& forall|i: int| 1 <= i < list.len() ==> #[trigger] after.hop.hz@[i] == list[i]
    &&& forall|i: int| list.len() <= i < 40 ==> #[trigger] after.hop.hz@[i] == n.hop.hz@[i]
    &&& forall|i: int|
        0 <= i < list.len() ==> #[trigger] after.hop.frf@[i] == crate::lora_node::hop::carrier_word(
            after.hop.hz@[i],
        )
    &&& forall|i: int| list.len() <= i < 40 ==> #[trigger] after.hop.frf@[i] == n.hop.frf@[i]
}

/// A line with more text behind it.
pub open spec fn put(line: Seq<u8>, more: Seq<u8>) -> Seq<u8> {
    crate::text::cut(line + more, 96)
}

/// A line with a number behind it.
pub open spec fn put_dec(line: Seq<u8>, n: nat) -> Seq<u8> {
    put(line, crate::text::decimal(n))
}

/// A line with two hexadecimal digits behind it.
pub open spec fn put_hex(line: Seq<u8>, n: u8) -> Seq<u8> {
    put(line, crate::text::hex(n as nat, 2))
}

/// A log event.
pub open spec fn log_view(line: Seq<u8>) -> crate::serial::FrameView {
    crate::serial::FrameView { typ: 0x84, payload: line }
}

/// The event of a modem that does not answer as such.
pub open spec fn phy_err_view(phy: u8, status: u8) -> crate::serial::FrameView {
    crate::serial::FrameView { typ: 0x8D, payload: seq![phy, status] }
}

/// A log event of one fixed text.
pub fn log_line(s: &str) -> (f: Frame)
    ensures
        f@ == log_view(put(Seq::empty(), crate::text::text(s))),
{
    let mut w = BufWriter::new();
    w.write_str(s);
    event(opcode::EVT_LOG, w.into_vec())
}

/// An energy reading, or the least value.
pub open spec fn rssi_or_least(rssi: Option<i16>) -> i16 {
    match rssi {
        Some(r) => r,
        None => i16::MIN,
    }
}

/// The node after a detection.
pub open spec fn counted(n: Node, outcome: CadOutcome) -> Node {
    match outcome {
        CadOutcome::Heard => Node {
            csma: crate::lora_node::csma::Csma {
                cad_busy: n.csma.cad_busy.wrapping_add(1),
                ..n.csma
            },
            ..n
        },
        CadOutcome::Failed => Node {
            radio_errors: crate::lora_node::node::sat16(n.radio_errors),
            ..n
        },
        CadOutcome::Clear => n,
    }
}

} // verus!
