//! What the node makes of the radio's answers: transmissions, modem changes, receptions, the
//! background sample and the beacon.

use vstd::prelude::*;

use crate::airtime::lrfhss_block_count;
use crate::bytes::{push_be16, push_be16_signed, push_be32};
use crate::flrc_link::{build_frame, FRAME_BYTES};
use crate::lora_node::node::{event, rx_event, txdone, PlaneAction};
use crate::lora_node::opcode::{
    EVT_CAD, EVT_CAP, EVT_INFO, EVT_LOG, EVT_RSSI, EVT_SENSE, EVT_STATS, EVT_TX_STARTED,
};
use crate::lora_node::report::{phy_err, PlaneStats};
use crate::lr_node::bridge::{fmt_kv, Bridge, BridgeView, LrPlanView, TxKind};
use crate::lr_node::info::{caps_for, info_body};
use crate::lr_node::irq::{crc_error, dio_irq_mask, rx_done, tx_done};
use crate::lr_node::phy::{Phy, PhyMode, PhyState};
use crate::lr_node::sense::{dbm_of, tx_timeout_ms, Sense};
use crate::serial::Frame;

verus! {

/// The text of a beacon, before its number.
pub const BEACON_TEXT: [u8; 13] = [76, 82, 50, 48, 50, 49, 45, 66, 69, 65, 67, 79, 78];

/// An event, by its contents.
pub open spec fn ev(typ: u8, payload: Seq<u8>) -> crate::serial::FrameView {
    crate::serial::FrameView { typ, payload }
}

/// One step of programming the radio.
#[derive(Clone, Copy, PartialEq, Eq, Structural)]
pub enum RadioStep {
    /// Program the whole link.
    Apply,
    /// Clear latched errors.
    ClearErrors,
    /// Reset the chip and program the whole link.
    ResetAndApply,
    /// Route these interrupts to the pin.
    SetIrq { mask: u32 },
    /// Listen.
    ArmRx,
}

/// What happened while a keyed frame is on its way.
#[derive(Clone, Copy, PartialEq, Eq, Structural)]
pub enum PollEvent {
    /// It is this time, in microseconds.
    Turn { now: u64 },
    /// The interrupt word was read, with its stamp, or could not be.
    Word { word: Option<u32>, stamp: u32 },
}

/// What to do next about a keyed frame.
#[derive(Clone, Copy, PartialEq, Eq, Structural)]
pub enum PollNext {
    /// Read the interrupt word.
    Read,
    /// Rest a moment, then look at the time.
    Rest,
    /// The frame is out.
    Sent,
    /// It counts as lost.
    GiveUp,
}

/// What a received frame looked like.
#[derive(Clone, Copy, PartialEq, Eq, Structural)]
pub struct RxInfo {
    pub rssi_dbm: i16,
    /// From the chip, where the modem measures it.
    pub snr_db: Option<i16>,
}

/// What to do with a received frame, in this order.
pub struct HeardPlan {
    /// Tell the host.
    pub log: Option<Frame>,
    /// Send this, listening first and without an announcement.
    pub serve: Option<Vec<u8>>,
    /// Send the frame on, listening first and without an announcement.
    pub relay: bool,
    /// Listen again, after any of the two.
    pub rearm: bool,
    /// Deliver this.
    pub deliver: Option<Frame>,
}

/// The diagnostic line about a received frame.
pub open spec fn heard_line(served: bool, relay: bool, deliver: bool, n: u32) -> Seq<u8> {
    if served {
        crate::lr_node::bridge::kv("RX served n=", n, 32)
    } else if relay {
        crate::lr_node::bridge::kv("RX relay n=", n, 32)
    } else if deliver {
        crate::lr_node::bridge::kv("RX deliver n=", n, 32)
    } else {
        crate::lr_node::bridge::kv("RX dropped n=", n, 32)
    }
}

/// The events that end a transmission: for a scheduled one the lateness where diagnostics are on,
/// then the verdict.
pub open spec fn tx_events(debug: bool, kind: TxKind, ok: bool, ticks: u32) -> Seq<
    crate::serial::FrameView,
> {
    let done = ev(
        0x82,
        seq![
            if ok {
                1u8
            } else {
                0u8
            },
            0u8,
        ],
    );
    match kind {
        TxKind::Plain => seq![done],
        TxKind::At { target } => if debug {
            seq![
                ev(
                    0x84,
                    crate::lr_node::bridge::kv(
                        "TX_AT late_ticks=",
                        ticks.wrapping_sub(target),
                        32,
                    ),
                ),
                done,
            ]
        } else {
            seq![done]
        },
        TxKind::Abs { target } => if debug {
            seq![
                ev(
                    0x84,
                    crate::lr_node::bridge::kv(
                        "TX_AT_ABS late_ticks=",
                        ticks.wrapping_sub(target),
                        40,
                    ),
                ),
                done,
            ]
        } else {
            seq![done]
        },
    }
}

/// The events that answer a modem change: the new capabilities, then a receiver that would not
/// start.
pub open spec fn switch_events(b: BridgeView, to: Phy, arm_refused: Option<u8>) -> Seq<
    crate::serial::FrameView,
> {
    let cap = ev(0x8B, crate::lr_node::info::cap_bytes(b.pr, b.st.mode.spec_phy()));
    match arm_refused {
        Some(chip) => seq![cap, ev(0x8D, seq![to.spec_code(), chip])],
        None => seq![cap],
    }
}

impl BridgeView {
    /// The node after a key-up.
    pub open spec fn keyed_up(self, ticks: u32) -> BridgeView {
        BridgeView { tl: self.tl.keyed(ticks), ..self }
    }

    /// The node after a transmission.
    pub open spec fn transmitted(self) -> BridgeView {
        BridgeView { n_tx: self.n_tx.wrapping_add(1), ..self }
    }

    /// How a keyed frame is followed: the node then, and what to do next.
    pub open spec fn polled(self, deadline: u64, ev: PollEvent) -> (BridgeView, PollNext) {
        match ev {
            PollEvent::Turn { now } => (
                self,
                if now < deadline {
                    PollNext::Read
                } else {
                    PollNext::GiveUp
                },
            ),
            PollEvent::Word { word: Some(w), stamp } => (
                BridgeView {
                    tl: self.tl.noted(
                        crate::lr_node::irq::hops(w),
                        w & 0x0004_0000 != 0,
                        stamp,
                    ),
                    ..self
                },
                if w & 0x0008_0000 != 0 {
                    PollNext::Sent
                } else {
                    PollNext::Rest
                },
            ),
            PollEvent::Word { word: None, stamp } => (self, PollNext::Rest),
        }
    }
}

/// A keyed frame counts as sent only by the chip's own word, and it is given up exactly at the first
/// look at the time that finds the deadline passed.
pub proof fn only_the_chip_reports_a_frame(b: BridgeView, deadline: u64, ev: PollEvent)
    ensures
        b.polled(deadline, ev).1 == PollNext::Sent <==> (ev matches PollEvent::Word {
            word: Some(w),
            stamp,
        } && w & 0x0008_0000 != 0),
        b.polled(deadline, ev).1 == PollNext::GiveUp <==> (ev matches PollEvent::Turn { now } && now
            >= deadline),
{
}

/// The channel energy that is reported; 0 where it could not be read.
pub open spec fn energy(raw: Option<u16>) -> i16 {
    match raw {
        Some(r) => crate::lr_node::sense::raw_dbm(r) as i16,
        None => 0,
    }
}

/// The energy event.
pub open spec fn energy_event(raw: Option<u16>) -> crate::serial::FrameView {
    ev(0x86, crate::bytes::be16_signed(energy(raw)))
}

/// The node after a sense that the host asked for: a busy one counts as activity.
pub open spec fn after_sense(b: BridgeView, rssi_max: Option<u16>) -> BridgeView {
    b.sensing(
        Sense {
            activity: if crate::lr_node::sense::finds_busy(b.sense, rssi_max) {
                b.sense.activity.wrapping_add(1)
            } else {
                b.sense.activity
            },
            ..b.sense
        },
    )
}

/// The verdict event of a sense.
pub open spec fn verdict_event(b: BridgeView, rssi_max: Option<u16>) -> crate::serial::FrameView {
    ev(
        0x85,
        seq![
            if crate::lr_node::sense::finds_busy(b.sense, rssi_max) {
                1u8
            } else {
                0u8
            },
        ],
    )
}

/// The event with the activity so far and the channel energy.
pub open spec fn activity_event(activity: u16, raw: Option<u16>) -> crate::serial::FrameView {
    ev(0x8C, crate::bytes::be16(activity) + crate::bytes::be16_signed(energy(raw)))
}

/// The event with the counters.
pub open spec fn counters_event(s: Sense, p: PlaneStats) -> crate::serial::FrameView {
    ev(
        0x89,
        crate::bytes::be32(p.rx) + crate::bytes::be32(p.filtered) + crate::bytes::be32(p.deduped)
            + crate::bytes::be32(p.served) + crate::bytes::be32(p.relayed) + crate::bytes::be16(
            s.cad_busy,
        ) + crate::bytes::be16(s.defer),
    )
}

/// The event that ends a transmission that listened first.
pub open spec fn listened_event(sent: bool, attempts: u8) -> crate::serial::FrameView {
    ev(
        0x82,
        seq![
            if sent {
                1u8
            } else {
                0u8
            },
            attempts,
        ],
    )
}

/// The answer to a modem that the chip refused.
pub open spec fn modem_refused(to: Phy, chip: u8) -> crate::serial::FrameView {
    ev(0x8D, seq![to.spec_code(), chip])
}

/// The hopping blocks of an empty LR-FHSS frame; none for another modem.
pub open spec fn probed_blocks(mode: PhyMode) -> int {
    match mode {
        PhyMode::LrFhss(p) => crate::airtime::ceil_div(
            crate::airtime::lrfhss_coded_bits(p.cr.spec_code(), 0),
            48,
        ),
        _ => 0,
    }
}

/// The line about a probe that the chip refused.
pub open spec fn probe_refusal(writing: bool, chip: u8) -> crate::serial::FrameView {
    ev(
        0x84,
        if writing {
            crate::lr_node::bridge::kv("HOP write REFUSED chip=", chip as u32, 40)
        } else {
            crate::lr_node::bridge::kv("HOP read REFUSED chip=", chip as u32, 40)
        },
    )
}

/// The line about a table that was read back.
pub open spec fn probe_readback(rsp: Seq<u8>) -> crate::serial::FrameView {
    ev(
        0x84,
        crate::lr_node::bridge::kv("HOP readback f0=", crate::bytes::u32_at(rsp, 2), 48),
    )
}

/// What follows from programming a new modem: it listens, or the old link is programmed again.
pub open spec fn applied_steps(tracing: bool, ok: bool) -> Seq<RadioStep> {
    if ok {
        seq![
            RadioStep::SetIrq { mask: crate::lr_node::irq::pin_mask(tracing) },
            RadioStep::ArmRx,
        ]
    } else {
        seq![RadioStep::ClearErrors, RadioStep::Apply]
    }
}

/// What follows from programming the old link again: it listens, on a reset chip if need be.
pub open spec fn reverted_steps(tracing: bool, ok: bool) -> Seq<RadioStep> {
    if ok {
        seq![RadioStep::ArmRx]
    } else {
        seq![
            RadioStep::ResetAndApply,
            RadioStep::SetIrq { mask: crate::lr_node::irq::pin_mask(tracing) },
            RadioStep::ArmRx,
        ]
    }
}

/// What follows from a new modem that listens, or does not.
pub open spec fn armed_steps(tracing: bool, ok: bool) -> Seq<RadioStep> {
    if ok {
        Seq::<RadioStep>::empty()
    } else {
        seq![
            RadioStep::ClearErrors,
            RadioStep::ResetAndApply,
            RadioStep::SetIrq { mask: crate::lr_node::irq::pin_mask(tracing) },
        ]
    }
}

/// The node after an interrupt word with its stamp.
pub open spec fn after_word(b: BridgeView, word: u32, stamp: u32) -> BridgeView {
    BridgeView {
        tl: b.tl.noted(crate::lr_node::irq::hops(word), word & 0x0004_0000 != 0, stamp),
        ..b
    }
}

/// Whether a word says that a frame waits, and that it is sound.
pub open spec fn frame_waits(word: u32) -> (bool, bool) {
    (word & 0x0004_0000 != 0, word & 0x0040_0000 == 0)
}

/// The node after a frame that was read, and what it looked like; one that is not sound, or that
/// could not be read, is not counted.
pub open spec fn read_frame(b: BridgeView, sound: bool, info: Option<RxInfo>) -> (
    BridgeView,
    Option<(i16, i16)>,
) {
    match info {
        Some(i) => if sound {
            (
                BridgeView { n_rx: b.n_rx.wrapping_add(1), ..b },
                Some(
                    (
                        i.rssi_dbm,
                        match i.snr_db {
                            Some(s) => s,
                            None => crate::lr_node::sense::snr_of(b.sense, i.rssi_dbm) as i16,
                        },
                    ),
                ),
            )
        } else {
            (b, None)
        },
        None => (b, None),
    }
}

/// What follows from the name plane's decision about a frame.
pub open spec fn heard_planned(
    debug: bool,
    action: PlaneAction,
    payload: Seq<u8>,
    rssi: i16,
    snr: i16,
    ts: u32,
    plan: HeardPlan,
) -> bool {
    let deliver = action is Deliver || action is RelayAndDeliver;
    let served = action matches PlaneAction::Serve { data } && data@.len() > 0;
    &&& plan.relay == (action is RelayAndDeliver)
    &&& plan.serve is Some <==> served
    &&& plan.serve matches Some(d) ==> (action matches PlaneAction::Serve { data } && d@ == data@)
    &&& plan.rearm == (served || plan.relay)
    &&& plan.log is Some <==> debug
    &&& plan.log matches Some(f) ==> f@ == ev(
        0x84,
        heard_line(served, plan.relay, deliver, payload.len() as u32),
    )
    &&& plan.deliver is Some <==> deliver
    &&& plan.deliver matches Some(f) ==> f@ == ev(
        0x81,
        crate::bytes::be16_signed(rssi) + crate::bytes::be16_signed(snr) + crate::bytes::be32(ts)
            + payload,
    )
}

/// The node after a look for the background sample, and whether one is due.
pub open spec fn sampling(b: BridgeView, now: u64) -> (BridgeView, bool) {
    if now >= b.next_sense {
        (BridgeView { next_sense: (now + 5_000) as u64, ..b }, true)
    } else {
        (b, false)
    }
}

/// The node after a look for the beacon, and the beacon where one is due.
pub open spec fn beaconing(b: BridgeView, now: u64) -> (BridgeView, Option<Seq<u8>>) {
    if b.beacon_on && now >= b.next_beacon {
        (
            BridgeView { next_beacon: (now + 1000 * b.beacon_period_ms) as u64, ..b },
            Some(BEACON_TEXT@ + crate::bytes::be32(b.beacon_seq)),
        )
    } else {
        (b, None)
    }
}

/// The node after a beacon, and the line about it where diagnostics are on.
pub open spec fn after_beacon(b: BridgeView, ok: bool) -> (
    BridgeView,
    Option<crate::serial::FrameView>,
) {
    (
        BridgeView {
            n_tx: b.n_tx.wrapping_add(1),
            beacon_seq: b.beacon_seq.wrapping_add(1),
            ..b
        },
        if b.debug {
            Some(
                ev(
                    0x84,
                    if ok {
                        crate::lr_node::bridge::kv("BCN seq=", b.beacon_seq, 32)
                    } else {
                        crate::lr_node::bridge::kv("BCN FAILED seq=", b.beacon_seq, 32)
                    },
                ),
            )
        } else {
            None
        },
    )
}

/// The views of a list of events.
pub open spec fn seen(frames: Vec<Frame>) -> Seq<crate::serial::FrameView> {
    frames@.map_values(|f: Frame| f@)
}

impl Bridge {
    /// The information event; status and errors are what the chip answered, if it did.
    pub fn info(&self, status: Option<(u8, u8)>, errors: Option<[u8; 4]>) -> (f: Frame)
        ensures
            f@ == ev(
                0x83,
                crate::lr_node::info::info_bytes(self.pr, self.st, self.sense, status, errors),
            ),
            forall|plan: LrPlanView|
                plan.ends_in_info() ==> #[trigger] plan.answered_by(f@.typ),
    {
        event(EVT_INFO, info_body(&self.pr, &self.st, &self.sense, status, errors))
    }

    /// The channel energy; 0 where it could not be read.
    pub fn rssi(&self, raw: Option<u16>) -> (f: Frame)
        ensures
            f@ == energy_event(raw),
            LrPlanView::Rssi.answered_by(f@.typ),
    {
        let dbm: i16 = match raw {
            Some(r) => dbm_of(r),
            None => 0,
        };
        let mut body: Vec<u8> = Vec::new();
        push_be16_signed(&mut body, dbm);
        assert(body@ =~= crate::bytes::be16_signed(dbm));
        event(EVT_RSSI, body)
    }

    /// The verdict of a sense that the host asked for.
    pub fn on_cad(&mut self, rssi_max: Option<u16>) -> (f: Frame)
        requires
            old(self).wf(),
        ensures
            final(self).wf(),
            f@ == verdict_event(old(self)@, rssi_max),
            final(self)@ == after_sense(old(self)@, rssi_max),
            forall|steps: u32| #[trigger] (LrPlanView::Cad { steps }).answered_by(f@.typ),
    {
        let busy: bool = self.sense.sensed(rssi_max);
        let mut body: Vec<u8> = Vec::new();
        body.push(
            if busy {
                1
            } else {
                0
            },
        );
        assert(body@ =~= seq![
            if busy {
                1u8
            } else {
                0u8
            },
        ]);
        event(EVT_CAD, body)
    }

    /// Activity so far and the channel energy, read again after the sense.
    pub fn on_sense(&mut self, rssi_max: Option<u16>, raw: Option<u16>) -> (f: Frame)
        requires
            old(self).wf(),
        ensures
            final(self).wf(),
            final(self)@ == after_sense(old(self)@, rssi_max),
            f@ == activity_event(final(self).sense.activity, raw),
            forall|steps: u32| #[trigger] (LrPlanView::Sense { steps }).answered_by(f@.typ),
    {
        let _busy: bool = self.sense.sensed(rssi_max);
        let dbm: i16 = match raw {
            Some(r) => dbm_of(r),
            None => 0,
        };
        let mut body: Vec<u8> = Vec::new();
        push_be16(&mut body, self.sense.activity);
        push_be16_signed(&mut body, dbm);
        assert(body@ =~= crate::bytes::be16(self.sense.activity) + crate::bytes::be16_signed(dbm));
        event(EVT_SENSE, body)
    }

    /// The counters of the name plane and of the channel access.
    pub fn stats(&self, p: PlaneStats) -> (f: Frame)
        ensures
            f@ == counters_event(self.sense, p),
            LrPlanView::Stats.answered_by(f@.typ),
    {
        let mut body: Vec<u8> = Vec::new();
        push_be32(&mut body, p.rx);
        push_be32(&mut body, p.filtered);
        push_be32(&mut body, p.deduped);
        push_be32(&mut body, p.served);
        push_be32(&mut body, p.relayed);
        push_be16(&mut body, self.sense.cad_busy);
        push_be16(&mut body, self.sense.defer);
        assert(body@ =~= crate::bytes::be32(p.rx) + crate::bytes::be32(p.filtered)
            + crate::bytes::be32(p.deduped) + crate::bytes::be32(p.served) + crate::bytes::be32(
            p.relayed,
        ) + crate::bytes::be16(self.sense.cad_busy) + crate::bytes::be16(self.sense.defer));
        event(EVT_STATS, body)
    }

    /// The on-air unit of a payload in FLRC; none where it does not fit.
    pub fn flrc_unit(&self, payload: &[u8]) -> (u: Option<[u8; FRAME_BYTES]>)
        ensures
            u is Some <==> payload@.len() <= 47,
            u matches Some(f) ==> f@ == crate::flrc_link::whitened(
                crate::flrc_link::plain_frame(payload@),
            ),
    {
        build_frame(payload)
    }

    /// A loaded frame: the announcement, and how long it may take once it is keyed up.
    pub fn tx_staged(&self, len: u16) -> (r: (Frame, u64))
        requires
            self.wf(),
            len <= 255,
        ensures
            r.0@ == ev(0x88, self.st.mode.announced(len as int)),
            r.1 == crate::lr_node::sense::timeout_ms(self.st.mode, len as int),
    {
        (event(EVT_TX_STARTED, self.st.airtime_ms_be(len)), tx_timeout_ms(&self.st, len))
    }

    /// A frame is keyed up at this reading of the counter.
    pub fn tx_keyed(&mut self, ticks: u32)
        requires
            old(self).wf(),
        ensures
            final(self).wf(),
            final(self)@ == old(self)@.keyed_up(ticks),
    {
        self.tl.push_tx_keyed(ticks);
    }

    /// An interrupt word during a transmission, with its stamp: whether the frame is out.
    pub fn tx_poll(&mut self, word: u32, stamp: u32) -> (sent: bool)
        requires
            old(self).wf(),
        ensures
            final(self).wf(),
            final(self)@ == after_word(old(self)@, word, stamp),
            sent == (word & 0x0008_0000 != 0),
    {
        self.tl.note_irq(word, stamp);
        tx_done(word)
    }

    /// Follows a keyed frame: it is looked for until `deadline`, in microseconds, and is out only by
    /// the chip's own word.
    pub fn poll_tx(&mut self, deadline: u64, ev: PollEvent) -> (next: PollNext)
        requires
            old(self).wf(),
        ensures
            final(self).wf(),
            (final(self)@, next) == old(self)@.polled(deadline, ev),
    {
        match ev {
            PollEvent::Turn { now } => {
                if now < deadline {
                    PollNext::Read
                } else {
                    PollNext::GiveUp
                }
            },
            PollEvent::Word { word, stamp } => match word {
                Some(w) => {
                    if self.tx_poll(w, stamp) {
                        PollNext::Sent
                    } else {
                        PollNext::Rest
                    }
                },
                None => PollNext::Rest,
            },
        }
    }

    /// The end of a transmission that the host asked for; `ticks` is the counter. The node then
    /// listens again.
    pub fn tx_finished(&mut self, kind: TxKind, ok: bool, ticks: u32) -> (frames: Vec<Frame>)
        requires
            old(self).wf(),
        ensures
            final(self).wf(),
            final(self)@ == old(self)@.transmitted(),
            seen(frames) == tx_events(old(self).debug, kind, ok, ticks),
            frames@.len() > 0,
            forall|payload: Seq<u8>, wait: bool| #[trigger]
                (LrPlanView::Transmit { payload, kind, wait }).answered_by(frames@.last()@.typ),
    {
        self.n_tx = self.n_tx.wrapping_add(1);
        let mut frames: Vec<Frame> = Vec::new();
        if self.debug {
            match kind {
                TxKind::Plain => {},
                TxKind::At { target } => {
                    let late: u32 = ticks.wrapping_sub(target);
                    frames.push(event(EVT_LOG, fmt_kv("TX_AT late_ticks=", late, 32)));
                },
                TxKind::Abs { target } => {
                    let late: u32 = ticks.wrapping_sub(target);
                    frames.push(event(EVT_LOG, fmt_kv("TX_AT_ABS late_ticks=", late, 40)));
                },
            }
        }
        frames.push(txdone(ok, 0));
        assert(seen(frames) =~= tx_events(old(self).debug, kind, ok, ticks));
        frames
    }

    /// The end of a transmission that listened first and that the host asked for.
    pub fn lbt_finished(&mut self, sent: bool, attempts: u8) -> (f: Frame)
        requires
            old(self).wf(),
        ensures
            final(self).wf(),
            final(self)@ == old(self)@.transmitted(),
            f@ == listened_event(sent, attempts),
            forall|payload: Seq<u8>| #[trigger]
                (LrPlanView::Listen { payload }).answered_by(f@.typ),
    {
        self.n_tx = self.n_tx.wrapping_add(1);
        txdone(sent, attempts)
    }

    /// Whether the new modem could be programmed. One that was refused is given up: the errors are
    /// cleared and the link is what it was.
    pub fn switch_applied(&mut self, prev: PhyState, ok: bool) -> (steps: Vec<RadioStep>)
        requires
            old(self).wf(),
            prev.wf(),
        ensures
            final(self).wf(),
            final(self)@ == (if ok {
                old(self)@
            } else {
                old(self)@.linked(prev@)
            }),
            steps@ == applied_steps(old(self)@.tl.tracing(), ok),
    {
        let mut steps: Vec<RadioStep> = Vec::new();
        if ok {
            steps.push(RadioStep::SetIrq { mask: dio_irq_mask(self.tl.armed()) });
            steps.push(RadioStep::ArmRx);
        } else {
            self.st = prev;
            steps.push(RadioStep::ClearErrors);
            steps.push(RadioStep::Apply);
        }
        steps
    }

    /// Whether the old modem could be programmed again; if not, the chip is reset.
    pub fn switch_reverted(&self, ok: bool) -> (steps: Vec<RadioStep>)
        ensures
            steps@ == reverted_steps(self@.tl.tracing(), ok),
    {
        let mut steps: Vec<RadioStep> = Vec::new();
        if !ok {
            steps.push(RadioStep::ResetAndApply);
            steps.push(RadioStep::SetIrq { mask: dio_irq_mask(self.tl.armed()) });
        }
        steps.push(RadioStep::ArmRx);
        steps
    }

    /// The answer to a modem that the chip refused, with the chip's own status.
    pub fn switch_refused(&self, to: Phy, chip: u8) -> (f: Frame)
        ensures
            f@ == modem_refused(to, chip),
            forall|prev: crate::lr_node::phy::PhyView| #[trigger]
                (LrPlanView::SwitchPhy { to, prev }).answered_by(f@.typ),
    {
        phy_err(to.code(), chip)
    }

    /// Whether the new modem listens. One that does not is kept, on a chip that has been reset.
    pub fn switch_armed(&self, ok: bool) -> (steps: Vec<RadioStep>)
        ensures
            steps@ == armed_steps(self@.tl.tracing(), ok),
    {
        let mut steps: Vec<RadioStep> = Vec::new();
        if !ok {
            steps.push(RadioStep::ClearErrors);
            steps.push(RadioStep::ResetAndApply);
            steps.push(RadioStep::SetIrq { mask: dio_irq_mask(self.tl.armed()) });
        }
        steps
    }

    /// The answer to a modem change that took.
    pub fn switch_done(&self, to: Phy, arm_refused: Option<u8>) -> (frames: Vec<Frame>)
        ensures
            seen(frames) == switch_events(self@, to, arm_refused),
            frames@.len() > 0,
            forall|prev: crate::lr_node::phy::PhyView| #[trigger]
                (LrPlanView::SwitchPhy { to, prev }).answered_by(frames@[0]@.typ),
    {
        let mut frames: Vec<Frame> = Vec::new();
        frames.push(event(EVT_CAP, caps_for(&self.pr, &self.st)));
        match arm_refused {
            Some(chip) => {
                frames.push(phy_err(to.code(), chip));
            },
            None => {},
        }
        assert(seen(frames) =~= switch_events(self@, to, arm_refused));
        frames
    }

    /// The hopping blocks of an empty LR-FHSS frame, for a probe of the hop table.
    pub fn probe_blocks(&self) -> (n: u16)
        ensures
            n == probed_blocks(self.st.mode),
    {
        match self.st.mode {
            PhyMode::LrFhss(p) => lrfhss_block_count(p.cr.code(), 0),
            _ => 0,
        }
    }

    /// The line about a probe that the chip refused, while writing or while reading.
    pub fn probe_refused(&self, writing: bool, chip: u8) -> (f: Frame)
        ensures
            f@ == probe_refusal(writing, chip),
    {
        if writing {
            event(EVT_LOG, fmt_kv("HOP write REFUSED chip=", chip as u32, 40))
        } else {
            event(EVT_LOG, fmt_kv("HOP read REFUSED chip=", chip as u32, 40))
        }
    }

    /// The line about a table that was read back: its first carrier, behind two bytes of status.
    pub fn probe_read(&self, rsp: &[u8]) -> (f: Frame)
        requires
            rsp.len() >= 6,
        ensures
            f@ == probe_readback(rsp@),
    {
        event(EVT_LOG, fmt_kv("HOP readback f0=", crate::bytes::get_be32(rsp, 2), 48))
    }

    /// An interrupt word while listening, with its stamp: whether a frame waits to be read, and
    /// whether it is sound.
    pub fn on_irq(&mut self, word: u32, stamp: u32) -> (r: (bool, bool))
        requires
            old(self).wf(),
        ensures
            final(self).wf(),
            final(self)@ == after_word(old(self)@, word, stamp),
            r == frame_waits(word),
    {
        self.tl.note_irq(word, stamp);
        (rx_done(word), !crc_error(word))
    }

    /// A frame that was read: its signal strength and its signal above the noise, from the chip
    /// where it has one. A frame that is not sound, or that could not be read, is not counted.
    pub fn on_frame(&mut self, sound: bool, info: Option<RxInfo>) -> (r: Option<(i16, i16)>)
        requires
            old(self).wf(),
        ensures
            final(self).wf(),
            (final(self)@, r) == read_frame(old(self)@, sound, info),
    {
        match info {
            Some(i) => {
                if !sound {
                    return None;
                }
                let snr: i16 = match i.snr_db {
                    Some(s) => s,
                    None => self.sense.snr_for(i.rssi_dbm),
                };
                self.n_rx = self.n_rx.wrapping_add(1);
                Some((i.rssi_dbm, snr))
            },
            None => None,
        }
    }

    /// What follows from the name plane's decision about a frame that was heard with `rssi` and
    /// `snr` at `ts`.
    pub fn on_heard(
        &self,
        action: PlaneAction,
        payload: &[u8],
        rssi: i16,
        snr: i16,
        ts: u32,
    ) -> (plan: HeardPlan)
        requires
            payload.len() <= 255,
        ensures
            heard_planned(self.debug, action, payload@, rssi, snr, ts, plan),
    {
        let (deliver, relay, serve): (bool, bool, Option<Vec<u8>>) = match action {
            PlaneAction::Drop => (false, false, None),
            PlaneAction::Serve { data } => {
                if data.len() > 0 {
                    (false, false, Some(data))
                } else {
                    (false, false, None)
                }
            },
            PlaneAction::Deliver => (true, false, None),
            PlaneAction::RelayAndDeliver => (true, true, None),
        };
        let served: bool = serve.is_some();
        let n: u32 = payload.len() as u32;
        let log: Option<Frame> = if self.debug {
            let line: Vec<u8> = if served {
                fmt_kv("RX served n=", n, 32)
            } else if relay {
                fmt_kv("RX relay n=", n, 32)
            } else if deliver {
                fmt_kv("RX deliver n=", n, 32)
            } else {
                fmt_kv("RX dropped n=", n, 32)
            };
            Some(event(EVT_LOG, line))
        } else {
            None
        };
        let out: Option<Frame> = if deliver {
            Some(rx_event(rssi, snr, ts, payload))
        } else {
            None
        };
        HeardPlan { log, serve, relay, rearm: served || relay, deliver: out }
    }

    /// Whether a background sample is due; if so the next is due one period later.
    pub fn sense_due(&mut self, now: u64) -> (due: bool)
        requires
            old(self).wf(),
            now <= u64::MAX - 5_000,
        ensures
            final(self).wf(),
            (final(self)@, due) == sampling(old(self)@, now),
    {
        if now >= self.next_sense {
            self.next_sense = now + crate::lr_node::sense::SENSE_PERIOD_MS * 1000;
            true
        } else {
            false
        }
    }

    /// The beacon to send, if one is due; the next is due one period later.
    pub fn beacon_due(&mut self, now: u64) -> (msg: Option<Vec<u8>>)
        requires
            old(self).wf(),
            now <= u64::MAX - 255_000_000,
        ensures
            final(self).wf(),
            final(self)@ == beaconing(old(self)@, now).0,
            msg is Some <==> beaconing(old(self)@, now).1 is Some,
            msg matches Some(m) ==> beaconing(old(self)@, now).1 == Some(m@),
    {
        if !self.beacon_on || now < self.next_beacon {
            return None;
        }
        self.next_beacon = now + 1000 * self.beacon_period_ms;
        let mut m: Vec<u8> = Vec::new();
        crate::bytes::push_all(&mut m, BEACON_TEXT.as_slice());
        push_be32(&mut m, self.beacon_seq);
        assert(m@ =~= BEACON_TEXT@ + crate::bytes::be32(self.beacon_seq));
        Some(m)
    }

    /// What became of a beacon: the line about it where diagnostics are on, and the next number.
    pub fn beacon_sent(&mut self, ok: bool) -> (log: Option<Frame>)
        requires
            old(self).wf(),
        ensures
            final(self).wf(),
            final(self)@ == after_beacon(old(self)@, ok).0,
            log is Some <==> after_beacon(old(self)@, ok).1 is Some,
            log matches Some(f) ==> after_beacon(old(self)@, ok).1 == Some(f@),
    {
        let seq_no: u32 = self.beacon_seq;
        self.n_tx = self.n_tx.wrapping_add(1);
        self.beacon_seq = self.beacon_seq.wrapping_add(1);
        if !self.debug {
            return None;
        }
        if ok {
            Some(event(EVT_LOG, fmt_kv("BCN seq=", seq_no, 32)))
        } else {
            Some(event(EVT_LOG, fmt_kv("BCN FAILED seq=", seq_no, 32)))
        }
    }
}

/// A modem that the chip refuses leaves no trace in the link: what was programmed before is
/// programmed again.
pub proof fn refused_switch_restores_the_link(
    b: BridgeView,
    code: u8,
    ticks: u32,
    now: u64,
    prev: crate::lr_node::phy::PhyView,
    to: Phy,
)
    requires
        crate::lr_node::bridge::decided(b, 0x1D, seq![code], ticks, now).1
            == (crate::lr_node::bridge::LrPlanView::SwitchPhy { to, prev }),
    ensures
        crate::lr_node::bridge::decided(b, 0x1D, seq![code], ticks, now).0.linked(prev).st == b.st,
{
}

/// The answer to a modem change comes before any complaint about its receiver.
pub proof fn capability_comes_first(b: BridgeView, to: Phy, arm_refused: Option<u8>)
    ensures
        switch_events(b, to, arm_refused)[0].typ == 0x8B,
        switch_events(b, to, arm_refused).len() == (if arm_refused is Some {
            2int
        } else {
            1int
        }),
{
}

} // verus!
