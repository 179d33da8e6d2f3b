//! What the node tells the radio to do around one transmission, one detection, one reception, and
//! how each of them ends.

use vstd::prelude::*;

use crate::lora_node::hop::Hop;
use crate::lora_node::lbt::CadOutcome;
use crate::lora_node::params::Params;
use crate::regs::RegOp;

verus! {

/// What the driver made of an interrupt.
#[derive(Clone, Copy, PartialEq, Eq, Structural)]
pub enum IrqOutcome {
    Done,
    PreambleReceived,
    Nothing,
    Failed,
}

/// What happened to a transmission in progress.
#[derive(Clone, Copy, PartialEq, Eq, Structural)]
pub enum FireEvent {
    /// The transmitter was keyed, or keying failed.
    Keyed { ok: bool },
    /// The interrupt wait ended.
    Irq { ok: bool },
    /// The driver has looked at the interrupt.
    Processed { outcome: IrqOutcome },
    /// The hop pin is up.
    Hop,
    /// A hop was served, or its service failed.
    HopServed { ok: bool },
    /// The deadline has passed.
    Timeout,
}

/// How a transmission ended.
#[derive(Clone, Copy, PartialEq, Eq, Structural)]
pub enum TxResult {
    Sent,
    RadioError,
    TimedOut,
}

/// What to do next about a transmission in progress.
#[derive(Clone, Copy, PartialEq, Eq, Structural)]
pub enum FireNext {
    /// Perform the access, where there is one, then wait for the interrupt and the deadline, and
    /// for the hop pin where `hop` says so.
    Wait { first: Option<RegOp>, hop: bool },
    /// Let the driver look at the interrupt.
    ProcessIrq,
    /// Serve the hop.
    ServeHop,
    /// It is over: go to standby and clear the interrupts as told.
    End { standby: bool, clear_irq: bool, result: TxResult },
}

/// What mode the radio is in. The driver keeps no record of it, so the node does.
#[derive(Clone, Copy, PartialEq, Eq, Structural)]
pub enum Mode {
    Standby,
    Receive,
    Transmit,
    Detect,
}

/// How a transmission in progress goes on.
pub open spec fn fire_step(hop_on: bool, ev: FireEvent) -> FireNext {
    match ev {
        FireEvent::Keyed { ok } => if ok {
            FireNext::Wait { first: None, hop: hop_on }
        } else {
            FireNext::End { standby: true, clear_irq: false, result: TxResult::RadioError }
        },
        FireEvent::Irq { ok } => if ok {
            FireNext::ProcessIrq
        } else {
            FireNext::End { standby: true, clear_irq: false, result: TxResult::RadioError }
        },
        FireEvent::Processed { outcome } => match outcome {
            IrqOutcome::Done => FireNext::End {
                standby: false,
                clear_irq: false,
                result: TxResult::Sent,
            },
            IrqOutcome::PreambleReceived => FireNext::End {
                standby: false,
                clear_irq: false,
                result: TxResult::Sent,
            },
            IrqOutcome::Nothing => FireNext::Wait { first: None, hop: hop_on },
            IrqOutcome::Failed => FireNext::End {
                standby: true,
                clear_irq: false,
                result: TxResult::RadioError,
            },
        },
        FireEvent::Hop => FireNext::ServeHop,
        FireEvent::HopServed { ok } => if ok {
            FireNext::Wait { first: None, hop: hop_on }
        } else {
            FireNext::Wait { first: Some(RegOp::Write { addr: 0x24, val: 0 }), hop: false }
        },
        FireEvent::Timeout => FireNext::End {
            standby: true,
            clear_irq: true,
            result: TxResult::TimedOut,
        },
    }
}

/// The mode of the radio after a step: standby where the transmission is over.
pub open spec fn mode_then(mode: Mode, next: FireNext) -> Mode {
    if next is End {
        Mode::Standby
    } else {
        mode
    }
}

/// The hopping after an event: off where a hop could not be served.
pub open spec fn hop_then(hop: Hop, ev: FireEvent) -> Hop {
    if ev == (FireEvent::HopServed { ok: false }) {
        Hop { enabled: false, ..hop }
    } else {
        hop
    }
}

/// Takes an event of a transmission in progress. A hop whose service fails ends the hopping, not
/// the transmission. However it ends, the radio is in standby then: by command, or because the
/// chip went there by itself.
pub fn fire_tx(hop: &mut Hop, mode: &mut Mode, ev: FireEvent) -> (next: FireNext)
    requires
        old(hop).wf(),
    ensures
        final(hop).wf(),
        *final(mode) == mode_then(*old(mode), next),
        next == fire_step(old(hop).enabled, ev),
        *final(hop) == hop_then(*old(hop), ev),
{
    let next: FireNext = match ev {
        FireEvent::Keyed { ok } => {
            if ok {
                FireNext::Wait { first: None, hop: hop.enabled }
            } else {
                FireNext::End { standby: true, clear_irq: false, result: TxResult::RadioError }
            }
        },
        FireEvent::Irq { ok } => {
            if ok {
                FireNext::ProcessIrq
            } else {
                FireNext::End { standby: true, clear_irq: false, result: TxResult::RadioError }
            }
        },
        FireEvent::Processed { outcome } => match outcome {
            IrqOutcome::Done | IrqOutcome::PreambleReceived => {
                FireNext::End { standby: false, clear_irq: false, result: TxResult::Sent }
            },
            IrqOutcome::Nothing => FireNext::Wait { first: None, hop: hop.enabled },
            IrqOutcome::Failed => {
                FireNext::End { standby: true, clear_irq: false, result: TxResult::RadioError }
            },
        },
        FireEvent::Hop => FireNext::ServeHop,
        FireEvent::HopServed { ok } => {
            if ok {
                FireNext::Wait { first: None, hop: hop.enabled }
            } else {
                let op: RegOp = hop.abandon();
                FireNext::Wait { first: Some(op), hop: false }
            }
        },
        FireEvent::Timeout => {
            FireNext::End { standby: true, clear_irq: true, result: TxResult::TimedOut }
        },
    };
    match next {
        FireNext::End { .. } => {
            *mode = Mode::Standby;
        },
        _ => {},
    }
    next
}

/// A transmission is reported as sent only where the driver said so, and it always ends at its
/// deadline.
pub proof fn only_the_driver_reports_success(hop_on: bool, ev: FireEvent)
    ensures
        fire_step(hop_on, ev) matches FireNext::End { standby, clear_irq, result }
            && result == TxResult::Sent ==> ev == (FireEvent::Processed {
            outcome: IrqOutcome::Done,
        }) || ev == (FireEvent::Processed { outcome: IrqOutcome::PreambleReceived }),
        fire_step(hop_on, FireEvent::Timeout) is End,
{
}

/// When a transmission is given up.
pub open spec fn given_up_at(now: u64, air_ms: u32) -> int {
    now + (2 * air_ms + 500) * 1000
}

/// When a transmission is given up: twice its airtime and half a second after keying.
pub fn fire_deadline(now: u64, air_ms: u32) -> (t: u64)
    requires
        now + (2 * air_ms + 500) * 1000 <= u64::MAX,
    ensures
        t == given_up_at(now, air_ms),
{
    now + (air_ms as u64 * 2 + 500) * 1000
}

/// How long a detection may take.
pub open spec fn detection_us(tsym_us: u64) -> int {
    8 * tsym_us + 5_000
}

/// How long a detection may take: eight symbols and five milliseconds.
pub fn cad_bound_us(tsym_us: u64) -> (us: u64)
    requires
        8 * tsym_us + 5_000 <= u64::MAX,
    ensures
        us == detection_us(tsym_us),
{
    tsym_us * 8 + 5_000
}

/// How a detection ended.
#[derive(Clone, Copy, PartialEq, Eq, Structural)]
pub enum CadEvent {
    /// The driver has looked at the interrupt.
    Processed { detected: bool },
    /// The interrupt wait or the driver failed.
    RadioError,
    /// No interrupt came.
    Timeout,
}

/// What a detection found, and whether stale interrupts must be cleared behind it.
pub open spec fn cad_ended(ev: CadEvent) -> (CadOutcome, bool) {
    match ev {
        CadEvent::Processed { detected } => if detected {
            (CadOutcome::Heard, false)
        } else {
            (CadOutcome::Clear, false)
        },
        _ => (CadOutcome::Failed, true),
    }
}

/// What a detection found, and whether stale interrupts must be cleared behind it. The radio goes
/// to standby in any case.
pub fn cad_end(mode: &mut Mode, ev: CadEvent) -> (r: (CadOutcome, bool))
    ensures
        *final(mode) == Mode::Standby,
        r == cad_ended(ev),
{
    *mode = Mode::Standby;
    match ev {
        CadEvent::Processed { detected } => {
            if detected {
                (CadOutcome::Heard, false)
            } else {
                (CadOutcome::Clear, false)
            }
        },
        CadEvent::RadioError | CadEvent::Timeout => (CadOutcome::Failed, true),
    }
}

/// What the radio is prepared for.
#[derive(Clone, Copy, PartialEq, Eq, Structural)]
pub enum Task {
    Receive,
    Transmit,
    Detect,
}

/// One step of preparing the radio.
#[derive(Clone, Copy, PartialEq, Eq, Structural)]
pub enum RadioStep {
    Standby,
    /// The modulation, for a carrier.
    Modulation { sf: u8, bw_hz: u32, cr: u8, hz: u32 },
    /// Power and ramp for transmitting.
    Power { dbm: i8 },
    /// Write the detector registers again that the modulation has overwritten.
    Detector { opt: u8, thresh: u8 },
    /// Explicit header, CRC, and room for `len` bytes.
    Packet { preamble: u16, len: u8 },
    Channel { hz: u32 },
    /// Load the frame.
    Payload,
    /// Program the interrupts of the task.
    Interrupts { task: Task },
    /// Let the hop interrupt through again that the previous step has masked.
    UnmaskHop,
    /// Start to receive.
    Receive,
    /// Start a detection.
    Detect,
    /// Write the gain register again that the previous step has overwritten.
    Gain { reg: u8 },
}

impl Mode {
    /// The mode of a task.
    pub open spec fn of(task: Task) -> Mode {
        match task {
            Task::Receive => Mode::Receive,
            Task::Transmit => Mode::Transmit,
            Task::Detect => Mode::Detect,
        }
    }

    /// The mode after a step that went well or failed. Programming the interrupts of a task counts
    /// as having left the mode before, even where it fails.
    pub open spec fn after(self, step: RadioStep, ok: bool) -> Mode {
        match step {
            RadioStep::Standby => if ok {
                Mode::Standby
            } else {
                self
            },
            RadioStep::Interrupts { task } => Mode::of(task),
            _ => self,
        }
    }

    /// The mode after steps that all went well.
    pub open spec fn after_all(self, steps: Seq<RadioStep>) -> Mode
        decreases steps.len(),
    {
        if steps.len() == 0 {
            self
        } else {
            self.after_all(steps.drop_last()).after(steps.last(), true)
        }
    }

    /// The step that leads to standby, where one is needed.
    pub open spec fn way_to_standby(self) -> Option<RadioStep> {
        if self == Mode::Standby {
            None
        } else {
            Some(RadioStep::Standby)
        }
    }

    /// Takes note of a step.
    pub fn stepped(&mut self, step: &RadioStep, ok: bool)
        ensures
            *final(self) == old(self).after(*step, ok),
    {
        match step {
            RadioStep::Standby => {
                if ok {
                    *self = Mode::Standby;
                }
            },
            RadioStep::Interrupts { task } => {
                *self = match task {
                    Task::Receive => Mode::Receive,
                    Task::Transmit => Mode::Transmit,
                    Task::Detect => Mode::Detect,
                };
            },
            _ => {},
        }
    }

    /// The step that enters standby, where the radio is not there yet.
    pub fn to_standby(self) -> (step: Option<RadioStep>)
        ensures
            step == self.way_to_standby(),
    {
        if self == Mode::Standby {
            None
        } else {
            Some(RadioStep::Standby)
        }
    }
}

fn push_detector(steps: &mut Vec<RadioStep>, det: Option<(u8, u8)>)
    ensures
        final(steps)@ == old(steps)@ + detector_step(det),
{
    let ghost before = steps@;
    match det {
        Some((opt, thresh)) => {
            steps.push(RadioStep::Detector { opt, thresh });
        },
        None => {},
    }
    assert(steps@ =~= before + detector_step(det));
}

fn push_gain(steps: &mut Vec<RadioStep>, lna: Option<u8>)
    ensures
        final(steps)@ == old(steps)@ + gain_step(lna),
{
    let ghost before = steps@;
    match lna {
        Some(v) => {
            if v != 0x23 {
                steps.push(RadioStep::Gain { reg: v });
            }
        },
        None => {},
    }
    assert(steps@ =~= before + gain_step(lna));
}

/// The detector is written again where the host has set it.
pub open spec fn detector_step(det: Option<(u8, u8)>) -> Seq<RadioStep> {
    match det {
        Some((opt, thresh)) => seq![RadioStep::Detector { opt, thresh }],
        None => Seq::empty(),
    }
}

/// The gain is written again where the host has set it to something else than the driver does.
pub open spec fn gain_step(lna: Option<u8>) -> Seq<RadioStep> {
    match lna {
        Some(v) => if v != 0x23 {
            seq![RadioStep::Gain { reg: v }]
        } else {
            Seq::empty()
        },
        None => Seq::empty(),
    }
}

/// Standby is entered only from another mode.
pub open spec fn standby_step(mode: Mode) -> Seq<RadioStep> {
    if mode == Mode::Standby {
        Seq::empty()
    } else {
        seq![RadioStep::Standby]
    }
}

/// The hop interrupt is let through where hopping is on.
pub open spec fn hop_step(enabled: bool) -> Seq<RadioStep> {
    if enabled {
        seq![RadioStep::UnmaskHop]
    } else {
        Seq::empty()
    }
}

/// The modulation of a set of parameters.
pub open spec fn modulation_step(p: Params) -> RadioStep {
    RadioStep::Modulation { sf: p.sf, bw_hz: p.bw_hz, cr: p.cr, hz: p.freq_hz }
}

fn modulation(p: &Params) -> (s: RadioStep)
    ensures
        s == modulation_step(*p),
{
    RadioStep::Modulation { sf: p.sf, bw_hz: p.bw_hz, cr: p.cr, hz: p.freq_hz }
}

/// The steps that arm the receiver.
pub open spec fn rx_steps(
    mode: Mode,
    p: Params,
    preamble: u16,
    det: Option<(u8, u8)>,
    lna: Option<u8>,
    hop_enabled: bool,
) -> Seq<RadioStep> {
    standby_step(mode) + seq![modulation_step(p)] + detector_step(det) + seq![
        RadioStep::Packet { preamble, len: 255 },
        RadioStep::Channel { hz: p.freq_hz },
        RadioStep::Interrupts { task: Task::Receive },
    ] + hop_step(hop_enabled) + seq![RadioStep::Receive] + gain_step(lna)
}

/// The steps that load a frame, up to keying.
pub open spec fn tx_steps(
    mode: Mode,
    p: Params,
    preamble: u16,
    len: u8,
    hop_enabled: bool,
) -> Seq<RadioStep> {
    standby_step(mode) + seq![
        modulation_step(p),
        RadioStep::Power { dbm: p.pwr },
        RadioStep::Packet { preamble, len },
        RadioStep::Channel { hz: p.freq_hz },
        RadioStep::Payload,
        RadioStep::Interrupts { task: Task::Transmit },
    ] + hop_step(hop_enabled)
}

/// The steps that start a detection.
pub open spec fn cad_steps(
    mode: Mode,
    p: Params,
    det: Option<(u8, u8)>,
    lna: Option<u8>,
) -> Seq<RadioStep> {
    standby_step(mode) + seq![modulation_step(p)] + detector_step(det) + seq![
        RadioStep::Channel { hz: p.freq_hz },
        RadioStep::Interrupts { task: Task::Detect },
        RadioStep::Detect,
    ] + gain_step(lna)
}

/// Arms the receiver.
pub fn arm_rx(
    mode: Mode,
    p: &Params,
    preamble: u16,
    det: Option<(u8, u8)>,
    lna: Option<u8>,
    hop_enabled: bool,
) -> (steps: Vec<RadioStep>)
    ensures
        steps@ == rx_steps(mode, *p, preamble, det, lna, hop_enabled),
{
    let mut steps: Vec<RadioStep> = Vec::new();
    if mode != Mode::Standby {
        steps.push(RadioStep::Standby);
    }
    steps.push(modulation(p));
    push_detector(&mut steps, det);
    steps.push(RadioStep::Packet { preamble, len: 255 });
    steps.push(RadioStep::Channel { hz: p.freq_hz });
    steps.push(RadioStep::Interrupts { task: Task::Receive });
    if hop_enabled {
        steps.push(RadioStep::UnmaskHop);
    }
    steps.push(RadioStep::Receive);
    push_gain(&mut steps, lna);
    assert(steps@ =~= rx_steps(mode, *p, preamble, det, lna, hop_enabled));
    steps
}

/// Loads a frame of `len` bytes, up to keying.
pub fn stage_tx(mode: Mode, p: &Params, preamble: u16, len: u8, hop_enabled: bool) -> (steps:
    Vec<RadioStep>)
    ensures
        steps@ == tx_steps(mode, *p, preamble, len, hop_enabled),
{
    let mut steps: Vec<RadioStep> = Vec::new();
    if mode != Mode::Standby {
        steps.push(RadioStep::Standby);
    }
    steps.push(modulation(p));
    steps.push(RadioStep::Power { dbm: p.pwr });
    steps.push(RadioStep::Packet { preamble, len });
    steps.push(RadioStep::Channel { hz: p.freq_hz });
    steps.push(RadioStep::Payload);
    steps.push(RadioStep::Interrupts { task: Task::Transmit });
    if hop_enabled {
        steps.push(RadioStep::UnmaskHop);
    }
    assert(steps@ =~= tx_steps(mode, *p, preamble, len, hop_enabled));
    steps
}

/// Starts a detection.
pub fn start_cad(mode: Mode, p: &Params, det: Option<(u8, u8)>, lna: Option<u8>) -> (steps:
    Vec<RadioStep>)
    ensures
        steps@ == cad_steps(mode, *p, det, lna),
{
    let mut steps: Vec<RadioStep> = Vec::new();
    if mode != Mode::Standby {
        steps.push(RadioStep::Standby);
    }
    steps.push(modulation(p));
    push_detector(&mut steps, det);
    steps.push(RadioStep::Channel { hz: p.freq_hz });
    steps.push(RadioStep::Interrupts { task: Task::Detect });
    steps.push(RadioStep::Detect);
    push_gain(&mut steps, lna);
    assert(steps@ =~= cad_steps(mode, *p, det, lna));
    steps
}

/// Step `a` stands in the list, and step `b` somewhere behind it.
pub open spec fn followed_by(steps: Seq<RadioStep>, a: RadioStep, b: RadioStep) -> bool {
    exists|i: int, j: int|
        0 <= i < j < steps.len() && #[trigger] steps[i] == a && #[trigger] steps[j] == b
}

/// The driver overwrites the detector with every modulation, masks the hop interrupt with every
/// task and resets the gain with every start. What the host has set is put back behind each: the
/// detector behind the modulation, the hop interrupt behind the interrupts, the gain at the end.
pub proof fn settings_survive_the_driver(
    mode: Mode,
    p: Params,
    preamble: u16,
    len: u8,
    det: Option<(u8, u8)>,
    lna: Option<u8>,
    hop: bool,
)
    ensures
        ({
            let rx = rx_steps(mode, p, preamble, det, lna, hop);
            let tx = tx_steps(mode, p, preamble, len, hop);
            let cad = cad_steps(mode, p, det, lna);
            &&& det matches Some((opt, thresh)) ==> {
                &&& followed_by(rx, modulation_step(p), RadioStep::Detector { opt, thresh })
                &&& followed_by(cad, modulation_step(p), RadioStep::Detector { opt, thresh })
            }
            &&& hop ==> {
                &&& followed_by(
                    rx,
                    RadioStep::Interrupts { task: Task::Receive },
                    RadioStep::UnmaskHop,
                )
                &&& followed_by(
                    tx,
                    RadioStep::Interrupts { task: Task::Transmit },
                    RadioStep::UnmaskHop,
                )
            }
            &&& lna matches Some(reg) ==> (reg != 0x23 ==> {
                &&& rx.last() == (RadioStep::Gain { reg })
                &&& cad.last() == (RadioStep::Gain { reg })
            })
        }),
{
    let rx = rx_steps(mode, p, preamble, det, lna, hop);
    let tx = tx_steps(mode, p, preamble, len, hop);
    let cad = cad_steps(mode, p, det, lna);
    let m: int = standby_step(mode).len() as int;
    let d: int = detector_step(det).len() as int;
    assert(rx[m] == modulation_step(p) && cad[m] == modulation_step(p));
    if det is Some {
        assert(rx[m + 1] == detector_step(det)[0] && cad[m + 1] == detector_step(det)[0]);
    }
    if hop {
        assert(rx[m + d + 3] == (RadioStep::Interrupts { task: Task::Receive }));
        assert(rx[m + d + 4] == RadioStep::UnmaskHop);
        assert(tx[m + 5] == (RadioStep::Interrupts { task: Task::Transmit }));
        assert(tx[m + 6] == RadioStep::UnmaskHop);
    }
}

proof fn lemma_last_task(mode: Mode, steps: Seq<RadioStep>, k: int, task: Task)
    requires
        0 <= k < steps.len(),
        steps[k] == (RadioStep::Interrupts { task }),
        forall|j: int|
            k < j < steps.len() ==> (#[trigger] steps[j]) !is Interrupts && steps[j] !is Standby,
    ensures
        mode.after_all(steps) == Mode::of(task),
    decreases steps.len(),
{
    if k < steps.len() - 1 {
        let rest = steps.drop_last();
        assert forall|j: int| k < j < rest.len() implies (#[trigger] rest[j]) !is Interrupts
            && rest[j] !is Standby by {
            assert(rest[j] == steps[j]);
        }
        lemma_last_task(mode, rest, k, task);
        assert(steps.last() == steps[steps.len() - 1]);
    }
}

/// Preparing the radio ends in the mode of its task, from whatever mode it began.
pub proof fn preparation_ends_in_its_mode(
    mode: Mode,
    p: Params,
    preamble: u16,
    len: u8,
    det: Option<(u8, u8)>,
    lna: Option<u8>,
    hop: bool,
)
    ensures
        mode.after_all(rx_steps(mode, p, preamble, det, lna, hop)) == Mode::Receive,
        mode.after_all(tx_steps(mode, p, preamble, len, hop)) == Mode::Transmit,
        mode.after_all(cad_steps(mode, p, det, lna)) == Mode::Detect,
{
    let m: int = standby_step(mode).len() as int;
    let d: int = detector_step(det).len() as int;
    lemma_last_task(
        mode,
        rx_steps(mode, p, preamble, det, lna, hop),
        m + d + 3,
        Task::Receive,
    );
    lemma_last_task(mode, tx_steps(mode, p, preamble, len, hop), m + 5, Task::Transmit);
    lemma_last_task(mode, cad_steps(mode, p, det, lna), m + d + 2, Task::Detect);
}

} // verus!
