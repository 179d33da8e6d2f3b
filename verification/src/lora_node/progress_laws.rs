//! What holds of the node while the radio works: transmissions, detections, scans, waiting.

use vstd::prelude::*;

use crate::lora_node::csma::Csma;
use crate::lora_node::fire::{CadEvent, FireEvent, FireNext, IrqOutcome, Mode, RadioStep, TxResult};
use crate::lora_node::hop::Hop;
use crate::lora_node::lbt::CadOutcome;
use crate::lora_node::node::{Node, WaitSet};
use crate::lora_node::outcome::ScanNext;
use crate::lora_node::sched::SchedTx;
use crate::regs::RegOp;
use crate::serial::Frame;

verus! {

/// A transmission in progress ends exactly when the driver reports an end, when the radio fails, or
/// at its deadline, and counts as sent only by the driver's word. One that did not go out leaves the
/// radio by command, the deadline also clears what the radio still reports, and the radio is in
/// standby after every end and in no other mode before it than it was.
pub proof fn a_transmission_runs_to_its_end(hop_on: bool, ev: FireEvent, mode: Mode)
    ensures
        ({
            let next = crate::lora_node::fire::fire_step(hop_on, ev);
            let failed = ev == (FireEvent::Keyed { ok: false }) || ev == (FireEvent::Irq {
                ok: false,
            }) || ev == (FireEvent::Processed { outcome: IrqOutcome::Failed });
            let sent = ev == (FireEvent::Processed { outcome: IrqOutcome::Done }) || ev == (
            FireEvent::Processed { outcome: IrqOutcome::PreambleReceived });
            &&& next is End <==> failed || sent || ev is Timeout
            &&& next matches FireNext::End { standby, clear_irq, result } ==> {
                &&& result == TxResult::Sent <==> sent
                &&& result == TxResult::TimedOut <==> ev is Timeout
                &&& standby <==> !sent
                &&& clear_irq <==> ev is Timeout
            }
            &&& next is End ==> crate::lora_node::fire::mode_then(mode, next) == Mode::Standby
            &&& !(next is End) ==> crate::lora_node::fire::mode_then(mode, next) == mode
            &&& next is ProcessIrq <==> ev == (FireEvent::Irq { ok: true })
            &&& next is ServeHop <==> ev is Hop
        }),
{
}

/// A hop that cannot be served ends the hopping, in the chip and in the node, and not the
/// transmission; every other event leaves the hopping as it is, and its pin is waited for exactly
/// while it is on.
pub proof fn a_failed_hop_ends_only_the_hopping(h: Hop, ev: FireEvent)
    ensures
        ({
            let next = crate::lora_node::fire::fire_step(h.enabled, ev);
            let after = crate::lora_node::fire::hop_then(h, ev);
            let lost = ev == (FireEvent::HopServed { ok: false });
            &&& lost ==> next == (FireNext::Wait {
                first: Some(RegOp::Write { addr: 0x24, val: 0 }),
                hop: false,
            }) && !after.enabled
            &&& !lost ==> after == h
            &&& next matches FireNext::Wait { first, hop } ==> hop == after.enabled && (first is Some
                <==> lost)
            &&& after == (Hop { enabled: after.enabled, ..h })
        }),
{
}

/// A transmission is given up half a second after twice its airtime, and a detection five
/// milliseconds after eight symbols: neither before the radio can be done.
pub proof fn the_radio_gets_its_time(now: u64, air_ms: u32, more: u32, tsym_us: u64)
    requires
        air_ms <= more,
    ensures
        crate::lora_node::fire::given_up_at(now, air_ms) - now - 500_000 == 2 * (1000 * air_ms),
        crate::lora_node::fire::given_up_at(now, air_ms) <= crate::lora_node::fire::given_up_at(
            now,
            more,
        ),
        crate::lora_node::fire::detection_us(tsym_us) - 5_000 == 8 * tsym_us,
{
}

/// A detection heard something exactly if the driver detected it, found the channel clear exactly if
/// the driver did not, and failed otherwise; stale interrupts are cleared exactly then.
pub proof fn a_detection_ends_with_its_verdict(ev: CadEvent)
    ensures
        ({
            let (found, clear) = crate::lora_node::fire::cad_ended(ev);
            &&& found == CadOutcome::Heard <==> ev == (CadEvent::Processed { detected: true })
            &&& found == CadOutcome::Clear <==> ev == (CadEvent::Processed { detected: false })
            &&& found == CadOutcome::Failed <==> ev is RadioError || ev is Timeout
            &&& clear <==> ev is RadioError || ev is Timeout
        }),
{
}

/// The way to standby is taken exactly where the radio is not there, and ends there.
pub proof fn standby_is_reached(mode: Mode)
    ensures
        mode == Mode::Standby <==> mode.way_to_standby() is None,
        mode.way_to_standby() matches Some(step) ==> mode.after(step, true) == Mode::Standby,
        mode.after(RadioStep::Standby, false) == mode,
{
}

/// A scan goes through the spreading factors from the lowest on, ends at the first with activity, and
/// ends with 0 only behind the highest: step by step it comes to the result of the whole scan.
pub proof fn a_scan_goes_on_to_its_result(sf: u8, heard: spec_fn(u8) -> bool)
    requires
        7 <= sf <= 12,
    ensures
        match crate::lora_node::outcome::scan_then(sf, heard(sf)) {
            ScanNext::Finish { found } => crate::lora_node::outcome::scan_result(sf, heard) == found
                && (found == sf || (found == 0 && sf == 12 && !heard(sf))),
            ScanNext::Listen { sf: next } => !heard(sf) && next == sf + 1
                && crate::lora_node::outcome::scan_result(sf, heard)
                == crate::lora_node::outcome::scan_result(next, heard),
        },
{
    reveal_with_fuel(crate::lora_node::outcome::scan_result, 2);
}

/// The loop wakes in time: never later than a retry after a failed arming, than the next beacon while
/// it is on, than the next look at the scheduled transmission, or than an hour, and at one of these.
pub proof fn the_loop_wakes_in_time(n: Node, now: u64, arm_failed: bool, next_beacon: u64)
    ensures
        ({
            let t = n.wake_time(now, arm_failed, next_beacon);
            &&& t <= now + 3_600_000_000
            &&& arm_failed ==> t <= now + 250_000
            &&& n.beacon_on ==> t <= next_beacon
            &&& n.sched matches SchedTx::Pending { fire_at, stage_at, len, air_ms } ==> t <= stage_at
            &&& n.sched matches SchedTx::Staged { fire_at, len, air_ms } ==> t <= fire_at
            &&& t == now + 3_600_000_000 || (arm_failed && t == now + 250_000) || (n.beacon_on && t
                == next_beacon) || (n.sched.next_look() matches Some(s) && t == s)
        }),
{
}

/// A loaded frame keeps the radio: while there is one the receiver is not armed and only a command or
/// the timer can wake the loop; the hop pin is waited for exactly while the node hops and listens.
pub proof fn a_loaded_frame_keeps_the_radio(n: Node, rx_armed: bool)
    ensures
        n.sched is Staged ==> !n.arms(rx_armed) && n.waits() == WaitSet::CommandOrTimer,
        !(n.sched is Staged) ==> (n.arms(rx_armed) <==> !rx_armed),
        n.waits() == WaitSet::CommandIrqHopTimer <==> n.hop.enabled && !(n.sched is Staged),
        n.waits() == WaitSet::CommandOrTimer <==> n.sched is Staged,
{
}

/// Taking the radio back from a loaded frame leaves the frame waiting, for the same instant and with
/// the same bytes, and the radio in standby; without one nothing changes.
pub proof fn preempting_keeps_the_schedule(n: Node)
    requires
        n.wf(),
    ensures
        ({
            let after = n.preempted();
            &&& after.sched.deadline() == n.sched.deadline()
            &&& after.sched_buf == n.sched_buf
            &&& !(after.sched is Staged)
            &&& !(n.sched is Staged) ==> after == n
            &&& n.sched is Staged ==> after.sched is Pending && after.mode == Mode::Standby
            &&& after == (Node { sched: after.sched, mode: after.mode, ..n })
        }),
{
}

/// A frame that was loaded waits for the same instant in the radio; one that could not be is given
/// up, counted, and told to the host as not sent.
pub proof fn loading_keeps_the_instant(n: Node, ok: bool)
    requires
        n.sched is Pending,
    ensures
        ok ==> n.staged(ok).sched is Staged && n.staged(ok).sched.deadline() == n.sched.deadline()
            && n.staged(ok).radio_errors == n.radio_errors,
        !ok ==> n.staged(ok).sched is Idle,
        !ok && n.radio_errors < 65_535 ==> n.staged(ok).radio_errors == n.radio_errors + 1,
        n.staged(ok) == (Node {
            sched: n.staged(ok).sched,
            radio_errors: n.staged(ok).radio_errors,
            ..n
        }),
{
}

/// A scheduled transmission is answered once, with 1 exactly if it went out, behind a line where it
/// missed its instant or diagnostics are on.
pub proof fn a_scheduled_verdict_is_told(n: Node, fire_at: u64, keyed: u64, ok: bool)
    ensures
        ({
            let told = n.fired_events(fire_at, keyed, ok);
            let off: int = if keyed >= fire_at {
                keyed - fire_at
            } else {
                fire_at - keyed
            };
            &&& told.last().typ == 0x82 && told.last().payload.len() == 2
            &&& told.last().payload[0] == 1 <==> ok
            &&& told.last().payload[0] == 0 <==> !ok
            &&& told.last().payload[1] == 0
            &&& told.len() == (if off >= 100 || n.debug {
                2int
            } else {
                1
            })
            &&& told.len() == 2 ==> told[0].typ == 0x84
        }),
{
}

/// What fails is counted once and what goes well is not; a failed hop also ends the hopping.
pub proof fn failures_are_counted(n: Node, ok: bool)
    ensures
        ok ==> n.transmitted(ok) == n && n.hop_served(ok) == n,
        !ok && n.radio_errors < 65_535 ==> n.transmitted(ok).radio_errors == n.radio_errors + 1
            && n.hop_served(ok).radio_errors == n.radio_errors + 1,
        n.transmitted(ok) == (Node { radio_errors: n.transmitted(ok).radio_errors, ..n }),
        !ok ==> !n.hop_served(ok).hop.enabled,
        n.hop_served(ok) == (Node {
            radio_errors: n.hop_served(ok).radio_errors,
            hop: Hop { enabled: n.hop_served(ok).hop.enabled, ..n.hop },
            ..n
        }),
{
}

/// A look at the modem is answered with the capabilities exactly where the chip says that it runs
/// LoRa, else with a complaint that names the modem asked for and what the chip said; only that is
/// counted as a failure.
pub proof fn the_modem_is_answered_for(
    n: Node,
    want: u8,
    op_mode: Option<u8>,
    after: Node,
    replies: Seq<Frame>,
)
    requires
        crate::lora_node::outcome::phy_answered(n, want, op_mode, after, replies),
    ensures
        op_mode matches Some(op) ==> {
            &&& op >= 128 ==> after == n && replies.len() == 1 && replies[0]@.typ == 0x8B
            &&& op < 128 ==> replies.len() == 1 && replies[0]@.typ == 0x8D && replies[0]@.payload
                == seq![want, op]
            &&& op < 128 && n.radio_errors < 65_535 ==> after.radio_errors == n.radio_errors + 1
        },
        op_mode is None ==> replies.len() == 2 && replies[0]@.typ == 0x84 && replies[1]@.typ == 0x8D
            && replies[1]@.payload == seq![want, 0u8],
        op_mode is None && n.radio_errors < 65_535 ==> after.radio_errors == n.radio_errors + 1,
        after == (Node { radio_errors: after.radio_errors, ..n }),
{
    if let Some(op) = op_mode {
        assert((op & 0x80 != 0) <==> op >= 128) by (bit_vector);
    }
}

/// The generator is never seeded with zero, each of its three sources counts, and nothing else of the
/// channel access changes: of two seeds that differ in one source alone, unless one of them had to be
/// replaced, the words differ too.
pub proof fn every_source_counts_in_the_seed(
    c: Csma,
    mac: Seq<u8>,
    other: Seq<u8>,
    r: u32,
    q: u32,
    t: u32,
    u: u32,
)
    ensures
        ({
            let s = c.seeded(mac, r, t as u64).rng;
            let spare: u32 = 0xA5A5_5A5A;
            &&& s != 0
            &&& c.seeded(mac, r, t as u64) == (Csma { rng: s, ..c })
            &&& r != q && s != spare ==> c.seeded(mac, q, t as u64).rng != s
            &&& t != u && s != spare ==> c.seeded(mac, r, u as u64).rng != s
            &&& crate::bytes::u32_at(mac, 2) != crate::bytes::u32_at(other, 2) && s != spare
                ==> c.seeded(other, r, t as u64).rng != s
        }),
{
    let m = crate::bytes::u32_at(mac, 2);
    let o = crate::bytes::u32_at(other, 2);
    assert((r != q ==> (m ^ r) ^ t != (m ^ q) ^ t) && (t != u ==> (m ^ r) ^ t != (m ^ r) ^ u) && (m
        != o ==> (m ^ r) ^ t != (o ^ r) ^ t)) by (bit_vector);
}

/// The generator is the shift by 13 left, 17 right and 5 left, each mixed into the word before it; a
/// draw moves it and nothing else.
pub proof fn the_generator_shifts_three_times(c: Csma)
    ensures
        ({
            let x = c.rng;
            let a = x ^ (x << 13u32);
            let b = a ^ (a >> 17u32);
            &&& crate::lora_node::csma::xorshift(x) == b ^ (b << 5u32)
            &&& crate::lora_node::lbt::drawn(c) == (Csma { rng: b ^ (b << 5u32), ..c })
        }),
{
}

/// An access that fails is counted once, up to the largest count, and one that goes well is not.
pub proof fn failed_accesses_are_counted(errors: u16, ok: bool)
    ensures
        ok ==> crate::lora_node::outcome::errors_after(errors, ok) == errors,
        !ok && errors < 65_535 ==> crate::lora_node::outcome::errors_after(errors, ok) == errors + 1,
        !ok && errors == 65_535 ==> crate::lora_node::outcome::errors_after(errors, ok) == 65_535,
{
}

/// A scan never listens above the twelfth spreading factor: it takes the next one above while there is
/// one, and ends there with nothing found.
pub proof fn a_scan_stays_on_the_ladder(sf: u8)
    requires
        sf <= 12,
    ensures
        crate::lora_node::outcome::scan_then(sf, true) == (ScanNext::Finish { found: sf }),
        sf < 12 ==> (crate::lora_node::outcome::scan_then(sf, false) matches ScanNext::Listen {
            sf: next,
        } && next == sf + 1),
        sf == 12 ==> crate::lora_node::outcome::scan_then(sf, false) == (ScanNext::Finish { found: 0 }),
{
}

/// A busy channel and a given-up transmission count once each, and change nothing else.
pub proof fn busy_channels_count_once(c: Csma)
    requires
        c.cad_busy < u16::MAX,
        c.defer < u16::MAX,
    ensures
        crate::lora_node::lbt::busy_counted(c).cad_busy == c.cad_busy + 1,
        crate::lora_node::lbt::deferred(c).defer == c.defer + 1,
        crate::lora_node::lbt::busy_counted(c) == (Csma {
            cad_busy: crate::lora_node::lbt::busy_counted(c).cad_busy,
            ..c
        }),
        crate::lora_node::lbt::deferred(c) == (Csma {
            defer: crate::lora_node::lbt::deferred(c).defer,
            ..c
        }),
{
}

} // verus!
