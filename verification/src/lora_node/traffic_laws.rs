//! What a host that sends, listens and measures can rely on.

use vstd::prelude::*;

use crate::lora_node::command::Plan;
use crate::lora_node::fire::{Mode, RadioStep, Task};
use crate::lora_node::lbt::{CadOutcome, Lbt, LbtAction, LbtEvent};
use crate::lora_node::node::{Beacon, Node, PlaneAction, RxPlan, TimerPlan};
use crate::lora_node::params::Params;
use crate::lora_node::sched::SchedTx;

verus! {

/// A frame's time on air as the node announces it is never shorter than the frame and never a whole
/// millisecond longer; the start event carries it as far as its two bytes reach.
pub proof fn announced_airtime_covers_the_frame(p: Params, len: int, preamble: u16)
    requires
        p.wf(),
        0 <= len <= 255,
    ensures
        ({
            let us = crate::airtime::lora_total_us(p.sf, p.bw_hz, p.cr, len as u16, preamble);
            let ms = crate::lora_node::params::frame_ms(p, len, preamble);
            let told = crate::lora_node::node::started_event(ms as u32);
            &&& us <= ms * 1000 < us + 1000
            &&& told.typ == 0x88 && told.payload.len() == 2
            &&& ms <= 65_535 ==> crate::bytes::u16_at(told.payload, 0) == ms
            &&& ms > 65_535 ==> crate::bytes::u16_at(told.payload, 0) == 65_535
        }),
{
    crate::lora_node::params::lemma_frame_ms_bound(p, len, preamble);
    let ms = crate::lora_node::params::frame_ms(p, len, preamble);
    crate::bytes::be_round_trip(crate::lora_node::params::started_ms(ms as u32), 0, 0);
}

/// Every body that a host asks to send is sent: no length and no content is refused, the node stays
/// as it was, and what is announced is the airtime of exactly that many bytes. Only the command that
/// asks for it listens first.
pub proof fn every_body_is_sent(
    n: Node,
    buf: Seq<u8>,
    now: u64,
    after: Node,
    plan: Plan,
    after_lbt: Node,
    plan_lbt: Plan,
)
    requires
        crate::lora_node::command::decided(n, 0x01, buf, now, after, plan),
        crate::lora_node::command::decided(n, 0x0E, buf, now, after_lbt, plan_lbt),
    ensures
        after == n && after_lbt == n,
        plan matches Plan::Transmit { air_ms } && air_ms == crate::lora_node::params::frame_ms(
            n.p,
            buf.len() as int,
            n.csma.preamble,
        ) as u32,
        plan_lbt matches Plan::TransmitLbt { started } && started@.typ == 0x88,
        plan_lbt matches Plan::TransmitLbt { started } ==> (plan matches Plan::Transmit { air_ms }
            ==> started@ == crate::lora_node::node::started_event(air_ms)),
{
}

/// A scheduled transmission is the bytes behind the command's fixed fields, for exactly the instant
/// that the command names: so long after now, or at that point of the clock. A free slot always takes
/// it; one too far ahead is refused and leaves the slot free.
pub proof fn a_schedule_is_taken_as_sent(
    n: Node,
    delay: u32,
    target: u64,
    frame: Seq<u8>,
    now: u64,
    after: Node,
    plan: Plan,
    after_abs: Node,
    plan_abs: Plan,
)
    requires
        n.sched is Idle,
        0 < frame.len() <= 240,
        now + 60_000_000 <= u64::MAX,
        crate::lora_node::command::decided(
            n,
            0x18,
            crate::bytes::be32(delay) + frame,
            now,
            after,
            plan,
        ),
        crate::lora_node::command::decided(
            n,
            0x1F,
            crate::bytes::be64(target) + frame,
            now,
            after_abs,
            plan_abs,
        ),
    ensures
        delay <= 60_000_000 ==> plan is Scheduled && after.sched_buf@ == frame
            && after.sched.deadline() == Some((now + delay) as u64),
        delay > 60_000_000 ==> plan.answered_by(0x8F) && after == n,
        target <= now + 60_000_000 ==> plan_abs is Scheduled && after_abs.sched_buf@ == frame
            && after_abs.sched.deadline() == Some(target),
        target > now + 60_000_000 ==> plan_abs.answered_by(0x8F) && after_abs == n,
        after == (Node { sched: after.sched, sched_buf: after.sched_buf, ..n }),
        after_abs == (Node { sched: after_abs.sched, sched_buf: after_abs.sched_buf, ..n }),
{
    let a = crate::bytes::be32(delay) + frame;
    assert(a.subrange(0, 4) =~= crate::bytes::be32(delay));
    crate::bytes::numbers_are_found_in_place(a, 0, 0, delay, 0);
    assert(a.skip(4) =~= frame);
    let b = crate::bytes::be64(target) + frame;
    assert(b.subrange(0, 8) =~= crate::bytes::be64(target));
    crate::bytes::numbers_are_found_in_place(b, 0, 0, 0, target);
    assert(b.skip(8) =~= frame);
}

/// A scheduled transmission waits for its time and no longer: it is loaded before its instant by the
/// time that loading takes, keyed at the first look that finds the instant come and never before,
/// and left alone until then. The timer is always set early enough for both.
pub proof fn a_schedule_is_kept_to_the_tick(
    n: Node,
    now: u64,
    plan: TimerPlan,
    arm_failed: bool,
    next_beacon: u64,
)
    requires
        n.wf(),
        n.timer_says(now, plan),
    ensures
        n.sched is Idle ==> plan is Nothing,
        n.sched matches SchedTx::Staged { fire_at, len, air_ms } ==> {
            &&& plan is Fire <==> now >= fire_at
            &&& plan is Nothing <==> now < fire_at
            &&& plan matches TimerPlan::Fire { fire_at: f, air_ms: a } ==> f == fire_at && a
                == air_ms
            &&& n.wake_time(now, arm_failed, next_beacon) <= fire_at
        },
        n.sched matches SchedTx::Pending { fire_at, stage_at, len, air_ms } ==> {
            let lead = 1_500 + 5 * len;
            &&& fire_at >= lead ==> (plan is Stage <==> now + lead >= fire_at)
            &&& fire_at < lead ==> plan is Stage
            &&& plan is Stage || plan is Nothing
            &&& plan matches TimerPlan::Stage { started, len: l, air_ms: a } ==> l == len && a
                == air_ms && l == n.sched_buf@.len()
            &&& n.wake_time(now, arm_failed, next_beacon) <= fire_at
        },
{
}

/// The radio is set to what the node is set to, for every task: the modulation and the carrier in
/// use, for a transmission also the power, room for exactly the frame, and the frame itself behind
/// all of them and before the radio is left to its task.
pub proof fn the_radio_is_set_to_the_node(
    mode: Mode,
    p: Params,
    preamble: u16,
    len: u8,
    det: Option<(u8, u8)>,
    lna: Option<u8>,
    hop: bool,
)
    ensures
        ({
            let rx = crate::lora_node::fire::rx_steps(mode, p, preamble, det, lna, hop);
            let tx = crate::lora_node::fire::tx_steps(mode, p, preamble, len, hop);
            let cad = crate::lora_node::fire::cad_steps(mode, p, det, lna);
            let modulation = RadioStep::Modulation {
                sf: p.sf,
                bw_hz: p.bw_hz,
                cr: p.cr,
                hz: p.freq_hz,
            };
            let carrier = RadioStep::Channel { hz: p.freq_hz };
            &&& mode != Mode::Standby ==> rx[0] == RadioStep::Standby && tx[0]
                == RadioStep::Standby && cad[0] == RadioStep::Standby
            &&& mode == Mode::Standby ==> !rx.contains(RadioStep::Standby) && !tx.contains(
                RadioStep::Standby,
            ) && !cad.contains(RadioStep::Standby)
            &&& rx.contains(modulation) && tx.contains(modulation) && cad.contains(modulation)
            &&& rx.contains(carrier) && tx.contains(carrier) && cad.contains(carrier)
            &&& rx.contains(RadioStep::Packet { preamble, len: 255 })
            &&& rx.contains(RadioStep::Receive) && cad.contains(RadioStep::Detect)
            &&& crate::lora_node::fire::followed_by(
                tx,
                RadioStep::Power { dbm: p.pwr },
                RadioStep::Payload,
            )
            &&& crate::lora_node::fire::followed_by(
                tx,
                RadioStep::Packet { preamble, len },
                RadioStep::Payload,
            )
            &&& crate::lora_node::fire::followed_by(tx, carrier, RadioStep::Payload)
            &&& crate::lora_node::fire::followed_by(
                tx,
                RadioStep::Payload,
                RadioStep::Interrupts { task: Task::Transmit },
            )
        }),
{
    let rx = crate::lora_node::fire::rx_steps(mode, p, preamble, det, lna, hop);
    let tx = crate::lora_node::fire::tx_steps(mode, p, preamble, len, hop);
    let cad = crate::lora_node::fire::cad_steps(mode, p, det, lna);
    let m: int = crate::lora_node::fire::standby_step(mode).len() as int;
    let d: int = crate::lora_node::fire::detector_step(det).len() as int;
    let h: int = crate::lora_node::fire::hop_step(hop).len() as int;
    assert(rx[m] == crate::lora_node::fire::modulation_step(p));
    assert(rx[m + d + 1] == (RadioStep::Packet { preamble, len: 255 }));
    assert(rx[m + d + 2] == (RadioStep::Channel { hz: p.freq_hz }));
    assert(rx[m + d + 4 + h] == RadioStep::Receive);
    assert(cad[m] == crate::lora_node::fire::modulation_step(p));
    assert(cad[m + d + 1] == (RadioStep::Channel { hz: p.freq_hz }));
    assert(cad[m + d + 3] == RadioStep::Detect);
    assert(tx[m] == crate::lora_node::fire::modulation_step(p));
    assert(tx[m + 1] == (RadioStep::Power { dbm: p.pwr }));
    assert(tx[m + 2] == (RadioStep::Packet { preamble, len }));
    assert(tx[m + 3] == (RadioStep::Channel { hz: p.freq_hz }));
    assert(tx[m + 4] == RadioStep::Payload);
    assert(tx[m + 5] == (RadioStep::Interrupts { task: Task::Transmit }));
}

/// Listening decides: a busy channel is never answered with a transmission, and a transmission comes
/// only from a channel that was found clear as often as configured, and quiet where a threshold is
/// set. A detection that fails does not block.
pub proof fn only_a_clear_channel_is_sent_on(
    n: Node,
    l: Lbt,
    a: LbtAction,
    ev: LbtEvent,
)
    requires
        crate::lora_node::lbt::lbt_step((n, l, a), ev) is Some,
    ensures
        ({
            let (m, k, next) = crate::lora_node::lbt::lbt_step((n, l, a), ev)->0;
            let senses = n.csma.rssi_thresh > i16::MIN;
            &&& k.len == l.len
            &&& ev == LbtEvent::Cad(CadOutcome::Heard) ==> next is Wait || (next matches
                LbtAction::Done { sent, attempts } && !sent)
            &&& ev matches LbtEvent::Rssi(Some(r)) ==> {
                &&& r >= n.csma.rssi_thresh ==> next is Wait || (next matches LbtAction::Done {
                    sent,
                    attempts,
                } && !sent)
                &&& r < n.csma.rssi_thresh ==> next is Transmit
            }
            &&& ev == LbtEvent::Rssi(None) ==> next is Transmit
            &&& ev is Waited ==> next is Cad && k.cads_left == n.csma.cad_repeat
            &&& ev == LbtEvent::Cad(CadOutcome::Clear) ==> {
                &&& l.cads_left > 1 ==> next is Cad && k.cads_left == l.cads_left - 1
                &&& l.cads_left <= 1 && senses ==> next is SenseRssi
                &&& l.cads_left <= 1 && !senses ==> next is Transmit
            }
            &&& ev == LbtEvent::Cad(CadOutcome::Failed) ==> {
                &&& senses ==> next is SenseRssi
                &&& !senses ==> next is Transmit
            }
            &&& next is Transmit ==> next == (LbtAction::Transmit {
                air_ms: crate::lora_node::params::frame_ms(
                    n.p,
                    l.len as int,
                    n.csma.preamble,
                ) as u32,
            })
            &&& ev matches LbtEvent::Sent(ok) ==> next == (LbtAction::Done {
                sent: ok,
                attempts: l.attempt,
            })
        }),
{
}

/// The backoff doubles with every busy channel as often as configured, ten times at most, from the
/// configured window on; and each draw of it is another word of the generator.
pub proof fn the_backoff_doubles(c: crate::lora_node::csma::Csma, attempt: u8)
    requires
        attempt < 255,
    ensures
        c.lbt_cw > 0 ==> crate::lora_node::lbt::backoff_window(c, 0) == c.lbt_cw,
        c.lbt_cw == 0 ==> crate::lora_node::lbt::backoff_window(c, attempt) == 1,
        c.lbt_cw > 0 && attempt < c.lbt_max_backoff && attempt < 10
            ==> crate::lora_node::lbt::backoff_window(c, (attempt + 1) as u8) == 2
            * crate::lora_node::lbt::backoff_window(c, attempt),
        attempt >= c.lbt_max_backoff || attempt >= 10 ==> crate::lora_node::lbt::backoff_window(
            c,
            (attempt + 1) as u8,
        ) == crate::lora_node::lbt::backoff_window(c, attempt),
        crate::lora_node::lbt::backoff_wait(c, attempt) == (LbtAction::Wait {
            ms: (crate::lora_node::csma::xorshift(c.rng) as int
                % crate::lora_node::lbt::backoff_window(c, attempt)) as u32,
        }),
{
    let s = crate::lora_node::lbt::backoff_shift(c, attempt);
    vstd::arithmetic::power2::lemma2_to64();
    vstd::arithmetic::power2::lemma_pow2_pos(s);
    vstd::arithmetic::power2::lemma_pow2_unfold(s + 1);
    let x = vstd::arithmetic::power2::pow2(s);
    let cw: int = c.lbt_cw as int;
    assert(cw * (2 * x) == 2 * (cw * x)) by (nonlinear_arith);
    assert(cw >= 1 ==> cw * x >= 1) by (nonlinear_arith)
        requires
            x >= 1,
    ;
    assert(0 * x == 0 && 0 * (2 * x) == 0 && cw * 1 == cw);
}

/// A received frame reaches the host byte for byte, behind its signal strength, its signal-to-noise
/// ratio and its time.
pub proof fn a_received_frame_is_delivered_whole(rssi: i16, snr: i16, ts: u32, frame: Seq<u8>)
    ensures
        ({
            let e = crate::lora_node::node::heard_event(rssi, snr, ts, frame);
            &&& e.typ == 0x81
            &&& e.payload.len() == 8 + frame.len()
            &&& crate::bytes::from_twos16(crate::bytes::u16_at(e.payload, 0)) == rssi
            &&& crate::bytes::from_twos16(crate::bytes::u16_at(e.payload, 2)) == snr
            &&& crate::bytes::u32_at(e.payload, 4) == ts
            &&& e.payload.skip(8) == frame
        }),
{
    let b = crate::lora_node::node::heard_event(rssi, snr, ts, frame).payload;
    assert(b.subrange(0, 2) =~= crate::bytes::be16(crate::bytes::twos16(rssi)));
    assert(b.subrange(2, 4) =~= crate::bytes::be16(crate::bytes::twos16(snr)));
    assert(b.subrange(4, 8) =~= crate::bytes::be32(ts));
    assert(b.skip(8) =~= frame);
    crate::bytes::numbers_are_found_in_place(b, 0, crate::bytes::twos16(rssi), 0, 0);
    crate::bytes::numbers_are_found_in_place(b, 2, crate::bytes::twos16(snr), 0, 0);
    crate::bytes::numbers_are_found_in_place(b, 4, 0, ts, 0);
    crate::bytes::signed_round_trip(0, rssi);
    crate::bytes::signed_round_trip(0, snr);
}

/// The name plane is obeyed: only what it drops or answers itself is kept from the host, only what it
/// wants relayed is sent on, and its answer is sent as it is unless it is empty. The receiver counts
/// as disturbed exactly when something is sent.
pub proof fn the_name_plane_is_obeyed(n: Node, len: usize, action: PlaneAction, plan: RxPlan)
    requires
        crate::lora_node::node::rx_planned(n, len, action, plan),
    ensures
        !plan.deliver <==> action is Drop || action is Serve,
        plan.relay <==> action is RelayAndDeliver,
        plan.relay ==> plan.deliver,
        plan.serve matches Some(d) ==> (action matches PlaneAction::Serve { data } && data == d
            && data@.len() > 0),
        action matches PlaneAction::Serve { data } ==> (data@.len() > 0 ==> plan.serve == Some(
            data,
        )),
        plan.disturbed <==> plan.serve is Some || plan.relay,
        plan.log is Some <==> n.debug,
{
}

/// A frame is taken if and only if it fits the event that delivers it; one that does not is counted,
/// up to the largest count, and nothing else changes.
pub proof fn frames_that_fit_are_taken(n: Node, len: usize)
    ensures
        n.rx_taken(len).1 <==> 8 + len <= 255,
        n.rx_taken(len).1 ==> n.rx_taken(len).0 == n,
        !n.rx_taken(len).1 && n.rx_trunc < 65_535 ==> n.rx_taken(len).0.rx_trunc == n.rx_trunc + 1,
        !n.rx_taken(len).1 && n.rx_trunc == 65_535 ==> n.rx_taken(len).0.rx_trunc == 65_535,
        n.rx_taken(len).0 == (Node { rx_trunc: n.rx_taken(len).0.rx_trunc, ..n }),
{
}

/// What was measured is what is reported: the energy as it was read, or the least value where it
/// could not be; activity exactly if the detector heard it; the factor that was found; the busy count
/// in front of the energy.
pub proof fn measurements_are_reported(
    n: Node,
    outcome: CadOutcome,
    rssi: Option<i16>,
    busy: u16,
    found: u8,
)
    ensures
        ({
            let value: i16 = match rssi {
                Some(r) => r,
                None => -32_768i16,
            };
            let e = crate::lora_node::outcome::rssi_event(rssi);
            let s = crate::lora_node::outcome::sense_event(busy, rssi);
            let c = crate::lora_node::outcome::cad_event(outcome);
            &&& e.typ == 0x86 && e.payload.len() == 2
            &&& crate::bytes::from_twos16(crate::bytes::u16_at(e.payload, 0)) == value
            &&& s.typ == 0x8C && s.payload.len() == 4
            &&& crate::bytes::u16_at(s.payload, 0) == busy
            &&& crate::bytes::from_twos16(crate::bytes::u16_at(s.payload, 2)) == value
            &&& c.typ == 0x85 && c.payload.len() == 1
            &&& c.payload[0] == 1 <==> outcome == CadOutcome::Heard
            &&& c.payload[0] == 0 <==> outcome != CadOutcome::Heard
            &&& crate::lora_node::outcome::scan_event(found).typ == 0x87
            &&& crate::lora_node::outcome::scan_event(found).payload == seq![found]
        }),
        outcome == CadOutcome::Heard ==> crate::lora_node::outcome::counted(n, outcome)
            .csma.cad_busy == n.csma.cad_busy.wrapping_add(1),
        outcome != CadOutcome::Heard ==> crate::lora_node::outcome::counted(n, outcome).csma
            == n.csma,
        outcome == CadOutcome::Clear ==> crate::lora_node::outcome::counted(n, outcome) == n,
        outcome != CadOutcome::Failed ==> crate::lora_node::outcome::counted(n, outcome)
            .radio_errors == n.radio_errors,
        outcome == CadOutcome::Failed && n.radio_errors < 65_535
            ==> crate::lora_node::outcome::counted(n, outcome).radio_errors == n.radio_errors + 1,
{
    let least = crate::lora_node::outcome::rssi_or_least(rssi);
    let e = crate::lora_node::outcome::rssi_event(rssi).payload;
    let s = crate::lora_node::outcome::sense_event(busy, rssi).payload;
    assert(e.subrange(0, 2) =~= crate::bytes::be16(crate::bytes::twos16(least)));
    assert(s.subrange(0, 2) =~= crate::bytes::be16(busy));
    assert(s.subrange(2, 4) =~= crate::bytes::be16(crate::bytes::twos16(least)));
    crate::bytes::numbers_are_found_in_place(e, 0, crate::bytes::twos16(least), 0, 0);
    crate::bytes::numbers_are_found_in_place(s, 0, busy, 0, 0);
    crate::bytes::numbers_are_found_in_place(s, 2, crate::bytes::twos16(least), 0, 0);
    crate::bytes::signed_round_trip(0, least);
}

/// What a host asks to be read is read: the detector, the energy, both of them as often as
/// configured, every spreading factor, the counters, and the state; and none of it changes the node.
pub proof fn questions_change_nothing(
    n: Node,
    op: u8,
    buf: Seq<u8>,
    now: u64,
    after: Node,
    plan: Plan,
)
    requires
        crate::lora_node::command::decided(n, op, buf, now, after, plan),
        op == 0x06 || op == 0x08 || op == 0x09 || op == 0x0D || op == 0x13 || op == 0x17 || op
            == 0x1A || op == 0x1B || op == 0x20,
    ensures
        after == n,
        op == 0x06 <==> plan is BuildInfo,
        op == 0x08 <==> plan is Cad,
        op == 0x09 <==> plan is Rssi,
        op == 0x0D <==> plan is ScanSf,
        op == 0x13 <==> plan is Stats,
        op == 0x1B ==> (plan matches Plan::Sense { tsym_us, count } && count == n.csma.cad_repeat),
        op == 0x17 ==> (plan matches Plan::Reply { event } && event@.typ == 0x8A
            && event@.payload.len() == 8 && crate::bytes::u64_at(event@.payload, 0) == now),
        op == 0x1A ==> (plan matches Plan::Reply { event } && event@.typ == 0x8B),
        op == 0x20 ==> (plan matches Plan::Reply { event } && event@.typ == 0x8E
            && event@.payload.len() >= 5 && event@.payload[4] == n.hop.trace@.len() as u8),
{
    if op == 0x17 {
        crate::bytes::be_round_trip(0, 0, now);
    }
}

/// The capability event tells the limits that the commands keep: band, power range, payload, opcodes
/// and spreading factors each stand at their place.
pub proof fn capabilities_are_what_commands_take()
    ensures
        ({
            let b = crate::lora_node::report::cap_body();
            &&& b.len() == 34
            &&& b[0] == 3
            &&& crate::bytes::u32_at(b, 2) == crate::lora_node::params::FREQ_MIN_HZ
            &&& crate::bytes::u32_at(b, 6) == crate::lora_node::params::FREQ_MAX_HZ
            &&& b[10] == crate::lora_node::params::PWR_MIN_DBM && b[11]
                == crate::lora_node::params::PWR_MAX_DBM
            &&& crate::bytes::u32_at(b, 12) == crate::lora_node::params::STAMP_HZ
            &&& crate::bytes::u16_at(b, 17) == crate::lora_node::params::RX_MAX
            &&& crate::bytes::u32_at(b, 19) == crate::lora_node::opcode::CMD_BITMAP
            &&& b[23] == crate::lora_node::params::SF_MIN && b[24]
                == crate::lora_node::params::SF_MAX
            &&& crate::bytes::u32_at(b, 25) == crate::lora_node::params::SCHED_GRAN_NS
            &&& crate::bytes::u32_at(b, 29) == crate::lora_node::params::PHY_BITMAP
            &&& b[33] == crate::lora_node::params::PHY_CURRENT
        }),
{
}

/// A beacon goes out when it is due and nothing is scheduled, never earlier and never while it is
/// off; each carries the next number, and each time it is due the period restarts.
pub proof fn beacons_keep_their_period(
    n: Node,
    now: u64,
    next: u64,
    after: Node,
    after_next: u64,
    b: Option<Beacon>,
)
    requires
        crate::lora_node::node::beaconed(n, now, next, after, after_next, b),
        now + n.beacon_period <= u64::MAX,
    ensures
        !n.beacon_on || now < next ==> b is None && after_next == next && after == n,
        n.beacon_on && now >= next ==> after_next == now + n.beacon_period,
        n.beacon_on && now >= next && n.sched is Idle ==> (b matches Some(x) && x.payload@
            == crate::lora_node::node::beacon_text(n.beacon_seq)) && after.beacon_seq
            == n.beacon_seq.wrapping_add(1),
        n.sched !is Idle ==> b is None && after == n,
        after == (Node { beacon_seq: after.beacon_seq, ..n }),
{
}

/// The placement of a transmission is judged in both directions: it is late, and counted, if and
/// only if it missed its instant by more than the granularity that the node declares.
pub proof fn a_missed_instant_is_counted(n: Node, fire_at: u64, keyed: u64, ok: bool)
    ensures
        ({
            let off: int = if keyed >= fire_at {
                keyed - fire_at
            } else {
                fire_at - keyed
            };
            let after = n.fired(fire_at, keyed, ok);
            &&& off * 1000 > crate::lora_node::params::SCHED_GRAN_NS && n.sched_late < 65_535
                ==> after.sched_late == n.sched_late + 1
            &&& off * 1000 <= crate::lora_node::params::SCHED_GRAN_NS ==> after.sched_late
                == n.sched_late
            &&& ok ==> after.radio_errors == n.radio_errors
            &&& !ok && n.radio_errors < 65_535 ==> after.radio_errors == n.radio_errors + 1
            &&& after == (Node {
                sched: SchedTx::Idle,
                sched_late: after.sched_late,
                radio_errors: after.radio_errors,
                ..n
            })
        }),
{
}

/// A detection is given the symbol time of the modulation in use: a symbol is two to the spreading
/// factor periods of the bandwidth.
pub proof fn detections_know_the_symbol_time(
    n: Node,
    buf: Seq<u8>,
    now: u64,
    after: Node,
    plan: Plan,
    after_sense: Node,
    sense: Plan,
)
    requires
        n.wf(),
        crate::lora_node::command::decided(n, 0x08, buf, now, after, plan),
        crate::lora_node::command::decided(n, 0x1B, buf, now, after_sense, sense),
    ensures
        plan matches Plan::Cad { tsym_us } && tsym_us * n.p.bw_hz == 1_000_000
            * vstd::arithmetic::power2::pow2(n.p.sf as nat),
        sense matches Plan::Sense { tsym_us, count } && tsym_us * n.p.bw_hz == 1_000_000
            * vstd::arithmetic::power2::pow2(n.p.sf as nat),
{
    crate::lora_node::params::lemma_symbol_bounds(n.p);
    let whole: int = (vstd::arithmetic::power2::pow2(n.p.sf as nat) * 1_000_000) as int;
    vstd::arithmetic::div_mod::lemma_fundamental_div_mod(whole, n.p.bw_hz as int);
    let t: int = whole / n.p.bw_hz as int;
    assert(t * n.p.bw_hz == n.p.bw_hz * t) by (nonlinear_arith);
}

/// The one modem that there is can be asked for, and is looked after in the chip; any other is
/// refused. A refusal names the command and its reason and leaves the node as it was.
pub proof fn only_the_one_modem_is_there(
    n: Node,
    buf: Seq<u8>,
    now: u64,
    after: Node,
    plan: Plan,
)
    requires
        buf.len() >= 1,
        crate::lora_node::command::decided(n, 0x1D, buf, now, after, plan),
    ensures
        after == n,
        buf[0] == 0 ==> plan == (Plan::CheckPhy { want: 0 }),
        buf[0] != 0 ==> (plan matches Plan::Reply { event } && event@.typ == 0x8F
            && event@.payload.len() == 2 && event@.payload[0] == 0x1D && event@.payload[1] == 0x04),
{
}

/// An opcode that the node does not have, or whose payload is short of its fields, is refused with
/// its own number and the reason, and changes nothing: 1 where it is unknown, 2 where the board
/// cannot do it, 3 where the payload is short.
pub proof fn refusals_name_the_command(
    n: Node,
    op: u8,
    buf: Seq<u8>,
    now: u64,
    after: Node,
    plan: Plan,
)
    requires
        crate::lora_node::command::decided(n, op, buf, now, after, plan),
        op == 0 || op > 0x20 || op == 0x19 || op == 0x16 || buf.len()
            < crate::lora_node::opcode::min_len(op),
    ensures
        after == n,
        plan matches Plan::Reply { event } && event@.typ == 0x8F && event@.payload.len() == 2
            && event@.payload[0] == op && event@.payload[1] == (if op == 0x16 {
            2int
        } else if op == 0 || op > 0x20 || op == 0x19 {
            1
        } else {
            3
        }),
{
}

/// A command that lacks a byte of its fields, by its opcode, is refused for its length and changes
/// nothing.
pub proof fn missing_bytes_are_refused(
    n: Node,
    op: u8,
    buf: Seq<u8>,
    now: u64,
    after: Node,
    plan: Plan,
)
    requires
        crate::lora_node::command::decided(n, op, buf, now, after, plan),
        ({
            ||| op == 0x1F && buf.len() < 9
            ||| (op == 0x11 || op == 0x18) && buf.len() < 5
            ||| (op == 0x02 || op == 0x0B || op == 0x1E) && buf.len() < 4
            ||| (op == 0x03 || op == 0x0A || op == 0x12) && buf.len() < 3
            ||| op == 0x0C && buf.len() < 2
            ||| (op == 0x04 || op == 0x05 || op == 0x07 || op == 0x1C || op == 0x15 || op == 0x1D) && buf.len() < 1
        }),
    ensures
        after == n,
        plan matches Plan::Reply { event } && event@.typ == 0x8F && event@.payload == seq![op, 0x03u8],
{
}

} // verus!
