//! What holds of the radio's answers: measurements, transmissions, receptions, the beacon.

use vstd::prelude::*;

use crate::lora_node::node::PlaneAction;
use crate::lora_node::report::PlaneStats;
use crate::lr_node::bridge::{BridgeView, TxKind};
use crate::lr_node::flow::{HeardPlan, RadioStep, RxInfo};
use crate::lr_node::irq::TimelineView;
use crate::lr_node::phy::{PhyMode, PhyState, Profile};
use crate::lr_node::sense::{Listen, ListenAction, ListenEvent, Sense};

verus! {

/// A reading counts half dB below zero: its power is the whole dB above it, never more than half a
/// step away, and a reading that could not be taken is reported as 0.
pub proof fn energy_is_reported(raw: u16)
    ensures
        ({
            let e = crate::lr_node::flow::energy_event(Some(raw));
            let dbm = crate::bytes::from_twos16(crate::bytes::u16_at(e.payload, 0));
            let none = crate::lr_node::flow::energy_event(None);
            &&& e.typ == 0x86 && e.payload.len() == 2
            &&& raw < 0x8000 ==> -raw <= 2 * dbm <= -raw + 1
            &&& dbm == crate::lr_node::sense::raw_dbm(raw)
            &&& none.typ == 0x86 && none.payload.len() == 2
            &&& crate::bytes::from_twos16(crate::bytes::u16_at(none.payload, 0)) == 0
        }),
{
    let d = crate::lr_node::sense::raw_dbm(raw) as i16;
    crate::bytes::signed_round_trip(0, d);
    crate::bytes::signed_round_trip(0, 0);
    crate::bytes::be_round_trip(crate::bytes::twos16(d), 0, 0);
    crate::bytes::be_round_trip(crate::bytes::twos16(0), 0, 0);
}

/// A sense finds the channel busy exactly if its strongest reading lies above the threshold, so a
/// stronger reading never makes a busy channel clear; a sense that failed finds it clear. The host is
/// told so, and the activity grows by one exactly then.
pub proof fn a_sense_is_reported(b: BridgeView, raw: u16, stronger: u16)
    requires
        stronger <= raw < 0x8000,
    ensures
        ({
            let busy = crate::lr_node::sense::finds_busy(b.sense, Some(raw));
            let e = crate::lr_node::flow::verdict_event(b, Some(raw));
            let after = crate::lr_node::flow::after_sense(b, Some(raw));
            &&& busy <==> -(raw / 2) > b.sense.thresh_dbm
            &&& busy ==> crate::lr_node::sense::finds_busy(b.sense, Some(stronger))
            &&& !crate::lr_node::sense::finds_busy(b.sense, None)
            &&& e.typ == 0x85 && e.payload.len() == 1
            &&& e.payload[0] == 1 <==> busy
            &&& e.payload[0] == 0 <==> !busy
            &&& busy ==> after.sense.activity == b.sense.activity.wrapping_add(1)
            &&& !busy ==> after.sense.activity == b.sense.activity
            &&& after == (BridgeView {
                sense: Sense { activity: after.sense.activity, ..b.sense },
                ..b
            })
            &&& crate::lr_node::flow::after_sense(b, None) == b
        }),
{
}

/// The activity event tells the activity in front of the energy.
pub proof fn activity_is_reported(activity: u16, raw: Option<u16>)
    ensures
        ({
            let e = crate::lr_node::flow::activity_event(activity, raw);
            &&& e.typ == 0x8C && e.payload.len() == 4
            &&& crate::bytes::u16_at(e.payload, 0) == activity
            &&& e.payload.skip(2) == crate::lr_node::flow::energy_event(raw).payload
        }),
{
    let e = crate::lr_node::flow::activity_event(activity, raw).payload;
    assert(e.subrange(0, 2) =~= crate::bytes::be16(activity));
    crate::bytes::numbers_are_found_in_place(e, 0, activity, 0, 0);
    assert(e.skip(2) =~= crate::lr_node::flow::energy_event(raw).payload);
}

/// The statistics event tells every counter at its place.
pub proof fn counters_are_reported(s: Sense, p: PlaneStats)
    ensures
        ({
            let e = crate::lr_node::flow::counters_event(s, p);
            &&& e.typ == 0x89 && e.payload.len() == 24
            &&& crate::bytes::u32_at(e.payload, 0) == p.rx
            &&& crate::bytes::u32_at(e.payload, 4) == p.filtered
            &&& crate::bytes::u32_at(e.payload, 8) == p.deduped
            &&& crate::bytes::u32_at(e.payload, 12) == p.served
            &&& crate::bytes::u32_at(e.payload, 16) == p.relayed
            &&& crate::bytes::u16_at(e.payload, 20) == s.cad_busy
            &&& crate::bytes::u16_at(e.payload, 22) == s.defer
        }),
{
    let e = crate::lr_node::flow::counters_event(s, p).payload;
    assert(e.subrange(0, 4) =~= crate::bytes::be32(p.rx));
    assert(e.subrange(4, 8) =~= crate::bytes::be32(p.filtered));
    assert(e.subrange(8, 12) =~= crate::bytes::be32(p.deduped));
    assert(e.subrange(12, 16) =~= crate::bytes::be32(p.served));
    assert(e.subrange(16, 20) =~= crate::bytes::be32(p.relayed));
    assert(e.subrange(20, 22) =~= crate::bytes::be16(s.cad_busy));
    assert(e.subrange(22, 24) =~= crate::bytes::be16(s.defer));
    crate::bytes::numbers_are_found_in_place(e, 0, 0, p.rx, 0);
    crate::bytes::numbers_are_found_in_place(e, 4, 0, p.filtered, 0);
    crate::bytes::numbers_are_found_in_place(e, 8, 0, p.deduped, 0);
    crate::bytes::numbers_are_found_in_place(e, 12, 0, p.served, 0);
    crate::bytes::numbers_are_found_in_place(e, 16, 0, p.relayed, 0);
    crate::bytes::numbers_are_found_in_place(e, 20, s.cad_busy, 0, 0);
    crate::bytes::numbers_are_found_in_place(e, 22, s.defer, 0, 0);
}

/// The information event tells the settings that are in use: syncword, carrier, the modem's slots and
/// the power, with the chip's status and errors in front and the counters behind.
pub proof fn settings_are_reported(
    pr: Profile,
    st: PhyState,
    s: Sense,
    status: Option<(u8, u8)>,
    errors: Option<[u8; 4]>,
)
    ensures
        ({
            let b = crate::lr_node::info::info_bytes(pr, st, s, status, errors);
            let dbm = crate::bytes::from_twos8(b[12]);
            &&& b.len() == 19
            &&& status is None ==> b[0] == 0xFF
            &&& status matches Some((mode, cmd)) ==> (mode < 16 && cmd < 16 ==> b[0] == mode + 16
                * cmd)
            &&& crate::bytes::u16_at(b, 1) == (match st.mode {
                PhyMode::Flrc(_) => 0xCAFEu16,
                PhyMode::Lora(_) => pr.lora_sync16,
                PhyMode::LrFhss(_) => pr.lrfhss_sync16,
            })
            &&& errors is None ==> crate::bytes::u16_at(b, 3) == 0
            &&& errors matches Some(rsp) ==> (rsp@[2] < 64 ==> crate::bytes::u16_at(b, 3) == rsp@[2]
                * 256 + rsp@[3])
            &&& crate::bytes::u32_at(b, 5) == st.freq_hz
            &&& b.subrange(9, 12) == st.mode.triple()
            &&& st.tx_power_half_db >= 0 ==> 2 * dbm <= st.tx_power_half_db <= 2 * dbm + 1
            &&& st.tx_power_half_db < 0 ==> 2 * dbm - 1 <= st.tx_power_half_db <= 2 * dbm
            &&& b[13] == 0 && b[14] == 0
            &&& crate::bytes::u16_at(b, 15) == s.cad_busy
            &&& crate::bytes::u16_at(b, 17) == s.defer
        }),
{
    let b = crate::lr_node::info::info_bytes(pr, st, s, status, errors);
    let sync = PhyState::sync16(pr, st.mode.spec_phy());
    let word = crate::lr_node::info::error_word(errors);
    let dbm = crate::flrc_link::half_toward_zero(st.tx_power_half_db as int) as i8;
    assert(st.mode.triple().len() == 3);
    assert(b.subrange(1, 3) =~= crate::bytes::be16(sync));
    assert(b.subrange(3, 5) =~= crate::bytes::be16(word));
    assert(b.subrange(5, 9) =~= crate::bytes::be32(st.freq_hz));
    assert(b.subrange(9, 12) =~= st.mode.triple());
    assert(b.subrange(15, 17) =~= crate::bytes::be16(s.cad_busy));
    assert(b.subrange(17, 19) =~= crate::bytes::be16(s.defer));
    crate::bytes::numbers_are_found_in_place(b, 1, sync, 0, 0);
    crate::bytes::numbers_are_found_in_place(b, 3, word, 0, 0);
    crate::bytes::numbers_are_found_in_place(b, 5, 0, st.freq_hz, 0);
    crate::bytes::numbers_are_found_in_place(b, 15, s.cad_busy, 0, 0);
    crate::bytes::numbers_are_found_in_place(b, 17, s.defer, 0, 0);
    crate::bytes::signed_round_trip(dbm, 0);
    if let Some((mode, cmd)) = status {
        assert(mode < 16 && cmd < 16 ==> mode | (cmd << 4u8) == mode + 16 * cmd) by (bit_vector);
    }
}

/// What is announced for a frame is its airtime in whole milliseconds, rounded up, as far as the
/// field reaches; and the frame is given more than twice that before it counts as lost.
pub proof fn the_announcement_covers_the_frame(mode: PhyMode, len: int)
    requires
        0 < mode.frame_us(len) <= 65_000_000,
    ensures
        ({
            let ms = crate::bytes::u16_at(mode.announced(len), 0);
            &&& mode.announced(len).len() == 2
            &&& mode.frame_us(len) <= ms * 1000 < mode.frame_us(len) + 1000
            &&& crate::lr_node::sense::timeout_ms(mode, len) == 2 * ms + 20
        }),
{
    let ms = crate::airtime::ms_ceil(mode.frame_us(len)) as u16;
    crate::bytes::be_round_trip(ms, 0, 0);
}

/// Listening decides: a busy channel is never answered with a frame, and a frame is loaded only after
/// as many clear senses as configured; it is sent only once it is loaded; and a transmission ends as
/// sent only if it was.
pub proof fn only_a_clear_channel_is_sent_on(
    s: Sense,
    l: Listen,
    a: ListenAction,
    ev: ListenEvent,
)
    requires
        crate::lr_node::sense::listen_step((s, l, a), ev) is Some,
        l.attempt < 255,
        l.left >= 1 || !(a is Cca),
    ensures
        ({
            let (t, k, next) = crate::lr_node::sense::listen_step((s, l, a), ev)->0;
            let most: int = if s.lbt_max_attempts == 0 {
                1
            } else {
                s.lbt_max_attempts as int
            };
            &&& k.len == l.len
            &&& ev is Waited ==> next == (ListenAction::Cca { steps: s.cca_steps }) && t == s
                && k.left == (if s.repeat == 0 {
                1
            } else {
                s.repeat
            }) && k.attempt == l.attempt
            &&& ev matches ListenEvent::Sensed(r) ==> {
                let busy = crate::lr_node::sense::finds_busy(s, r);
                &&& busy ==> k.attempt == l.attempt + 1 && t.cad_busy == s.cad_busy.wrapping_add(1)
                    && t.activity == s.activity.wrapping_add(1)
                &&& busy && l.attempt + 1 < most ==> next is Wait && t.defer == s.defer
                &&& busy && l.attempt + 1 >= most ==> next == (ListenAction::Done {
                    sent: false,
                    attempts: k.attempt,
                }) && t.defer == s.defer.wrapping_add(1)
                &&& !busy ==> t == s && k.attempt == l.attempt && k.left == l.left - 1
                &&& !busy && l.left > 1 ==> next == (ListenAction::Cca { steps: s.cca_steps })
                &&& !busy && l.left == 1 ==> next == ListenAction::Stage
            }
            &&& next is Fire ==> (ev matches ListenEvent::Staged(mode, ok) && ok)
            &&& next is Stage ==> ev is Sensed
            &&& ev matches ListenEvent::Staged(mode, ok) ==> (ok ==> next is Fire && t == s) && (!ok
                ==> next == (ListenAction::Done { sent: false, attempts: l.attempt }) && t.defer
                == s.defer.wrapping_add(1))
            &&& ev matches ListenEvent::Fired(ok) ==> next == (ListenAction::Done {
                sent: ok,
                attempts: l.attempt,
            }) && (ok ==> t == s) && (!ok ==> t.defer == s.defer.wrapping_add(1))
        }),
{
}

/// The backoff window starts at the configured one, at least a millisecond, and doubles with every
/// busy channel as often as configured, up to a second.
pub proof fn the_backoff_doubles(s: Sense, attempt: u8)
    requires
        attempt < 255,
    ensures
        ({
            let w = crate::lr_node::sense::window_us(s, attempt);
            let v = crate::lr_node::sense::window_us(s, (attempt + 1) as u8);
            &&& 0 < s.lbt_cw_ms <= 1000 ==> crate::lr_node::sense::window_us(s, 0) == 1000
                * s.lbt_cw_ms
            &&& s.lbt_cw_ms == 0 ==> crate::lr_node::sense::window_us(s, 0) == 1000
            &&& s.lbt_cw_ms > 1000 ==> crate::lr_node::sense::window_us(s, 0) == 1_000_000
            &&& attempt < s.lbt_max_backoff && attempt < 16 && w < 500_000 ==> v == 2 * w
            &&& attempt < s.lbt_max_backoff && attempt < 16 && w >= 500_000 ==> v == 1_000_000
            &&& attempt >= s.lbt_max_backoff ==> v == w
        }),
{
    let d = crate::lr_node::sense::doublings(s, attempt);
    let x = vstd::arithmetic::power2::pow2(d) as int;
    let cw: int = if s.lbt_cw_ms == 0 {
        1
    } else {
        s.lbt_cw_ms as int
    };
    vstd::arithmetic::power2::lemma2_to64();
    vstd::arithmetic::power2::lemma_pow2_unfold(d + 1);
    assert(cw * 1000 * (2 * x) == 2 * (cw * 1000 * x)) by (nonlinear_arith);
    assert(cw * 1000 * 1 == 1000 * cw);
}

/// The host is told what became of a transmission: the first byte is 1 exactly if it went out, and
/// for one that listened first the second counts the busy channels that it met.
pub proof fn verdicts_are_reported(
    debug: bool,
    kind: TxKind,
    ok: bool,
    ticks: u32,
    attempts: u8,
)
    ensures
        ({
            let last = crate::lr_node::flow::tx_events(debug, kind, ok, ticks).last();
            let listened = crate::lr_node::flow::listened_event(ok, attempts);
            let n = crate::lr_node::flow::tx_events(debug, kind, ok, ticks).len();
            &&& last.typ == 0x82 && last.payload.len() == 2 && last.payload[1] == 0
            &&& last.payload[0] == 1 <==> ok
            &&& last.payload[0] == 0 <==> !ok
            &&& n == (if debug && kind != TxKind::Plain {
                2int
            } else {
                1
            })
            &&& listened.typ == 0x82 && listened.payload.len() == 2
            &&& listened.payload[0] == 1 <==> ok
            &&& listened.payload[0] == 0 <==> !ok
            &&& listened.payload[1] == attempts
        }),
{
}

/// However a change of modem goes, the radio listens in the end, with the interrupts of the timeline
/// routed wherever the chip was programmed afresh: a refused modem is followed by the old link with
/// its errors cleared first, a chip that takes neither is reset.
pub proof fn a_change_of_modem_ends_in_listening(tracing: bool, ok: bool)
    ensures
        ({
            let applied = crate::lr_node::flow::applied_steps(tracing, true);
            let refused = crate::lr_node::flow::applied_steps(tracing, false);
            let reverted = crate::lr_node::flow::reverted_steps(tracing, ok);
            let deaf = crate::lr_node::flow::armed_steps(tracing, false);
            let irq = RadioStep::SetIrq {
                mask: if tracing {
                    0x022C_1000
                } else {
                    0x002C_0000
                },
            };
            &&& applied.len() == 2 && applied[0] == irq && applied[1] == RadioStep::ArmRx
            &&& refused.len() == 2 && refused[0] == RadioStep::ClearErrors && refused[1]
                == RadioStep::Apply
            &&& reverted.last() == RadioStep::ArmRx
            &&& ok ==> reverted.len() == 1
            &&& !ok ==> reverted.len() == 3 && reverted[0] == RadioStep::ResetAndApply
                && reverted[1] == irq
            &&& crate::lr_node::flow::armed_steps(tracing, true).len() == 0
            &&& deaf.len() == 3 && deaf[0] == RadioStep::ClearErrors && deaf[1]
                == RadioStep::ResetAndApply && deaf[2] == irq
        }),
{
}

/// A frame counts as received exactly if it was sound and could be read, and is reported with the
/// chip's figures; where the chip has no signal-to-noise ratio it is the strength above the noise
/// floor, or 0 before one is known.
pub proof fn sound_frames_are_counted(b: BridgeView, sound: bool, info: RxInfo)
    ensures
        ({
            let (after, r) = crate::lr_node::flow::read_frame(b, sound, Some(info));
            let floor = b.sense.noise_floor_dbm;
            &&& crate::lr_node::flow::read_frame(b, sound, None) == (b, None::<(i16, i16)>)
            &&& !sound ==> after == b && r is None
            &&& sound ==> after == (BridgeView { n_rx: b.n_rx.wrapping_add(1), ..b })
            &&& sound ==> (r matches Some((rssi, snr)) && rssi == info.rssi_dbm && (
            info.snr_db matches Some(s) ==> snr == s) && (info.snr_db is None ==> {
                &&& floor == i16::MIN ==> snr == 0
                &&& floor != i16::MIN && -32_768 <= info.rssi_dbm - floor <= 32_767 ==> snr
                    == info.rssi_dbm - floor
            }))
        }),
{
}

/// The name plane is obeyed: only what it drops or answers itself is kept from the host, only what it
/// wants relayed is sent on, its answer is sent as it is unless it is empty, and a frame is delivered
/// byte for byte behind its strength, its signal-to-noise ratio and its time.
pub proof fn the_name_plane_is_obeyed(
    debug: bool,
    action: PlaneAction,
    payload: Seq<u8>,
    rssi: i16,
    snr: i16,
    ts: u32,
    plan: HeardPlan,
)
    requires
        crate::lr_node::flow::heard_planned(debug, action, payload, rssi, snr, ts, plan),
    ensures
        plan.deliver is None <==> action is Drop || action is Serve,
        plan.relay <==> action is RelayAndDeliver,
        plan.serve is Some ==> action is Serve,
        action matches PlaneAction::Serve { data } ==> (data@.len() > 0 ==> (
        plan.serve matches Some(d) && d@ == data@)) && (data@.len() == 0 ==> plan.serve is None),
        plan.rearm <==> plan.relay || plan.serve is Some,
        plan.log is Some <==> debug,
        plan.log matches Some(f) ==> f@.typ == 0x84,
        plan.deliver matches Some(f) ==> {
            &&& f@.typ == 0x81
            &&& f@.payload.len() == 8 + payload.len()
            &&& crate::bytes::from_twos16(crate::bytes::u16_at(f@.payload, 0)) == rssi
            &&& crate::bytes::from_twos16(crate::bytes::u16_at(f@.payload, 2)) == snr
            &&& crate::bytes::u32_at(f@.payload, 4) == ts
            &&& f@.payload.skip(8) == payload
        },
{
    let b = crate::bytes::be16_signed(rssi) + crate::bytes::be16_signed(snr) + crate::bytes::be32(ts)
        + payload;
    assert(b.subrange(0, 2) =~= crate::bytes::be16(crate::bytes::twos16(rssi)));
    assert(b.subrange(2, 4) =~= crate::bytes::be16(crate::bytes::twos16(snr)));
    assert(b.subrange(4, 8) =~= crate::bytes::be32(ts));
    assert(b.skip(8) =~= payload);
    crate::bytes::numbers_are_found_in_place(b, 0, crate::bytes::twos16(rssi), 0, 0);
    crate::bytes::numbers_are_found_in_place(b, 2, crate::bytes::twos16(snr), 0, 0);
    crate::bytes::numbers_are_found_in_place(b, 4, 0, ts, 0);
    crate::bytes::signed_round_trip(0, rssi);
    crate::bytes::signed_round_trip(0, snr);
}

/// A background sample is taken when it is due and not before, and the next is due five milliseconds
/// later.
pub proof fn samples_keep_their_period(b: BridgeView, now: u64, later: u64)
    requires
        now <= later <= u64::MAX - 5_000,
    ensures
        ({
            let (after, due) = crate::lr_node::flow::sampling(b, now);
            &&& due <==> now >= b.next_sense
            &&& !due ==> after == b
            &&& due ==> (crate::lr_node::flow::sampling(after, later).1 <==> later - now >= 5_000)
            &&& after == (BridgeView { next_sense: after.next_sense, ..b })
        }),
{
}

/// A beacon goes out when it is due, never earlier and never while it is off; the next is due exactly
/// one period later; each ends in the next number; and each counts as a transmission.
pub proof fn beacons_keep_their_period(b: BridgeView, now: u64, later: u64, ok: bool)
    requires
        now <= later <= u64::MAX - 255_000_000,
        b.beacon_period_ms <= 255_000,
    ensures
        ({
            let (after, msg) = crate::lr_node::flow::beaconing(b, now);
            let (sent, log) = crate::lr_node::flow::after_beacon(after, ok);
            &&& msg is Some <==> b.beacon_on && now >= b.next_beacon
            &&& msg is None ==> after == b
            &&& msg matches Some(m) ==> m.len() == 17 && crate::bytes::u32_at(m, 13)
                == b.beacon_seq && m.take(13) == crate::lr_node::flow::BEACON_TEXT@
            &&& msg is Some ==> (crate::lr_node::flow::beaconing(sent, later).1 is Some
                <==> later - now >= 1000 * b.beacon_period_ms)
            &&& sent == (BridgeView {
                next_beacon: after.next_beacon,
                beacon_seq: b.beacon_seq.wrapping_add(1),
                n_tx: b.n_tx.wrapping_add(1),
                ..b
            })
            &&& log is Some <==> b.debug
            &&& log matches Some(f) ==> f.typ == 0x84
        }),
{
    let m = crate::lr_node::flow::BEACON_TEXT@ + crate::bytes::be32(b.beacon_seq);
    assert(m.subrange(13, 17) =~= crate::bytes::be32(b.beacon_seq));
    crate::bytes::numbers_are_found_in_place(m, 13, 0, b.beacon_seq, 0);
    assert(m.take(13) =~= crate::lr_node::flow::BEACON_TEXT@);
}

/// While a plan runs every hop is recorded once, under its number in the plan, with its stamp; the
/// numbers go round the plan; what was recorded before stays, up to the depth of the record; and a
/// key-up is recorded under the number of the next hop with the transmit flag, without moving it.
pub proof fn hops_are_recorded(t: TimelineView, rx: bool, stamp: u32)
    requires
        0 < t.depth <= 40,
        t.next < t.depth,
        t.trace.len() < 32,
    ensures
        ({
            let after = t.noted(true, rx, stamp);
            let keyed = t.keyed(stamp);
            &&& t.noted(false, rx, stamp) == t
            &&& after.trace.drop_last() == t.trace
            &&& after.trace.len() == t.trace.len() + 1
            &&& after.trace.last().idx == t.next && after.trace.last().t == stamp
            &&& after.next as int == (t.next + 1) % t.depth as int
            &&& after.depth == t.depth
            &&& rx ==> after.coalesced == t.coalesced.wrapping_add(1)
            &&& !rx ==> after.coalesced == t.coalesced
            &&& keyed.trace.drop_last() == t.trace
            &&& keyed.trace.len() == t.trace.len() + 1
            &&& keyed.trace.last().idx == t.next + 128 && keyed.trace.last().t == stamp
            &&& keyed == (TimelineView { trace: keyed.trace, ..t })
        }),
{
    let c = t.next;
    assert(c & 0x3F == c && (c | 0x80) == c + 128) by (bit_vector)
        requires
            c < 64,
    ;
    let s = stamp as u64;
    assert(s as u32 == stamp) by (bit_vector)
        requires
            s == stamp as u64,
    ;
    assert(t.noted(true, rx, stamp).trace.drop_last() =~= t.trace);
    assert(t.keyed(stamp).trace.drop_last() =~= t.trace);
    if t.next + 1 < t.depth {
        assert((t.next + 1) % t.depth as int == t.next + 1) by (nonlinear_arith)
            requires
                0 <= t.next + 1 < t.depth,
        ;
    } else {
        assert(t.next + 1 == t.depth);
        assert(t.depth as int % t.depth as int == 0) by (nonlinear_arith)
            requires
                t.depth > 0,
        ;
    }
}

/// Without a plan nothing is recorded, whatever the chip reports.
pub proof fn nothing_is_recorded_without_a_plan(t: TimelineView, hop: bool, rx: bool, stamp: u32)
    requires
        t.depth == 0,
    ensures
        t.noted(hop, rx, stamp) == t,
        t.keyed(stamp) == t,
{
}

/// The word that the chip reports is read bit by bit: a frame waits exactly if the received bit is
/// set, it is sound exactly if the checksum bit is clear, and either hop bit is a hop.
pub proof fn words_are_read_bit_by_bit(word: u32, bit: u32)
    requires
        bit < 32,
    ensures
        crate::lr_node::flow::frame_waits(word).0 <==> (word >> 18u32) & 1 == 1,
        crate::lr_node::flow::frame_waits(word).1 <==> (word >> 22u32) & 1 == 0,
        crate::lr_node::irq::hops(word) <==> (word >> 12u32) & 1 == 1 || (word >> 25u32) & 1 == 1,
        (crate::lr_node::irq::pin_mask(true) >> bit) & 1 == 1 <==> bit == 12 || bit == 18 || bit
            == 19 || bit == 21 || bit == 25,
        (crate::lr_node::irq::pin_mask(false) >> bit) & 1 == 1 <==> bit == 18 || bit == 19 || bit
            == 21,
{
    assert((word & 0x0004_0000 != 0 <==> (word >> 18u32) & 1 == 1) && (word & 0x0040_0000 == 0
        <==> (word >> 22u32) & 1 == 0) && (word & 0x0000_1000 != 0 <==> (word >> 12u32) & 1 == 1)
        && (word & 0x0200_0000 != 0 <==> (word >> 25u32) & 1 == 1) && ((0x022C_1000u32 >> bit) & 1 == 1 <==> bit == 12 || bit == 18 || bit == 19 || bit == 21
        || bit == 25) && ((0x002C_0000u32 >> bit) & 1 == 1 <==> bit == 18 || bit == 19 || bit
        == 21)) by (bit_vector)
        requires
            bit < 32,
    ;
}

/// An interrupt word is recorded as a hop exactly if it carries one while a plan runs, with its own
/// stamp, and nothing else of the node changes; following a keyed frame records the same.
pub proof fn words_are_recorded(b: BridgeView, word: u32, stamp: u32, deadline: u64)
    ensures
        ({
            let after = crate::lr_node::flow::after_word(b, word, stamp);
            let hop = (word >> 12u32) & 1 == 1 || (word >> 25u32) & 1 == 1;
            &&& after == (BridgeView { tl: after.tl, ..b })
            &&& hop && b.tl.depth > 0 ==> after.tl.trace.last().t == stamp
            &&& hop && b.tl.depth > 0 && b.tl.trace.len() < 32 ==> after.tl.trace.len()
                == b.tl.trace.len() + 1
            &&& !hop || b.tl.depth == 0 ==> after == b
            &&& b.polled(
                deadline,
                crate::lr_node::flow::PollEvent::Word { word: Some(word), stamp },
            ).0 == after
            &&& b.polled(deadline, crate::lr_node::flow::PollEvent::Word { word: None, stamp }) == (
                b,
                crate::lr_node::flow::PollNext::Rest,
            )
        }),
{
    words_are_read_bit_by_bit(word, 0);
    let s = stamp as u64;
    assert(s as u32 == stamp) by (bit_vector)
        requires
            s == stamp as u64,
    ;
}

/// At the start the channel is busy above -90 dBm, senses and window are the shortest, nothing is
/// counted and no noise is known; the generator is never zero, and the seed itself unless that is.
pub proof fn channel_access_starts_afresh(seed: u32)
    ensures
        ({
            let s = Sense::at_start(seed);
            &&& s.rng != 0
            &&& seed != 0 ==> s.rng == seed
            &&& s.thresh_dbm == -90
            &&& s.cca_steps == 4_096 && crate::lr_node::sense::senses(s) == 1
            &&& crate::lr_node::sense::window_us(s, 0) == 1_000
            &&& crate::lr_node::sense::limit(s) == 6
            &&& s.activity == 0 && s.cad_busy == 0 && s.defer == 0
            &&& forall|rssi: i16| #[trigger] crate::lr_node::sense::snr_of(s, rssi) == 0
        }),
{
    vstd::arithmetic::power2::lemma2_to64();
    let s = Sense::at_start(seed);
    assert(crate::lr_node::sense::doublings(s, 0) == 0);
    assert(vstd::arithmetic::power2::pow2(0) == 1);
    assert(crate::lr_node::sense::window_us(s, 0) == 1 * 1000 * 1);
}

/// How late a transmission was keyed is told in ticks of the counter, across a wrap too, under the
/// name of its command.
pub proof fn lateness_is_told(target: u32, late: u32, ok: bool)
    ensures
        crate::lr_node::flow::tx_events(
            true,
            TxKind::At { target },
            ok,
            target.wrapping_add(late),
        )[0].payload == crate::text::cut(
            crate::text::text("TX_AT late_ticks=") + crate::text::decimal(late as nat),
            32,
        ),
        crate::lr_node::flow::tx_events(
            true,
            TxKind::Abs { target },
            ok,
            target.wrapping_add(late),
        )[0].payload == crate::text::cut(
            crate::text::text("TX_AT_ABS late_ticks=") + crate::text::decimal(late as nat),
            40,
        ),
{
    assert(target.wrapping_add(late).wrapping_sub(target) == late);
}

/// The line about a received frame says what becomes of it and how long it is; the line about a
/// beacon shows its number and whether it went out.
pub proof fn lines_say_what_happened(b: BridgeView, n: u32)
    ensures
        crate::lr_node::flow::heard_line(true, false, false, n) == crate::text::cut(
            crate::text::text("RX served n=") + crate::text::decimal(n as nat),
            32,
        ),
        crate::lr_node::flow::heard_line(false, true, true, n) == crate::text::cut(
            crate::text::text("RX relay n=") + crate::text::decimal(n as nat),
            32,
        ),
        crate::lr_node::flow::heard_line(false, false, true, n) == crate::text::cut(
            crate::text::text("RX deliver n=") + crate::text::decimal(n as nat),
            32,
        ),
        crate::lr_node::flow::heard_line(false, false, false, n) == crate::text::cut(
            crate::text::text("RX dropped n=") + crate::text::decimal(n as nat),
            32,
        ),
        b.debug ==> (crate::lr_node::flow::after_beacon(b, true).1 matches Some(f) && f.payload
            == crate::text::cut(
            crate::text::text("BCN seq=") + crate::text::decimal(b.beacon_seq as nat),
            32,
        )),
        b.debug ==> (crate::lr_node::flow::after_beacon(b, false).1 matches Some(f) && f.payload
            == crate::text::cut(
            crate::text::text("BCN FAILED seq=") + crate::text::decimal(b.beacon_seq as nat),
            32,
        )),
{
}

/// A flag of the chip's error word is the bit of its own place, and the word for the host is the sum
/// of the places of the flags that are set.
pub proof fn error_flags_keep_their_place(word: int, k: int, f: Seq<bool>)
    requires
        0 <= k < 14,
        0 <= word < 65_536,
    ensures
        crate::lr_node::info::weight(k) == vstd::arithmetic::power2::pow2(k as nat),
        crate::lr_node::info::error_flag(word, k) <==> word / crate::lr_node::info::weight(k) % 2
            == 1,
        f[k] ==> crate::lr_node::info::flag_sum(f, k + 1) - crate::lr_node::info::flag_sum(f, k)
            == vstd::arithmetic::power2::pow2(k as nat),
        !f[k] ==> crate::lr_node::info::flag_sum(f, k + 1) == crate::lr_node::info::flag_sum(f, k),
        crate::lr_node::info::flag_sum(f, 0) == 0,
{
    vstd::arithmetic::power2::lemma2_to64();
}

/// A refused modem is named by its packet type with the chip's own status; a probe of the hop table is
/// reported with what the chip said, and what was read back with its first carrier, behind the two
/// bytes of status; an empty LR-FHSS frame takes the fewest blocks that hold its coded bits.
pub proof fn probes_are_reported(
    chip: u8,
    a: u8,
    b: u8,
    f0: u32,
    rest: Seq<u8>,
    p: crate::lr_node::phy::LrfhssParams,
)
    ensures
        crate::lr_node::flow::modem_refused(crate::lr_node::phy::Phy::Lora, chip).payload == seq![
            0u8,
            chip,
        ],
        crate::lr_node::flow::modem_refused(crate::lr_node::phy::Phy::Flrc, chip).payload == seq![
            5u8,
            chip,
        ],
        crate::lr_node::flow::modem_refused(crate::lr_node::phy::Phy::LrFhss, chip).payload == seq![
            7u8,
            chip,
        ],
        crate::lr_node::flow::modem_refused(crate::lr_node::phy::Phy::Lora, chip).typ == 0x8D,
        crate::lr_node::flow::probe_readback(
            seq![a, b] + crate::bytes::be32(f0) + rest,
        ).payload == crate::text::cut(
            crate::text::text("HOP readback f0=") + crate::text::decimal(f0 as nat),
            48,
        ),
        crate::lr_node::flow::probe_refusal(true, chip).payload == crate::text::cut(
            crate::text::text("HOP write REFUSED chip=") + crate::text::decimal(chip as nat),
            40,
        ),
        crate::lr_node::flow::probe_refusal(false, chip).payload == crate::text::cut(
            crate::text::text("HOP read REFUSED chip=") + crate::text::decimal(chip as nat),
            40,
        ),
        ({
            let n = crate::lr_node::flow::probed_blocks(PhyMode::LrFhss(p));
            let coded = crate::airtime::lrfhss_coded_bits(p.cr.spec_code(), 0);
            48 * (n - 1) < coded <= 48 * n
        }),
{
    let s = seq![a, b] + crate::bytes::be32(f0) + rest;
    assert(s.subrange(2, 6) =~= crate::bytes::be32(f0));
    crate::bytes::numbers_are_found_in_place(s, 2, 0, f0, 0);
}

/// A transmission counts once, and a key-up is recorded while a plan runs; neither changes anything
/// else of the node.
pub proof fn transmissions_count_once(b: BridgeView, ticks: u32)
    requires
        b.n_tx < u32::MAX,
    ensures
        b.transmitted().n_tx == b.n_tx + 1,
        b.transmitted() == (BridgeView { n_tx: b.transmitted().n_tx, ..b }),
        b.keyed_up(ticks) == (BridgeView { tl: b.tl.keyed(ticks), ..b }),
        b.tl.depth == 0 ==> b.keyed_up(ticks) == b,
        b.tl.depth > 0 ==> b.keyed_up(ticks).tl.trace.len() > 0 && b.keyed_up(
            ticks,
        ).tl.trace.last().idx >= 128 && b.keyed_up(ticks).tl.trace.last().t == ticks,
{
    let c = b.tl.next;
    assert((c & 0x3F) | 0x80 >= 128 && ticks as u64 as u32 == ticks) by (bit_vector);
}

} // verus!
