//! What a host that sends commands can rely on.

use vstd::prelude::*;

use crate::lr_node::bridge::{BridgeView, LrPlanView, TxKind};
use crate::lr_node::phy::{Phy, PhyMode, PhyView};
use crate::lr_node::sense::Sense;

verus! {

/// Every transmission that a host asks for carries the host's bytes: whenever a command leads to a
/// transmission, listening or not, its payload is the command's body behind the command's fixed
/// fields. The two commands without such fields are never refused, whatever their body.
pub proof fn every_transmission_carries_the_hosts_bytes(
    b: BridgeView,
    op: u8,
    pl: Seq<u8>,
    ticks: u32,
    now: u64,
)
    ensures
        ({
            let (after, plan) = crate::lr_node::bridge::decided(b, op, pl, ticks, now);
            let fields: int = if op == 0x18 {
                4
            } else if op == 0x1F {
                8
            } else {
                0
            };
            &&& plan matches LrPlanView::Transmit { payload, kind, wait } ==> {
                &&& op == 0x01 || op == 0x18 || op == 0x1F
                &&& payload.len() + fields == pl.len()
                &&& forall|i: int| 0 <= i < payload.len() ==> payload[i] == pl[fields + i]
                &&& op == 0x01 <==> kind == TxKind::Plain
                &&& op == 0x01 ==> !wait
            }
            &&& plan matches LrPlanView::Listen { payload } ==> op == 0x0E && payload == pl
            &&& op == 0x01 ==> plan is Transmit && after == b
            &&& op == 0x0E ==> plan is Listen && after == b
        }),
{
}

/// A transmission after a delay is for the counter that many microseconds, at sixteen ticks each,
/// ahead of the reading, and is waited for unless the delay is zero. Only a delay beyond a second and
/// a frame too long for the modem are refused.
#[verifier::rlimit(40)]
pub proof fn a_delay_is_kept(b: BridgeView, delay: u32, frame: Seq<u8>, ticks: u32, now: u64)
    ensures
        ({
            let pl = crate::bytes::be32(delay) + frame;
            let (after, plan) = crate::lr_node::bridge::decided(b, 0x18, pl, ticks, now);
            &&& after == b
            &&& delay <= 1_000_000 && frame_fits(b, frame) ==> plan == (LrPlanView::Transmit {
                payload: frame,
                kind: TxKind::At { target: ((ticks + 16 * delay) % 4_294_967_296) as u32 },
                wait: delay != 0,
            })
            &&& delay > 1_000_000 || !frame_fits(b, frame) ==> plan
                == crate::lr_node::bridge::refused(0x18, 0x04)
        }),
{
    let pl = crate::bytes::be32(delay) + frame;
    assert(pl.subrange(0, 4) =~= crate::bytes::be32(delay));
    crate::bytes::numbers_are_found_in_place(pl, 0, 0, delay, 0);
    assert(pl.skip(4) =~= frame);
    if delay <= 1_000_000 {
        lemma_counter_ahead(ticks, (delay * 16) as u32);
    }
}

proof fn lemma_counter_ahead(ticks: u32, d: u32)
    ensures
        ticks.wrapping_add(d) == ((ticks + d) % 4_294_967_296) as u32,
{
}

proof fn lemma_clock_after(c: crate::lr_node::clock::MacClock, ticks: u32)
    requires
        c.hi < u32::MAX,
    ensures
        ({
            let before: int = c.hi * 4_294_967_296 + c.last;
            let a = c.after(ticks);
            &&& a.reached() == a.hi * 4_294_967_296 + a.last
            &&& 0 <= a.reached() <= u64::MAX
            &&& a.reached() % 4_294_967_296 == ticks
            &&& before <= a.reached() < before + 4_294_967_296
        }),
{
    crate::lr_node::clock::clock_is_monotonic(c, ticks);
}

/// A frame that the modem in use can carry.
pub open spec fn frame_fits(b: BridgeView, frame: Seq<u8>) -> bool {
    match b.st.mode {
        PhyMode::Flrc(_) => frame.len() <= 47,
        PhyMode::Lora(_) => frame.len() <= 247,
        PhyMode::LrFhss(_) => frame.len() <= b.pr.lrfhss_payload_max,
    }
}

/// A transmission at an instant is for that instant of the clock that the host reads: the low half of
/// it on the counter, waited for while it lies ahead. Only an instant more than a second ahead and a
/// frame too long for the modem are refused.
pub proof fn an_instant_is_kept(b: BridgeView, t: u64, frame: Seq<u8>, ticks: u32, now: u64)
    ensures
        ({
            let pl = crate::bytes::be64(t) + frame;
            let (after, plan) = crate::lr_node::bridge::decided(b, 0x1F, pl, ticks, now);
            let (read, told) = crate::lr_node::bridge::decided(b, 0x17, Seq::empty(), ticks, now);
            let clock = crate::bytes::u64_at(told->frames[0].payload, 0);
            &&& after == read
            &&& t <= clock + 16_000_000 && frame_fits(b, frame) ==> plan == (LrPlanView::Transmit {
                payload: frame,
                kind: TxKind::Abs { target: (t % 4_294_967_296) as u32 },
                wait: t > clock,
            })
            &&& t > clock + 16_000_000 || !frame_fits(b, frame) ==> plan
                == crate::lr_node::bridge::refused(0x1F, 0x04)
        }),
{
    let pl = crate::bytes::be64(t) + frame;
    assert(pl.subrange(0, 8) =~= crate::bytes::be64(t));
    crate::bytes::numbers_are_found_in_place(pl, 0, 0, 0, t);
    assert(pl.skip(8) =~= frame);
    crate::bytes::be_round_trip(0, 0, b.clock.after(ticks).reached() as u64);
}

/// The clock that a host reads is the counter, wraps counted: its low half is the reading, it has
/// moved by what the counter has, less than one wrap, and reading it changes nothing else.
#[verifier::rlimit(40)]
pub proof fn the_clock_reads_the_counter(b: BridgeView, pl: Seq<u8>, ticks: u32, now: u64)
    requires
        b.clock.hi < u32::MAX,
    ensures
        ({
            let (after, plan) = crate::lr_node::bridge::decided(b, 0x17, pl, ticks, now);
            let clock = crate::bytes::u64_at(plan->frames[0].payload, 0);
            let before: int = b.clock.hi * 4_294_967_296 + b.clock.last;
            &&& plan is Reply && plan->frames.len() == 1
            &&& plan->frames[0].typ == 0x8A && plan->frames[0].payload.len() == 8
            &&& clock % 4_294_967_296 == ticks
            &&& before <= clock < before + 4_294_967_296
            &&& after.clock.hi * 4_294_967_296 + after.clock.last == clock
            &&& after == (BridgeView { clock: after.clock, ..b })
        }),
{
    lemma_clock_after(b.clock, ticks);
    crate::bytes::be_round_trip(0, 0, b.clock.after(ticks).reached() as u64);
}

/// A carrier that a host sets is the carrier in use, and nothing else has changed; one outside the
/// band is refused and changes nothing.
pub proof fn a_carrier_is_taken(b: BridgeView, f: u32, ticks: u32, now: u64)
    ensures
        ({
            let (after, plan) = crate::lr_node::bridge::decided(
                b,
                0x02,
                crate::bytes::be32(f),
                ticks,
                now,
            );
            let inside = b.pr.band_min_hz <= f <= b.pr.band_max_hz;
            &&& inside ==> plan == LrPlanView::Retune && after.st.freq_hz == f
            &&& after == (BridgeView { st: PhyView { freq_hz: after.st.freq_hz, ..b.st }, ..b })
            &&& !inside ==> plan == crate::lr_node::bridge::refused(0x02, 0x04) && after == b
        }),
{
    crate::bytes::be_round_trip(0, f, 0);
}

/// A power that a host sets is the power in use, in half-dB steps, or the end of the amplifier's
/// range that is nearest to it; nothing else has changed.
pub proof fn a_power_is_taken(b: BridgeView, dbm: i8, ticks: u32, now: u64)
    requires
        b.pr.wf(),
    ensures
        ({
            let (after, plan) = crate::lr_node::bridge::decided(
                b,
                0x04,
                seq![crate::bytes::twos8(dbm)],
                ticks,
                now,
            );
            &&& plan == LrPlanView::Retune
            &&& b.pr.pwr_min_dbm <= dbm <= b.pr.pwr_max_dbm ==> after.st.tx_power_half_db == 2
                * dbm
            &&& dbm > b.pr.pwr_max_dbm ==> after.st.tx_power_half_db == 2 * b.pr.pwr_max_dbm
            &&& dbm < b.pr.pwr_min_dbm ==> after.st.tx_power_half_db == 2 * b.pr.pwr_min_dbm
            &&& after == (BridgeView {
                st: PhyView { tx_power_half_db: after.st.tx_power_half_db, ..b.st },
                ..b
            })
        }),
{
    crate::bytes::signed_round_trip(dbm, 0);
}

/// A modulation that the modem has is the modulation in use: the three slots read back, and for LoRa
/// they are the spreading factor, the bandwidth and the coding rate. One that it does not have is
/// refused. Neither changes the modem, its preamble or anything else.
pub proof fn a_modulation_is_taken(
    b: BridgeView,
    x: u8,
    y: u8,
    z: u8,
    ticks: u32,
    now: u64,
)
    ensures
        ({
            let (after, plan) = crate::lr_node::bridge::decided(
                b,
                0x03,
                seq![x, y, z],
                ticks,
                now,
            );
            let known = match b.st.mode {
                PhyMode::Flrc(_) => x < 8 && z < 4,
                PhyMode::Lora(_) => 7 <= x <= 12 && y < 7 && y != 3 && 1 <= z <= 4,
                PhyMode::LrFhss(_) => x == 0 && y < 10 && z < 4,
            };
            &&& known ==> plan == LrPlanView::Retune
            &&& !known ==> plan == crate::lr_node::bridge::refused(0x03, 0x04) && after == b
            &&& after == (BridgeView { st: PhyView { mode: after.st.mode, ..b.st }, ..b })
            &&& known && b.st.mode is Flrc ==> after.st.mode.triple() == seq![x, 0, z]
            &&& known && b.st.mode is Lora ==> after.st.mode.triple() == seq![
                x,
                (y % 4) as u8,
                z,
            ]
            &&& known && b.st.mode is LrFhss ==> after.st.mode.triple() == seq![0, y, z]
            &&& b.st.mode matches PhyMode::Flrc(p) ==> (after.st.mode matches PhyMode::Flrc(q)
                && q.preamble == p.preamble)
            &&& b.st.mode matches PhyMode::Lora(p) ==> (after.st.mode matches PhyMode::Lora(q)
                && q.preamble_syms == p.preamble_syms && (known ==> q.sf == x && q.cr == z
                && q.bw_hz == (if y % 4 == 0 {
                125_000int
            } else if y % 4 == 1 {
                250_000
            } else {
                500_000
            })))
            &&& b.st.mode matches PhyMode::LrFhss(p) ==> (after.st.mode matches PhyMode::LrFhss(
                q,
            ) && q.sync_headers == p.sync_headers)
        }),
{
    assert(crate::lora_node::params::bandwidth_code(125_000) == 0);
    assert(crate::lora_node::params::bandwidth_code(250_000) == 1);
    assert(crate::lora_node::params::bandwidth_code(500_000) == 2);
}

/// A preamble that the modem has is the preamble in use: for LoRa exactly so many symbols, for FLRC
/// the shortest of its lengths that is not shorter. Every other is refused, and nothing else has
/// changed.
pub proof fn a_preamble_is_taken(b: BridgeView, v: u16, ticks: u32, now: u64)
    ensures
        ({
            let (after, plan) = crate::lr_node::bridge::decided(
                b,
                0x0C,
                crate::bytes::be16(v),
                ticks,
                now,
            );
            let known = match b.st.mode {
                PhyMode::Flrc(_) => 4 <= v <= 32,
                PhyMode::Lora(_) => v > 0,
                PhyMode::LrFhss(_) => false,
            };
            &&& known ==> plan == LrPlanView::Retune
            &&& !known ==> plan == crate::lr_node::bridge::refused(0x0C, 0x04) && after == b
            &&& after == (BridgeView { st: PhyView { mode: after.st.mode, ..b.st }, ..b })
            &&& after.st.mode.triple() == b.st.mode.triple()
            &&& b.st.mode is Lora ==> (after.st.mode matches PhyMode::Lora(q) && (known
                ==> q.preamble_syms == v))
            &&& b.st.mode is Flrc ==> (after.st.mode matches PhyMode::Flrc(q) && (known ==> v
                <= 4 * (q.preamble.spec_code() + 1) < v + 4))
        }),
{
    crate::bytes::be_round_trip(v, 0, 0);
}

/// The contention settings that a host sends are those in use, and nothing else has changed.
pub proof fn contention_settings_are_taken(
    b: BridgeView,
    cw: u16,
    backoff: u8,
    attempts: u8,
    ticks: u32,
    now: u64,
)
    ensures
        ({
            let pl = crate::bytes::be16(cw) + seq![backoff, attempts];
            let (after, plan) = crate::lr_node::bridge::decided(b, 0x0B, pl, ticks, now);
            &&& plan == LrPlanView::Info
            &&& after.sense.lbt_cw_ms == cw
            &&& after.sense.lbt_max_backoff == backoff
            &&& after.sense.lbt_max_attempts == attempts
            &&& after == (BridgeView {
                sense: Sense {
                    lbt_cw_ms: cw,
                    lbt_max_backoff: backoff,
                    lbt_max_attempts: attempts,
                    ..b.sense
                },
                ..b
            })
        }),
{
    let pl = crate::bytes::be16(cw) + seq![backoff, attempts];
    assert(pl.subrange(0, 2) =~= crate::bytes::be16(cw));
    crate::bytes::numbers_are_found_in_place(pl, 0, cw, 0, 0);
}

/// The sensing settings that a host sends are those in use, and nothing else has changed.
pub proof fn sensing_settings_are_taken(
    b: BridgeView,
    thresh: i16,
    repeat: u8,
    ticks: u32,
    now: u64,
)
    ensures
        ({
            let pl = crate::bytes::be16(crate::bytes::twos16(thresh)) + seq![repeat];
            let (after, plan) = crate::lr_node::bridge::decided(b, 0x12, pl, ticks, now);
            &&& plan == LrPlanView::Info
            &&& after.sense.thresh_dbm == thresh
            &&& after.sense.repeat == repeat
            &&& after == (BridgeView {
                sense: Sense { thresh_dbm: thresh, repeat, ..b.sense },
                ..b
            })
        }),
{
    let pl = crate::bytes::be16(crate::bytes::twos16(thresh)) + seq![repeat];
    assert(pl.subrange(0, 2) =~= crate::bytes::be16(crate::bytes::twos16(thresh)));
    crate::bytes::numbers_are_found_in_place(pl, 0, crate::bytes::twos16(thresh), 0, 0);
    crate::bytes::signed_round_trip(0, thresh);
}

/// The length of a sense that a host sets doubles with its code from 4096 steps on, is what the
/// chip is given together with the threshold, and is what every later sense uses.
pub proof fn a_sense_length_is_used(b: BridgeView, x: u8, y: u8, z: u8, ticks: u32, now: u64)
    ensures
        ({
            let (after, plan) = crate::lr_node::bridge::decided(
                b,
                0x0A,
                seq![x, y, z],
                ticks,
                now,
            );
            let cad = crate::lr_node::bridge::decided(after, 0x08, Seq::empty(), ticks, now).1;
            let sense = crate::lr_node::bridge::decided(after, 0x1B, Seq::empty(), ticks, now).1;
            let steps = after.sense.cca_steps;
            &&& x <= 4 && y == 0 && z == 0 ==> {
                &&& steps == 4096 * vstd::arithmetic::power2::pow2(x as nat)
                &&& plan matches LrPlanView::CadParams { steps: s, thresh } && s == steps && (-255
                    <= b.sense.thresh_dbm <= 0 ==> thresh == -b.sense.thresh_dbm)
            }
            &&& x > 4 || y != 0 || z != 0 ==> plan == crate::lr_node::bridge::refused(0x0A, 0x04)
                && after == b
            &&& after == (BridgeView { sense: Sense { cca_steps: steps, ..b.sense }, ..b })
            &&& cad == (LrPlanView::Cad { steps })
            &&& sense == (LrPlanView::Sense { steps })
        }),
{
    vstd::arithmetic::power2::lemma2_to64();
}

/// A beacon setting is the one in use: on exactly for a byte other than zero, every so many seconds,
/// at least one, the first a period from now. A setting without a period keeps the old one.
pub proof fn a_beacon_setting_is_taken(
    b: BridgeView,
    on: u8,
    secs: u8,
    ticks: u32,
    now: u64,
)
    requires
        now <= u64::MAX - 255_000_000,
        b.beacon_period_ms <= 255_000,
    ensures
        ({
            let (after, plan) = crate::lr_node::bridge::decided(
                b,
                0x07,
                seq![on, secs],
                ticks,
                now,
            );
            let (kept, same) = crate::lr_node::bridge::decided(b, 0x07, seq![on], ticks, now);
            &&& plan == LrPlanView::Info && same == LrPlanView::Info
            &&& after.beacon_on <==> on != 0
            &&& secs > 0 ==> after.beacon_period_ms == 1000 * secs
            &&& secs == 0 ==> after.beacon_period_ms == 1000
            &&& after.next_beacon == now + 1000 * after.beacon_period_ms
            &&& after == (BridgeView {
                beacon_on: after.beacon_on,
                beacon_period_ms: after.beacon_period_ms,
                next_beacon: after.next_beacon,
                ..b
            })
            &&& kept == (BridgeView {
                beacon_on: on != 0,
                next_beacon: (now + 1000 * b.beacon_period_ms) as u64,
                ..b
            })
        }),
{
}

/// The small switches: diagnostics are on exactly for a byte other than zero; the gain is automatic
/// for 0 and the greatest for 1, and no other; serving and deduplication are switched on exactly for
/// a byte other than zero, while a reserved byte must be zero.
pub proof fn switches_are_taken(b: BridgeView, x: u8, y: u8, z: u8, ticks: u32, now: u64)
    ensures
        ({
            let (debug, told) = crate::lr_node::bridge::decided(b, 0x15, seq![x], ticks, now);
            let (gained, gain) = crate::lr_node::bridge::decided(b, 0x1C, seq![x], ticks, now);
            let (two, plane) = crate::lr_node::bridge::decided(b, 0x11, seq![x, y], ticks, now);
            let (three, full) = crate::lr_node::bridge::decided(
                b,
                0x11,
                seq![x, y, z],
                ticks,
                now,
            );
            &&& told == LrPlanView::Info && debug == (BridgeView { debug: x != 0, ..b })
            &&& gained == b && two == b && three == b
            &&& x == 0 ==> gain == (LrPlanView::RxGain { gain: 0 })
            &&& x == 1 ==> gain == (LrPlanView::RxGain { gain: 13 })
            &&& x > 1 ==> gain == crate::lr_node::bridge::refused(0x1C, 0x04)
            &&& plane == (LrPlanView::Plane { serve: x != 0, dedup: y != 0 })
            &&& z == 0 ==> full == plane
            &&& z != 0 ==> full == crate::lr_node::bridge::refused(0x11, 0x04)
        }),
{
}

/// The hashes that a host sends reach the name plane, in order, as the filter or as the relay list,
/// and the node stays as it was.
pub proof fn hashes_reach_the_name_plane(
    b: BridgeView,
    hashes: Seq<u64>,
    ticks: u32,
    now: u64,
)
    requires
        hashes.len() <= 8,
    ensures
        ({
            let pl = crate::lora_node::settings_laws::hash_bytes(hashes);
            &&& crate::lr_node::bridge::decided(b, 0x0F, pl, ticks, now) == (
                b,
                LrPlanView::SetFilter { hashes },
            )
            &&& crate::lr_node::bridge::decided(b, 0x10, pl, ticks, now) == (
                b,
                LrPlanView::SetRelay { hashes },
            )
        }),
{
    let pl = crate::lora_node::settings_laws::hash_bytes(hashes);
    if hashes.len() > 0 {
        crate::lora_node::settings_laws::lemma_hash_bytes(hashes, 0);
    } else {
        assert(pl =~= Seq::<u8>::empty());
    }
    let read = crate::lr_node::bridge::hashes_of(pl);
    assert(read.len() == hashes.len());
    assert forall|i: int| 0 <= i < hashes.len() implies read[i] == hashes[i] by {
        crate::lora_node::settings_laws::lemma_hash_bytes(hashes, i);
    }
    assert(read =~= hashes);
}

/// A reset zeroes what the statistics and information events tell, and keeps everything else.
pub proof fn a_reset_zeroes_the_counters(b: BridgeView, pl: Seq<u8>, ticks: u32, now: u64)
    ensures
        ({
            let (after, plan) = crate::lr_node::bridge::decided(b, 0x14, pl, ticks, now);
            &&& plan == LrPlanView::ResetPlane
            &&& after.n_rx == 0 && after.n_tx == 0
            &&& after.sense.cad_busy == 0 && after.sense.defer == 0
            &&& after == (BridgeView {
                n_rx: 0,
                n_tx: 0,
                sense: Sense { cad_busy: 0, defer: 0, ..b.sense },
                ..b
            })
        }),
{
}

/// Questions change nothing, and each is answered with what it asks for: the state, the energy, the
/// counters, the capabilities, the recorded hops.
pub proof fn questions_change_nothing(b: BridgeView, pl: Seq<u8>, ticks: u32, now: u64)
    ensures
        crate::lr_node::bridge::decided(b, 0x06, pl, ticks, now) == (b, LrPlanView::Info),
        crate::lr_node::bridge::decided(b, 0x09, pl, ticks, now) == (b, LrPlanView::Rssi),
        crate::lr_node::bridge::decided(b, 0x13, pl, ticks, now) == (b, LrPlanView::Stats),
        ({
            let (same, caps) = crate::lr_node::bridge::decided(b, 0x1A, pl, ticks, now);
            let (still, trace) = crate::lr_node::bridge::decided(b, 0x20, pl, ticks, now);
            &&& same == b && still == b
            &&& caps is Reply && caps->frames.len() == 1 && caps->frames[0].typ == 0x8B
            &&& trace is Reply && trace->frames.len() == (if b.debug {
                2int
            } else {
                1
            })
            &&& trace->frames[0].typ == 0x8E
            &&& crate::bytes::u32_at(trace->frames[0].payload, 0) == 16_000_000
            &&& trace->frames[0].payload[4] == b.tl.trace.len() as u8
            &&& b.debug ==> trace->frames[1].typ == 0x84
        }),
{
    let body = crate::lora_node::hop::trace_body(16_000_000, b.tl.trace);
    assert(body.subrange(0, 4) =~= crate::bytes::be32(16_000_000));
    crate::bytes::numbers_are_found_in_place(body, 0, 0, 16_000_000, 0);
}

/// The capability event tells the limits that the commands keep: band, power range, longest payload,
/// opcodes, modems on offer and the modem in use each stand at their place.
pub proof fn capabilities_are_what_commands_take(b: BridgeView, pl: Seq<u8>, ticks: u32, now: u64)
    ensures
        ({
            let c = crate::lr_node::bridge::decided(
                b,
                0x1A,
                pl,
                ticks,
                now,
            ).1->frames[0].payload;
            &&& c.len() == 34
            &&& c[0] == 3 && c[1] == 2
            &&& crate::bytes::u32_at(c, 2) == b.pr.band_min_hz
            &&& crate::bytes::u32_at(c, 6) == b.pr.band_max_hz
            &&& crate::bytes::from_twos8(c[10]) == b.pr.pwr_min_dbm
            &&& crate::bytes::from_twos8(c[11]) == b.pr.pwr_max_dbm
            &&& crate::bytes::u32_at(c, 12) == 16_000_000
            &&& c[16] == 3
            &&& forall|frame: Seq<u8>|
                #![trigger frame_fits(b, frame)]
                frame_fits(b, frame) <==> frame.len() <= crate::bytes::u16_at(c, 17)
            &&& crate::bytes::u32_at(c, 19) == crate::lr_node::info::bitmap(b.st.mode.spec_phy())
            &&& b.st.mode is Lora ==> c[23] == 7 && c[24] == 12
            &&& !(b.st.mode is Lora) ==> c[23] == 0 && c[24] == 0
            &&& crate::bytes::u32_at(c, 25) == (match b.st.mode {
                PhyMode::Flrc(_) => b.pr.flrc_gran_ns,
                PhyMode::Lora(_) => b.pr.lora_gran_ns,
                PhyMode::LrFhss(_) => b.pr.lrfhss_gran_ns,
            })
            &&& crate::bytes::u32_at(c, 29) == b.pr.phy_bitmap
            &&& c[33] == (match b.st.mode {
                PhyMode::Flrc(_) => 5int,
                PhyMode::Lora(_) => 0,
                PhyMode::LrFhss(_) => 7,
            })
        }),
{
    let p = b.st.mode.spec_phy();
    let c = crate::lr_node::info::cap_bytes(b.pr, p);
    let cap = crate::lr_node::phy::PhyState::payload_cap(b.pr, p);
    let gran = crate::lr_node::info::gran_ns(b.pr, p);
    let bits = crate::lr_node::info::bitmap(p);
    assert(c.subrange(2, 6) =~= crate::bytes::be32(b.pr.band_min_hz));
    assert(c.subrange(6, 10) =~= crate::bytes::be32(b.pr.band_max_hz));
    assert(c.subrange(12, 16) =~= crate::bytes::be32(16_000_000));
    assert(c.subrange(17, 19) =~= crate::bytes::be16(cap));
    assert(c.subrange(19, 23) =~= crate::bytes::be32(bits));
    assert(c.subrange(25, 29) =~= crate::bytes::be32(gran));
    assert(c.subrange(29, 33) =~= crate::bytes::be32(b.pr.phy_bitmap));
    crate::bytes::numbers_are_found_in_place(c, 2, 0, b.pr.band_min_hz, 0);
    crate::bytes::numbers_are_found_in_place(c, 6, 0, b.pr.band_max_hz, 0);
    crate::bytes::numbers_are_found_in_place(c, 12, 0, 16_000_000, 0);
    crate::bytes::numbers_are_found_in_place(c, 17, cap, 0, 0);
    crate::bytes::numbers_are_found_in_place(c, 19, 0, bits, 0);
    crate::bytes::numbers_are_found_in_place(c, 25, 0, gran, 0);
    crate::bytes::numbers_are_found_in_place(c, 29, 0, b.pr.phy_bitmap, 0);
    crate::bytes::signed_round_trip(b.pr.pwr_min_dbm, 0);
    crate::bytes::signed_round_trip(b.pr.pwr_max_dbm, 0);
}

/// A modem on offer is the modem in use once it is asked for, with the parameters it starts with and
/// without a hop plan; carrier and power stay, and what was in use is kept for a way back. One that
/// is not on offer, or that no packet type names, is refused.
pub proof fn a_modem_is_switched_to(b: BridgeView, code: u8, ticks: u32, now: u64)
    ensures
        ({
            let (after, plan) = crate::lr_node::bridge::decided(b, 0x1D, seq![code], ticks, now);
            let known = (code == 0 || code == 5 || code == 7) && (b.pr.phy_bitmap >> code) & 1
                != 0;
            &&& known ==> {
                &&& plan matches LrPlanView::SwitchPhy { to, prev } && prev == b.st && to
                    == after.st.mode.spec_phy()
                &&& code == 0 ==> after.st.mode == PhyMode::Lora(b.pr.lora_start)
                &&& code == 5 ==> after.st.mode == PhyMode::Flrc(b.pr.flrc_start)
                &&& code == 7 ==> after.st.mode == PhyMode::LrFhss(b.pr.lrfhss_start)
                &&& after.st.freq_hz == b.st.freq_hz
                &&& after.st.tx_power_half_db == b.st.tx_power_half_db
                &&& !after.st.hop_enabled && after.st.hop_freqs.len() == 0
                &&& after.tl.depth == 0 && after.tl.trace == b.tl.trace
            }
            &&& !known ==> plan == crate::lr_node::bridge::refused(0x1D, 0x04) && after == b
            &&& after == (BridgeView { st: after.st, tl: after.tl, ..b })
        }),
{
}

/// A hop plan that the modem can run is the plan in use: its dwell and its carriers in order, hopping
/// exactly where it says so, recorded afresh from its first hop on.
pub proof fn a_hop_plan_is_taken(
    b: BridgeView,
    pl: Seq<u8>,
    list: Seq<u32>,
    on: bool,
    period: u16,
    ticks: u32,
    now: u64,
)
    requires
        !(b.st.mode is Flrc),
        list.len() <= 40,
        on ==> period > 0,
        pl.len() == 4 + 4 * list.len(),
        pl[0] == (if on {
            1int
        } else {
            0
        }),
        pl.subrange(1, 3) == crate::bytes::be16(period),
        pl[3] == list.len(),
        forall|i: int|
            0 <= i < list.len() ==> {
                &&& pl.subrange(4 + 4 * i, 8 + 4 * i) == crate::bytes::be32(#[trigger] list[i])
                &&& b.pr.band_min_hz <= list[i] <= b.pr.band_max_hz
            },
    ensures
        ({
            let (after, plan) = crate::lr_node::bridge::decided(b, 0x1E, pl, ticks, now);
            &&& plan matches LrPlanView::HopSet { mask, probe } && mask == (if on && list.len()
                > 0 {
                0x022C_1000int
            } else {
                0x002C_0000
            }) && probe == (b.debug && b.st.mode is LrFhss)
            &&& after.st.hop_enabled == on
            &&& after.st.hop_period == period
            &&& after.st.hop_freqs == list
            &&& on && list.len() > 0 ==> after.tl.trace.len() == 0 && after.tl.depth == list.len()
                && after.tl.next == 0 && after.tl.coalesced == 0
            &&& !on ==> after.tl.trace == b.tl.trace && after.tl.depth == 0
            &&& after == (BridgeView {
                st: PhyView {
                    hop_enabled: on,
                    hop_period: period,
                    hop_freqs: list,
                    ..b.st
                },
                tl: after.tl,
                ..b
            })
        }),
{
    crate::bytes::numbers_are_found_in_place(pl, 1, period, 0, 0);
    let f = crate::lr_node::bridge::carriers_of(pl, list.len() as int);
    assert forall|i: int| 0 <= i < list.len() implies f[i] == #[trigger] list[i] by {
        crate::bytes::numbers_are_found_in_place(pl, 4 + 4 * i, 0, list[i], 0);
    }
    assert(f =~= list);
}

/// A hop plan is refused, and changes nothing, in a modem that does not hop, with a reserved control
/// bit, with more hops than the table holds, without a dwell, and with a carrier outside the band.
pub proof fn a_bad_hop_plan_is_refused(
    b: BridgeView,
    pl: Seq<u8>,
    i: int,
    ticks: u32,
    now: u64,
)
    requires
        pl.len() >= 4,
        pl.len() >= 4 + 4 * pl[3],
        b.st.mode is Flrc || pl[0] > 1 || pl[3] > 40 || (pl[0] == 1 && pl[1] == 0 && pl[2] == 0)
            || (0 <= i < pl[3] && !(b.pr.band_min_hz <= crate::bytes::u32_at(pl, 4 + 4 * i)
            <= b.pr.band_max_hz)),
    ensures
        crate::lr_node::bridge::decided(b, 0x1E, pl, ticks, now) == (
            b,
            crate::lr_node::bridge::refused(0x1E, 0x04),
        ),
{
    let f = crate::lr_node::bridge::carriers_of(pl, pl[3] as int);
    if 0 <= i < pl[3] {
        assert(f[i] == crate::bytes::u32_at(pl, 4 + 4 * i));
    }
    assert(pl[1] == 0 && pl[2] == 0 ==> crate::bytes::u16_at(pl, 1) == 0);
}

/// A refusal names the command and its reason, and comes alone.
pub proof fn refusals_name_the_command(op: u8, reason: u8)
    ensures
        ({
            let plan = crate::lr_node::bridge::refused(op, reason);
            &&& plan is Reply && plan->frames.len() == 1
            &&& plan->frames[0].typ == 0x8F
            &&& plan->frames[0].payload.len() == 2
            &&& plan->frames[0].payload[0] == op && plan->frames[0].payload[1] == reason
        }),
{
}

/// An opcode that the node does not have is refused as unknown, and one that the chip cannot do as
/// beyond the hardware, whatever the payload and the modem.
pub proof fn unknown_commands_are_refused(b: BridgeView, op: u8, pl: Seq<u8>, ticks: u32, now: u64)
    ensures
        op == 0 || op > 0x20 || op == 0x19 ==> crate::lr_node::bridge::decided(
            b,
            op,
            pl,
            ticks,
            now,
        ) == (b, crate::lr_node::bridge::refused(op, 0x01)),
        op == 0x05 || op == 0x0D || op == 0x16 ==> crate::lr_node::bridge::decided(
            b,
            op,
            pl,
            ticks,
            now,
        ) == (b, crate::lr_node::bridge::refused(op, 0x02)),
{
}

/// A command that lacks a byte of its fields, of which it has four, three, two, one or eight by its
/// opcode, is refused for its length and changes nothing.
pub proof fn missing_bytes_are_refused(b: BridgeView, op: u8, pl: Seq<u8>, ticks: u32, now: u64)
    requires
        ({
            ||| (op == 0x02 || op == 0x0B || op == 0x18 || op == 0x1E) && pl.len() < 4
            ||| (op == 0x03 || op == 0x0A || op == 0x12) && pl.len() < 3
            ||| (op == 0x0C || op == 0x11) && pl.len() < 2
            ||| (op == 0x04 || op == 0x07 || op == 0x15 || op == 0x1C || op == 0x1D) && pl.len() < 1
            ||| op == 0x1F && pl.len() < 8
        }),
    ensures
        crate::lr_node::bridge::decided(b, op, pl, ticks, now).0 == b,
        crate::lr_node::bridge::decided(b, op, pl, ticks, now).1 matches LrPlanView::Reply { frames }
            && frames.len() == 1 && frames[0].typ == 0x8F && frames[0].payload == seq![op, 0x03u8],
{
}

/// A hop plan is refused exactly for a modem that cannot hop, a control byte above one, more than
/// forty carriers, a start without a dwell, or a carrier outside of the band, the first of these that
/// holds.
pub proof fn hop_plans_are_refused_for_their_fault(
    pr: crate::lr_node::phy::Profile,
    p: Phy,
    ctrl: u8,
    period: u16,
    freqs: Seq<u32>,
)
    ensures
        ({
            let fault = crate::lr_node::phy::hop_fault(pr, p, ctrl, period, freqs);
            let inside = forall|i: int| 0 <= i < freqs.len() ==> pr.covers(#[trigger] freqs[i]);
            &&& p == Phy::Flrc <==> fault == Some(crate::lr_node::phy::HopError::WrongPhy)
            &&& p != Phy::Flrc ==> (ctrl >= 2 <==> fault == Some(
                crate::lr_node::phy::HopError::ReservedBits,
            ))
            &&& p != Phy::Flrc && ctrl < 2 ==> (freqs.len() >= 41 <==> fault == Some(
                crate::lr_node::phy::HopError::TooDeep,
            ))
            &&& p != Phy::Flrc && ctrl == 1 && freqs.len() < 41 ==> (period == 0 <==> fault == Some(
                crate::lr_node::phy::HopError::ZeroDwell,
            ))
            &&& fault == Some(crate::lr_node::phy::HopError::OutOfBand) ==> !inside
            &&& fault is None <==> p != Phy::Flrc && ctrl < 2 && freqs.len() < 41 && (ctrl == 0
                || period > 0) && inside
        }),
{
}

} // verus!
