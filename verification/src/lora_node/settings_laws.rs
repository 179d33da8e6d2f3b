//! What a host that sets something can rely on: what it sets is what the node then uses, and what
//! the information event reads back.

use vstd::prelude::*;

use crate::lora_node::command::Plan;
use crate::lora_node::csma::Csma;
use crate::lora_node::node::Node;
use crate::lora_node::params::Params;

verus! {

/// A command that asks the driver for parameters, from its arrival to the driver's answer.
pub open spec fn tuned(
    n: Node,
    op: u8,
    buf: Seq<u8>,
    now: u64,
    taken: Node,
    plan: Plan,
    ok: bool,
    after: Node,
) -> bool {
    &&& crate::lora_node::command::decided(n, op, buf, now, taken, plan)
    &&& plan matches Plan::Build { trial, preamble } ==> crate::lora_node::outcome::built_with(
        taken,
        trial,
        preamble,
        ok,
        after,
    )
}

/// A frequency reads back: whatever four bytes a host sends, a driver that accepts leaves the node on
/// exactly that frequency, with everything else of the modulation as it was; the information event
/// then carries the same four bytes. A driver that refuses leaves all of it.
pub proof fn a_frequency_reads_back(
    n: Node,
    f: u32,
    buf: Seq<u8>,
    now: u64,
    taken: Node,
    plan: Plan,
    ok: bool,
    after: Node,
    status: u8,
    sync: u8,
    lost: u32,
)
    requires
        buf.len() >= 4,
        buf.subrange(0, 4) == crate::bytes::be32(f),
        tuned(n, 0x02, buf, now, taken, plan, ok, after),
    ensures
        plan is Build,
        taken == n,
        ok ==> after.p.freq_hz == f && after.p.sf == n.p.sf && after.p.bw_hz == n.p.bw_hz
            && after.p.cr == n.p.cr && after.p.pwr == n.p.pwr,
        ok ==> after.info_event(status, sync, lost).payload.subrange(5, 9) == buf.subrange(0, 4),
        !ok ==> after.p == n.p,
        after.csma == n.csma,
        after.sched == n.sched && after.sched_buf == n.sched_buf && after.mode == n.mode,
        n.hop.enabled ==> after.hop.hz@[0] == after.p.freq_hz,
{
    crate::bytes::numbers_are_found_in_place(buf, 0, 0, f, 0);
    info_event_tells_the_settings(after, status, sync, lost);
    assert(after.info_event(status, sync, lost).payload.subrange(5, 9) =~= crate::bytes::be32(
        after.p.freq_hz,
    ));
}

/// A modulation reads back: spreading factor, bandwidth code and coding rate that the radio has are
/// taken as they are, and the information event carries the same three bytes; carrier, power and
/// preamble stay. The older bandwidth codes mean the same bandwidths. What the radio does not have
/// turns into the default of its kind.
pub proof fn a_modulation_reads_back(
    n: Node,
    buf: Seq<u8>,
    now: u64,
    taken: Node,
    plan: Plan,
    ok: bool,
    after: Node,
    status: u8,
    sync: u8,
    lost: u32,
)
    requires
        buf.len() >= 3,
        tuned(n, 0x03, buf, now, taken, plan, ok, after),
    ensures
        plan is Build,
        taken == n,
        !ok ==> after.p == n.p,
        after.p.freq_hz == n.p.freq_hz && after.p.pwr == n.p.pwr && after.csma == n.csma,
        ok && 7 <= buf[0] <= 12 ==> after.p.sf == buf[0],
        ok && !(7 <= buf[0] <= 12) ==> after.p.sf == 9,
        ok && buf[1] == 0 ==> after.p.bw_hz == 125_000,
        ok && buf[1] == 1 ==> after.p.bw_hz == 250_000,
        ok && buf[1] == 2 ==> after.p.bw_hz == 500_000,
        ok && buf[1] == 4 ==> after.p.bw_hz == 125_000,
        ok && buf[1] == 5 ==> after.p.bw_hz == 250_000,
        ok && buf[1] == 6 ==> after.p.bw_hz == 500_000,
        ok && (buf[1] == 3 || buf[1] > 6) ==> after.p.bw_hz == 125_000,
        ok && 1 <= buf[2] <= 4 ==> after.p.cr == buf[2],
        ok && !(1 <= buf[2] <= 4) ==> after.p.cr == 1,
        ok && 7 <= buf[0] <= 12 && buf[1] <= 2 && 1 <= buf[2] <= 4 ==> after.info_event(
            status,
            sync,
            lost,
        ).payload.subrange(9, 12) == buf.subrange(0, 3),
{
    info_event_tells_the_settings(after, status, sync, lost);
    if ok && 7 <= buf[0] <= 12 && buf[1] <= 2 && 1 <= buf[2] <= 4 {
        assert(after.info_event(status, sync, lost).payload.subrange(9, 12) =~= buf.subrange(
            0,
            3,
        ));
    }
}

/// A preamble reads back as the one that frames are sent with; zero means one symbol.
pub proof fn a_preamble_reads_back(
    n: Node,
    v: u16,
    buf: Seq<u8>,
    now: u64,
    taken: Node,
    plan: Plan,
    ok: bool,
    after: Node,
)
    requires
        buf.len() >= 2,
        buf.subrange(0, 2) == crate::bytes::be16(v),
        tuned(n, 0x0C, buf, now, taken, plan, ok, after),
    ensures
        plan is Build,
        taken == n,
        after.p == n.p,
        ok && v > 0 ==> after.csma.preamble == v,
        ok && v == 0 ==> after.csma.preamble == 1,
        !ok ==> after.csma == n.csma,
        after.csma == (Csma { preamble: after.csma.preamble, ..n.csma }),
{
    crate::bytes::numbers_are_found_in_place(buf, 0, v, 0, 0);
}

/// A power reads back: one that the radio has is taken as it is, any other is pulled to the nearer
/// end of its range, and the information event tells which.
pub proof fn a_power_reads_back(
    n: Node,
    dbm: i8,
    buf: Seq<u8>,
    now: u64,
    after: Node,
    plan: Plan,
    status: u8,
    sync: u8,
    lost: u32,
)
    requires
        buf.len() >= 1,
        buf[0] == crate::bytes::twos8(dbm),
        crate::lora_node::command::decided(n, 0x04, buf, now, after, plan),
    ensures
        plan.answered_by(0x83),
        2 <= dbm <= 20 ==> after.p.pwr == dbm && after.info_event(status, sync, lost).payload[12]
            == buf[0],
        dbm < 2 ==> after.p.pwr == 2,
        dbm > 20 ==> after.p.pwr == 20,
        after == (Node { p: Params { pwr: after.p.pwr, ..n.p }, ..n }),
{
    crate::bytes::signed_round_trip(dbm, 0);
    info_event_tells_the_settings(after, status, sync, lost);
}

/// The contention settings read back: window, doublings and attempts are the ones that were sent.
pub proof fn contention_settings_read_back(
    n: Node,
    window: u16,
    buf: Seq<u8>,
    now: u64,
    after: Node,
    plan: Plan,
)
    requires
        buf.len() >= 4,
        buf.subrange(0, 2) == crate::bytes::be16(window),
        crate::lora_node::command::decided(n, 0x0B, buf, now, after, plan),
    ensures
        plan.answered_by(0x83),
        after.csma.lbt_cw == window,
        after.csma.lbt_max_backoff == buf[2],
        after.csma.lbt_max_attempts == buf[3],
        after.csma == (Csma {
            lbt_cw: after.csma.lbt_cw,
            lbt_max_backoff: after.csma.lbt_max_backoff,
            lbt_max_attempts: after.csma.lbt_max_attempts,
            ..n.csma
        }),
        after == (Node { csma: after.csma, ..n }),
{
    crate::bytes::numbers_are_found_in_place(buf, 0, window, 0, 0);
}

/// The sensing settings read back: the threshold and the repeats are the ones that were sent, where
/// no repeat means one.
pub proof fn sensing_settings_read_back(
    n: Node,
    thresh: i16,
    buf: Seq<u8>,
    now: u64,
    after: Node,
    plan: Plan,
)
    requires
        buf.len() >= 3,
        buf.subrange(0, 2) == crate::bytes::be16_signed(thresh),
        crate::lora_node::command::decided(n, 0x12, buf, now, after, plan),
    ensures
        plan.answered_by(0x83),
        after.csma.rssi_thresh == thresh,
        buf[2] > 0 ==> after.csma.cad_repeat == buf[2],
        buf[2] == 0 ==> after.csma.cad_repeat == 1,
        after.csma == (Csma {
            rssi_thresh: after.csma.rssi_thresh,
            cad_repeat: after.csma.cad_repeat,
            ..n.csma
        }),
        after == (Node { csma: after.csma, ..n }),
{
    crate::bytes::numbers_are_found_in_place(buf, 0, crate::bytes::twos16(thresh), 0, 0);
    crate::bytes::signed_round_trip(0, thresh);
}

/// The beacon is on exactly if the first byte says so, and its period is ten seconds for each unit of
/// the second, at least one; without a second byte the period stays.
pub proof fn a_beacon_setting_is_taken(
    n: Node,
    buf: Seq<u8>,
    now: u64,
    after: Node,
    plan: Plan,
)
    requires
        buf.len() >= 1,
        crate::lora_node::command::decided(n, 0x07, buf, now, after, plan),
    ensures
        plan.answered_by(0x83),
        after.beacon_on <==> buf[0] != 0,
        buf.len() >= 2 && buf[1] > 0 ==> after.beacon_period == buf[1] * 10_000_000,
        buf.len() >= 2 && buf[1] == 0 ==> after.beacon_period == 10_000_000,
        buf.len() == 1 ==> after.beacon_period == n.beacon_period,
        after == (Node {
            beacon_on: after.beacon_on,
            beacon_period: after.beacon_period,
            ..n
        }),
{
}

/// The detector is set to the pair that was sent where the radio has it, the threshold pulled to the
/// nearer end of its range otherwise; and once it is written, every detection and reception uses it.
pub proof fn a_detector_setting_is_used(
    n: Node,
    buf: Seq<u8>,
    now: u64,
    taken: Node,
    plan: Plan,
    full: Option<u8>,
    mode: crate::lora_node::fire::Mode,
)
    requires
        buf.len() >= 3,
        crate::lora_node::command::decided(n, 0x0A, buf, now, taken, plan),
    ensures
        taken == n,
        plan matches Plan::SetDetector { opt, thresh, log } && {
            let after = crate::lora_node::outcome::detector_set(taken, full, thresh);
            &&& 0x0A <= buf[1] <= 0x0C ==> thresh == buf[1]
            &&& buf[1] < 0x0A ==> thresh == 0x0A
            &&& buf[1] > 0x0C ==> thresh == 0x0C
            &&& opt == 0x05 <==> buf[2] == 0x05
            &&& opt == 0x05 || opt == 0x03
            &&& log is None <==> buf[0] == 0 && thresh == buf[1] && opt == buf[2]
            &&& full is None ==> after.det == n.det
            &&& full matches Some(reg) ==> {
                let step = crate::lora_node::fire::RadioStep::Detector { opt: reg, thresh };
                &&& crate::lora_node::fire::rx_steps(
                    mode,
                    after.p,
                    after.csma.preamble,
                    after.det,
                    after.lna,
                    after.hop.enabled,
                ).contains(step)
                &&& crate::lora_node::fire::cad_steps(
                    mode,
                    after.p,
                    after.det,
                    after.lna,
                ).contains(step)
            }
        },
{
    if let Plan::SetDetector { opt, thresh, log } = plan {
        let after = crate::lora_node::outcome::detector_set(taken, full, thresh);
        if let Some(reg) = full {
            let rx = crate::lora_node::fire::rx_steps(
                mode,
                after.p,
                after.csma.preamble,
                after.det,
                after.lna,
                after.hop.enabled,
            );
            let cad = crate::lora_node::fire::cad_steps(mode, after.p, after.det, after.lna);
            let m: int = if mode == crate::lora_node::fire::Mode::Standby {
                0
            } else {
                1
            };
            assert(rx[m + 1] == (crate::lora_node::fire::RadioStep::Detector { opt: reg, thresh }));
            assert(cad[m + 1] == (crate::lora_node::fire::RadioStep::Detector { opt: reg, thresh }));
        }
    }
}

/// The gain is boosted or not as the byte says; it is written at once and put back behind every start
/// of a reception. A byte that is neither is refused and changes nothing.
pub proof fn a_gain_setting_is_used(
    n: Node,
    buf: Seq<u8>,
    now: u64,
    after: Node,
    plan: Plan,
    mode: crate::lora_node::fire::Mode,
)
    requires
        buf.len() >= 1,
        crate::lora_node::command::decided(n, 0x1C, buf, now, after, plan),
    ensures
        buf[0] == 1 ==> plan == (Plan::WriteGain { reg: 0x23 }) && after == (Node {
            lna: Some(0x23u8),
            ..n
        }),
        buf[0] == 0 ==> plan == (Plan::WriteGain { reg: 0x20 }) && after == (Node {
            lna: Some(0x20u8),
            ..n
        }),
        buf[0] == 0 ==> crate::lora_node::fire::rx_steps(
            mode,
            after.p,
            after.csma.preamble,
            after.det,
            after.lna,
            after.hop.enabled,
        ).last() == (crate::lora_node::fire::RadioStep::Gain { reg: 0x20 }),
        buf[0] > 1 ==> after == n && plan.answered_by(0x8F),
{
}

/// The sync word that is written is the byte that was sent.
pub proof fn a_sync_word_is_written(n: Node, buf: Seq<u8>, now: u64, after: Node, plan: Plan)
    requires
        buf.len() >= 1,
        crate::lora_node::command::decided(n, 0x05, buf, now, after, plan),
    ensures
        after == n,
        plan matches Plan::WriteSync { word } && word == buf[0],
{
}

/// Diagnostics are on exactly if the byte says so; switching them on reports the state at once.
pub proof fn a_debug_setting_is_taken(n: Node, buf: Seq<u8>, now: u64, after: Node, plan: Plan)
    requires
        buf.len() >= 1,
        crate::lora_node::command::decided(n, 0x15, buf, now, after, plan),
    ensures
        after.debug <==> buf[0] != 0,
        after == (Node { debug: after.debug, ..n }),
        plan is DebugReport <==> buf[0] != 0,
        plan is Info <==> buf[0] == 0,
{
}

/// Resetting the statistics zeroes what the host reads: errors, truncations, deferrals and the busy
/// count of the information event. The busy count of the sensing event runs on.
pub proof fn a_reset_zeroes_what_is_read(
    n: Node,
    buf: Seq<u8>,
    now: u64,
    after: Node,
    plan: Plan,
    status: u8,
    sync: u8,
    lost: u32,
)
    requires
        crate::lora_node::command::decided(n, 0x14, buf, now, after, plan),
    ensures
        plan is ResetPlane,
        after.radio_errors == 0 && after.rx_trunc == 0 && after.csma.defer == 0,
        after.csma.cad_busy == n.csma.cad_busy,
        ({
            let info = after.info_event(status, sync, lost).payload;
            &&& crate::bytes::u16_at(info, 3) == 0
            &&& crate::bytes::u16_at(info, 15) == 0
            &&& crate::bytes::u16_at(info, 17) == 0
        }),
        after == (Node {
            csma: Csma { cad_busy_base: after.csma.cad_busy_base, defer: 0, ..n.csma },
            rx_trunc: 0,
            radio_errors: 0,
            ..n
        }),
{
    info_event_tells_the_settings(after, status, sync, lost);
}

/// Hashes one behind the other, as a host sends them.
pub open spec fn hash_bytes(hashes: Seq<u64>) -> Seq<u8>
    decreases hashes.len(),
{
    if hashes.len() == 0 {
        Seq::empty()
    } else {
        hash_bytes(hashes.drop_last()) + crate::bytes::be64(hashes.last())
    }
}

pub proof fn lemma_hash_bytes(hashes: Seq<u64>, i: int)
    requires
        0 <= i < hashes.len(),
    ensures
        hash_bytes(hashes).len() == 8 * hashes.len(),
        crate::bytes::u64_at(hash_bytes(hashes), 8 * i) == hashes[i],
    decreases hashes.len(),
{
    let s = hash_bytes(hashes);
    let front = hashes.drop_last();
    if front.len() > 0 {
        lemma_hash_bytes(front, 0);
    } else {
        assert(hash_bytes(front) =~= Seq::<u8>::empty());
    }
    assert(crate::bytes::be64(hashes.last()).len() == 8);
    assert(s.len() == 8 * hashes.len());
    if i == hashes.len() - 1 {
        assert(s.subrange(8 * i, 8 * i + 8) =~= crate::bytes::be64(hashes[i]));
        crate::bytes::numbers_are_found_in_place(s, 8 * i, 0, 0, hashes[i]);
    } else {
        lemma_hash_bytes(front, i);
        let t = hash_bytes(front);
        assert(t.len() == 8 * front.len());
        assert(forall|k: int| 8 * i <= k < 8 * i + 8 ==> s[k] == t[k]);
        assert(crate::bytes::u32_at(s, 8 * i) == crate::bytes::u32_at(t, 8 * i));
        assert(crate::bytes::u32_at(s, 8 * i + 4) == crate::bytes::u32_at(t, 8 * i + 4));
    }
}

/// The name plane gets the hashes that the host sent, all of them in their order, up to as many as it
/// takes; the filter and the relay set come each by its own command.
pub proof fn hashes_reach_the_name_plane(
    n: Node,
    hashes: Seq<u64>,
    now: u64,
    filtered: Node,
    filter: Plan,
    relayed: Node,
    relay: Plan,
)
    requires
        hashes.len() <= 24,
        crate::lora_node::command::decided(n, 0x0F, hash_bytes(hashes), now, filtered, filter),
        crate::lora_node::command::decided(n, 0x10, hash_bytes(hashes), now, relayed, relay),
    ensures
        filtered == n && relayed == n,
        filter matches Plan::SetFilter { hashes: h } && h@ == hashes,
        relay matches Plan::SetRelay { hashes: h } && h@ == hashes,
{
    let buf = hash_bytes(hashes);
    if hashes.len() > 0 {
        lemma_hash_bytes(hashes, 0);
    }
    assert(buf.len() == 8 * hashes.len());
    assert(crate::lora_node::command::hashes_of(buf).len() == hashes.len());
    assert forall|i: int| 0 <= i < hashes.len() implies crate::lora_node::command::hashes_of(buf)[i]
        == hashes[i] by {
        lemma_hash_bytes(hashes, i);
    }
    assert(crate::lora_node::command::hashes_of(buf) =~= hashes);
}

/// The name plane is configured as the five bytes say, each in its own place.
pub proof fn the_name_plane_is_configured(n: Node, buf: Seq<u8>, now: u64, after: Node, plan: Plan)
    requires
        buf.len() >= 5,
        crate::lora_node::command::decided(n, 0x11, buf, now, after, plan),
    ensures
        after == n,
        plan matches Plan::SetPlane { serve, dedup, hop, base, span } && {
            &&& serve <==> buf[0] != 0
            &&& dedup <==> buf[1] != 0
            &&& hop <==> buf[2] != 0
            &&& base == buf[3]
            &&& span == buf[4]
        },
{
}

/// The information event is the node as it is: each field is found at its place, and the bandwidth
/// code names the bandwidth in use.
pub proof fn info_event_tells_the_settings(n: Node, status: u8, sync: u8, lost: u32)
    ensures
        ({
            let e = n.info_event(status, sync, lost);
            let b = e.payload;
            &&& e.typ == 0x83
            &&& b.len() == 19
            &&& b[0] == status && b[1] == 0 && b[2] == sync
            &&& crate::bytes::u16_at(b, 3) == n.radio_errors
            &&& crate::bytes::u32_at(b, 5) == n.p.freq_hz
            &&& b.subrange(5, 9) == crate::bytes::be32(n.p.freq_hz)
            &&& b[9] == n.p.sf
            &&& n.p.bw_hz == 125_000 ==> b[10] == 0
            &&& n.p.bw_hz == 250_000 ==> b[10] == 1
            &&& n.p.bw_hz == 500_000 ==> b[10] == 2
            &&& b[11] == n.p.cr
            &&& crate::bytes::from_twos8(b[12]) == n.p.pwr
            &&& b[12] == crate::bytes::twos8(n.p.pwr)
            &&& crate::bytes::u16_at(b, 13) == (if lost < 65_535 {
                lost as int
            } else {
                65_535
            })
            &&& crate::bytes::u16_at(b, 15) == n.csma.cad_busy.wrapping_sub(n.csma.cad_busy_base)
            &&& crate::bytes::u16_at(b, 17) == n.csma.defer
        }),
{
    let b = n.info_event(status, sync, lost).payload;
    let lost16 = crate::lora_node::report::lost16(lost);
    assert(b.subrange(3, 5) =~= crate::bytes::be16(n.radio_errors));
    assert(b.subrange(5, 9) =~= crate::bytes::be32(n.p.freq_hz));
    assert(b.subrange(13, 15) =~= crate::bytes::be16(lost16));
    assert(b.subrange(15, 17) =~= crate::bytes::be16(n.csma.busy_since_reset()));
    assert(b.subrange(17, 19) =~= crate::bytes::be16(n.csma.defer));
    crate::bytes::numbers_are_found_in_place(b, 3, n.radio_errors, 0, 0);
    crate::bytes::numbers_are_found_in_place(b, 5, 0, n.p.freq_hz, 0);
    crate::bytes::numbers_are_found_in_place(b, 13, lost16, 0, 0);
    crate::bytes::numbers_are_found_in_place(b, 15, n.csma.busy_since_reset(), 0, 0);
    crate::bytes::numbers_are_found_in_place(b, 17, n.csma.defer, 0, 0);
    crate::bytes::signed_round_trip(n.p.pwr, 0);
}

/// The statistics event is the name plane's counters and the channel's, each at its place.
pub proof fn statistics_event_tells_the_counters(
    n: Node,
    s: crate::lora_node::report::PlaneStats,
)
    ensures
        ({
            let b = n.stats_body(s);
            &&& b.len() == 24
            &&& crate::bytes::u32_at(b, 0) == s.rx
            &&& crate::bytes::u32_at(b, 4) == s.filtered
            &&& crate::bytes::u32_at(b, 8) == s.deduped
            &&& crate::bytes::u32_at(b, 12) == s.served
            &&& crate::bytes::u32_at(b, 16) == s.relayed
            &&& crate::bytes::u16_at(b, 20) == n.csma.cad_busy.wrapping_sub(n.csma.cad_busy_base)
            &&& crate::bytes::u16_at(b, 22) == n.csma.defer
        }),
{
    let b = n.stats_body(s);
    assert(b.subrange(0, 4) =~= crate::bytes::be32(s.rx));
    assert(b.subrange(4, 8) =~= crate::bytes::be32(s.filtered));
    assert(b.subrange(8, 12) =~= crate::bytes::be32(s.deduped));
    assert(b.subrange(12, 16) =~= crate::bytes::be32(s.served));
    assert(b.subrange(16, 20) =~= crate::bytes::be32(s.relayed));
    assert(b.subrange(20, 22) =~= crate::bytes::be16(n.csma.busy_since_reset()));
    assert(b.subrange(22, 24) =~= crate::bytes::be16(n.csma.defer));
    crate::bytes::numbers_are_found_in_place(b, 0, 0, s.rx, 0);
    crate::bytes::numbers_are_found_in_place(b, 4, 0, s.filtered, 0);
    crate::bytes::numbers_are_found_in_place(b, 8, 0, s.deduped, 0);
    crate::bytes::numbers_are_found_in_place(b, 12, 0, s.served, 0);
    crate::bytes::numbers_are_found_in_place(b, 16, 0, s.relayed, 0);
    crate::bytes::numbers_are_found_in_place(b, 20, n.csma.busy_since_reset(), 0, 0);
    crate::bytes::numbers_are_found_in_place(b, 22, n.csma.defer, 0, 0);
}

} // verus!
