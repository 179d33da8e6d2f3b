//! What a host of the Wi-Fi nodes can rely on.

use vstd::prelude::*;

use crate::wifi::advq::{AdvAction, AdvView};
use crate::wifi::esp32c5::{C5Plan, NameFilter, RxItem};
use crate::wifi::host_read::{ReaderView, Want};
use crate::wifi::ring::RingView;
use crate::wifi::rtl8720::{BridgeView, RtlPlan, SetupStage, SetupStep, Turn};

verus! {

/// Every injection that a host asks for, whatever its body, leads to exactly one transmission, of
/// exactly the body's bytes, on either node, and leaves the node as it was.
pub proof fn every_injection_is_transmitted(
    nf: NameFilter,
    pl: Seq<u8>,
    now: u64,
    after: NameFilter,
    plan: C5Plan,
    b: BridgeView,
    raw: u32,
    after_b: BridgeView,
    plan_b: RtlPlan,
)
    requires
        crate::wifi::esp32c5::c5_decided(nf, 0x01, pl, now, after, plan),
        crate::wifi::rtl8720::rtl_decided(b, 0x01, pl, raw, after_b, plan_b),
    ensures
        plan matches C5Plan::Inject { frame } && frame@ == pl,
        after == nf,
        plan_b matches RtlPlan::Inject { frame } && frame@ == pl,
        after_b == b,
{
}

/// Nothing but what a host sent goes on the air: whatever the command, a frame to transmit is the end
/// of its body, and only the injecting commands lead to one.
pub proof fn only_the_hosts_bytes_are_transmitted(
    nf: NameFilter,
    ty: u8,
    pl: Seq<u8>,
    now: u64,
    after: NameFilter,
    plan: C5Plan,
    b: BridgeView,
    raw: u32,
    after_b: BridgeView,
    plan_b: RtlPlan,
)
    requires
        crate::wifi::esp32c5::c5_decided(nf, ty, pl, now, after, plan),
        crate::wifi::rtl8720::rtl_decided(b, ty, pl, raw, after_b, plan_b),
    ensures
        plan matches C5Plan::Inject { frame } ==> (ty == 0x01 || ty == 0x06) && is_end(pl, frame@),
        plan matches C5Plan::InjectAt { target, frame } ==> (ty == 0x09 || ty == 0x0A) && is_end(
            pl,
            frame@,
        ),
        plan_b matches RtlPlan::Inject { frame } ==> ty == 0x01 && frame@ == pl,
        plan_b matches RtlPlan::InjectAttr { frame, pairs } ==> ty == 0x06 && is_end(pl, frame@),
        plan_b matches RtlPlan::InjectAt { target, frame } ==> (ty == 0x09 || ty == 0x0A)
            && is_end(pl, frame@),
{
}

/// The bytes `e` end `s`.
pub open spec fn is_end(s: Seq<u8>, e: Seq<u8>) -> bool {
    &&& e.len() <= s.len()
    &&& forall|i: int| 0 <= i < e.len() ==> e[i] == s[s.len() - e.len() + i]
}

/// An injection with attributes transmits what stands behind them; the node that can use them gets
/// all of them, in order, the other ignores them and wants a frame behind them.
pub proof fn attributes_stand_before_the_frame(
    nf: NameFilter,
    pairs: Seq<u8>,
    frame: Seq<u8>,
    now: u64,
    after: NameFilter,
    plan: C5Plan,
    b: BridgeView,
    raw: u32,
    after_b: BridgeView,
    plan_b: RtlPlan,
)
    requires
        pairs.len() <= 510,
        pairs.len() % 2 == 0,
        crate::wifi::esp32c5::c5_decided(
            nf,
            0x06,
            seq![(pairs.len() / 2) as u8] + pairs + frame,
            now,
            after,
            plan,
        ),
        crate::wifi::rtl8720::rtl_decided(
            b,
            0x06,
            seq![(pairs.len() / 2) as u8] + pairs + frame,
            raw,
            after_b,
            plan_b,
        ),
    ensures
        after == nf && after_b == b,
        frame.len() > 0 ==> (plan matches C5Plan::Inject { frame: f } && f@ == frame),
        frame.len() == 0 ==> plan == C5Plan::Ignore,
        plan_b matches RtlPlan::InjectAttr { frame: f, pairs: p } && f@ == frame && p@ == pairs,
{
    let pl = seq![(pairs.len() / 2) as u8] + pairs + frame;
    let off: int = 1 + pairs.len() as int;
    assert(pl[0] == pairs.len() / 2);
    assert(1 + 2 * pl[0] == off);
    assert(pl.skip(off) =~= frame);
    assert(pl.subrange(1, off) =~= pairs);
}

/// A delayed injection is for the instant that lies so far ahead of the clock and carries the bytes
/// behind the delay; the node that spins cuts the delay to the longest spin.
pub proof fn a_delayed_injection_is_for_its_instant(
    nf: NameFilter,
    d: u32,
    frame: Seq<u8>,
    now: u64,
    after: NameFilter,
    plan: C5Plan,
    b: BridgeView,
    raw: u32,
    after_b: BridgeView,
    plan_b: RtlPlan,
)
    requires
        now <= i64::MAX - 100_000,
        crate::wifi::esp32c5::c5_decided(
            nf,
            0x09,
            crate::bytes::le32(d) + frame,
            now,
            after,
            plan,
        ),
        crate::wifi::rtl8720::rtl_decided(
            b,
            0x09,
            crate::bytes::le32(d) + frame,
            raw,
            after_b,
            plan_b,
        ),
    ensures
        after == nf,
        plan matches C5Plan::InjectAt { target, frame: f } && f@ == frame && (d <= 100_000
            ==> target == now + d) && (d > 100_000 ==> target == now + 100_000),
        after_b == (BridgeView { clock: b.clock.after(raw), ..b }),
        plan_b matches RtlPlan::InjectAt { target, frame: f } && f@ == frame && target == b.clock.after(
            raw,
        ).reached() + d,
{
    let pl = crate::bytes::le32(d) + frame;
    assert(pl.subrange(0, 4) =~= crate::bytes::le32(d));
    crate::bytes::low_first_numbers_are_found_in_place(pl, 0, 0, d, 0);
    assert(pl.skip(4) =~= frame);
}

/// An injection at an instant is for that instant and carries the bytes behind it, for every instant
/// from now to the longest spin, both included; any other is ignored.
pub proof fn an_injection_at_an_instant_is_for_it(
    nf: NameFilter,
    t: u64,
    frame: Seq<u8>,
    now: u64,
    after: NameFilter,
    plan: C5Plan,
    b: BridgeView,
    raw: u32,
    after_b: BridgeView,
    plan_b: RtlPlan,
)
    requires
        now <= i64::MAX - 100_000,
        crate::wifi::esp32c5::c5_decided(
            nf,
            0x0A,
            crate::bytes::le64(t) + frame,
            now,
            after,
            plan,
        ),
        crate::wifi::rtl8720::rtl_decided(
            b,
            0x0A,
            crate::bytes::le64(t) + frame,
            raw,
            after_b,
            plan_b,
        ),
    ensures
        after == nf,
        now <= t <= now + 100_000 ==> (plan matches C5Plan::InjectAt { target, frame: f } && target
            == t && f@ == frame),
        t < now || t > now + 100_000 ==> plan == C5Plan::Ignore,
        after_b == (BridgeView { clock: b.clock.after(raw), ..b }),
        ({
            let clock = b.clock.after(raw).reached();
            &&& clock <= t <= clock + 100_000 ==> (plan_b matches RtlPlan::InjectAt {
                target,
                frame: f,
            } && target == t && f@ == frame)
            &&& t < clock || t > clock + 100_000 ==> plan_b == RtlPlan::Nothing
        }),
{
    let pl = crate::bytes::le64(t) + frame;
    assert(pl.subrange(0, 8) =~= crate::bytes::le64(t));
    crate::bytes::low_first_numbers_are_found_in_place(pl, 0, 0, 0, t);
    assert(pl.skip(8) =~= frame);
}

/// The settings of the capture node reach the radio as they were sent, for every value, and leave the
/// filter alone.
pub proof fn c5_settings_reach_the_radio(
    nf: NameFilter,
    ty: u8,
    v: u8,
    now: u64,
    after: NameFilter,
    plan: C5Plan,
)
    requires
        2 <= ty <= 5,
        crate::wifi::esp32c5::c5_decided(nf, ty, seq![v], now, after, plan),
    ensures
        after == nf,
        ty == 0x02 ==> plan == (C5Plan::Channel { ch: v }),
        ty == 0x03 ==> (plan matches C5Plan::TxPower { power } && crate::bytes::twos8(power) == v),
        ty == 0x04 ==> plan == (C5Plan::Rate { rate: v }),
        ty == 0x05 ==> plan == (C5Plan::Bandwidth { ht40: v != 0 }),
{
}

/// The masks that a host loads are the masks of the filter, in order and byte for byte, up to eight;
/// the filter is on exactly for a byte other than zero. A body that is too short for its count
/// changes nothing.
pub proof fn masks_are_loaded(
    nf: NameFilter,
    on: u8,
    masks: Seq<u8>,
    n: u8,
    now: u64,
    after: NameFilter,
    plan: C5Plan,
    i: int,
)
    requires
        crate::wifi::esp32c5::c5_decided(nf, 0x07, seq![on, n] + masks, now, after, plan),
    ensures
        plan == C5Plan::FilterSet,
        n <= 8 && masks.len() >= 16 * n ==> {
            &&& after.enabled <==> on != 0
            &&& after.masks@.len() == n
            &&& 0 <= i < 16 * n ==> after.masks@[i / 16].0@[i % 16] == masks[i]
        },
        n > 8 && masks.len() >= 128 ==> {
            &&& after.enabled <==> on != 0
            &&& after.masks@.len() == 8
            &&& 0 <= i < 128 ==> after.masks@[i / 16].0@[i % 16] == masks[i]
        },
        n <= 8 && masks.len() < 16 * n ==> after == nf,
        n > 8 && masks.len() < 128 ==> after == nf,
{
    let pl = seq![on, n] + masks;
    let m = i / 16;
    if 0 <= m < after.masks@.len() && pl.len() >= 18 + 16 * m {
        let cut = pl.subrange(2 + 16 * m, 18 + 16 * m);
        assert(cut[i % 16] == pl[2 + i]);
    }
}

/// A filter that is on lets a frame through exactly if every bit of one of its masks is set in the
/// frame's address fields; one that is off, or empty, lets every frame through.
pub proof fn the_filter_lets_its_masks_through(nf: NameFilter, addr: Seq<u8>, m: int, bit: int)
    ensures
        !nf.enabled || nf.masks@.len() == 0 ==> nf.wants(addr),
        0 <= m < nf.masks@.len() && addr == nf.masks@[m].0@ ==> nf.wants(addr),
        nf.enabled && nf.masks@.len() == 1 && 0 <= bit < 128 && crate::tier0::filter_bit(
            nf.masks@[0].0@,
            bit,
        ) && !crate::tier0::filter_bit(addr, bit) ==> !nf.wants(addr),
        nf.enabled && nf.wants(addr) && nf.masks@.len() > 0 ==> exists|k: int|
            0 <= k < nf.masks@.len() && #[trigger] crate::tier0::covers(addr, nf.masks@[k].0@),
{
    if 0 <= m < nf.masks@.len() && addr == nf.masks@[m].0@ {
        assert(crate::tier0::covers(addr, nf.masks@[m].0@));
    }
}

/// A captured frame is a data frame of 32 to 512 bytes that carries named data: one that is shorter,
/// longer, of another kind, or that differs in a byte of the marker is left out, and one that the
/// filter wants is not.
pub proof fn frames_with_named_data_are_captured(
    nf: NameFilter,
    head: Seq<u8>,
    oui: Seq<u8>,
    body: Seq<u8>,
    f: Seq<u8>,
    at: int,
)
    requires
        head.len() == 24,
        oui.len() == 3,
        f.len() == 32 + body.len(),
        forall|i: int|
            0 <= i < f.len() && i != at ==> f[i] == (head + seq![0xAAu8, 0xAA, 0x03] + oui + seq![
                0x86u8,
                0x24,
            ] + body)[i],
    ensures
        f == head + seq![0xAAu8, 0xAA, 0x03] + oui + seq![0x86u8, 0x24] + body && body.len() <= 480
            && nf.wants(head.subrange(4, 20)) ==> crate::wifi::esp32c5::captured(nf, true, f),
        (24 <= at < 27 || 30 <= at < 32) && f != head + seq![0xAAu8, 0xAA, 0x03] + oui + seq![
            0x86u8,
            0x24,
        ] + body ==> !crate::wifi::esp32c5::captured(nf, true, f),
        body.len() > 480 ==> !crate::wifi::esp32c5::captured(nf, true, f),
        !crate::wifi::esp32c5::captured(nf, false, f),
        !crate::wifi::esp32c5::captured(nf, true, f.take(31)),
        crate::wifi::esp32c5::captured(nf, true, f) ==> nf.wants(f.subrange(4, 20)),
{
    let g = head + seq![0xAAu8, 0xAA, 0x03] + oui + seq![0x86u8, 0x24] + body;
    assert(g.len() == f.len());
    if f == g {
        assert(f.subrange(4, 20) =~= head.subrange(4, 20));
    }
    if (24 <= at < 27 || 30 <= at < 32) && f != g {
        if f[at] == g[at] {
            assert(f =~= g);
        }
        assert(g[24] == 0xAA && g[25] == 0xAA && g[26] == 0x03 && g[30] == 0x86 && g[31] == 0x24);
    }
}

/// Both nodes capture the same frames as far as both can hold them: without a filter the one takes
/// exactly what the other takes of data frames up to 512 bytes, which goes on to 1600.
pub proof fn both_nodes_capture_the_same(nf: NameFilter, f: Seq<u8>)
    requires
        !nf.enabled,
    ensures
        f.len() <= 512 && f[0] & 0x0C == 0x08 ==> (crate::wifi::rtl8720::captured(f)
            <==> crate::wifi::esp32c5::captured(nf, true, f)),
        512 < f.len() <= 1_600 && f[0] & 0x0C == 0x08 ==> (crate::wifi::rtl8720::captured(f)
            <==> crate::wifi::esp32c5::captured(nf, true, f.take(512))),
        f.len() > 1_600 ==> !crate::wifi::rtl8720::captured(f),
        f[0] & 0x0C != 0x08 ==> !crate::wifi::rtl8720::captured(f),
{
}

/// Captured frames reach the host in the order they came, each once, with its bytes, strength and
/// stamp: a frame that finds room stands behind all that wait, and is the one taken when they have
/// been.
pub proof fn captures_are_handed_over_in_order(
    q: Seq<RxItem>,
    f: Seq<u8>,
    rssi: i8,
    ts: u32,
    after: Seq<RxItem>,
    first: Option<RxItem>,
    rest: Seq<RxItem>,
)
    requires
        crate::wifi::esp32c5::queued(q, true, f, rssi, ts, after),
        crate::wifi::esp32c5::popped(after, first, rest),
    ensures
        q.len() < 32 ==> after.len() == q.len() + 1,
        q.len() >= 32 ==> after == q,
        forall|i: int| 0 <= i < q.len() ==> after[i] == q[i],
        q.len() < 32 ==> after[q.len() as int].frame@ == f && after[q.len() as int].rssi == rssi
            && after[q.len() as int].ts_us == ts,
        q.len() > 0 ==> first == Some(q[0]) && rest.len() == after.len() - 1,
        q.len() == 0 ==> (first matches Some(x) && x.frame@ == f && x.rssi == rssi && x.ts_us == ts)
            && rest.len() == 0,
        forall|i: int| 0 <= i < rest.len() ==> rest[i] == after[i + 1],
{
    assert forall|i: int| 0 <= i < q.len() implies after[i] == q[i] by {
        if q.len() < 32 {
            assert(after.drop_last()[i] == after[i]);
        }
    }
}

/// The message that delivers a frame is read by the host as that frame, behind its strength and its
/// stamp.
pub proof fn a_capture_is_read_as_it_was(rssi: i8, ts: u32, f: Seq<u8>)
    requires
        f.len() <= 65_000,
    ensures
        ({
            let sent = crate::wifi::proto::message_bytes(
                0x82,
                crate::wifi::esp32c5::rx_body(rssi, ts, f),
            );
            let read = crate::wifi::deframe::deframe(sent).0;
            &&& read.len() == 1
            &&& read[0].ty == 0x82
            &&& crate::bytes::from_twos8(read[0].payload[0]) == rssi
            &&& crate::bytes::le32_at(read[0].payload, 1) == ts
            &&& read[0].payload.skip(5) == f
        }),
{
    let body = crate::wifi::esp32c5::rx_body(rssi, ts, f);
    let sent = crate::wifi::proto::message_bytes(0x82, body);
    lemma_read_alone(0x82, body);
    assert(body.subrange(1, 5) =~= crate::bytes::le32(ts));
    crate::bytes::low_first_numbers_are_found_in_place(body, 1, 0, ts, 0);
    crate::bytes::signed_round_trip(rssi, 0);
    assert(body.skip(5) =~= f);
}

proof fn lemma_read_alone(ty: u8, body: Seq<u8>)
    requires
        body.len() <= 65_535,
    ensures
        crate::wifi::deframe::deframe(crate::wifi::proto::message_bytes(ty, body)).0 == seq![
            crate::wifi::deframe::MessageView { ty, payload: body },
        ],
{
    let sent = crate::wifi::proto::message_bytes(ty, body);
    crate::wifi::deframe::message_round_trip(ty, body, Seq::empty());
    assert(sent + Seq::<u8>::empty() =~= sent);
    let none = crate::wifi::deframe::deframe(Seq::<u8>::empty()).0;
    assert(none =~= Seq::<crate::wifi::deframe::MessageView>::empty());
    let m = seq![crate::wifi::deframe::MessageView { ty, payload: body }];
    assert(m + none =~= m);
}

/// The clock that a host reads is the clock: the capture node answers at once, the other queues the
/// answer, and both leave everything else alone.
pub proof fn the_clock_is_read(
    nf: NameFilter,
    pl: Seq<u8>,
    now: u64,
    after: NameFilter,
    plan: C5Plan,
    b: BridgeView,
    raw: u32,
    after_b: BridgeView,
    plan_b: RtlPlan,
)
    requires
        crate::wifi::esp32c5::c5_decided(nf, 0x0B, pl, now, after, plan),
        crate::wifi::rtl8720::rtl_decided(b, 0x0B, pl, raw, after_b, plan_b),
        b.ring.bytes.len() <= 8_000,
    ensures
        after == nf,
        plan matches C5Plan::Reply { message } && ({
            let read = crate::wifi::deframe::deframe(message@).0;
            &&& read.len() == 1 && read[0].ty == 0x85 && read[0].payload.len() == 8
            &&& crate::bytes::le32_at(read[0].payload, 0) + crate::bytes::le32_at(
                read[0].payload,
                4,
            ) * 4_294_967_296 == now
        }),
        plan_b == RtlPlan::Nothing,
        after_b == (BridgeView { clock: b.clock.after(raw), ring: after_b.ring, ..b }),
        after_b.ring.dropped == b.ring.dropped,
        after_b.ring.bytes == b.ring.bytes + crate::wifi::proto::message_bytes(
            0x85,
            crate::bytes::le64(b.clock.after(raw).reached() as u64),
        ),
{
    let body = crate::bytes::le64(now);
    lemma_read_alone(0x85, body);
    assert(body.subrange(0, 8) =~= body);
    crate::bytes::low_first_numbers_are_found_in_place(body, 0, 0, 0, now);
}

/// The report of a scheduled injection is read by the host as the three instants it was made of.
pub proof fn a_schedule_report_is_read_as_it_was(target: u64, actual: u64, tsf: u64)
    ensures
        ({
            let body = crate::wifi::proto::txtime_body(target, actual, tsf);
            let read = crate::wifi::deframe::deframe(
                crate::wifi::proto::message_bytes(0x83, body),
            ).0;
            &&& read.len() == 1 && read[0].ty == 0x83 && read[0].payload == body && body.len() == 24
            &&& crate::bytes::le32_at(body, 0) + crate::bytes::le32_at(body, 4) * 4_294_967_296
                == target
            &&& crate::bytes::le32_at(body, 8) + crate::bytes::le32_at(body, 12) * 4_294_967_296
                == actual
            &&& crate::bytes::le32_at(body, 16) + crate::bytes::le32_at(body, 20) * 4_294_967_296
                == tsf
        }),
{
    let body = crate::wifi::proto::txtime_body(target, actual, tsf);
    lemma_read_alone(0x83, body);
    assert(body.subrange(0, 8) =~= crate::bytes::le64(target));
    assert(body.subrange(8, 16) =~= crate::bytes::le64(actual));
    assert(body.subrange(16, 24) =~= crate::bytes::le64(tsf));
    crate::bytes::low_first_numbers_are_found_in_place(body, 0, 0, 0, target);
    crate::bytes::low_first_numbers_are_found_in_place(body, 8, 0, 0, actual);
    crate::bytes::low_first_numbers_are_found_in_place(body, 16, 0, 0, tsf);
}

/// The one-byte settings of the node with Bluetooth reach the radios as they were sent, for every
/// value, and leave the node as it was but for the armed dumps.
pub proof fn rtl_settings_reach_the_radios(
    b: BridgeView,
    ty: u8,
    v: u8,
    raw: u32,
    after: BridgeView,
    plan: RtlPlan,
)
    requires
        crate::wifi::rtl8720::rtl_decided(b, ty, seq![v], raw, after, plan),
    ensures
        ty == 0x02 ==> plan == (RtlPlan::Channel { ch: v }) && after == b,
        ty == 0x03 && v != 0xFF ==> plan == (RtlPlan::SetPower { idx: v }) && after == b,
        ty == 0x03 && v == 0xFF ==> plan is ResetPower && after == b,
        ty == 0x04 ==> plan == (RtlPlan::MgntRate { rate: v }) && after == b,
        ty == 0x05 ==> plan == (RtlPlan::Bw40 { on: v != 0 }) && after == b,
        ty == 0x0D ==> plan == (RtlPlan::PowerPct { idx: v }) && after == b,
        ty == 0x35 ==> plan == (RtlPlan::BleTxPower { gain: v }) && after == b,
        ty == 0x36 ==> plan == (RtlPlan::ScanFilter { on: v != 0 }) && after == b,
        ty == 0x0E ==> plan == RtlPlan::ReadPower && after == b,
        ty == 0x33 ==> plan == RtlPlan::ReadFeatures && after == b,
        ty == 0x0C ==> plan == RtlPlan::Nothing && after == (BridgeView {
            rxinfo_arm: v as u32,
            ..b
        }),
{
}

/// The two-byte settings of the node with Bluetooth reach the radios as they were sent, for every
/// value: the controller's command with its parameters, the coexistence window, the pace and the
/// interval of advertising.
pub proof fn rtl_numbers_reach_the_radios(
    b: BridgeView,
    x: u16,
    y: u16,
    z: u16,
    params: Seq<u8>,
    raw: u32,
    after_hci: BridgeView,
    hci: RtlPlan,
    after_coex: BridgeView,
    coex: RtlPlan,
    after_pace: BridgeView,
    pace: RtlPlan,
)
    requires
        crate::wifi::rtl8720::rtl_decided(
            b,
            0x34,
            crate::bytes::le16(x) + params,
            raw,
            after_hci,
            hci,
        ),
        crate::wifi::rtl8720::rtl_decided(
            b,
            0x31,
            crate::bytes::le16(x) + crate::bytes::le16(y),
            raw,
            after_coex,
            coex,
        ),
        crate::wifi::rtl8720::rtl_decided(
            b,
            0x32,
            crate::bytes::le16(x) + crate::bytes::le16(y) + crate::bytes::le16(z),
            raw,
            after_pace,
            pace,
        ),
    ensures
        after_hci == b && (hci matches RtlPlan::Hci { opcode, params: p } && opcode == x && p@
            == params),
        after_coex == b && coex == (RtlPlan::Coex { window: x, interval: y }),
        pace == (RtlPlan::AdvInterval { lo: y, hi: z }),
        x > 0 ==> after_pace == (BridgeView { burst_ms: x as u32, ..b }),
        x == 0 ==> after_pace == b,
{
    let h = crate::bytes::le16(x) + params;
    assert(h.subrange(0, 2) =~= crate::bytes::le16(x));
    crate::bytes::low_first_numbers_are_found_in_place(h, 0, x, 0, 0);
    assert(h.skip(2) =~= params);
    let c = crate::bytes::le16(x) + crate::bytes::le16(y);
    assert(c.subrange(0, 2) =~= crate::bytes::le16(x));
    assert(c.subrange(2, 4) =~= crate::bytes::le16(y));
    crate::bytes::low_first_numbers_are_found_in_place(c, 0, x, 0, 0);
    crate::bytes::low_first_numbers_are_found_in_place(c, 2, y, 0, 0);
    let p = c + crate::bytes::le16(z);
    assert(p.subrange(0, 2) =~= crate::bytes::le16(x));
    assert(p.subrange(2, 4) =~= crate::bytes::le16(y));
    assert(p.subrange(4, 6) =~= crate::bytes::le16(z));
    crate::bytes::low_first_numbers_are_found_in_place(p, 0, x, 0, 0);
    crate::bytes::low_first_numbers_are_found_in_place(p, 2, y, 0, 0);
    crate::bytes::low_first_numbers_are_found_in_place(p, 4, z, 0, 0);
}

/// An advertisement that a host asks for waits behind the others, byte for byte, where it fits and
/// fewer than seven wait; else it is dropped, and either way nothing else changes.
pub proof fn advertisements_are_queued(
    b: BridgeView,
    payload: Seq<u8>,
    raw: u32,
    after: BridgeView,
    plan: RtlPlan,
)
    requires
        payload.len() >= 1,
        crate::wifi::rtl8720::rtl_decided(b, 0x30, payload, raw, after, plan),
    ensures
        plan == RtlPlan::Nothing,
        payload.len() <= 27 && b.adv.waiting.len() < 7 ==> after.adv.waiting.len()
            == b.adv.waiting.len() + 1 && after.adv.waiting.last() == payload,
        payload.len() > 27 || b.adv.waiting.len() >= 7 ==> after == b,
        forall|i: int| 0 <= i < b.adv.waiting.len() ==> after.adv.waiting[i] == b.adv.waiting[i],
        after.adv.burst == b.adv.burst,
        after == (BridgeView { adv: after.adv, ..b }),
{
}

/// The advertiser puts the payloads on the air in order, each exactly once and each for its whole
/// burst: what starts is the oldest that waits, it leaves the queue as it starts, it ends a burst
/// later, and it is stopped at the first look after that.
pub proof fn advertisements_go_out_in_order(a: AdvView, now: u64, burst_ms: u32, act: AdvAction)
    requires
        a.acted(now, act),
        now + burst_ms * 1000 <= u64::MAX,
    ensures
        ({
            let after = a.served(now, burst_ms);
            let running = a.burst matches Some(t) && now < t;
            &&& running ==> after == a && !act.stop && act.start is None
            &&& !running ==> (act.stop <==> a.burst is Some)
            &&& !running && a.waiting.len() > 0 ==> {
                &&& act.start matches Some(p) && p@ == a.waiting[0]
                &&& a.waiting == seq![a.waiting[0]] + after.waiting
                &&& after.burst == Some((now + burst_ms * 1000) as u64)
            }
            &&& !running && a.waiting.len() == 0 ==> act.start is None && after.burst is None
                && after.waiting == a.waiting
        }),
{
    let after = a.served(now, burst_ms);
    if a.waiting.len() > 0 {
        assert(seq![a.waiting[0]] + a.waiting.skip(1) =~= a.waiting);
    }
}

/// Every frame off the air counts as activity, and one that carries named data reaches the host byte
/// for byte, behind its strength, its rate and format and its stamp; nothing else changes but the
/// clock.
pub proof fn a_frame_off_the_air_is_told(
    b: BridgeView,
    raw: u32,
    f: Seq<u8>,
    rssi: i8,
    mrate: u8,
)
    requires
        b.ring.bytes.len() <= 6_500,
    ensures
        ({
            let after = b.heard(raw, f, rssi, mrate);
            let body = crate::wifi::rtl8720::rx_body(rssi, mrate, after.clock.last, f);
            &&& after.activity == b.activity.wrapping_add(1)
            &&& after == (BridgeView {
                activity: after.activity,
                clock: b.clock.after(raw),
                ring: after.ring,
                ..b
            })
            &&& crate::wifi::rtl8720::captured(f) ==> after.ring.bytes == b.ring.bytes
                + crate::wifi::proto::message_bytes(0x82, body)
            &&& !crate::wifi::rtl8720::captured(f) ==> after.ring == b.ring
            &&& crate::bytes::from_twos8(body[0]) == rssi && body[1] == 0
            &&& mrate >= 0x80 ==> body[2] + 0x80 == mrate && body[3] == 2
            &&& mrate < 0x80 ==> body[2] == mrate && body[3] <= 1
            &&& mrate < 0x80 ==> (body[3] == 0 <==> (mrate == 2 || mrate == 4 || mrate == 11
                || mrate == 22))
            &&& crate::bytes::le32_at(body, 4) == after.clock.last
            &&& body.skip(8) == f
        }),
{
    let ts = b.clock.after(raw).last;
    let body = crate::wifi::rtl8720::rx_body(rssi, mrate, ts, f);
    assert(body.subrange(4, 8) =~= crate::bytes::le32(ts));
    crate::bytes::low_first_numbers_are_found_in_place(body, 4, 0, ts, 0);
    crate::bytes::signed_round_trip(rssi, 0);
    assert(body.skip(8) =~= f);
}

/// An advertisement that was heard reaches the host behind its strength and its sender, where it is
/// one of this protocol's length; each armed dump is used up by one descriptor, which reaches the
/// host as it is, and none does while none is armed.
pub proof fn what_was_heard_is_told(
    b: BridgeView,
    rssi: i8,
    addr: Seq<u8>,
    payload: Seq<u8>,
    ud: Seq<u8>,
)
    requires
        addr.len() == 6,
        ud.len() <= 1_000,
        b.ring.bytes.len() <= 7_000,
    ensures
        ({
            let body = seq![crate::bytes::twos8(rssi)] + addr + payload;
            let heard = b.ble_heard(rssi, addr, payload);
            let dumped = b.dumped(ud);
            &&& 1 <= payload.len() <= 27 ==> heard.ring.bytes == b.ring.bytes
                + crate::wifi::proto::message_bytes(0x88, body)
            &&& payload.len() == 0 || payload.len() > 27 ==> heard == b
            &&& heard == (BridgeView { ring: heard.ring, ..b })
            &&& crate::bytes::from_twos8(body[0]) == rssi && body.subrange(1, 7) == addr
                && body.skip(7) == payload
            &&& b.rxinfo_arm == 0 ==> dumped == b
            &&& b.rxinfo_arm > 0 ==> dumped.rxinfo_arm + 1 == b.rxinfo_arm && dumped.ring.bytes
                == b.ring.bytes + crate::wifi::proto::message_bytes(0x87, ud)
            &&& dumped == (BridgeView { ring: dumped.ring, rxinfo_arm: dumped.rxinfo_arm, ..b })
        }),
{
    let body = seq![crate::bytes::twos8(rssi)] + addr + payload;
    crate::bytes::signed_round_trip(rssi, 0);
    assert(body.subrange(1, 7) =~= addr);
    assert(body.skip(7) =~= payload);
}

/// A turn of the loop reports the activity, both counters as they stand, exactly where 200
/// milliseconds have passed since the last report, and asks for the scanner exactly where Bluetooth
/// is up and a second has passed; the counters are never reset.
pub proof fn a_turn_reports_what_is_due(
    b: BridgeView,
    raw: u32,
    after: BridgeView,
    turn: Turn,
)
    requires
        crate::wifi::rtl8720::turned(b, raw, after, turn),
        b.clock.epoch < u32::MAX - 1,
        b.last_occ <= b.clock.reached(),
        b.last_scan <= b.clock.reached(),
        b.ring.bytes.len() <= 8_000,
    ensures
        ({
            let now = b.clock.after(raw).reached();
            let due = now - b.last_occ >= 200_000;
            let scan = b.ble_up && now - b.last_scan >= 1_000_000;
            let body = crate::bytes::le32(b.activity) + crate::bytes::le32(b.ble_seen);
            &&& due ==> after.last_occ == now && after.ring.bytes == b.ring.bytes
                + crate::wifi::proto::message_bytes(0x86, body)
            &&& !due ==> after.last_occ == b.last_occ && after.ring == b.ring
            &&& crate::bytes::le32_at(body, 0) == b.activity && crate::bytes::le32_at(body, 4)
                == b.ble_seen && body.len() == 8
            &&& turn.check_scan <==> scan
            &&& scan ==> after.last_scan == now
            &&& !scan ==> after.last_scan == b.last_scan
            &&& after.activity == b.activity && after.ble_seen == b.ble_seen
            &&& after.clock == b.clock.after(raw)
            &&& after.burst_ms == b.burst_ms && after.ble_up == b.ble_up && after.rxinfo_arm
                == b.rxinfo_arm
        }),
{
    crate::wifi::clock::clock_is_monotonic(b.clock, raw);
    let body = crate::bytes::le32(b.activity) + crate::bytes::le32(b.ble_seen);
    assert(body.subrange(0, 4) =~= crate::bytes::le32(b.activity));
    assert(body.subrange(4, 8) =~= crate::bytes::le32(b.ble_seen));
    crate::bytes::low_first_numbers_are_found_in_place(body, 0, 0, b.activity, 0);
    crate::bytes::low_first_numbers_are_found_in_place(body, 4, 0, b.ble_seen, 0);
}

/// A message enters the ring exactly if it fits with its five bytes of frame and one byte to spare;
/// a drain takes all, or as many as it may, from the front.
pub proof fn the_ring_takes_what_fits(r: RingView, ty: u8, body: Seq<u8>, budget: nat)
    requires
        r.bytes.len() <= 8_191,
    ensures
        r.bytes.len() + body.len() + 5 < 8_192 ==> r.pushed(ty, body).bytes == r.bytes
            + crate::wifi::proto::message_bytes(ty, body) && r.pushed(ty, body).dropped
            == r.dropped,
        r.bytes.len() + body.len() + 5 >= 8_192 ==> r.pushed(ty, body).bytes == r.bytes
            && r.pushed(ty, body).dropped == r.dropped.wrapping_add(1),
        r.drained(budget) <= budget && r.drained(budget) <= r.bytes.len(),
        r.drained(budget) == budget || r.drained(budget) == r.bytes.len(),
{
}

/// A reading of the counter that has not gone back is the clock's new low half; one that has gone
/// back a little leaves the clock where it was.
pub proof fn the_clock_follows_the_counter(c: crate::wifi::clock::Clock, raw: u32)
    requires
        c.epoch < u32::MAX,
    ensures
        raw >= c.last ==> c.after(raw).reached() == c.reached() + (raw - c.last),
        raw < c.last && c.last - raw <= 0x8000_0000 ==> c.after(raw) == c,
        c.reached() == c.epoch * 4_294_967_296 + c.last,
{
}

/// A scheduled injection is refused exactly if its instant lies more than the longest spin ahead.
pub proof fn only_far_instants_are_refused(target: u64, now: u64)
    ensures
        target <= now ==> crate::wifi::rtl8720::waited_for(target, now as int),
        crate::wifi::rtl8720::waited_for(target, now as int) <==> target - now <= 100_000,
{
}

/// The body of a command is out of time once 200 milliseconds have passed, across a wrap of the
/// counter too, and not before.
pub proof fn bodies_have_their_time(start: u32, ms: u32)
    ensures
        crate::wifi::host_read::out_of_time(start, start.wrapping_add(ms)) <==> ms >= 200,
{
}

/// A command longer than the longest is never delivered, whatever came before it, and neither is one
/// without both sync bytes.
pub proof fn impossible_commands_are_dropped(p: ReaderView, b: u8)
    ensures
        p.want == Want::LenHigh && p.len + 256 * b > 1_600 ==> p.yields(b) is None && p.after(
            b,
        ).want == Want::FirstSync,
        p.want == Want::FirstSync && b != 0x4E ==> p.yields(b) is None && p.after(b).want
            == Want::FirstSync,
        p.want == Want::SecondSync && b != 0x44 ==> p.yields(b) is None && p.after(b).want
            == Want::FirstSync,
{
}

/// Where a stage stands in the start-up.
pub open spec fn place_of(stage: SetupStage) -> int {
    match stage {
        SetupStage::Serial => 0,
        SetupStage::Settle => 1,
        SetupStage::Boot => 2,
        SetupStage::Wifi => 3,
        SetupStage::Channel => 4,
        SetupStage::Capture => 5,
        SetupStage::WifiReady => 6,
        SetupStage::Ble => 7,
        SetupStage::BleReady => 8,
        SetupStage::Done => 9,
    }
}

/// The start-up goes through its stages one by one and ends: the serial line first, then a rest, then
/// the radio, its channel and the capture, and Bluetooth last. Bluetooth counts as up exactly if it
/// said so, and nothing but log lines enters the ring.
pub proof fn the_start_up_goes_through_its_stages(
    b: BridgeView,
    stage: SetupStage,
    ble_ready: bool,
    after: BridgeView,
    next: SetupStage,
    step: SetupStep,
)
    requires
        crate::wifi::rtl8720::setup_step(b, stage, ble_ready, after, next, step),
    ensures
        !(stage is Done) ==> place_of(next) == place_of(stage) + 1,
        stage is Done ==> next is Done && step is Finished && after == b,
        step is SerialBegin <==> place_of(stage) == 0,
        step matches SetupStep::SerialBegin { baud } ==> baud == 115_200,
        step is Delay <==> place_of(stage) == 1,
        step matches SetupStep::Delay { ms } ==> ms == 200,
        step is WifiOn <==> place_of(stage) == 3,
        step is SetChannel <==> place_of(stage) == 4,
        step matches SetupStep::SetChannel { ch } ==> ch == 6,
        step is CaptureOn <==> place_of(stage) == 5,
        step is BleInit <==> place_of(stage) == 7,
        step is Write <==> place_of(stage) == 2 || place_of(stage) == 6 || place_of(stage) == 8,
        after.ble_up <==> b.ble_up || (place_of(stage) == 8 && ble_ready),
        after == (BridgeView { ring: after.ring, ble_up: after.ble_up, ..b }),
{
}

/// What the start-up writes out and what it leaves in the ring are, together, what was there before
/// and the line that it adds, in order, where that fits.
pub proof fn start_up_lines_are_not_lost(b: BridgeView, after: BridgeView, step: SetupStep)
    requires
        crate::wifi::rtl8720::setup_step(
            b,
            SetupStage::Boot,
            false,
            after,
            SetupStage::Wifi,
            step,
        ),
        b.ring.bytes.len() <= 8_000,
    ensures
        step matches SetupStep::Write { bytes } && bytes@ + after.ring.bytes == b.ring.bytes
            + crate::wifi::proto::message_bytes(0x84, crate::wifi::rtl8720::LOG_BOOT@),
        step matches SetupStep::Write { bytes } && bytes@.len() <= 256,
{
    let l = b.logged(crate::wifi::rtl8720::LOG_BOOT@);
    crate::wifi::ring::drain_splits_the_stream(l.ring, 256);
    assert(crate::wifi::rtl8720::LOG_BOOT@.len() == 7);
}

/// A drain hands out the oldest bytes and keeps the rest, and a log line is a message of its own
/// type behind everything that waits.
pub proof fn drains_and_log_lines(b: BridgeView, line: Seq<u8>, budget: nat)
    requires
        b.ring.bytes.len() + line.len() <= 8_000,
    ensures
        b.outgoing(budget) + b.flushed(budget).ring.bytes == b.ring.bytes,
        b.outgoing(budget).len() <= budget,
        b.flushed(budget) == (BridgeView { ring: b.flushed(budget).ring, ..b }),
        b.flushed(budget).ring.dropped == b.ring.dropped,
        b.logged(line).ring.bytes == b.ring.bytes + crate::wifi::proto::message_bytes(0x84, line),
        b.logged(line) == (BridgeView { ring: b.logged(line).ring, ..b }),
{
    crate::wifi::ring::drain_splits_the_stream(b.ring, budget);
}

/// What the radios answered reaches the host as it was read: the features byte for byte, the power
/// indices behind their status, the instants of an injection with an unknown clock of the radio;
/// and a scanner that has stopped is restarted and told of.
pub proof fn answers_reach_the_host(
    b: BridgeView,
    f: Seq<u8>,
    status: u8,
    idx: Seq<u8>,
    target: u64,
    actual: u64,
    ok: bool,
)
    requires
        b.ring.bytes.len() <= 7_000,
        f.len() == 8,
        idx.len() == 20,
    ensures
        b.features_told(f).ring.bytes == b.ring.bytes + crate::wifi::proto::message_bytes(0x8A, f),
        b.power_told(status, idx).ring.bytes == b.ring.bytes + crate::wifi::proto::message_bytes(
            0x89,
            seq![status] + idx,
        ),
        b.injection_told(target, actual).ring.bytes == b.ring.bytes
            + crate::wifi::proto::message_bytes(
            0x83,
            crate::bytes::le64(target) + crate::bytes::le64(actual) + crate::bytes::le64(0),
        ),
        b.features_told(f) == (BridgeView { ring: b.features_told(f).ring, ..b }),
        b.power_told(status, idx) == (BridgeView { ring: b.power_told(status, idx).ring, ..b }),
        b.injection_told(target, actual) == (BridgeView {
            ring: b.injection_told(target, actual).ring,
            ..b
        }),
        b.hci_told(ok).ring.bytes == b.ring.bytes + crate::wifi::proto::message_bytes(
            0x84,
            if ok {
                seq![0x68u8, 0x63, 0x69, 0x20, 0x6F, 0x6B]
            } else {
                seq![0x68u8, 0x63, 0x69, 0x20, 0x65, 0x72, 0x72]
            },
        ),
        b.scan_answered(true) == (b, false),
        b.scan_answered(false).1 && b.scan_answered(false).0.ring.bytes.len()
            > b.ring.bytes.len(),
{
    assert(crate::wifi::rtl8720::LOG_HCI_OK@ =~= seq![0x68u8, 0x63, 0x69, 0x20, 0x6F, 0x6B]);
    assert(crate::wifi::rtl8720::LOG_HCI_ERR@ =~= seq![0x68u8, 0x63, 0x69, 0x20, 0x65, 0x72, 0x72]);
    assert(crate::wifi::rtl8720::LOG_SCAN@.len() == 18);
}

/// The lines of the later stages are not lost either: what is written out, at most a kilobyte, and
/// what stays are what waited and the line of the stage, with that of Bluetooth before it where it is
/// up.
pub proof fn later_lines_are_not_lost(
    b: BridgeView,
    ble_ready: bool,
    after: BridgeView,
    next: SetupStage,
    step: SetupStep,
    last: BridgeView,
    done: SetupStage,
    write: SetupStep,
)
    requires
        b.ring.bytes.len() <= 8_000,
        crate::wifi::rtl8720::setup_step(b, SetupStage::WifiReady, ble_ready, after, next, step),
        crate::wifi::rtl8720::setup_step(b, SetupStage::BleReady, ble_ready, last, done, write),
    ensures
        step matches SetupStep::Write { bytes } && bytes@.len() <= 1_024 && bytes@
            + after.ring.bytes == b.ring.bytes + crate::wifi::proto::message_bytes(
            0x84,
            crate::wifi::rtl8720::LOG_WIFI_READY@,
        ) && (bytes@.len() == 1_024 || after.ring.bytes.len() == 0),
        write matches SetupStep::Write { bytes } && bytes@.len() <= 1_024 && bytes@
            + last.ring.bytes == b.ring.bytes + (if ble_ready {
            crate::wifi::proto::message_bytes(0x84, crate::wifi::rtl8720::LOG_BLE_READY@)
        } else {
            Seq::empty()
        }) + crate::wifi::proto::message_bytes(0x84, crate::wifi::rtl8720::LOG_READY@) && (
        bytes@.len() == 1_024 || last.ring.bytes.len() == 0),
{
    assert(crate::wifi::rtl8720::LOG_WIFI_READY@.len() <= 32);
    assert(crate::wifi::rtl8720::LOG_BLE_READY@.len() <= 32);
    assert(crate::wifi::rtl8720::LOG_READY@.len() <= 32);
    let l = b.logged(crate::wifi::rtl8720::LOG_WIFI_READY@);
    crate::wifi::ring::drain_splits_the_stream(l.ring, 1024);
    let up = if ble_ready {
        BridgeView { ble_up: true, ..b }.logged(crate::wifi::rtl8720::LOG_BLE_READY@)
    } else {
        b
    };
    let r = up.logged(crate::wifi::rtl8720::LOG_READY@);
    crate::wifi::ring::drain_splits_the_stream(r.ring, 1024);
}

/// What waits for more bytes is kept while at least 64 bytes of the buffer of two kilobytes are free
/// behind it, and thrown away otherwise.
pub proof fn a_rest_is_kept_while_there_is_room(rest: Seq<u8>)
    ensures
        rest.len() + 64 <= 2_048 ==> crate::wifi::deframe::kept(rest) == rest,
        rest.len() + 64 > 2_048 ==> crate::wifi::deframe::kept(rest).len() == 0,
{
}

} // verus!
