//! What hopping does with the list that a host supplies.

use vstd::prelude::*;

use crate::lora_node::command::Plan;
use crate::lora_node::hop::{Hop, HopTarget};
use crate::lora_node::node::Node;

verus! {

/// The position that a hop goes to.
spec fn position(h: Hop, hc: u8) -> int {
    h.target(hc)->0.idx as int
}

proof fn lemma_position(h: Hop, hc: u8)
    requires
        h.wf(),
        h.n > 0,
    ensures
        h.target(hc) is Some,
        position(h, hc) == (hc as int % 64) % h.n as int,
        0 <= position(h, hc) < h.n,
        h.target(hc)->0.frf == h.frf@[position(h, hc)],
{
    assert(hc & 0x3F == hc % 64) by (bit_vector);
    vstd::arithmetic::div_mod::lemma_mod_bound((hc & 0x3F) as int, h.n as int);
}

/// A hop goes to the carrier of its count: with `n` carriers listed the one at the count modulo `n`,
/// whatever the status bits above the count say. The word that is written is the one of the carrier
/// listed there, to within one step of the synthesiser.
pub proof fn a_hop_goes_to_the_carrier_of_its_count(h: Hop, hc: u8)
    requires
        h.wf(),
    ensures
        h.n == 0 ==> h.target(hc) is None,
        h.n > 0 ==> (h.target(hc) matches Some(to) && {
            let hz = h.hz@[to.idx as int];
            &&& to.idx == (hc as int % 64) % h.n as int
            &&& to.idx < h.n
            &&& h.target((hc as int % 64) as u8) == h.target(hc)
            &&& hz <= 1_020_000_000 ==> to.frf * 32_000_000 <= hz * 524_288 < (to.frf + 1)
                * 32_000_000
        }),
{
    if h.n > 0 {
        lemma_position(h, hc);
        let c = (hc as int % 64) as u8;
        lemma_position(h, c);
        let to = h.target(hc)->0;
        let hz = h.hz@[to.idx as int];
        assert(h.frf@[to.idx as int] == crate::lora_node::hop::carrier_word(hz));
    }
}

/// Hops walk the whole list: of two or more carriers the next hop takes another, the one behind it
/// or after the last the first; and as many hops as there are carriers, one behind the other, visit
/// each of them exactly once.
pub proof fn hops_walk_the_whole_list(h: Hop, start: u8, d: u8, e: u8, i: int)
    requires
        h.wf(),
        h.n > 0,
        start + h.n <= 64,
        d < e < h.n,
        0 <= i < h.n,
    ensures
        h.target((start + d) as u8)->0.idx != h.target((start + e) as u8)->0.idx,
        h.target((start + d + 1) as u8)->0.idx == (if h.target((start + d) as u8)->0.idx + 1 == h.n {
            0int
        } else {
            h.target((start + d) as u8)->0.idx + 1
        }),
        exists|k: u8|
            k < h.n && (#[trigger] h.target((start + k) as u8))->0.idx == i,
{
    let n: int = h.n as int;
    lemma_position(h, (start + d) as u8);
    lemma_position(h, (start + e) as u8);
    lemma_position(h, (start + d + 1) as u8);
    let a: int = start + d;
    let b: int = start + e;
    let qa: int = a / n;
    vstd::arithmetic::div_mod::lemma_fundamental_div_mod(a, n);
    vstd::arithmetic::div_mod::lemma_fundamental_div_mod(b, n);
    if a % n == b % n {
        let x: int = a / n;
        let y: int = b / n;
        assert(false) by (nonlinear_arith)
            requires
                a == n * x + a % n,
                b == n * y + b % n,
                a % n == b % n,
                0 < b - a < n,
        ;
    }
    if a % n + 1 == n {
        assert(a + 1 == (qa + 1) * n + 0) by (nonlinear_arith)
            requires
                a == n * qa + a % n,
                a % n + 1 == n,
        ;
        vstd::arithmetic::div_mod::lemma_fundamental_div_mod_converse(a + 1, n, qa + 1, 0);
    } else {
        assert(a + 1 == qa * n + (a % n + 1)) by (nonlinear_arith)
            requires
                a == n * qa + a % n,
        ;
        vstd::arithmetic::div_mod::lemma_fundamental_div_mod_converse(a + 1, n, qa, a % n + 1);
    }
    lemma_position_is_visited(h, start, i);
}

proof fn lemma_position_is_visited(h: Hop, start: u8, i: int)
    requires
        h.wf(),
        h.n > 0,
        start + h.n <= 64,
        0 <= i < h.n,
    ensures
        exists|k: u8| k < h.n && (#[trigger] h.target((start + k) as u8))->0.idx == i,
{
    let n: int = h.n as int;
    let s: int = start as int;
    let r: int = s % n;
    let q: int = s / n;
    vstd::arithmetic::div_mod::lemma_fundamental_div_mod(s, n);
    let k: int = if i >= r {
        i - r
    } else {
        i - r + n
    };
    let m: int = if i >= r {
        q
    } else {
        q + 1
    };
    assert(s + k == m * n + i) by (nonlinear_arith)
        requires
            s == n * q + r,
            (i >= r && k == i - r && m == q) || (i < r && k == i - r + n && m == q + 1),
    ;
    vstd::arithmetic::div_mod::lemma_fundamental_div_mod_converse(s + k, n, m, i);
    lemma_position(h, (start + k) as u8);
    let w: u8 = k as u8;
    assert(h.target((start + w) as u8)->0.idx == i);
}

/// A hop is recorded when it is taken and counted when its carrier is written: the trace ends in its
/// count, its flag and its time, and the counters move by one.
pub proof fn a_hop_is_recorded(
    h: Hop,
    hc: u8,
    now: u64,
    tx_active: bool,
    noted: Hop,
    to: HopTarget,
)
    requires
        h.wf(),
        h.hop_noted(hc, now, tx_active, noted),
        h.target(hc) == Some(to),
    ensures
        ({
            let e = noted.trace@.last();
            &&& noted.trace@.len() > 0
            &&& e.t as int == now as int % 0x1_0000_0000
            &&& e.idx % 64 == hc % 64
            &&& e.idx >= 128 <==> tx_active
            &&& e.idx % 128 == hc % 64
        }),
        h.trace@.len() < 32 ==> noted.trace@.drop_last() == h.trace@,
        h.trace@.len() >= 32 ==> noted.trace@.drop_last() == h.trace@.drop_first(),
        hc >= 128 ==> noted.pll_timeouts == h.pll_timeouts.wrapping_add(1),
        hc < 128 ==> noted.pll_timeouts == h.pll_timeouts,
        noted.hop_done(to).hops == h.hops.wrapping_add(1),
        noted.hop_done(to).last_idx == to.idx,
        noted.hop_done(to).hz == h.hz && noted.hop_done(to).frf == h.frf && noted.hop_done(to).n
            == h.n && noted.hop_done(to).enabled == h.enabled && noted.hop_done(to).base_hz
            == h.base_hz && noted.hop_done(to).period == h.period,
{
    assert(hc & 0x3F == hc % 64) by (bit_vector);
    assert((hc & 0x80 != 0) <==> hc >= 128) by (bit_vector);
    let c: u8 = hc % 64;
    assert(c & 0x3F == c && (c | 0x80) == c + 128) by (bit_vector)
        requires
            c < 64,
    ;
    assert(now as u32 == now % 0x1_0000_0000) by (bit_vector);
    if h.trace@.len() < 32 {
        assert(noted.trace@.drop_last() =~= h.trace@);
    } else {
        assert(noted.trace@.drop_last() =~= h.trace@.drop_first());
    }
}

/// A hop command puts its list into use: once its registers are programmed and the driver has
/// accepted, hopping is on, with the period and exactly the carriers that were sent, in their order,
/// and the node is on the first of them. What the chip is told is the period that was sent.
pub proof fn a_hop_list_is_put_into_use(
    n: Node,
    buf: Seq<u8>,
    now: u64,
    taken: Node,
    plan: Plan,
    after: Node,
    list: Seq<u32>,
    period: u8,
)
    requires
        crate::lora_node::laws::hop_command(n, buf, now, taken, plan, true, true, after),
        0 < list.len() <= 40,
        period > 0,
        buf.len() == 4 + 4 * list.len(),
        buf[0] == 1 && buf[1] == 0 && buf[2] == period && buf[3] == list.len(),
        forall|i: int|
            0 <= i < list.len() ==> buf.subrange(4 + 4 * i, 8 + 4 * i) == crate::bytes::be32(
                #[trigger] list[i],
            ),
    ensures
        after.hop.enabled,
        after.hop.period == period,
        plan matches Plan::SetHop { on, period: q, list: l } && on && q == period && l@ == list,
        after.hop.n == list.len(),
        forall|i: int| 0 <= i < list.len() ==> #[trigger] after.hop.hz@[i] == list[i],
        after.p.freq_hz == list[0],
        after.radio_errors == n.radio_errors,
{
    let sent = crate::lora_node::command::hop_list(buf);
    assert forall|i: int| 0 <= i < list.len() implies sent[i] == #[trigger] list[i] by {
        crate::bytes::numbers_are_found_in_place(buf, 4 + 4 * i, 0, list[i], 0);
    }
    assert(sent =~= list);
}

/// A hop command names carriers outside the band, or more than fit, or hops of no length: it is
/// refused, and nothing changes.
pub proof fn a_bad_hop_list_is_refused(
    n: Node,
    buf: Seq<u8>,
    now: u64,
    after: Node,
    plan: Plan,
    i: int,
)
    requires
        crate::lora_node::command::decided(n, 0x1E, buf, now, after, plan),
        buf.len() >= 4,
        buf[0] > 1 || buf[3] > 40 || (buf[0] == 1 && buf[3] == 0) || (buf[0] == 1 && buf[1] != 0)
            || (buf[0] == 1 && buf[2] == 0 && buf[1] == 0) || buf.len() < 4 + 4 * buf[3] || (0 <= i
            < buf[3] && !(902_000_000 <= crate::bytes::u32_at(buf, 4 + 4 * i) <= 928_000_000)),
    ensures
        after == n,
        plan.answered_by(0x8F),
{
    let list = crate::lora_node::command::hop_list(buf);
    if 0 <= i < buf[3] {
        assert(list[i] == crate::bytes::u32_at(buf, 4 + 4 * i));
    }
}

/// While the node hops, its list starts with the carrier in use, whatever that becomes, and the rest
/// of the list stays; while it does not, the list stays as it is.
pub proof fn the_list_starts_with_the_carrier(h: Hop, freq_hz: u32, after: Hop, i: int)
    requires
        h.wf(),
        h.base_pinned(freq_hz, after),
        0 <= i < 40,
    ensures
        h.enabled ==> after.hz@[0] == freq_hz && after.frf@[0] == crate::lora_node::hop::carrier_word(
            freq_hz,
        ),
        i > 0 ==> after.hz@[i] == h.hz@[i] && after.frf@[i] == h.frf@[i],
        !h.enabled ==> after == h,
        after.n == h.n && after.enabled == h.enabled && after.trace == h.trace && after.period
            == h.period && after.base_hz == h.base_hz,
{
}

/// The word of a carrier is the number of whole steps of `32 MHz / 2^19` below it.
pub proof fn a_carrier_word_counts_steps(hz: u32)
    requires
        hz <= 1_000_000_000,
    ensures
        ({
            let w = crate::lora_node::hop::carrier_word(hz);
            w * 32_000_000 <= hz * 524_288 < (w + 1) * 32_000_000
        }),
{
    crate::regs::frf_is_within_one_step(hz);
}

/// A trace lists every hop: behind the clock rate and the count each takes five bytes, the index and
/// the instant, in the order of the hops.
pub proof fn a_trace_lists_every_hop(hz: u32, s: Seq<crate::lora_node::hop::HopEntry>, k: int)
    requires
        s.len() <= 32,
        0 <= k < s.len(),
    ensures
        crate::lora_node::hop::trace_body(hz, s).len() == 5 + 5 * s.len(),
        crate::lora_node::hop::trace_body(hz, s).subrange(0, 4) == crate::bytes::be32(hz),
        crate::lora_node::hop::trace_body(hz, s)[4] == s.len(),
        crate::lora_node::hop::trace_body(hz, s)[5 + 5 * k] == s[k].idx,
        crate::lora_node::hop::trace_body(hz, s).subrange(6 + 5 * k, 10 + 5 * k)
            == crate::bytes::be32(s[k].t),
{
    lemma_entry_bytes(s, k);
    let b = crate::lora_node::hop::trace_body(hz, s);
    let e = crate::lora_node::hop::entry_bytes(s);
    assert(b.subrange(0, 4) =~= crate::bytes::be32(hz));
    assert(b.subrange(6 + 5 * k, 10 + 5 * k) =~= e.subrange(1 + 5 * k, 5 + 5 * k));
}

proof fn lemma_entry_bytes(s: Seq<crate::lora_node::hop::HopEntry>, k: int)
    requires
        0 <= k < s.len(),
    ensures
        crate::lora_node::hop::entry_bytes(s).len() == 5 * s.len(),
        crate::lora_node::hop::entry_bytes(s)[5 * k] == s[k].idx,
        crate::lora_node::hop::entry_bytes(s).subrange(1 + 5 * k, 5 + 5 * k) == crate::bytes::be32(
            s[k].t,
        ),
    decreases s.len(),
{
    let e = crate::lora_node::hop::entry_bytes(s);
    let d = crate::lora_node::hop::entry_bytes(s.drop_last());
    if s.len() > 1 {
        lemma_entry_bytes(s.drop_last(), if k < s.len() - 1 { k } else { 0 });
    } else {
        assert(s.drop_last().len() == 0);
        assert(d.len() == 0);
    }
    if k < s.len() - 1 {
        assert(e.subrange(1 + 5 * k, 5 + 5 * k) =~= d.subrange(1 + 5 * k, 5 + 5 * k));
    } else {
        assert(e.subrange(1 + 5 * k, 5 + 5 * k) =~= crate::bytes::be32(s[k].t));
    }
}

} // verus!
