//! What holds of the measurements.

use vstd::prelude::*;

use crate::lab::pattern::{Pattern, Step};
use crate::lab::shadow::{Score, ShadowView};
use crate::lab::timing::{Arrival, Arrivals, RxCount, SlotTally, Spread};

verus! {

/// Losses are counted from the first frame on: with the first frame numbered `f`, a frame numbered
/// `s` says that `s - f + 1` were sent, and as many are missing as were not received. Frames that
/// failed their checksum do not count as received.
pub proof fn losses_are_counted(c: RxCount, f: u32, s: u32)
    requires
        c.first is None || c.first == Some(f),
        c.first is None ==> s == f,
        f <= s < u32::MAX,
        c.got < u32::MAX,
    ensures
        ({
            let after = c.counted(s);
            &&& after.first == Some(f)
            &&& after.got == c.got + 1
            &&& after.sent() == s - f + 1
            &&& after.got <= s - f + 1 ==> after.missing() + after.got == s - f + 1
            &&& after.got > s - f + 1 ==> after.missing() == 0
            &&& after.crc_bad == c.crc_bad
            &&& after.asks_for_report() <==> after.got as int % 25 == 0
        }),
{
}

/// Frames in sequence give the time between them, across a wrap of either counter too; any other
/// number is a gap, which is counted and gives no time.
pub proof fn only_frames_in_sequence_give_a_time(
    a: Arrivals,
    seq_no: u32,
    stamp: u32,
    next: u32,
    ticks: u32,
)
    ensures
        ({
            let first = a.noted(seq_no, stamp);
            let second = first.judged(next, stamp.wrapping_add(ticks));
            let after = first.noted(next, stamp.wrapping_add(ticks));
            &&& a.prev is None ==> a.judged(seq_no, stamp) == Arrival::First && first.gaps == a.gaps
            &&& next == seq_no.wrapping_add(1) ==> second == (Arrival::Consecutive { ticks })
                && after.gaps == first.gaps
            &&& next != seq_no.wrapping_add(1) ==> second == Arrival::Gap && after.gaps
                == first.gaps.wrapping_add(1)
            &&& after.prev == Some((next, stamp.wrapping_add(ticks)))
        }),
{
}

/// The width of intervals is the greatest distance between two of them.
pub proof fn the_width_holds_every_pair(p: Spread, s: Seq<u32>, i: int, j: int)
    requires
        p.of(s),
        0 <= i < s.len(),
        0 <= j < s.len(),
    ensures
        s[i] - s[j] <= p.width(),
        exists|a: int, b: int|
            0 <= a < s.len() && 0 <= b < s.len() && #[trigger] s[a] - #[trigger] s[b] == p.width(),
{
    let hi = s.index_of(p.max);
    let lo = s.index_of(p.min);
    assert(s.contains(p.max) && s.contains(p.min));
    assert(s[hi] == p.max && s[lo] == p.min);
    assert(p.min <= s[i] <= p.max && p.min <= s[j] <= p.max);
    assert(s[hi] - s[lo] == p.width());
}

/// The syncword lies before the request by the age that the fast clock gives, two of its ticks to one
/// of the counter, across a wrap too.
pub proof fn the_syncword_lies_before_the_request(t: u32, age: u32)
    requires
        age <= 0x7FFF_FFFF,
    ensures
        crate::lab::timing::syncword_at(t.wrapping_add(age), (2 * age) as u32) == t,
        age < 0x7FFF_FFFF ==> crate::lab::timing::syncword_at(
            t.wrapping_add(age),
            (2 * age + 1) as u32,
        ) == t,
{
}

/// The slot that is armed is a whole number of periods after the sender's own, lies far enough ahead,
/// and is the earliest that does: no more than one period beyond the lead, where slots were passed
/// over.
pub proof fn the_earliest_slot_is_armed(target: u32, now: u32, n: int)
    requires
        n >= 0,
        crate::lab::timing::first_armable(target, now, n),
    ensures
        ({
            let slot = crate::lab::timing::slots_on(target, n);
            let lead = slot.wrapping_sub(now);
            &&& (slot - target - 320_000 * n) % 4_294_967_296 == 0
            &&& 32_000 <= lead <= 0x7FFF_FFFF
            &&& n > 0 ==> lead < 352_000
        }),
{
    let sum: int = target + 320_000 * n;
    let slot = crate::lab::timing::slots_on(target, n);
    vstd::arithmetic::div_mod::lemma_fundamental_div_mod(sum, 4_294_967_296);
    let q: int = sum / 4_294_967_296;
    assert(slot == sum - 4_294_967_296 * q);
    vstd::arithmetic::div_mod::lemma_fundamental_div_mod_converse(
        slot - target - 320_000 * n,
        4_294_967_296,
        -q,
        0,
    );
    if n > 0 {
        let before = crate::lab::timing::slots_on(target, n - 1);
        assert(!crate::lab::timing::armable(before, now));
        let prior: int = target + 320_000 * (n - 1);
        vstd::arithmetic::div_mod::lemma_fundamental_div_mod(prior, 4_294_967_296);
        let r: int = prior / 4_294_967_296;
        assert(before == prior - 4_294_967_296 * r);
        assert(slot - before == 320_000 - 4_294_967_296 * (q - r));
        assert(q - r == 0 || q - r == 1);
    }
}

/// A slot that lies ahead is waited for until it, and three milliseconds more; one that has passed
/// only those three.
pub proof fn slots_are_waited_for(target: u32, now: u32)
    ensures
        ({
            let lead = target.wrapping_sub(now);
            let ms = crate::lab::timing::waited_ms(target, now);
            &&& lead <= 0x7FFF_FFFF ==> 16_000 * (ms - 3) <= lead < 16_000 * (ms - 2)
            &&& lead > 0x7FFF_FFFF ==> ms == 3
        }),
{
}

/// Every armed slot is counted once, and counted as silent exactly if it did not fire although the
/// chip answered and named no reason.
pub proof fn slots_are_tallied(t: SlotTally, fired: bool, busy: bool, pll: bool)
    ensures
        ({
            let a = t.counted(fired, Some((busy, pll)));
            let m = t.counted(fired, None);
            &&& a.armed == t.armed.wrapping_add(1) && m.armed == t.armed.wrapping_add(1)
            &&& fired ==> a.tx_done == t.tx_done.wrapping_add(1) && m.tx_done
                == t.tx_done.wrapping_add(1) && a.silent == t.silent
            &&& !fired ==> a.tx_done == t.tx_done && m.tx_done == t.tx_done
            &&& busy ==> a.busy_err == t.busy_err.wrapping_add(1) && a.silent == t.silent
            &&& !busy ==> a.busy_err == t.busy_err
            &&& pll ==> a.pll_err == t.pll_err.wrapping_add(1)
            &&& !pll ==> a.pll_err == t.pll_err
            &&& !fired && !busy ==> a.silent == t.silent.wrapping_add(1)
            &&& m.busy_err == t.busy_err && m.pll_err == t.pll_err && m.silent == t.silent
        }),
{
}

/// A label of two equal digits is a pattern of the byte it shows in hexadecimal, for the four that
/// there are; every other label is the ramp, whose bytes are their own places.
pub proof fn labels_show_their_byte(label: Seq<u8>, i: int)
    requires
        0 <= i < 256,
    ensures
        label == seq![0x30u8, 0x30u8] ==> crate::lab::pattern::pattern_byte(
            crate::lab::pattern::labelled(label),
            i,
        ) == 0x00,
        label == seq![0x35u8, 0x35u8] ==> crate::lab::pattern::pattern_byte(
            crate::lab::pattern::labelled(label),
            i,
        ) == 0x55,
        label == seq![0x61u8, 0x61u8] ==> crate::lab::pattern::pattern_byte(
            crate::lab::pattern::labelled(label),
            i,
        ) == 0xaa,
        label == seq![0x66u8, 0x66u8] ==> crate::lab::pattern::pattern_byte(
            crate::lab::pattern::labelled(label),
            i,
        ) == 0xff,
        label.len() != 2 || label[0] != label[1] ==> crate::lab::pattern::pattern_byte(
            crate::lab::pattern::labelled(label),
            i,
        ) == i,
{
    assert(seq![0x30u8, 0x30u8][0] == 0x30 && seq![0x30u8, 0x30u8][1] == 0x30);
    assert(seq![0x35u8, 0x35u8][0] == 0x35 && seq![0x35u8, 0x35u8][1] == 0x35);
    assert(seq![0x61u8, 0x61u8][0] == 0x61 && seq![0x61u8, 0x61u8][1] == 0x61);
    assert(seq![0x66u8, 0x66u8][0] == 0x66 && seq![0x66u8, 0x66u8][1] == 0x66);
}

/// A step takes 24 frames at most, none after its deadline, and its tally adds each frame's matches;
/// a frame is perfect exactly if all of it matches.
pub proof fn steps_are_tallied(s: Step, p: Pattern, b: Seq<u8>, now: u64, deadline: u64)
    requires
        s.wf(),
        s.n < 24,
        b.len() == 48,
    ensures
        ({
            let after = s.counted(p, b);
            &&& after.n == s.n + 1
            &&& after.hits_sum == s.hits_sum + crate::lab::pattern::hits(p, b, 48)
            &&& after.lead_sum == s.lead_sum + crate::lab::pattern::lead(p, b, 0)
            &&& after.lead_max >= s.lead_max && after.lead_max >= crate::lab::pattern::lead(p, b, 0)
            &&& after.lead_max == s.lead_max || after.lead_max == crate::lab::pattern::lead(p, b, 0)
            &&& (forall|i: int| 0 <= i < 48 ==> b[i] == crate::lab::pattern::pattern_byte(p, i))
                ==> after.perfect == s.perfect + 1
            &&& !(forall|i: int| 0 <= i < 48 ==> b[i] == crate::lab::pattern::pattern_byte(p, i))
                ==> after.perfect == s.perfect
            &&& s.goes_on(now, deadline) <==> now < deadline
            &&& after.n == 24 ==> !after.goes_on(now, deadline)
        }),
{
    crate::lab::pattern::perfect_means_equal(p, b, 48);
    lemma_lead(p, b, 0);
    lemma_hits(p, b, 48);
}

proof fn lemma_hits(p: Pattern, b: Seq<u8>, n: int)
    ensures
        crate::lab::pattern::hits(p, b, n) >= 0,
    decreases n,
{
    if n > 0 {
        lemma_hits(p, b, n - 1);
    }
}

proof fn lemma_lead(p: Pattern, b: Seq<u8>, i: int)
    requires
        0 <= i <= b.len(),
    ensures
        i <= crate::lab::pattern::lead(p, b, i) <= b.len(),
    decreases b.len() - i,
{
    if i < b.len() && b[i] == crate::lab::pattern::pattern_byte(p, i) {
        lemma_lead(p, b, i + 1);
    }
}

/// The better setting is kept: never one with fewer matches, and of two with as many the earlier.
pub proof fn the_better_setting_is_kept(best: (i32, u32), setting: i32, avg: u32)
    ensures
        ({
            let kept = crate::lab::pattern::better_of(best, setting, avg);
            &&& kept == best || kept == (setting, avg)
            &&& kept.1 >= best.1 && kept.1 >= avg
            &&& avg <= best.1 ==> kept == best
        }),
{
}

/// A drift field is read from where it is placed, whatever else the register holds; and the carriers
/// of a sweep lie a thousand hertz apart for each kilohertz, around 915 MHz.
pub proof fn sweep_settings_are_placed(field: u32, below: u32, above: u32, off: i32)
    requires
        field < 32,
        below < 32,
        above < 4_194_304,
        -60 <= off < 60,
    ensures
        crate::lab::pattern::field_of(
            (below + crate::lab::pattern::placed(field) + 1024 * above) as u32,
        ) == field,
        crate::lab::pattern::carrier_at((off + 1) as i32) - crate::lab::pattern::carrier_at(off)
            == 1000,
        crate::lab::pattern::carrier_at(0) == 915_000_000,
{
}

/// Agreement counts the places where two masks are alike: all of them exactly if they are equal.
pub proof fn full_agreement_means_equal(a: Seq<u8>, b: Seq<u8>, n: int)
    requires
        0 <= n <= a.len(),
        n <= b.len(),
    ensures
        0 <= crate::lab::pattern::agreeing(a, b, n) <= n,
        crate::lab::pattern::agreeing(a, b, n) == n <==> (forall|i: int|
            0 <= i < n ==> a[i] == b[i]),
    decreases n,
{
    if n > 0 {
        full_agreement_means_equal(a, b, n - 1);
        if crate::lab::pattern::agreeing(a, b, n) == n {
            assert(forall|i: int| 0 <= i < n ==> a[i] == b[i]);
        }
        if forall|i: int| 0 <= i < n ==> a[i] == b[i] {
            assert(a[n - 1] == b[n - 1]);
        }
    }
}

/// Every verdict is counted in one place: as rejected or accepted, an accepted one as rightly or
/// wrongly so, and a wanted frame that was rejected as missed.
pub proof fn every_verdict_is_counted_once(s: Score, accept: bool, want: bool)
    ensures
        ({
            let t = s.with(accept, want);
            &&& t.seen == s.seen.wrapping_add(1)
            &&& accept ==> t.accepted == s.accepted.wrapping_add(1) && t.rejected == s.rejected
                && t.false_neg == s.false_neg
            &&& !accept ==> t.rejected == s.rejected.wrapping_add(1) && t.accepted == s.accepted
                && t.true_acc == s.true_acc && t.false_pos == s.false_pos
            &&& accept && want ==> t.true_acc == s.true_acc.wrapping_add(1) && t.false_pos
                == s.false_pos
            &&& accept && !want ==> t.false_pos == s.false_pos.wrapping_add(1) && t.true_acc
                == s.true_acc
            &&& !accept && want ==> t.false_neg == s.false_neg.wrapping_add(1)
            &&& !accept && !want ==> t.false_neg == s.false_neg
            &&& t.crc_bad == s.crc_bad
        }),
{
}

/// A frame with a twelve-byte filter is read as the filter and the name that it is made of, and as
/// none where it is too short for its name.
pub proof fn fixed_frames_are_read(bits: Seq<u8>, name: Seq<u8>, rest: Seq<u8>)
    requires
        bits.len() == 12,
        name.len() <= 255,
        1 <= name.len() + rest.len(),
    ensures
        crate::lab::shadow::fixed_parts(bits + seq![name.len() as u8] + name + rest) == Some(
            ShadowView { filter: bits, name },
        ),
        name.len() >= 1 ==> crate::lab::shadow::fixed_parts(
            bits + seq![name.len() as u8] + name.drop_last(),
        ) is None,
{
    let f = bits + seq![name.len() as u8] + name + rest;
    assert(f[12] == name.len());
    assert(f.take(12) =~= bits);
    assert(f.subrange(13, 13 + name.len() as int) =~= name);
    if name.len() >= 1 {
        let g = bits + seq![name.len() as u8] + name.drop_last();
        assert(g[12] == name.len());
    }
}

/// A filter with every bit set lets every name through and misses none; one with no bit set lets none
/// through and misses all, where anything is probed.
pub proof fn full_and_empty_filters(
    bits: Seq<u8>,
    key: Seq<u8>,
    name: Seq<u8>,
    k: u32,
    span: int,
    salt: int,
    n: int,
)
    requires
        n >= 0,
    ensures
        (forall|i: int| 0 <= i < 128 ==> #[trigger] crate::tier0::filter_bit(bits, i)) ==> {
            &&& crate::lab::filter_test::let_through(bits, key, k, span, salt, n) == n
            &&& crate::lab::filter_test::missed(bits, key, name, k, n) == 0
        },
        k > 0 && (forall|i: int| 0 <= i < 128 ==> !(#[trigger] crate::tier0::filter_bit(bits, i)))
            ==> {
            &&& crate::lab::filter_test::let_through(bits, key, k, span, salt, n) == 0
            &&& crate::lab::filter_test::missed(bits, key, name, k, n) == n
        },
    decreases n,
{
    if n > 0 {
        full_and_empty_filters(bits, key, name, k, span, salt, n - 1);
        let asked = crate::lab::names::disjoint_name(1 + (n - 1) % span, (salt + n - 1) as u32);
        let own = crate::tier0::prefixes(name)[n - 1];
        lemma_full_or_empty(bits, key, asked, k);
        lemma_full_or_empty(bits, key, own, k);
    }
}

proof fn lemma_full_or_empty(bits: Seq<u8>, key: Seq<u8>, p: Seq<u8>, k: u32)
    ensures
        (forall|i: int| 0 <= i < 128 ==> #[trigger] crate::tier0::filter_bit(bits, i))
            ==> crate::tier0::holds(bits, key, p, k),
        k > 0 && (forall|i: int| 0 <= i < 128 ==> !(#[trigger] crate::tier0::filter_bit(bits, i)))
            ==> !crate::tier0::holds(bits, key, p, k),
{
    assert forall|j: u32| 0 <= #[trigger] crate::tier0::probe(key, p, j) < 128 by {}
    if k > 0 {
        let i = crate::tier0::probe(key, p, 0);
        assert(0 <= i < 128);
    }
}

/// A generated name is made of its components in order, and two components are alike exactly if the
/// low sixteen bits of their values are.
pub proof fn names_show_their_values(f: spec_fn(int) -> u32, n: int, c: int, v: u32, w: u32)
    requires
        0 <= c < n,
    ensures
        crate::lab::names::joined(f, n).len() == 5 * n,
        crate::lab::names::joined(f, n).subrange(5 * c, 5 * c + 5)
            == crate::lab::names::component(f(c)),
        crate::lab::names::component(v)[0] == 0x2F,
        crate::lab::names::component(v) == crate::lab::names::component(w) <==> v % 65_536 == w
            % 65_536,
    decreases n,
{
    let s = crate::lab::names::joined(f, n);
    let t = crate::lab::names::joined(f, n - 1);
    if n - 1 > 0 {
        names_show_their_values(
            f,
            n - 1,
            if c < n - 1 {
                c
            } else {
                0
            },
            v,
            w,
        );
    } else {
        assert(t =~= Seq::<u8>::empty());
    }
    if c == n - 1 {
        assert(s.subrange(5 * c, 5 * c + 5) =~= crate::lab::names::component(f(c)));
    } else {
        assert(s.subrange(5 * c, 5 * c + 5) =~= t.subrange(5 * c, 5 * c + 5));
    }
    let a = crate::lab::names::component(v);
    let b = crate::lab::names::component(w);
    if a == b {
        assert(a[1] == b[1] && a[2] == b[2] && a[3] == b[3] && a[4] == b[4]);
        assert(v / 4096 % 16 == w / 4096 % 16);
        assert(v / 256 % 16 == w / 256 % 16);
        assert(v / 16 % 16 == w / 16 % 16);
        assert(v % 16 == w % 16);
        lemma_nibbles(v);
        lemma_nibbles(w);
    } else if v % 65_536 == w % 65_536 {
        lemma_nibbles(v);
        lemma_nibbles(w);
        assert(a =~= b);
    }
}

proof fn lemma_nibbles(v: u32)
    by (bit_vector)
    ensures
        v % 65_536 == v / 4096 % 16 * 4096 + v / 256 % 16 * 256 + v / 16 % 16 * 16 + v % 16,
        v / 4096 % 16 == v % 65_536 / 4096,
        v / 256 % 16 == v % 65_536 / 256 % 16,
        v / 16 % 16 == v % 65_536 / 16 % 16,
        v % 16 == v % 65_536 % 16,
{
}

/// The two ways of asking a filter of sixteen bytes about a mask agree: byte by byte and bit by bit.
pub proof fn both_ways_of_asking_agree(filter: Seq<u8>, mask: Seq<u8>)
    requires
        filter.len() == 16,
        mask.len() == 16,
    ensures
        crate::lab::shadow::bytes_cover(filter, mask) <==> crate::tier0::covers(filter, mask),
{
    crate::tier0::covering_is_bytewise(filter, mask);
    if crate::lab::shadow::bytes_cover(filter, mask) {
        assert forall|b: int| 0 <= b < 16 implies filter[b] & #[trigger] mask[b] == mask[b] by {
            assert(filter[b] & mask[b] == mask[b]);
        }
    }
    if crate::tier0::covers(filter, mask) {
        assert forall|i: int| 0 <= i < mask.len() implies #[trigger] filter[i] & mask[i]
            == mask[i] by {
            assert(filter[i] & mask[i] == mask[i]);
        }
    }
}

/// A frame with a fixed filter is the filter, the name's length, the name and zeros, 48 bytes in all.
pub proof fn fixed_frames_are_laid_out(bits: Seq<u8>, name: Seq<u8>, i: int)
    requires
        bits.len() == 16,
        name.len() <= 31,
        0 <= i,
    ensures
        ({
            let f = crate::lab::shadow::fixed_frame(bits, name);
            &&& f.len() == 48
            &&& i < 16 ==> f[i] == bits[i]
            &&& f[16] == name.len()
            &&& i < name.len() ==> f[17 + i] == name[i]
            &&& name.len() <= i < 31 ==> f[17 + i] == 0
        }),
{
}

/// A traffic name starts with its namespace, has two to six components, as many as its number says,
/// and moves with its number in all the others.
#[verifier::spinoff_prover]
#[verifier::rlimit(40)]
pub proof fn traffic_names_follow_their_numbers(ns: u32, seq_no: u32, c: int)
    ensures
        ({
            let d = crate::lab::names::depth_of(seq_no);
            let name = crate::lab::names::traffic_name(ns, seq_no);
            &&& 2 <= d <= 6 && (d - 2 - seq_no) % 5 == 0
            &&& name.len() == 5 * d
            &&& name.take(5) == crate::lab::names::component(ns)
            &&& 0 < c < d ==> name.subrange(5 * c, 5 * c + 5) == crate::lab::names::component(
                seq_no.wrapping_add((7 * c) as u32),
            )
        }),
{
    let d = crate::lab::names::depth_of(seq_no);
    let f = |k: int| crate::lab::names::traffic_value(ns, seq_no, k);
    names_show_their_values(f, d, 0, 0, 0);
    assert(crate::lab::names::traffic_name(ns, seq_no).take(5)
        =~= crate::lab::names::traffic_name(ns, seq_no).subrange(0, 5));
    if 0 < c < d {
        names_show_their_values(f, d, c, 0, 0);
    }
}

/// A trial name counts up to its salt, and a name of the other namespace starts every component with
/// `f`.
#[verifier::spinoff_prover]
#[verifier::rlimit(40)]
pub proof fn trial_names_count_up_to_their_salt(depth: int, salt: u32, c: int)
    requires
        0 <= c < depth,
        depth <= 8,
    ensures
        ({
            let trial = crate::lab::names::trial_name(depth, salt);
            let other = crate::lab::names::disjoint_name(depth, salt);
            &&& trial.len() == 5 * depth && other.len() == 5 * depth
            &&& c < depth - 1 ==> trial.subrange(5 * c, 5 * c + 5)
                == crate::lab::names::component(c as u32)
            &&& c == depth - 1 ==> trial.subrange(5 * c, 5 * c + 5)
                == crate::lab::names::component(salt)
            &&& other[5 * c + 1] == 0x66
            &&& other.subrange(5 * c + 2, 5 * c + 5) == trial.subrange(5 * c + 2, 5 * c + 5)
        }),
{
    let g = |k: int| crate::lab::names::trial_value(depth, salt, k);
    let h = |k: int| crate::lab::names::disjoint_value(depth, salt, k);
    names_show_their_values(g, depth, c, 0, 0);
    names_show_their_values(h, depth, c, 0, 0);
    let trial = crate::lab::names::trial_name(depth, salt);
    let other = crate::lab::names::disjoint_name(depth, salt);
    let t = g(c);
    let o = h(c);
    assert(o == 0xf000 + t % 0x1000);
    lemma_nibbles(t);
    lemma_nibbles(o);
    let a = crate::lab::names::component(t);
    let b = crate::lab::names::component(o);
    assert(trial.subrange(5 * c, 5 * c + 5) == a);
    assert(other.subrange(5 * c, 5 * c + 5) == b);
    assert(other[5 * c + 1] == b[1]);
    lemma_top_digit(t, o);
    assert(a[2] == b[2] && a[3] == b[3] && a[4] == b[4]);
    let x = other.subrange(5 * c + 2, 5 * c + 5);
    let y = trial.subrange(5 * c + 2, 5 * c + 5);
    let u = other.subrange(5 * c, 5 * c + 5);
    let w = trial.subrange(5 * c, 5 * c + 5);
    assert(x[0] == u[2] && x[1] == u[3] && x[2] == u[4]);
    assert(y[0] == w[2] && y[1] == w[3] && y[2] == w[4]);
    assert(x =~= y);
}

proof fn lemma_top_digit(t: u32, o: u32)
    by (bit_vector)
    requires
        o == 0xf000 + t % 0x1000,
    ensures
        o / 4096 % 16 == 15,
        o / 256 % 16 == t / 256 % 16,
        o / 16 % 16 == t / 16 % 16,
        o % 16 == t % 16,
{
}

/// The names of a set of error flags are those of the flags that are set, lowest first, each once.
pub proof fn set_flags_are_named(word: int, n: int)
    requires
        n >= 0,
    ensures
        crate::lr_node::info::error_flag(word, n) ==> crate::lab::timing::set_names(word, n + 1)
            == crate::lab::timing::set_names(word, n).push(crate::lab::timing::flag_name(n)),
        !crate::lr_node::info::error_flag(word, n) ==> crate::lab::timing::set_names(word, n + 1)
            == crate::lab::timing::set_names(word, n),
        crate::lab::timing::set_names(word, 0).len() == 0,
        crate::lab::timing::set_names(word, n).len() <= n,
    decreases n,
{
    if n > 0 {
        set_flags_are_named(word, n - 1);
    }
}

/// A rate is the most parts per million that the part reaches, and a mean the most that each reading
/// could have had without passing the sum.
pub proof fn rates_are_the_most_that_fit(part: int, whole: int, sum: int, n: int)
    requires
        part >= 0,
        whole > 0,
        sum >= 0,
        n > 0,
    ensures
        crate::lab::filter_test::per_million(part, whole) * whole <= part * 1_000_000,
        part * 1_000_000 < (crate::lab::filter_test::per_million(part, whole) + 1) * whole,
        crate::lab::pattern::mean(sum, n) * n <= sum < (crate::lab::pattern::mean(sum, n) + 1) * n,
{
    let q = crate::lab::filter_test::per_million(part, whole);
    let m = crate::lab::pattern::mean(sum, n);
    vstd::arithmetic::div_mod::lemma_fundamental_div_mod(part * 1_000_000, whole);
    vstd::arithmetic::div_mod::lemma_fundamental_div_mod(sum, n);
    assert(q * whole == whole * q && (q + 1) * whole == whole * q + whole) by (nonlinear_arith);
    assert(m * n == n * m && (m + 1) * n == n * m + n) by (nonlinear_arith);
}

} // verus!
