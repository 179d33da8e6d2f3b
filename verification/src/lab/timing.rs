//! Numbered frames, the stamps of their arrival, and slots on the free-running counter.

use lr2021::cmd::cmd_system::clear_errors_cmd;
use vstd::prelude::*;

verus! {

/// The tag of the first link experiment: `NDN-M3`.
pub const TAG_M3: [u8; 6] = [78, 68, 78, 45, 77, 51];
/// The tag of the timing experiments: `NDN-M4`.
pub const TAG_M4: [u8; 6] = [78, 68, 78, 45, 77, 52];
/// Longest frame that is read.
pub const READ_MAX: usize = 64;
/// Length of a slot, in counter ticks.
pub const PERIOD_TICKS: u32 = 320_000;
/// How far ahead a slot must lie to be armed, in counter ticks.
pub const MIN_LEAD_TICKS: u32 = 32_000;
/// Ticks of the radio's fast clock in one tick of the counter.
pub const HF_TICKS_PER_TIMER_TICK: u32 = 2;

/// A numbered frame: the number, then the tag.
pub open spec fn numbered(seq_no: u32, tag: Seq<u8>) -> Seq<u8> {
    crate::bytes::be32(seq_no) + tag
}

/// A numbered frame.
pub fn tag_frame(seq_no: u32, tag: &[u8; 6]) -> (f: Vec<u8>)
    ensures
        f@ == numbered(seq_no, tag@),
        f@.len() == 10,
{
    let mut f: Vec<u8> = Vec::new();
    crate::bytes::push_be32(&mut f, seq_no);
    crate::bytes::push_all(&mut f, tag.as_slice());
    assert(f@ =~= numbered(seq_no, tag@));
    f
}

/// The number of a frame that carries the tag.
pub open spec fn number_of(b: Seq<u8>, tag: Seq<u8>) -> Option<u32> {
    if b.len() >= 10 && b.subrange(4, 10) == tag {
        Some(crate::bytes::u32_at(b, 0))
    } else {
        None
    }
}

/// Reads the number of a frame that carries the tag.
pub fn read_number(b: &[u8], tag: &[u8; 6]) -> (r: Option<u32>)
    ensures
        r == number_of(b@, tag@),
{
    if b.len() < 10 {
        return None;
    }
    let mut i: usize = 0;
    while i < 6
        invariant
            i <= 6,
            b.len() >= 10,
            forall|k: int| 0 <= k < i ==> b@[4 + k] == tag@[k],
        decreases 6 - i,
    {
        if b[4 + i] != tag[i] {
            assert(b@.subrange(4, 10)[i as int] != tag@[i as int]);
            return None;
        }
        i += 1;
    }
    assert(b@.subrange(4, 10) =~= tag@);
    Some(crate::bytes::get_be32(b, 0))
}

/// What was sent is read: the number comes back under the same tag, and under no other.
pub proof fn numbers_round_trip(seq_no: u32, tag: Seq<u8>, other: Seq<u8>)
    requires
        tag.len() == 6,
    ensures
        number_of(numbered(seq_no, tag), tag) == Some(seq_no),
        other != tag ==> number_of(numbered(seq_no, tag), other) is None,
{
    let f = numbered(seq_no, tag);
    assert(f.subrange(4, 10) =~= tag);
    crate::bytes::be_round_trip(0, seq_no, 0);
    assert(crate::bytes::u32_at(f, 0) == crate::bytes::u32_at(crate::bytes::be32(seq_no), 0));
}

/// The count of numbered frames.
#[derive(Clone, Copy, PartialEq, Eq, Structural)]
pub struct RxCount {
    pub got: u32,
    pub crc_bad: u32,
    pub first: Option<u32>,
    pub last: u32,
}

impl RxCount {
    /// The count with one more numbered frame.
    pub open spec fn counted(self, seq_no: u32) -> RxCount {
        RxCount {
            got: self.got.wrapping_add(1),
            first: match self.first {
                Some(f) => Some(f),
                None => Some(seq_no),
            },
            last: seq_no,
            ..self
        }
    }

    /// Every 25th frame asks for a report.
    pub open spec fn asks_for_report(self) -> bool {
        self.got % 25 == 0
    }

    /// How many frames were sent since the first.
    pub open spec fn sent(self) -> u32 {
        self.last.wrapping_sub(
            match self.first {
                Some(f) => f,
                None => self.last,
            },
        ).wrapping_add(1)
    }

    /// How many of them are missing.
    pub open spec fn missing(self) -> int {
        if self.sent() > self.got {
            self.sent() - self.got
        } else {
            0
        }
    }

    /// Nothing received.
    pub fn new() -> (c: RxCount)
        ensures
            c == (RxCount { got: 0, crc_bad: 0, first: None, last: 0 }),
    {
        RxCount { got: 0, crc_bad: 0, first: None, last: 0 }
    }

    /// Counts a frame that failed its checksum.
    pub fn bad_crc(&mut self)
        ensures
            *final(self) == (RxCount { crc_bad: old(self).crc_bad.wrapping_add(1), ..*old(self) }),
    {
        self.crc_bad = self.crc_bad.wrapping_add(1);
    }

    /// Counts a numbered frame; every 25th asks for a report.
    pub fn on_frame(&mut self, seq_no: u32) -> (report: bool)
        ensures
            *final(self) == old(self).counted(seq_no),
            report == final(self).asks_for_report(),
    {
        self.got = self.got.wrapping_add(1);
        match self.first {
            Some(_) => {},
            None => {
                self.first = Some(seq_no);
            },
        }
        self.last = seq_no;
        self.got % 25 == 0
    }

    /// How many frames were sent since the first, and how many of them are missing.
    pub fn expected_and_lost(&self) -> (r: (u32, u32))
        ensures
            r.0 == self.sent(),
            r.1 == self.missing(),
    {
        let first: u32 = match self.first {
            Some(f) => f,
            None => self.last,
        };
        let expected: u32 = self.last.wrapping_sub(first).wrapping_add(1);
        let lost: u32 = if expected > self.got {
            expected - self.got
        } else {
            0
        };
        (expected, lost)
    }
}

/// What an arrival says about the one before it.
#[derive(Clone, Copy, PartialEq, Eq, Structural)]
pub enum Arrival {
    /// There was none.
    First,
    /// The next frame, after so many ticks.
    Consecutive { ticks: u32 },
    /// Some frames are missing in between, so that the time means nothing.
    Gap,
}

/// The last arrival and how often frames were missing.
#[derive(Clone, Copy)]
pub struct Arrivals {
    pub prev: Option<(u32, u32)>,
    pub gaps: u32,
}

impl Arrivals {
    /// What an arrival says about the one before it.
    pub open spec fn judged(self, seq_no: u32, stamp: u32) -> Arrival {
        match self.prev {
            None => Arrival::First,
            Some((pseq, pstamp)) => if seq_no == pseq.wrapping_add(1) {
                Arrival::Consecutive { ticks: stamp.wrapping_sub(pstamp) }
            } else {
                Arrival::Gap
            },
        }
    }

    /// The state after an arrival.
    pub open spec fn noted(self, seq_no: u32, stamp: u32) -> Arrivals {
        Arrivals {
            prev: Some((seq_no, stamp)),
            gaps: if self.judged(seq_no, stamp) == Arrival::Gap {
                self.gaps.wrapping_add(1)
            } else {
                self.gaps
            },
        }
    }

    /// Nothing arrived.
    pub fn new() -> (a: Arrivals)
        ensures
            a == (Arrivals { prev: None, gaps: 0 }),
    {
        Arrivals { prev: None, gaps: 0 }
    }

    /// Takes an arrival with its stamp. Only consecutive frames give an interval.
    pub fn on_arrival(&mut self, seq_no: u32, stamp: u32) -> (a: Arrival)
        ensures
            a == old(self).judged(seq_no, stamp),
            *final(self) == old(self).noted(seq_no, stamp),
    {
        let a: Arrival = match self.prev {
            None => Arrival::First,
            Some((pseq, pstamp)) => {
                if seq_no == pseq.wrapping_add(1) {
                    Arrival::Consecutive { ticks: stamp.wrapping_sub(pstamp) }
                } else {
                    self.gaps = self.gaps.wrapping_add(1);
                    Arrival::Gap
                }
            },
        };
        self.prev = Some((seq_no, stamp));
        a
    }
}

/// The sum of intervals.
pub open spec fn total(s: Seq<u32>) -> int
    decreases s.len(),
{
    if s.len() == 0 {
        0
    } else {
        total(s.drop_last()) + s.last()
    }
}

/// How far intervals lie apart. A report tells more than an average: jitter is in the extremes.
#[derive(Clone, Copy, PartialEq, Eq, Structural)]
pub struct Spread {
    pub n: u32,
    pub min: u32,
    pub max: u32,
    pub sum: u64,
}

impl Spread {
    /// These are the count, the extremes and the sum of the intervals.
    pub open spec fn of(self, s: Seq<u32>) -> bool {
        &&& self.n == s.len()
        &&& self.sum == total(s)
        &&& forall|i: int| 0 <= i < s.len() ==> self.min <= #[trigger] s[i] <= self.max
        &&& s.len() > 0 ==> s.contains(self.min) && s.contains(self.max)
        &&& s.len() == 0 ==> self.min == u32::MAX && self.max == 0
    }

    /// From the shortest interval to the longest.
    pub open spec fn width(self) -> int {
        if self.max > self.min {
            self.max - self.min
        } else {
            0
        }
    }

    /// As many intervals cannot sum to more.
    pub open spec fn wf(self) -> bool {
        self.sum <= self.n as int * 0xFFFF_FFFF
    }

    /// No intervals.
    pub fn new() -> (s: Spread)
        ensures
            s.wf(),
            s.of(Seq::empty()),
    {
        Spread { n: 0, min: u32::MAX, max: 0, sum: 0 }
    }

    /// Takes an interval.
    pub fn push(&mut self, ticks: u32)
        requires
            old(self).wf(),
            old(self).n < u32::MAX,
        ensures
            final(self).wf(),
            forall|s: Seq<u32>|
                #![trigger old(self).of(s)]
                old(self).of(s) ==> final(self).of(s.push(ticks)),
    {
        let ghost before = *self;
        assert(before.n as int * 0xFFFF_FFFF <= 0xFFFF_FFFE * 0xFFFF_FFFF) by (nonlinear_arith)
            requires
                before.n <= 0xFFFF_FFFE,
        ;
        self.n = self.n + 1;
        if ticks < self.min {
            self.min = ticks;
        }
        if ticks > self.max {
            self.max = ticks;
        }
        self.sum = self.sum + ticks as u64;
        assert forall|s: Seq<u32>| #![trigger before.of(s)] before.of(s) implies self.of(
            s.push(ticks),
        ) by {
            let t = s.push(ticks);
            assert(t.drop_last() =~= s);
            assert(t[s.len() as int] == ticks);
            if s.len() > 0 {
                let lo = s.index_of(before.min);
                let hi = s.index_of(before.max);
                assert(t[lo] == before.min && t[hi] == before.max);
            }
        }
    }

    /// The average interval, in whole ticks.
    pub fn mean(&self) -> (m: Option<u32>)
        requires
            self.wf(),
        ensures
            self.n == 0 ==> m is None,
            self.n > 0 ==> m == Some((self.sum as int / self.n as int) as u32),
            forall|s: Seq<u32>|
                #![trigger self.of(s)]
                self.of(s) && s.len() > 0 ==> m == Some((total(s) / s.len() as int) as u32),
    {
        if self.n == 0 {
            return None;
        }
        let q: u64 = self.sum / self.n as u64;
        assert(q <= 0xFFFF_FFFF) by (nonlinear_arith)
            requires
                q == self.sum / self.n as u64,
                self.n > 0,
                self.sum <= self.n as int * 0xFFFF_FFFF,
        ;
        Some(q as u32)
    }

    /// From the shortest interval to the longest.
    pub fn peak_to_peak(&self) -> (p: u32)
        ensures
            p == self.width(),
    {
        if self.max > self.min {
            self.max - self.min
        } else {
            0
        }
    }
}

/// The counter at the syncword.
pub open spec fn syncword_at(at_request: u32, hf_age: u32) -> u32 {
    at_request.wrapping_sub((hf_age / 2) as u32)
}

/// The counter at the syncword: the reading at the request, less the age that the radio's fast
/// clock gives.
pub fn sync_ticks(at_request: u32, hf_age: u32) -> (t: u32)
    ensures
        t == syncword_at(at_request, hf_age),
{
    at_request.wrapping_sub(hf_age / HF_TICKS_PER_TIMER_TICK)
}

/// A slot that can still be armed: it is ahead, and far enough.
pub open spec fn armable(target: u32, now: u32) -> bool {
    32_000 <= target.wrapping_sub(now) <= 0x7FFF_FFFF
}

/// The target after so many slots.
pub open spec fn slots_on(target: u32, n: int) -> u32 {
    ((target + n * 320_000) % 4_294_967_296) as u32
}

proof fn lemma_slot(target: u32, n: int)
    requires
        n >= 0,
    ensures
        slots_on(target, n + 1) == slots_on(target, n).wrapping_add(320_000),
{
    let a: int = target + n * 320_000;
    vstd::arithmetic::div_mod::lemma_add_mod_noop(a, 320_000, 4_294_967_296);
    let r: int = a % 4_294_967_296;
    assert(0 <= r < 4_294_967_296);
    if r + 320_000 >= 4_294_967_296 {
        vstd::arithmetic::div_mod::lemma_fundamental_div_mod_converse(
            r + 320_000,
            4_294_967_296,
            1,
            r + 320_000 - 4_294_967_296,
        );
    }
}

/// The first slot that can still be armed is `n` slots after `target`.
pub open spec fn first_armable(target: u32, now: u32, n: int) -> bool {
    &&& armable(slots_on(target, n), now)
    &&& forall|j: int| 0 <= j < n ==> !armable(#[trigger] slots_on(target, j), now)
}

/// The next slot that can still be armed, from `target` on, and how many were passed over.
pub fn next_slot(target: u32, now: u32) -> (r: (u32, u32))
    ensures
        r.0 == slots_on(target, r.1 as int),
        first_armable(target, now, r.1 as int),
{
    let mut t: u32 = target;
    let mut n: u32 = 0;
    assert(slots_on(target, 0) == target);
    while t.wrapping_sub(now) > 0x7FFF_FFFF || t.wrapping_sub(now) < MIN_LEAD_TICKS
        invariant
            t == slots_on(target, n as int),
            forall|j: int| 0 <= j < n ==> !armable(#[trigger] slots_on(target, j), now),
            t.wrapping_sub(now) > 0x7FFF_FFFF ==> n * 320_000 + (4_294_967_296 - t.wrapping_sub(
                now,
            )) <= 2_147_483_648,
            t.wrapping_sub(now) < 32_000 ==> n <= 6_712,
            t.wrapping_sub(now) <= 0x7FFF_FFFF ==> n <= 6_713,
        decreases
            (if t.wrapping_sub(now) > 0x7FFF_FFFF {
                4_294_967_296 - t.wrapping_sub(now) + 10
            } else if t.wrapping_sub(now) < 32_000 {
                1
            } else {
                0
            }),
    {
        proof {
            lemma_slot(target, n as int);
        }
        t = t.wrapping_add(PERIOD_TICKS);
        n = n + 1;
    }
    (t, n)
}

/// The slots of a sender.
#[derive(Clone, Copy, PartialEq, Eq, Structural)]
pub struct Slots {
    /// The slot it is at.
    pub target: u32,
    /// The slot it has armed last; the largest value before the first.
    pub last_armed: u32,
    /// Slots it has gone on by, free-running.
    pub advances: u32,
}

impl Slots {
    /// A sender that starts now, one period ahead.
    pub fn new(now: u32) -> (s: Slots)
        ensures
            s == (Slots { target: now.wrapping_add(320_000), last_armed: u32::MAX, advances: 0 }),
    {
        Slots { target: now.wrapping_add(PERIOD_TICKS), last_armed: u32::MAX, advances: 0 }
    }

    /// The sender `n` slots on.
    pub open spec fn gone_on(self, n: int) -> Slots {
        Slots {
            target: slots_on(self.target, n),
            last_armed: slots_on(self.target, n),
            advances: ((self.advances + n) % 4_294_967_296) as u32,
        }
    }

    /// Goes on to the first slot that can still be armed, and gives it where it has not been armed
    /// yet: a compare that has fired once does not fire again for the same slot.
    pub fn turn(&mut self, now: u32) -> (arm: Option<u32>)
        ensures
            exists|n: int|
                0 <= n <= u32::MAX && #[trigger] first_armable(old(self).target, now, n)
                    && *final(self) == old(self).gone_on(n),
            arm == (if final(self).target == old(self).last_armed {
                None
            } else {
                Some(final(self).target)
            }),
    {
        let (next, passed): (u32, u32) = next_slot(self.target, now);
        let ghost before = *self;
        self.target = next;
        self.advances = self.advances.wrapping_add(passed);
        let fresh: bool = next != self.last_armed;
        self.last_armed = next;
        proof {
            let sum: int = before.advances + passed;
            if sum >= 4_294_967_296 {
                vstd::arithmetic::div_mod::lemma_fundamental_div_mod_converse(
                    sum,
                    4_294_967_296,
                    1,
                    sum - 4_294_967_296,
                );
            }
            assert(first_armable(before.target, now, passed as int));
            assert(*self == before.gone_on(passed as int));
        }
        if fresh {
            Some(next)
        } else {
            None
        }
    }
}

proof fn lemma_first_armable_is_one(target: u32, now: u32, n: int, m: int)
    requires
        0 <= n,
        0 <= m,
        first_armable(target, now, n),
        first_armable(target, now, m),
    ensures
        n == m,
{
    if n < m {
        assert(!armable(slots_on(target, n), now));
    }
    if m < n {
        assert(!armable(slots_on(target, m), now));
    }
}

/// A slot is armed exactly once: a turn that finds the sender's slot still ahead gives nothing,
/// because the turn before has given that slot, and stays at it.
pub proof fn a_slot_is_armed_once(s: Slots, earlier: u32, n: int, later: u32, m: int)
    requires
        0 <= n,
        0 <= m,
        first_armable(s.target, earlier, n),
        first_armable(s.gone_on(n).target, later, m),
    ensures
        armable(s.gone_on(n).target, later) ==> s.gone_on(n).gone_on(m).target == s.gone_on(
            n,
        ).last_armed,
{
    let t = s.gone_on(n).target;
    assert(slots_on(t, 0) == t);
    if armable(t, later) {
        lemma_first_armable_is_one(t, later, 0, m);
    }
}

/// The number of a slot.
pub fn slot_of(target: u32) -> (slot: u32)
    ensures
        slot == target / 320_000,
{
    target / PERIOD_TICKS
}

/// How long to wait for a slot that has been armed, in milliseconds.
pub open spec fn waited_ms(target: u32, now: u32) -> int {
    3 + (if target.wrapping_sub(now) > 0x7FFF_FFFF {
        0
    } else {
        target.wrapping_sub(now) as int / 16_000
    })
}

/// How long to wait for a slot that has been armed, in milliseconds: until it, and three more; a
/// slot that has just passed needs only those.
pub fn slot_wait_ms(target: u32, now: u32) -> (ms: u64)
    ensures
        ms == waited_ms(target, now),
{
    let remaining: u32 = target.wrapping_sub(now);
    let ms: u32 = if remaining > 0x7FFF_FFFF {
        0
    } else {
        remaining / 16_000
    };
    ms as u64 + 3
}

/// The tally of slots.
#[derive(Clone, Copy, PartialEq, Eq, Structural)]
pub struct SlotTally {
    pub armed: u32,
    pub tx_done: u32,
    pub busy_err: u32,
    pub pll_err: u32,
    /// Slots that did not fire and named no reason.
    pub silent: u32,
}

impl SlotTally {
    /// The tally with one more slot.
    pub open spec fn counted(self, fired: bool, errors: Option<(bool, bool)>) -> SlotTally {
        SlotTally {
            armed: self.armed.wrapping_add(1),
            tx_done: if fired {
                self.tx_done.wrapping_add(1)
            } else {
                self.tx_done
            },
            busy_err: if errors matches Some((busy, _)) && busy {
                self.busy_err.wrapping_add(1)
            } else {
                self.busy_err
            },
            pll_err: if errors matches Some((_, pll)) && pll {
                self.pll_err.wrapping_add(1)
            } else {
                self.pll_err
            },
            silent: if errors matches Some((busy, _)) && !busy && !fired {
                self.silent.wrapping_add(1)
            } else {
                self.silent
            },
        }
    }

    /// No slots.
    pub fn new() -> (t: SlotTally)
        ensures
            t == (SlotTally { armed: 0, tx_done: 0, busy_err: 0, pll_err: 0, silent: 0 }),
    {
        SlotTally { armed: 0, tx_done: 0, busy_err: 0, pll_err: 0, silent: 0 }
    }

    /// Counts a slot: whether it fired, and the busy and lock errors where the chip answered.
    pub fn on_slot(&mut self, fired: bool, errors: Option<(bool, bool)>)
        ensures
            *final(self) == old(self).counted(fired, errors),
    {
        if fired {
            self.tx_done = self.tx_done.wrapping_add(1);
        }
        match errors {
            Some((busy, pll)) => {
                if busy {
                    self.busy_err = self.busy_err.wrapping_add(1);
                }
                if pll {
                    self.pll_err = self.pll_err.wrapping_add(1);
                }
                if !fired && !busy {
                    self.silent = self.silent.wrapping_add(1);
                }
            },
            None => {},
        }
        self.armed = self.armed.wrapping_add(1);
    }
}

/// `clear_errors_cmd`: the two bytes of the command that clears the error word.
#[verifier::external_body]
fn clear_errors_bytes() -> (b: [u8; 2])
    ensures
        b@ == seq![0x01u8, 0x11u8],
{
    clear_errors_cmd()
}

/// The command that clears the chip's errors, which it does not clear by itself.
pub fn clear_errors() -> (b: [u8; 2])
    ensures
        b@ == seq![0x01u8, 0x11u8],
{
    clear_errors_bytes()
}

/// The name of an error flag.
pub open spec fn flag_name(k: int) -> Seq<char> {
    if k == 0 {
        "HF_XOSC_START"@
    } else if k == 1 {
        "LF_XOSC_START"@
    } else if k == 2 {
        "PLL_LOCK"@
    } else if k == 3 {
        "LF_RC_CALIB"@
    } else if k == 4 {
        "HF_RC_CALIB"@
    } else if k == 5 {
        "PLL_CALIB"@
    } else if k == 6 {
        "AAF_CALIB"@
    } else if k == 7 {
        "IMG_CALIB"@
    } else if k == 8 {
        "CHIP_BUSY"@
    } else if k == 9 {
        "RXFREQ_NO_FE_CAL"@
    } else if k == 10 {
        "MEAS_UNIT_ADC_CALIB"@
    } else if k == 11 {
        "PA_OFFSET_CALIB"@
    } else if k == 12 {
        "PPF_CALIB"@
    } else {
        "SRC_CALIB"@
    }
}

fn name_of_flag(k: usize) -> (s: &'static str)
    ensures
        s@ == flag_name(k as int),
{
    match k {
        0 => "HF_XOSC_START",
        1 => "LF_XOSC_START",
        2 => "PLL_LOCK",
        3 => "LF_RC_CALIB",
        4 => "HF_RC_CALIB",
        5 => "PLL_CALIB",
        6 => "AAF_CALIB",
        7 => "IMG_CALIB",
        8 => "CHIP_BUSY",
        9 => "RXFREQ_NO_FE_CAL",
        10 => "MEAS_UNIT_ADC_CALIB",
        11 => "PA_OFFSET_CALIB",
        12 => "PPF_CALIB",
        _ => "SRC_CALIB",
    }
}

/// The names of the flags that are set among the first `n` of an error word.
pub open spec fn set_names(word: int, n: int) -> Seq<Seq<char>>
    decreases n,
{
    if n <= 0 {
        Seq::empty()
    } else if crate::lr_node::info::error_flag(word, n - 1) {
        set_names(word, n - 1).push(flag_name(n - 1))
    } else {
        set_names(word, n - 1)
    }
}

/// The names of the errors of a response; none at all where its word is zero.
pub fn report(rsp: &[u8; 4]) -> (r: Option<Vec<&'static str>>)
    ensures
        r is None <==> rsp@[2] == 0 && rsp@[3] == 0,
        r matches Some(v) ==> v@.map_values(|s: &'static str| s@) == set_names(
            rsp@[2] * 256 + rsp@[3],
            14,
        ),
{
    if rsp[2] == 0 && rsp[3] == 0 {
        return None;
    }
    let f: [bool; 14] = crate::lr_node::info::error_flags(rsp);
    let ghost word: int = rsp@[2] * 256 + rsp@[3];
    let mut v: Vec<&'static str> = Vec::new();
    let mut k: usize = 0;
    assert(v@.map_values(|s: &'static str| s@) =~= set_names(word, 0));
    while k < 14
        invariant
            k <= 14,
            forall|i: int|
                0 <= i < 14 ==> #[trigger] f@[i] == crate::lr_node::info::error_flag(word, i),
            v@.map_values(|s: &'static str| s@) == set_names(word, k as int),
        decreases 14 - k,
    {
        if f[k] {
            let ghost before = v@;
            v.push(name_of_flag(k));
            assert(v@.map_values(|s: &'static str| s@) =~= before.map_values(
                |s: &'static str| s@,
            ).push(flag_name(k as int)));
        }
        k += 1;
    }
    Some(v)
}

} // verus!
