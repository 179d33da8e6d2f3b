//! Intra-packet frequency hopping: the channel list, the service of a hop interrupt, and the trace
//! of the last hops.

use vstd::prelude::*;

use crate::bytes::push_be32;
use crate::regs::{frf_of_hz, RegOp, SharedSpi};

verus! {

/// Longest channel list.
pub const HOP_MAX: usize = 40;
/// Hopping off.
pub const HOP_OFF: u8 = 0;
/// Hopping on.
pub const HOP_ON: u8 = 1;
/// Longest hop period, in symbols.
pub const HOP_PERIOD_MAX: u16 = 255;
/// Hops a trace keeps.
pub const HOPTRACE_MAX: usize = 32;
/// Marks a hop during a transmission.
pub const HOPTRACE_TX_FLAG: u8 = 0x80;

/// One traced hop.
#[derive(Clone, Copy, PartialEq, Eq, Structural)]
pub struct HopEntry {
    /// Hop counter, with the transmit flag.
    pub idx: u8,
    /// Clock at the interrupt, low 32 bits.
    pub t: u32,
}

/// The last hops, in a ring.
#[derive(Clone, Copy)]
pub struct HopTrace {
    t: [u32; HOPTRACE_MAX],
    idx: [u8; HOPTRACE_MAX],
    head: usize,
    len: usize,
}

impl View for HopTrace {
    type V = Seq<HopEntry>;

    closed spec fn view(&self) -> Seq<HopEntry> {
        Seq::new(
            self.len as nat,
            |k: int|
                HopEntry {
                    idx: self.idx@[(self.head + 32 - self.len + k) % 32],
                    t: self.t@[(self.head + 32 - self.len + k) % 32],
                },
        )
    }
}

/// The entry of a hop: six bits of the counter, and the transmit flag.
pub open spec fn entry_of(now: u64, chan: u8, tx_active: bool) -> HopEntry {
    HopEntry {
        idx: if tx_active {
            (chan & 0x3F) | 0x80
        } else {
            chan & 0x3F
        },
        t: now as u32,
    }
}

/// A trace with one more hop: the oldest of 32 leaves.
pub open spec fn traced(old: Seq<HopEntry>, e: HopEntry) -> Seq<HopEntry> {
    if old.len() < 32 {
        old.push(e)
    } else {
        old.drop_first().push(e)
    }
}

/// The bytes of a list of hops.
pub open spec fn entry_bytes(s: Seq<HopEntry>) -> Seq<u8>
    decreases s.len(),
{
    if s.len() == 0 {
        Seq::empty()
    } else {
        entry_bytes(s.drop_last()) + seq![s.last().idx] + crate::bytes::be32(s.last().t)
    }
}

/// The body of the trace event: clock rate, count, hops from the oldest.
pub open spec fn trace_body(hz: u32, s: Seq<HopEntry>) -> Seq<u8> {
    crate::bytes::be32(hz) + seq![s.len() as u8] + entry_bytes(s)
}

/// Hops of a list that happened while transmitting.
pub open spec fn flagged(s: Seq<HopEntry>) -> nat
    decreases s.len(),
{
    if s.len() == 0 {
        0
    } else {
        flagged(s.drop_last()) + if s.last().idx & 0x80 != 0 {
            1nat
        } else {
            0nat
        }
    }
}

proof fn lemma_append(a: Seq<u8>, b: Seq<u8>, x: u8, c: Seq<u8>)
    ensures
        (a + b).push(x) + c == a + (b + seq![x] + c),
{
    assert((a + b).push(x) + c =~= a + (b + seq![x] + c));
}

impl HopTrace {
    /// Positions inside the ring.
    pub closed spec fn wf(self) -> bool {
        self.head < 32 && self.len <= 32
    }

    /// A trace of nothing.
    pub fn new() -> (h: HopTrace)
        ensures
            h.wf(),
            h@ == Seq::<HopEntry>::empty(),
    {
        let h = HopTrace { t: [0u32; HOPTRACE_MAX], idx: [0u8; HOPTRACE_MAX], head: 0, len: 0 };
        assert(h@ =~= Seq::<HopEntry>::empty());
        h
    }

    /// Records a hop.
    pub fn push(&mut self, now: u64, chan: u8, tx_active: bool)
        requires
            old(self).wf(),
        ensures
            final(self).wf(),
            final(self)@ == traced(old(self)@, entry_of(now, chan, tx_active)),
    {
        let ghost before = *self;
        let mut b: u8 = chan & 0x3F;
        if tx_active {
            b = b | HOPTRACE_TX_FLAG;
        }
        self.t[self.head] = now as u32;
        self.idx[self.head] = b;
        self.head = (self.head + 1) % HOPTRACE_MAX;
        if self.len < HOPTRACE_MAX {
            self.len += 1;
        }
        assert(self@ =~= traced(before@, entry_of(now, chan, tx_active)));
    }

    /// How many hops it holds.
    pub fn len(&self) -> (n: usize)
        requires
            self.wf(),
        ensures
            n == self@.len(),
            n <= 32,
    {
        self.len
    }

    /// The body of the trace event; `hz` is the rate of the clock that stamped the hops.
    #[verifier::spinoff_prover]
    #[verifier::rlimit(40)]
    pub fn encode(&self, hz: u32) -> (out: Vec<u8>)
        requires
            self.wf(),
        ensures
            out@ == trace_body(hz, self@),
    {
        let mut out: Vec<u8> = Vec::new();
        push_be32(&mut out, hz);
        out.push(self.len as u8);
        let start: usize = (self.head + HOPTRACE_MAX - self.len) % HOPTRACE_MAX;
        let mut k: usize = 0;
        let ghost head = out@;
        assert(head + entry_bytes(self@.take(0)) =~= head);
        while k < self.len
            invariant
                self.wf(),
                k <= self.len,
                start == (self.head + 32 - self.len) % 32,
                out@ == head + entry_bytes(self@.take(k as int)),
            decreases self.len - k,
        {
            let i: usize = (start + k) % HOPTRACE_MAX;
            proof {
                let next = self@.take(k as int + 1);
                assert(next.drop_last() =~= self@.take(k as int));
                assert(next.last() == self@[k as int]);
                assert(i == (self.head + 32 - self.len + k) % 32);
            }
            let ghost so_far = out@;
            out.push(self.idx[i]);
            push_be32(&mut out, self.t[i]);
            assert(out@ == so_far.push(self.idx@[i as int]) + crate::bytes::be32(
                self.t@[i as int],
            ));
            proof {
                lemma_append(
                    head,
                    entry_bytes(self@.take(k as int)),
                    self.idx@[i as int],
                    crate::bytes::be32(self.t@[i as int]),
                );
            }
            k += 1;
        }
        assert(self@.take(k as int) =~= self@);
        assert(out@ =~= trace_body(hz, self@));
        out
    }

    /// How many of the hops happened while transmitting.
    pub fn tx_flagged(&self) -> (c: usize)
        requires
            self.wf(),
        ensures
            c == flagged(self@),
    {
        let start: usize = (self.head + HOPTRACE_MAX - self.len) % HOPTRACE_MAX;
        let mut c: usize = 0;
        let mut k: usize = 0;
        while k < self.len
            invariant
                self.wf(),
                k <= self.len,
                c <= k,
                start == (self.head + 32 - self.len) % 32,
                c == flagged(self@.take(k as int)),
            decreases self.len - k,
        {
            proof {
                let next = self@.take(k as int + 1);
                assert(next.drop_last() =~= self@.take(k as int));
                assert(next.last() == self@[k as int]);
                assert((start + k) % 32 == (self.head + 32 - self.len + k) % 32);
            }
            if self.idx[(start + k) % HOPTRACE_MAX] & HOPTRACE_TX_FLAG != 0 {
                c += 1;
            }
            k += 1;
        }
        assert(self@.take(k as int) =~= self@);
        c
    }
}

/// The trace after a run of hops.
pub open spec fn traced_all(old: Seq<HopEntry>, es: Seq<HopEntry>) -> Seq<HopEntry>
    decreases es.len(),
{
    if es.len() == 0 {
        old
    } else {
        traced(traced_all(old, es.drop_last()), es.last())
    }
}

/// A trace holds the last 32 hops, oldest first, however many there were.
pub proof fn trace_keeps_the_last_hops(es: Seq<HopEntry>)
    ensures
        traced_all(Seq::empty(), es) == (if es.len() <= 32 {
            es
        } else {
            es.skip(es.len() - 32)
        }),
    decreases es.len(),
{
    if es.len() > 0 {
        trace_keeps_the_last_hops(es.drop_last());
        assert(traced_all(Seq::empty(), es) =~= (if es.len() <= 32 {
            es
        } else {
            es.skip(es.len() - 32)
        }));
    } else {
        assert(traced_all(Seq::empty(), es) =~= es);
    }
}

/// Hopping state.
#[derive(Clone, Copy)]
pub struct Hop {
    /// Carrier words of the list.
    pub frf: [u32; HOP_MAX],
    /// Carriers of the list, in Hz.
    pub hz: [u32; HOP_MAX],
    /// Length of the list.
    pub n: usize,
    /// Symbols between hops.
    pub period: u8,
    pub enabled: bool,
    /// Hops served.
    pub hops: u32,
    /// Hops whose carrier did not lock in time.
    pub pll_timeouts: u32,
    /// List position of the last hop.
    pub last_idx: u8,
    pub trace: HopTrace,
    /// Carrier from before hopping was switched on, to go back to; 0 where there is none.
    pub base_hz: u32,
}

/// The carrier word of a frequency.
pub open spec fn carrier_word(hz: u32) -> u32 {
    (hz as int * 524_288 / 32_000_000) as u32
}

/// Where a hop goes.
#[derive(Clone, Copy, PartialEq, Eq, Structural)]
pub struct HopTarget {
    pub idx: u8,
    pub frf: u32,
}

impl Hop {
    /// The list fits, its words are those of its carriers, and hopping is on only with a list.
    pub open spec fn wf(self) -> bool {
        &&& self.n <= 40
        &&& self.trace.wf()
        &&& self.enabled ==> self.n > 0
        &&& forall|i: int| 0 <= i < self.n ==> self.frf@[i] == carrier_word(#[trigger] self.hz@[i])
    }

    /// Hopping off, nothing traced.
    pub fn new() -> (h: Hop)
        ensures
            h.wf(),
            !h.enabled,
            h.n == 0,
            h.period == 0,
            h.hops == 0,
            h.pll_timeouts == 0,
            h.last_idx == 0,
            h.base_hz == 0,
            h.trace@ == Seq::<HopEntry>::empty(),
            forall|i: int| 0 <= i < 40 ==> h.hz@[i] == 0 && h.frf@[i] == 0,
    {
        Hop {
            frf: [0u32; HOP_MAX],
            hz: [0u32; HOP_MAX],
            n: 0,
            period: 0,
            enabled: false,
            hops: 0,
            pll_timeouts: 0,
            last_idx: 0,
            trace: HopTrace::new(),
            base_hz: 0,
        }
    }

    /// Where a hop goes, given the hop status register.
    pub open spec fn target(self, hc: u8) -> Option<HopTarget> {
        if self.n == 0 {
            None
        } else {
            let i = (hc & 0x3F) as int % self.n as int;
            Some(HopTarget { idx: i as u8, frf: self.frf@[i] })
        }
    }

    /// A hop interrupt leaves a trace and counts a missed lock, and nothing else changes.
    pub open spec fn hop_noted(self, hc: u8, now: u64, tx_active: bool, after: Hop) -> bool {
        &&& after.trace@ == traced(self.trace@, entry_of(now, hc & 0x3F, tx_active))
        &&& after.pll_timeouts == (if hc & 0x80 != 0 {
            self.pll_timeouts.wrapping_add(1)
        } else {
            self.pll_timeouts
        })
        &&& after == (Hop { trace: after.trace, pll_timeouts: after.pll_timeouts, ..self })
    }

    /// The hop whose carrier has been written.
    pub open spec fn hop_done(self, to: HopTarget) -> Hop {
        Hop { hops: self.hops.wrapping_add(1), last_idx: to.idx, ..self }
    }

    /// Takes a hop interrupt whose status register has been read: traces it, counts a missed lock,
    /// and returns the carrier to write. With no list there is none.
    pub fn begin_hop(&mut self, hc: u8, now: u64, tx_active: bool) -> (to: Option<HopTarget>)
        requires
            old(self).wf(),
        ensures
            final(self).wf(),
            to == old(self).target(hc),
            old(self).hop_noted(hc, now, tx_active, *final(self)),
    {
        self.trace.push(now, hc & crate::regs::HOP_CHANNEL_MASK, tx_active);
        if hc & crate::regs::HOP_CHANNEL_PLL_TIMEOUT != 0 {
            self.pll_timeouts = self.pll_timeouts.wrapping_add(1);
        }
        if self.n == 0 {
            return None;
        }
        let idx: usize = (hc & crate::regs::HOP_CHANNEL_MASK) as usize % self.n;
        Some(HopTarget { idx: idx as u8, frf: self.frf[idx] })
    }

    /// Counts a hop whose carrier has been written.
    pub fn finish_hop(&mut self, to: HopTarget)
        requires
            old(self).wf(),
        ensures
            final(self).wf(),
            *final(self) == old(self).hop_done(to),
    {
        self.hops = self.hops.wrapping_add(1);
        self.last_idx = to.idx;
    }

    /// Switches hopping off after a failed service; the access returned must reach the chip.
    pub fn abandon(&mut self) -> (op: RegOp)
        requires
            old(self).wf(),
        ensures
            final(self).wf(),
            *final(self) == (Hop { enabled: false, ..*old(self) }),
            op == (RegOp::Write { addr: 0x24, val: 0 }),
    {
        self.enabled = false;
        RegOp::Write { addr: crate::regs::REG_HOP_PERIOD, val: 0 }
    }

    /// The list with the carrier in use as its first, while hopping.
    pub open spec fn base_pinned(self, freq_hz: u32, after: Hop) -> bool {
        &&& self.enabled ==> after.hz@ == self.hz@.update(0, freq_hz) && after.frf@
            == self.frf@.update(0, carrier_word(freq_hz))
        &&& !self.enabled ==> after.hz == self.hz && after.frf == self.frf
        &&& after == (Hop { hz: after.hz, frf: after.frf, ..self })
    }

    /// Makes the carrier in use the first of the list, while hopping: the radio enters every packet
    /// on it.
    pub fn pin_base(&mut self, freq_hz: u32)
        requires
            old(self).wf(),
        ensures
            final(self).wf(),
            old(self).base_pinned(freq_hz, *final(self)),
    {
        if self.enabled && self.n > 0 {
            self.hz[0] = freq_hz;
            self.frf[0] = frf_of_hz(freq_hz);
        }
    }
}

/// The register accesses that switch hopping on or off.
pub open spec fn hop_ops(enable: bool, period: u8) -> Seq<RegOp> {
    if enable {
        seq![
            RegOp::Update { addr: 0x40, keep: 0xCF, set: 0x10u8 & 0x30 },
            RegOp::Write { addr: 0x24, val: period },
            RegOp::Write { addr: 0x12, val: 0x02 },
            RegOp::Update { addr: 0x11, keep: 0xFD, set: 0 },
        ]
    } else {
        seq![
            RegOp::Write { addr: 0x24, val: 0 },
            RegOp::Update { addr: 0x11, keep: 0xFF, set: 0x02 },
            RegOp::Write { addr: 0x12, val: 0x02 },
            RegOp::Update { addr: 0x40, keep: 0xCF, set: 0x00u8 & 0x30 },
        ]
    }
}

/// The register accesses that switch hopping on or off. On, the pin is mapped before the period
/// starts the hops; off, the period stops them before the pin goes back.
pub fn set_hop_regs(enable: bool, period: u8) -> (ops: Vec<RegOp>)
    ensures
        ops@ == hop_ops(enable, period),
{
    proof {
        assert(1u8 << 4u8 == 0x10u8 && 0u8 << 4u8 == 0u8) by (bit_vector);
    }
    let mut ops: Vec<RegOp>;
    if enable {
        ops = SharedSpi::map_dio1(crate::regs::DIO1_FHSS_CHANGE_CHANNEL);
        ops.push(RegOp::Write { addr: crate::regs::REG_HOP_PERIOD, val: period });
        let mut unmask: Vec<RegOp> = SharedSpi::unmask_hop_irq();
        ops.append(&mut unmask);
    } else {
        ops = Vec::new();
        ops.push(RegOp::Write { addr: crate::regs::REG_HOP_PERIOD, val: 0 });
        let mut mask: Vec<RegOp> = SharedSpi::mask_hop_irq();
        ops.append(&mut mask);
        let mut map: Vec<RegOp> = SharedSpi::map_dio1(crate::regs::DIO1_RX_TIMEOUT);
        ops.append(&mut map);
    }
    ops
}

} // verus!
