//! The radio's interrupt word, and the hop timeline it feeds.

use lr2021::status::Intr;
use vstd::prelude::*;

use crate::lora_node::hop::HopTrace;

verus! {

/// A packet was received.
pub const IRQ_RX_DONE: u32 = 0x0004_0000;
/// A packet was sent.
pub const IRQ_TX_DONE: u32 = 0x0008_0000;
/// A reception or transmission timed out.
pub const IRQ_TIMEOUT: u32 = 0x0020_0000;
/// A packet was received with a wrong checksum.
pub const IRQ_CRC_ERROR: u32 = 0x0040_0000;
/// The carrier hopped inside a LoRa packet.
pub const IRQ_LORA_HOP: u32 = 0x0000_1000;
/// The carrier ramped up after a hop inside a packet.
pub const IRQ_FHSS: u32 = 0x0200_0000;
/// Clock rate of the hardware stamps.
pub const STAMP_HZ: u32 = 16_000_000;

/// `Intr::new_txrx`, read back with `Intr::value`: the mask of received, sent and timed out.
#[verifier::external_body]
fn txrx_mask() -> (mask: u32)
    ensures
        mask == 0x002C_0000,
{
    Intr::new_txrx().value()
}

/// `Intr::rx_done` on an interrupt word: whether its received bit is set.
#[verifier::external_body]
fn intr_rx_done(word: u32) -> (b: bool)
    ensures
        b == (word & 0x0004_0000 != 0),
{
    Intr::new(word).rx_done()
}

/// `Intr::tx_done` on an interrupt word: whether its sent bit is set.
#[verifier::external_body]
fn intr_tx_done(word: u32) -> (b: bool)
    ensures
        b == (word & 0x0008_0000 != 0),
{
    Intr::new(word).tx_done()
}

/// `Intr::crc_error` on an interrupt word: whether its checksum bit is set.
#[verifier::external_body]
fn intr_crc_error(word: u32) -> (b: bool)
    ensures
        b == (word & 0x0040_0000 != 0),
{
    Intr::new(word).crc_error()
}

/// `Intr::lora_tx_rx_hop` on an interrupt word: whether its LoRa hop bit is set.
#[verifier::external_body]
fn intr_lora_hop(word: u32) -> (b: bool)
    ensures
        b == (word & 0x0000_1000 != 0),
{
    Intr::new(word).lora_tx_rx_hop()
}

/// `Intr::fhss` on an interrupt word: whether its ramp-up bit is set.
#[verifier::external_body]
fn intr_fhss(word: u32) -> (b: bool)
    ensures
        b == (word & 0x0200_0000 != 0),
{
    Intr::new(word).fhss()
}

/// The interrupts that reach the pin: received, sent, timed out, and both hop events while a hop
/// timeline is taken.
pub open spec fn pin_mask(tracing: bool) -> u32 {
    if tracing {
        0x022C_1000
    } else {
        0x002C_0000
    }
}

/// The interrupts that reach the pin.
pub fn dio_irq_mask(hop_trace_armed: bool) -> (mask: u32)
    ensures
        mask == pin_mask(hop_trace_armed),
{
    let base: u32 = txrx_mask();
    if hop_trace_armed {
        assert((0x002C_0000u32 | 0x0000_1000u32) | 0x0200_0000u32 == 0x022C_1000u32)
            by (bit_vector);
        base | IRQ_LORA_HOP | IRQ_FHSS
    } else {
        base
    }
}

/// A word that carries a hop: either hop event, as one.
pub open spec fn hops(word: u32) -> bool {
    word & 0x0000_1000 != 0 || word & 0x0200_0000 != 0
}

/// Whether a word carries a hop.
pub fn hop_irq(word: u32) -> (b: bool)
    ensures
        b == hops(word),
{
    intr_lora_hop(word) || intr_fhss(word)
}

/// Whether a packet was received.
pub fn rx_done(word: u32) -> (b: bool)
    ensures
        b == (word & IRQ_RX_DONE != 0),
{
    intr_rx_done(word)
}

/// Whether a packet was sent.
pub fn tx_done(word: u32) -> (b: bool)
    ensures
        b == (word & IRQ_TX_DONE != 0),
{
    intr_tx_done(word)
}

/// Whether the received packet failed its checksum.
pub fn crc_error(word: u32) -> (b: bool)
    ensures
        b == (word & IRQ_CRC_ERROR != 0),
{
    intr_crc_error(word)
}

/// The hops a node has seen of itself, on its own clock.
pub struct Timeline {
    pub trace: HopTrace,
    /// Hops in the plan; 0 while nothing is recorded.
    pub depth: u8,
    /// Index of the next hop.
    pub next: u8,
    /// Hops that shared their stamp with a received packet.
    pub coalesced: u32,
}

/// What a timeline holds.
#[verifier::ext_equal]
pub struct TimelineView {
    pub trace: Seq<crate::lora_node::hop::HopEntry>,
    pub depth: u8,
    pub next: u8,
    pub coalesced: u32,
}

impl View for Timeline {
    type V = TimelineView;

    open spec fn view(&self) -> TimelineView {
        TimelineView {
            trace: self.trace@,
            depth: self.depth,
            next: self.next,
            coalesced: self.coalesced,
        }
    }
}

impl TimelineView {
    /// Something is recorded.
    pub open spec fn tracing(self) -> bool {
        self.depth > 0
    }

    /// The timeline under a plan of `n` hops: a plan starts it afresh, no plan stops it and keeps
    /// what it holds.
    pub open spec fn armed_with(self, n: u8) -> TimelineView {
        if n > 0 {
            TimelineView { trace: Seq::empty(), depth: n, next: 0, coalesced: 0 }
        } else {
            TimelineView { depth: 0, ..self }
        }
    }

    /// The timeline after an interrupt word that was stamped once.
    pub open spec fn noted(self, hop: bool, rx: bool, stamp: u32) -> TimelineView {
        if self.tracing() && hop {
            TimelineView {
                trace: crate::lora_node::hop::traced(
                    self.trace,
                    crate::lora_node::hop::entry_of(stamp as u64, self.next, false),
                ),
                next: if self.next + 1 >= self.depth {
                    0
                } else {
                    (self.next + 1) as u8
                },
                coalesced: if rx {
                    self.coalesced.wrapping_add(1)
                } else {
                    self.coalesced
                },
                ..self
            }
        } else {
            self
        }
    }

    /// The timeline after a key-up.
    pub open spec fn keyed(self, ticks: u32) -> TimelineView {
        if self.tracing() {
            TimelineView {
                trace: crate::lora_node::hop::traced(
                    self.trace,
                    crate::lora_node::hop::entry_of(ticks as u64, self.next, true),
                ),
                ..self
            }
        } else {
            self
        }
    }
}

impl Timeline {
    /// The index is one of the plan.
    pub open spec fn wf(self) -> bool {
        &&& self.trace.wf()
        &&& self.depth > 0 ==> self.next < self.depth
    }

    /// Nothing recorded, nothing to record.
    pub fn new() -> (t: Timeline)
        ensures
            t.wf(),
            t@ == (TimelineView { trace: Seq::empty(), depth: 0, next: 0, coalesced: 0 }),
    {
        Timeline { trace: HopTrace::new(), depth: 0, next: 0, coalesced: 0 }
    }

    /// Whether something is recorded.
    pub fn armed(&self) -> (b: bool)
        ensures
            b == self@.tracing(),
    {
        self.depth > 0
    }

    /// Starts afresh with a plan of `n` hops, or stops.
    pub fn arm(&mut self, n: u8)
        requires
            old(self).wf(),
        ensures
            final(self).wf(),
            final(self)@ == old(self)@.armed_with(n),
    {
        if n > 0 {
            self.trace = HopTrace::new();
            self.depth = n;
            self.next = 0;
            self.coalesced = 0;
        } else {
            self.depth = 0;
        }
    }

    /// Records a hop with the stamp of its interrupt word.
    pub fn note(&mut self, hop: bool, rx: bool, stamp: u32)
        requires
            old(self).wf(),
        ensures
            final(self).wf(),
            final(self)@ == old(self)@.noted(hop, rx, stamp),
    {
        if self.depth == 0 || !hop {
            return;
        }
        self.trace.push(stamp as u64, self.next, false);
        self.next = if self.next as u16 + 1 >= self.depth as u16 {
            0
        } else {
            self.next + 1
        };
        if rx {
            self.coalesced = self.coalesced.wrapping_add(1);
        }
    }

    /// Records a key-up.
    pub fn push_tx_keyed(&mut self, ticks: u32)
        requires
            old(self).wf(),
        ensures
            final(self).wf(),
            final(self)@ == old(self)@.keyed(ticks),
    {
        if self.depth > 0 {
            self.trace.push(ticks as u64, self.next, true);
        }
    }

    /// Takes an interrupt word and the one stamp that goes with it.
    pub fn note_irq(&mut self, word: u32, stamp: u32)
        requires
            old(self).wf(),
        ensures
            final(self).wf(),
            final(self)@ == old(self)@.noted(hops(word), word & 0x0004_0000 != 0, stamp),
    {
        self.note(hop_irq(word), rx_done(word), stamp);
    }
}

/// With hopping off the pin carries what it always has, and a hop that shares its word with the
/// other hop event is still one hop.
pub proof fn one_hop_per_word(t: TimelineView, word: u32, stamp: u32)
    ensures
        pin_mask(false) == 0x002C_0000,
        t.noted(hops(word), word & 0x0004_0000 != 0, stamp).trace.len() <= t.trace.len() + 1,
{
}

/// Stopping a plan keeps what was recorded under it.
pub proof fn stopping_keeps_the_timeline(t: TimelineView)
    ensures
        t.armed_with(0).trace == t.trace,
        !t.armed_with(0).tracing(),
{
}

} // verus!
