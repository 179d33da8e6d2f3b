//! The bodies of the events a node sends.

use vstd::prelude::*;

use crate::bytes::{as_byte, push_be16, push_be32};
use crate::lora_node::node::{event, event2, Node};
use crate::lora_node::opcode::{EVT_CAP, EVT_HOPTRACE, EVT_INFO, EVT_LOG, EVT_PHY_ERR, EVT_STATS,
    EVT_UNSUPPORTED};
use crate::lora_node::params::bw_code_of_hz;
use crate::serial::Frame;
use crate::text::BufWriter;

verus! {

/// Counters of the name plane.
#[derive(Clone, Copy, PartialEq, Eq, Structural)]
pub struct PlaneStats {
    pub rx: u32,
    pub filtered: u32,
    pub deduped: u32,
    pub served: u32,
    pub relayed: u32,
}

/// A refusal: the command and the reason.
pub open spec fn unsupported_view(cmd: u8, reason: u8) -> crate::serial::FrameView {
    crate::serial::FrameView { typ: 0x8F, payload: seq![cmd, reason] }
}

/// A refusal.
pub fn unsupported(cmd: u8, reason: u8) -> (f: Frame)
    ensures
        f@ == unsupported_view(cmd, reason),
{
    event2(EVT_UNSUPPORTED, cmd, reason)
}

/// A modem that is advertised but does not answer as such.
pub fn phy_err(phy: u8, chip_status: u8) -> (f: Frame)
    ensures
        f@ == (crate::serial::FrameView { typ: 0x8D, payload: seq![phy, chip_status] }),
{
    event2(EVT_PHY_ERR, phy, chip_status)
}

/// The capability body: protocol 3, part, band, power, clock, payload, opcodes, spreading factors,
/// placement granularity, modems.
pub open spec fn cap_body() -> Seq<u8> {
    seq![3u8, 1u8] + crate::bytes::be32(902_000_000) + crate::bytes::be32(928_000_000) + seq![
        2u8,
        20u8,
    ] + crate::bytes::be32(1_000_000) + seq![2u8] + crate::bytes::be16(247)
        + crate::bytes::be32(0xFDBF_FFFE) + seq![7u8, 12u8] + crate::bytes::be32(99_000)
        + crate::bytes::be32(1) + seq![0u8]
}

/// The capability event.
pub fn cap() -> (f: Frame)
    ensures
        f@ == (crate::serial::FrameView { typ: 0x8B, payload: cap_body() }),
{
    let mut c: Vec<u8> = Vec::new();
    c.push(3);
    c.push(1);
    push_be32(&mut c, crate::lora_node::params::FREQ_MIN_HZ);
    push_be32(&mut c, crate::lora_node::params::FREQ_MAX_HZ);
    c.push(2);
    c.push(20);
    push_be32(&mut c, crate::lora_node::params::STAMP_HZ);
    c.push(2);
    push_be16(&mut c, crate::lora_node::params::RX_MAX as u16);
    push_be32(&mut c, crate::lora_node::opcode::CMD_BITMAP);
    c.push(crate::lora_node::params::SF_MIN);
    c.push(crate::lora_node::params::SF_MAX);
    push_be32(&mut c, crate::lora_node::params::SCHED_GRAN_NS);
    push_be32(&mut c, crate::lora_node::params::PHY_BITMAP);
    c.push(crate::lora_node::params::PHY_CURRENT);
    assert(c@ =~= cap_body());
    event(EVT_CAP, c)
}

/// The capability body has 34 bytes.
pub proof fn cap_body_len()
    ensures
        cap_body().len() == 34,
{
}

/// A lost-byte count cut to sixteen bits.
pub open spec fn lost16(lost: u32) -> u16 {
    if lost <= 65_535 {
        lost as u16
    } else {
        65_535
    }
}

/// The line that names the build.
pub open spec fn build_line(build: Seq<u8>) -> Seq<u8> {
    let a = crate::text::cut(
        Seq::<u8>::empty() + crate::text::text("heltec-lora-rs build="),
        96,
    );
    let b = crate::text::cut(a + build, 96);
    crate::text::cut(b + crate::text::text(" proto=3 stamp_hz=1000000"), 96)
}

/// The log event that names the build.
pub fn build_id(build: &[u8]) -> (f: Frame)
    ensures
        f@ == (crate::serial::FrameView { typ: 0x84, payload: build_line(build@) }),
{
    let mut w = BufWriter::new();
    w.write_str("heltec-lora-rs build=");
    w.write_bytes(build);
    w.write_str(" proto=3 stamp_hz=1000000");
    event(EVT_LOG, w.into_vec())
}

impl Node {
    /// The information body: two chip registers, errors, the parameters in use, lost bytes, busy
    /// channels since the last reset, deferrals.
    pub open spec fn info_body(self, status: u8, sync: u8, lost: u32) -> Seq<u8> {
        seq![status, 0u8, sync] + crate::bytes::be16(self.radio_errors) + crate::bytes::be32(
            self.p.freq_hz,
        ) + seq![
            self.p.sf,
            crate::lora_node::params::bandwidth_code(self.p.bw_hz),
            self.p.cr,
            crate::bytes::twos8(self.p.pwr),
        ] + crate::bytes::be16(lost16(lost)) + crate::bytes::be16(self.csma.busy_since_reset())
            + crate::bytes::be16(self.csma.defer)
    }

    /// The information event.
    pub open spec fn info_event(self, status: u8, sync: u8, lost: u32) -> crate::serial::FrameView {
        crate::serial::FrameView { typ: 0x83, payload: self.info_body(status, sync, lost) }
    }

    /// The information event.
    pub fn send_info(&self, status: u8, sync: u8, lost: u32) -> (f: Frame)
        ensures
            f@ == self.info_event(status, sync, lost),
            f@.payload.len() == 19,
            forall|plan: crate::lora_node::command::Plan|
                plan.ends_in_info() ==> #[trigger] plan.answered_by(f@.typ),
    {
        let mut b: Vec<u8> = Vec::new();
        b.push(status);
        b.push(0);
        b.push(sync);
        push_be16(&mut b, self.radio_errors);
        push_be32(&mut b, self.p.freq_hz);
        b.push(self.p.sf);
        b.push(bw_code_of_hz(self.p.bw_hz));
        b.push(self.p.cr);
        b.push(as_byte(self.p.pwr));
        let lost: u16 = if lost <= u16::MAX as u32 {
            lost as u16
        } else {
            u16::MAX
        };
        push_be16(&mut b, lost);
        push_be16(&mut b, self.csma.cad_busy_view());
        push_be16(&mut b, self.csma.defer);
        assert(b@ =~= self.info_body(status, sync, lost as u32));
        event(EVT_INFO, b)
    }

    /// The statistics body.
    pub open spec fn stats_body(self, s: PlaneStats) -> Seq<u8> {
        crate::bytes::be32(s.rx) + crate::bytes::be32(s.filtered) + crate::bytes::be32(s.deduped)
            + crate::bytes::be32(s.served) + crate::bytes::be32(s.relayed) + crate::bytes::be16(
            self.csma.busy_since_reset(),
        ) + crate::bytes::be16(self.csma.defer)
    }

    /// The statistics event.
    pub fn send_stats(&self, s: PlaneStats) -> (f: Frame)
        ensures
            f@ == (crate::serial::FrameView { typ: 0x89, payload: self.stats_body(s) }),
            f@.payload.len() == 24,
            crate::lora_node::command::Plan::Stats.answered_by(f@.typ),
    {
        let mut b: Vec<u8> = Vec::new();
        push_be32(&mut b, s.rx);
        push_be32(&mut b, s.filtered);
        push_be32(&mut b, s.deduped);
        push_be32(&mut b, s.served);
        push_be32(&mut b, s.relayed);
        push_be16(&mut b, self.csma.cad_busy_view());
        push_be16(&mut b, self.csma.defer);
        assert(b@ =~= self.stats_body(s));
        event(EVT_STATS, b)
    }

    /// The trace event. Reading the trace does not change it.
    pub fn send_hoptrace(&self) -> (f: Frame)
        requires
            self.wf(),
        ensures
            f@ == (crate::serial::FrameView {
                typ: 0x8E,
                payload: crate::lora_node::hop::trace_body(1_000_000, self.hop.trace@),
            }),
    {
        event(EVT_HOPTRACE, self.hop.trace.encode(crate::lora_node::params::STAMP_HZ))
    }
}

} // verus!
