//! The RTL8720 node: Wi-Fi capture and injection, the paced Bluetooth advertiser, and its host
//! commands.

use vstd::prelude::*;

use crate::bytes::{as_byte, copy_range, get_le16, get_le32, push_all, push_le32, push_le64};
use crate::wifi::advq::{AdvAction, AdvQueue};
use crate::wifi::clock::Clock;
use crate::wifi::proto::{is_named_data, txtime};
use crate::wifi::ring::Ring;

verus! {

/// How often the activity counters are reported, in microseconds.
pub const OCC_PERIOD_US: u64 = 200_000;
/// How often the scanner is looked after, in microseconds.
pub const SCAN_CHECK_US: u64 = 1_000_000;
/// Longest captured frame.
pub const MAX_FRAME: usize = 1600;
/// Serial speed.
pub const BAUD: u32 = 115_200;
/// The channel after a start.
pub const START_CHANNEL: u8 = 6;

/// The line `boot-rs`.
pub const LOG_BOOT: [u8; 7] = [98, 111, 111, 116, 45, 114, 115];
/// The line `wifi_on`.
pub const LOG_WIFI_ON: [u8; 7] = [119, 105, 102, 105, 95, 111, 110];
/// The line `ch6`.
pub const LOG_CH6: [u8; 3] = [99, 104, 54];
/// The line `wifi-ready`.
pub const LOG_WIFI_READY: [u8; 10] = [119, 105, 102, 105, 45, 114, 101, 97, 100, 121];
/// The line `ble-ready`.
pub const LOG_BLE_READY: [u8; 9] = [98, 108, 101, 45, 114, 101, 97, 100, 121];
/// The line `ready-rs`.
pub const LOG_READY: [u8; 8] = [114, 101, 97, 100, 121, 45, 114, 115];
/// The line `ble scan restarted`.
pub const LOG_SCAN: [u8; 18] = [
    98, 108, 101, 32, 115, 99, 97, 110, 32, 114, 101, 115, 116, 97, 114, 116, 101, 100,
];
/// The line `short cmd`.
pub const LOG_SHORT: [u8; 9] = [115, 104, 111, 114, 116, 32, 99, 109, 100];
/// The line `hci ok`.
pub const LOG_HCI_OK: [u8; 6] = [104, 99, 105, 32, 111, 107];
/// The line `hci err`.
pub const LOG_HCI_ERR: [u8; 7] = [104, 99, 105, 32, 101, 114, 114];

/// The state of the node.
pub struct Bridge {
    pub ring: Ring,
    pub clock: Clock,
    pub activity: u32,
    pub ble_seen: u32,
    pub advq: AdvQueue,
    pub burst_ms: u32,
    pub ble_up: bool,
    pub rxinfo_arm: u32,
    pub last_occ: u64,
    pub last_scan: u64,
}

/// What the node holds.
#[verifier::ext_equal]
pub struct BridgeView {
    pub ring: crate::wifi::ring::RingView,
    pub clock: Clock,
    pub activity: u32,
    pub ble_seen: u32,
    pub adv: crate::wifi::advq::AdvView,
    pub burst_ms: u32,
    pub ble_up: bool,
    pub rxinfo_arm: u32,
    pub last_occ: u64,
    pub last_scan: u64,
}

impl View for Bridge {
    type V = BridgeView;

    open spec fn view(&self) -> BridgeView {
        BridgeView {
            ring: self.ring@,
            clock: self.clock,
            activity: self.activity,
            ble_seen: self.ble_seen,
            adv: self.advq@,
            burst_ms: self.burst_ms,
            ble_up: self.ble_up,
            rxinfo_arm: self.rxinfo_arm,
            last_occ: self.last_occ,
            last_scan: self.last_scan,
        }
    }
}

impl BridgeView {
    /// The node after queueing a message for the host.
    pub open spec fn told(self, ty: u8, body: Seq<u8>) -> BridgeView {
        BridgeView { ring: self.ring.pushed(ty, body), ..self }
    }

    /// The node after queueing a log line.
    pub open spec fn logged(self, line: Seq<u8>) -> BridgeView {
        self.told(0x84, line)
    }

    /// The node after reading the counter.
    pub open spec fn read(self, raw: u32) -> BridgeView {
        BridgeView { clock: self.clock.after(raw), ..self }
    }

    /// The node after an advertisement for the host.
    pub open spec fn ble_heard(self, rssi: i8, addr: Seq<u8>, payload: Seq<u8>) -> BridgeView {
        if 1 <= payload.len() <= 27 {
            self.told(0x88, seq![crate::bytes::twos8(rssi)] + addr + payload)
        } else {
            self
        }
    }

    /// The node after a raw receive descriptor.
    pub open spec fn dumped(self, ud: Seq<u8>) -> BridgeView {
        if self.rxinfo_arm == 0 {
            self
        } else {
            BridgeView { rxinfo_arm: (self.rxinfo_arm - 1) as u32, ..self }.told(0x87, ud)
        }
    }

    /// The node after a frame off the air.
    pub open spec fn heard(self, raw: u32, f: Seq<u8>, rssi: i8, mrate: u8) -> BridgeView {
        let b = BridgeView { activity: self.activity.wrapping_add(1), ..self.read(raw) };
        if captured(f) {
            b.told(0x82, rx_body(rssi, mrate, b.clock.last, f))
        } else {
            b
        }
    }

    /// The node after a scheduled injection.
    pub open spec fn injection_told(self, target: u64, actual: u64) -> BridgeView {
        self.told(0x83, crate::wifi::proto::txtime_body(target, actual, 0))
    }

    /// The node after the controller's answer whether it scans, and whether it must be restarted.
    pub open spec fn scan_answered(self, scanning: bool) -> (BridgeView, bool) {
        if scanning {
            (self, false)
        } else {
            (self.logged(LOG_SCAN@), true)
        }
    }

    /// The node after the Bluetooth features were read.
    pub open spec fn features_told(self, f: Seq<u8>) -> BridgeView {
        self.told(0x8A, f)
    }

    /// The node after a raw controller command.
    pub open spec fn hci_told(self, ok: bool) -> BridgeView {
        self.logged(
            if ok {
                LOG_HCI_OK@
            } else {
                LOG_HCI_ERR@
            },
        )
    }

    /// The node after the transmit power indices were read.
    pub open spec fn power_told(self, status: u8, idx: Seq<u8>) -> BridgeView {
        self.told(0x89, seq![status] + idx)
    }

    /// What the next drain hands to the serial link.
    pub open spec fn outgoing(self, budget: nat) -> Seq<u8> {
        self.ring.bytes.take(self.ring.drained(budget))
    }

    /// The node after a drain.
    pub open spec fn flushed(self, budget: nat) -> BridgeView {
        BridgeView {
            ring: crate::wifi::ring::RingView {
                bytes: self.ring.bytes.skip(self.ring.drained(budget)),
                ..self.ring
            },
            ..self
        }
    }
}

/// The rate index and the baseband format of a captured frame's rate: HT from 0x80, then the four
/// 11b rates, else OFDM.
pub open spec fn rate_of(mrate: u8) -> (u8, u8) {
    if mrate >= 0x80 {
        ((mrate - 0x80) as u8, 2)
    } else if mrate == 0x02 || mrate == 0x04 || mrate == 0x0B || mrate == 0x16 {
        (mrate, 0)
    } else {
        (mrate, 1)
    }
}

/// Splits a captured frame's rate.
pub fn rate_code(mrate: u8) -> (r: (u8, u8))
    ensures
        r == rate_of(mrate),
{
    if mrate >= 0x80 {
        (mrate - 0x80, 2)
    } else if mrate == 0x02 || mrate == 0x04 || mrate == 0x0B || mrate == 0x16 {
        (mrate, 0)
    } else {
        (mrate, 1)
    }
}

/// A captured frame that goes to the host: a data frame of a plausible length with named data.
pub open spec fn captured(f: Seq<u8>) -> bool {
    &&& 32 <= f.len() <= 1600
    &&& f[0] & 0x0C == 0x08
    &&& crate::wifi::proto::carries_named_data(f)
}

/// The body that delivers a frame: signal strength, an absent noise figure, rate, format, stamp,
/// bytes.
pub open spec fn rx_body(rssi: i8, mrate: u8, ts: u32, f: Seq<u8>) -> Seq<u8> {
    seq![crate::bytes::twos8(rssi), 0u8, rate_of(mrate).0, rate_of(mrate).1]
        + crate::bytes::le32(ts) + f
}

/// Where the start-up is.
#[derive(Clone, Copy, PartialEq, Eq, Structural)]
pub enum SetupStage {
    Serial,
    Settle,
    Boot,
    Wifi,
    Channel,
    Capture,
    WifiReady,
    Ble,
    BleReady,
    Done,
}

/// What the start-up does next.
pub enum SetupStep {
    SerialBegin { baud: u32 },
    Delay { ms: u32 },
    Write { bytes: Vec<u8> },
    WifiOn,
    SetChannel { ch: u8 },
    CaptureOn,
    BleInit,
    Finished,
}

/// One step of the start-up, with the node before and after it. `ble_ready` is read once the
/// Bluetooth stack has been started.
pub open spec fn setup_step(
    b: BridgeView,
    stage: SetupStage,
    ble_ready: bool,
    after: BridgeView,
    next: SetupStage,
    step: SetupStep,
) -> bool {
    match stage {
        SetupStage::Serial => after == b && next == SetupStage::Settle && step
            == (SetupStep::SerialBegin { baud: 115_200 }),
        SetupStage::Settle => after == b && next == SetupStage::Boot && step
            == (SetupStep::Delay { ms: 200 }),
        SetupStage::Boot => {
            let l = b.logged(LOG_BOOT@);
            after == l.flushed(256) && next == SetupStage::Wifi && (step matches SetupStep::Write {
                bytes,
            } && bytes@ == l.outgoing(256))
        },
        SetupStage::Wifi => after == b && next == SetupStage::Channel && step
            == SetupStep::WifiOn,
        SetupStage::Channel => after == b.logged(LOG_WIFI_ON@) && next == SetupStage::Capture
            && step == (SetupStep::SetChannel { ch: 6 }),
        SetupStage::Capture => after == b.logged(LOG_CH6@) && next == SetupStage::WifiReady && step
            == SetupStep::CaptureOn,
        SetupStage::WifiReady => {
            let l = b.logged(LOG_WIFI_READY@);
            after == l.flushed(1024) && next == SetupStage::Ble && (step matches SetupStep::Write {
                bytes,
            } && bytes@ == l.outgoing(1024))
        },
        SetupStage::Ble => after == b && next == SetupStage::BleReady && step
            == SetupStep::BleInit,
        SetupStage::BleReady => {
            let up = if ble_ready {
                BridgeView { ble_up: true, ..b }.logged(LOG_BLE_READY@)
            } else {
                b
            };
            let l = up.logged(LOG_READY@);
            after == l.flushed(1024) && next == SetupStage::Done && (step matches SetupStep::Write {
                bytes,
            } && bytes@ == l.outgoing(1024))
        },
        SetupStage::Done => after == b && next == SetupStage::Done && step == SetupStep::Finished,
    }
}

/// What a turn of the loop asks for.
pub struct Turn {
    /// What the advertiser must do.
    pub adv: AdvAction,
    /// Ask the controller whether it still scans.
    pub check_scan: bool,
}

/// What a host command asks of the radios.
pub enum RtlPlan {
    /// Nothing: unknown, too short, refused, or done within the node.
    Nothing,
    /// Transmit.
    Inject { frame: Vec<u8> },
    /// Transmit with `pairs` of attributes.
    InjectAttr { frame: Vec<u8>, pairs: Vec<u8> },
    /// Transmit at an instant.
    InjectAt { target: u64, frame: Vec<u8> },
    PowerPct { idx: u8 },
    AdvInterval { lo: u16, hi: u16 },
    BleTxPower { gain: u8 },
    ScanFilter { on: bool },
    ReadFeatures,
    Hci { opcode: u16, params: Vec<u8> },
    Coex { window: u16, interval: u16 },
    ReadPower,
    Channel { ch: u8 },
    ResetPower { ch: u8 },
    SetPower { idx: u8 },
    MgntRate { rate: u8 },
    Bw40 { on: bool },
}

/// One turn of the main loop, with the node before and after it.
pub open spec fn turned(before: BridgeView, raw: u32, after: BridgeView, turn: Turn) -> bool {
    let b = before.read(raw);
    let now = b.clock.reached() as u64;
    let r = if now.wrapping_sub(b.last_occ) >= 200_000 {
        BridgeView { last_occ: now, ..b }.told(
            0x86,
            crate::bytes::le32(b.activity) + crate::bytes::le32(b.ble_seen),
        )
    } else {
        b
    };
    let due = b.ble_up && now.wrapping_sub(b.last_scan) >= 1_000_000;
    &&& after == (BridgeView {
        adv: b.adv.served(now, b.burst_ms),
        last_scan: if due {
            now
        } else {
            b.last_scan
        },
        ..r
    })
    &&& turn.check_scan == due
    &&& b.adv.acted(now, turn.adv)
}

/// A scheduled injection that is not refused: its instant is not too far ahead.
pub open spec fn waited_for(target: u64, now: int) -> bool {
    target <= now + 100_000
}

/// The instant an absolute schedule names.
pub open spec fn target_of(cmd: Seq<u8>) -> int {
    crate::bytes::le32_at(cmd, 0) + crate::bytes::le32_at(cmd, 4) * 4_294_967_296
}

/// What a command asks for, and what it does to the node.
pub open spec fn rtl_decided(
    b: BridgeView,
    ty: u8,
    cmd: Seq<u8>,
    raw: u32,
    after: BridgeView,
    plan: RtlPlan,
) -> bool {
    let now = b.read(raw).clock.reached();
    let n = cmd.len();
    if ty == 0x01 {
        after == b && (plan matches RtlPlan::Inject { frame } && frame@ == cmd)
    } else if ty == 0x06 && n >= 1 && 1 + 2 * cmd[0] <= n {
        after == b && (plan matches RtlPlan::InjectAttr { frame, pairs } && pairs@ == cmd.subrange(
            1,
            1 + 2 * cmd[0],
        ) && frame@ == cmd.skip(1 + 2 * cmd[0]))
    } else if ty == 0x09 && n >= 4 {
        after == b.read(raw) && (plan matches RtlPlan::InjectAt { target, frame } && target == now
            + crate::bytes::le32_at(cmd, 0) && frame@ == cmd.skip(4))
    } else if ty == 0x0A && n >= 8 {
        after == b.read(raw) && if now <= target_of(cmd) <= now + 100_000 {
            plan matches RtlPlan::InjectAt { target, frame } && target == target_of(cmd) && frame@
                == cmd.skip(8)
        } else {
            plan == RtlPlan::Nothing
        }
    } else if ty == 0x0D && n >= 1 {
        after == b && plan == (RtlPlan::PowerPct { idx: cmd[0] })
    } else if ty == 0x30 && n >= 1 {
        after == (BridgeView { adv: b.adv.offered(cmd), ..b }) && plan == RtlPlan::Nothing
    } else if ty == 0x32 && n >= 2 {
        let ms = crate::bytes::le16_at(cmd, 0);
        after == (BridgeView {
            burst_ms: if ms > 0 {
                ms as u32
            } else {
                b.burst_ms
            },
            ..b
        }) && plan == (if n >= 6 {
            RtlPlan::AdvInterval {
                lo: crate::bytes::le16_at(cmd, 2),
                hi: crate::bytes::le16_at(cmd, 4),
            }
        } else {
            RtlPlan::Nothing
        })
    } else if ty == 0x35 && n >= 1 {
        after == b && plan == (RtlPlan::BleTxPower { gain: cmd[0] })
    } else if ty == 0x36 && n >= 1 {
        after == b && plan == (RtlPlan::ScanFilter { on: cmd[0] != 0 })
    } else if ty == 0x33 {
        after == b && plan == RtlPlan::ReadFeatures
    } else if ty == 0x34 && n >= 2 {
        after == b && (plan matches RtlPlan::Hci { opcode, params } && opcode
            == crate::bytes::le16_at(cmd, 0) && params@ == cmd.skip(2))
    } else if ty == 0x31 && n >= 4 {
        after == b && plan == (RtlPlan::Coex {
            window: crate::bytes::le16_at(cmd, 0),
            interval: crate::bytes::le16_at(cmd, 2),
        })
    } else if ty == 0x0E {
        after == b && plan == RtlPlan::ReadPower
    } else if ty == 0x0C && n >= 1 {
        after == (BridgeView { rxinfo_arm: cmd[0] as u32, ..b }) && plan == RtlPlan::Nothing
    } else if ty == 0x0B {
        after == b.read(raw).told(0x85, crate::bytes::le64(now as u64)) && plan == RtlPlan::Nothing
    } else if ty == 0x02 && n >= 1 {
        after == b && plan == (RtlPlan::Channel { ch: cmd[0] })
    } else if ty == 0x03 && n >= 1 {
        after == b && plan == (if cmd[0] == 0xFF {
            RtlPlan::ResetPower {
                ch: if n >= 2 {
                    cmd[1]
                } else {
                    6
                },
            }
        } else {
            RtlPlan::SetPower { idx: cmd[0] }
        })
    } else if ty == 0x04 && n >= 1 {
        after == b && plan == (RtlPlan::MgntRate { rate: cmd[0] })
    } else if ty == 0x05 && n >= 1 {
        after == b && plan == (RtlPlan::Bw40 { on: cmd[0] != 0 })
    } else {
        after == b && plan == RtlPlan::Nothing
    }
}

impl Bridge {
    /// The parts are sound, and the burst is one that a command can set.
    pub open spec fn wf(self) -> bool {
        &&& self.ring.wf()
        &&& self.advq.wf()
        &&& self.burst_ms <= 65_535
    }

    /// A node before its start-up.
    pub fn new() -> (b: Bridge)
        ensures
            b.wf(),
            b@ == (BridgeView {
                ring: crate::wifi::ring::RingView { bytes: Seq::empty(), dropped: 0 },
                clock: Clock { last: 0, epoch: 0 },
                activity: 0,
                ble_seen: 0,
                adv: crate::wifi::advq::AdvView { waiting: Seq::empty(), burst: None },
                burst_ms: 60,
                ble_up: false,
                rxinfo_arm: 0,
                last_occ: 0,
                last_scan: 0,
            }),
    {
        Bridge {
            ring: Ring::new(),
            clock: Clock::new(),
            activity: 0,
            ble_seen: 0,
            advq: AdvQueue::new(),
            burst_ms: crate::wifi::advq::BLE_BURST_MS_DEFAULT,
            ble_up: false,
            rxinfo_arm: 0,
            last_occ: 0,
            last_scan: 0,
        }
    }

    /// Queues a log line.
    pub fn logmsg(&mut self, line: &[u8])
        requires
            old(self).wf(),
        ensures
            final(self).wf(),
            final(self)@ == old(self)@.logged(line@),
    {
        self.ring.push(crate::wifi::proto::T_LOG, line);
    }

    /// Takes bytes for the serial link.
    pub fn drain(&mut self, budget: usize) -> (bytes: Vec<u8>)
        requires
            old(self).wf(),
        ensures
            final(self).wf(),
            final(self)@ == old(self)@.flushed(budget as nat),
            bytes@ == old(self)@.outgoing(budget as nat),
    {
        self.ring.drain(budget)
    }

    /// The controller has seen an advertisement.
    pub fn rust_ble_seen(&mut self)
        requires
            old(self).wf(),
        ensures
            final(self).wf(),
            final(self)@ == (BridgeView {
                ble_seen: old(self).ble_seen.wrapping_add(1),
                ..old(self)@
            }),
    {
        self.ble_seen = self.ble_seen.wrapping_add(1);
    }

    /// An advertisement for the host: signal strength, sender, payload. An empty payload, and one
    /// longer than an advertisement of this protocol, is dropped.
    pub fn rust_ble_rx(&mut self, rssi: i8, addr: &[u8; 6], payload: &[u8])
        requires
            old(self).wf(),
        ensures
            final(self).wf(),
            final(self)@ == old(self)@.ble_heard(rssi, addr@, payload@),
    {
        if payload.len() == 0 || payload.len() > crate::wifi::advq::BLE_MAXPAY {
            return;
        }
        let mut body: Vec<u8> = Vec::new();
        body.push(as_byte(rssi));
        push_all(&mut body, addr.as_slice());
        push_all(&mut body, payload);
        assert(body@ =~= seq![crate::bytes::twos8(rssi)] + addr@ + payload@);
        self.ring.push(crate::wifi::proto::T_BLE_RX, body.as_slice());
    }

    /// A raw receive descriptor for the host, while some are asked for.
    pub fn rust_rxinfo_dump(&mut self, ud: &[u8])
        requires
            old(self).wf(),
        ensures
            final(self).wf(),
            final(self)@ == old(self)@.dumped(ud@),
    {
        if self.rxinfo_arm == 0 {
            return;
        }
        self.rxinfo_arm = self.rxinfo_arm - 1;
        self.ring.push(crate::wifi::proto::T_RXINFO, ud);
    }

    /// One step of the start-up: what to do next, and the stage after it.
    pub fn rust_setup(&mut self, stage: SetupStage, ble_ready: bool) -> (r: (SetupStage, SetupStep))
        requires
            old(self).wf(),
        ensures
            final(self).wf(),
            setup_step(old(self)@, stage, ble_ready, final(self)@, r.0, r.1),
    {
        match stage {
            SetupStage::Serial => (SetupStage::Settle, SetupStep::SerialBegin { baud: BAUD }),
            SetupStage::Settle => (SetupStage::Boot, SetupStep::Delay { ms: 200 }),
            SetupStage::Boot => {
                self.logmsg(LOG_BOOT.as_slice());
                (SetupStage::Wifi, SetupStep::Write { bytes: self.drain(256) })
            },
            SetupStage::Wifi => (SetupStage::Channel, SetupStep::WifiOn),
            SetupStage::Channel => {
                self.logmsg(LOG_WIFI_ON.as_slice());
                (SetupStage::Capture, SetupStep::SetChannel { ch: START_CHANNEL })
            },
            SetupStage::Capture => {
                self.logmsg(LOG_CH6.as_slice());
                (SetupStage::WifiReady, SetupStep::CaptureOn)
            },
            SetupStage::WifiReady => {
                self.logmsg(LOG_WIFI_READY.as_slice());
                (SetupStage::Ble, SetupStep::Write { bytes: self.drain(1024) })
            },
            SetupStage::Ble => (SetupStage::BleReady, SetupStep::BleInit),
            SetupStage::BleReady => {
                if ble_ready {
                    self.ble_up = true;
                    self.logmsg(LOG_BLE_READY.as_slice());
                }
                self.logmsg(LOG_READY.as_slice());
                (SetupStage::Done, SetupStep::Write { bytes: self.drain(1024) })
            },
            SetupStage::Done => (SetupStage::Done, SetupStep::Finished),
        }
    }

    /// A frame off the air: it is stamped first and always counts as activity; it goes to the host
    /// where it carries named data.
    pub fn rust_promisc_cb(&mut self, raw: u32, frame: &[u8], rssi: i8, mrate: u8)
        requires
            old(self).wf(),
        ensures
            final(self).wf(),
            final(self)@ == old(self)@.heard(raw, frame@, rssi, mrate),
    {
        let _now: u64 = self.clock.now_us(raw);
        let ts: u32 = self.clock.last;
        self.activity = self.activity.wrapping_add(1);
        if frame.len() < 32 || frame.len() > MAX_FRAME {
            return;
        }
        if frame[0] & 0x0C != 0x08 {
            return;
        }
        if !is_named_data(frame) {
            return;
        }
        let (rate, format): (u8, u8) = rate_code(mrate);
        let mut body: Vec<u8> = Vec::new();
        body.push(as_byte(rssi));
        body.push(0);
        body.push(rate);
        body.push(format);
        push_le32(&mut body, ts);
        push_all(&mut body, frame);
        assert(body@ =~= rx_body(rssi, mrate, ts, frame@));
        self.ring.push(crate::wifi::proto::T_RX_TS, body.as_slice());
    }

    /// The start of a scheduled injection: whether it is waited for. One that lies too far ahead is
    /// refused; one whose instant has passed goes out at once.
    pub fn begin_inject(&mut self, raw: u32, target: u64) -> (go: bool)
        requires
            old(self).wf(),
        ensures
            final(self).wf(),
            final(self)@ == old(self)@.read(raw),
            go == waited_for(target, final(self)@.clock.reached()),
    {
        let now: u64 = self.clock.now_us(raw);
        if target > now {
            target - now <= crate::wifi::proto::SCHED_MAX_DELAY_US
        } else {
            true
        }
    }

    /// Reports a scheduled injection that went out at `actual`.
    pub fn injected(&mut self, target: u64, actual: u64)
        requires
            old(self).wf(),
        ensures
            final(self).wf(),
            final(self)@ == old(self)@.injection_told(target, actual),
    {
        let body: Vec<u8> = txtime(target, actual, 0);
        self.ring.push(crate::wifi::proto::T_TXTIME, body.as_slice());
    }

    /// One turn of the main loop, up to its drain of the ring: the activity report when it is due,
    /// the advertiser, the scanner when it is due.
    pub fn rust_loop(&mut self, raw: u32) -> (turn: Turn)
        requires
            old(self).wf(),
            old(self).clock.epoch < u32::MAX - 1,
        ensures
            final(self).wf(),
            turned(old(self)@, raw, final(self)@, turn),
    {
        let now: u64 = self.clock.now_us(raw);
        if now.wrapping_sub(self.last_occ) >= OCC_PERIOD_US {
            self.last_occ = now;
            let mut body: Vec<u8> = Vec::new();
            push_le32(&mut body, self.activity);
            push_le32(&mut body, self.ble_seen);
            assert(body@ =~= crate::bytes::le32(self.activity) + crate::bytes::le32(self.ble_seen));
            self.ring.push(crate::wifi::proto::T_OCC, body.as_slice());
        }
        let adv: AdvAction = self.advq.service(now, self.burst_ms);
        let mut check_scan: bool = false;
        if self.ble_up && now.wrapping_sub(self.last_scan) >= SCAN_CHECK_US {
            self.last_scan = now;
            check_scan = true;
        }
        Turn { adv, check_scan }
    }

    /// The controller's answer whether it scans: whether it must be restarted.
    pub fn scan_checked(&mut self, scanning: bool) -> (restart: bool)
        requires
            old(self).wf(),
        ensures
            final(self).wf(),
            (final(self)@, restart) == old(self)@.scan_answered(scanning),
    {
        if !scanning {
            self.logmsg(LOG_SCAN.as_slice());
        }
        !scanning
    }

    /// A command's body did not come in time.
    pub fn short_command(&mut self)
        requires
            old(self).wf(),
        ensures
            final(self).wf(),
            final(self)@ == old(self)@.logged(LOG_SHORT@),
    {
        self.logmsg(LOG_SHORT.as_slice());
    }

    /// The Bluetooth features, for the host.
    pub fn features_read(&mut self, f: &[u8; 8])
        requires
            old(self).wf(),
        ensures
            final(self).wf(),
            final(self)@ == old(self)@.features_told(f@),
    {
        self.ring.push(crate::wifi::proto::T_BLE_CAPS, f.as_slice());
    }

    /// The outcome of a raw controller command, for the host.
    pub fn hci_done(&mut self, ok: bool)
        requires
            old(self).wf(),
        ensures
            final(self).wf(),
            final(self)@ == old(self)@.hci_told(ok),
    {
        if ok {
            self.logmsg(LOG_HCI_OK.as_slice());
        } else {
            self.logmsg(LOG_HCI_ERR.as_slice());
        }
    }

    /// The transmit power indices, for the host.
    pub fn power_read(&mut self, status: u8, idx: &[u8; 20])
        requires
            old(self).wf(),
        ensures
            final(self).wf(),
            final(self)@ == old(self)@.power_told(status, idx@),
    {
        let mut body: Vec<u8> = Vec::new();
        body.push(status);
        push_all(&mut body, idx.as_slice());
        assert(body@ =~= seq![status] + idx@);
        self.ring.push(crate::wifi::proto::T_POWERIDX, body.as_slice());
    }

    /// Takes a host command. `raw` is the counter, read where the command needs the time.
    pub fn dispatch(&mut self, ty: u8, cmd: &[u8], raw: u32) -> (plan: RtlPlan)
        requires
            old(self).wf(),
            cmd.len() <= 1600,
            old(self).clock.epoch < u32::MAX - 1,
        ensures
            final(self).wf(),
            rtl_decided(old(self)@, ty, cmd@, raw, final(self)@, plan),
    {
        let len: usize = cmd.len();
        if ty == crate::wifi::proto::T_INJECT {
            let frame: Vec<u8> = copy_range(cmd, 0, len);
            assert(frame@ =~= cmd@);
            RtlPlan::Inject { frame }
        } else if ty == crate::wifi::proto::T_INJECT_ATTR && len >= 1 {
            let off: usize = 1 + 2 * cmd[0] as usize;
            if off <= len {
                let pairs: Vec<u8> = copy_range(cmd, 1, off);
                let frame: Vec<u8> = copy_range(cmd, off, len);
                assert(frame@ =~= cmd@.skip(off as int));
                return RtlPlan::InjectAttr { frame, pairs };
            }
            RtlPlan::Nothing
        } else if ty == crate::wifi::proto::T_INJECT_AT && len >= 4 {
            let now: u64 = self.clock.now_us(raw);
            let frame: Vec<u8> = copy_range(cmd, 4, len);
            assert(frame@ =~= cmd@.skip(4));
            RtlPlan::InjectAt { target: now + get_le32(cmd, 0) as u64, frame }
        } else if ty == crate::wifi::proto::T_INJECT_ABS && len >= 8 {
            let t: u64 = get_le32(cmd, 0) as u64 + get_le32(cmd, 4) as u64 * 4_294_967_296;
            let now: u64 = self.clock.now_us(raw);
            if t >= now && t - now <= crate::wifi::proto::SCHED_MAX_DELAY_US {
                let frame: Vec<u8> = copy_range(cmd, 8, len);
                assert(frame@ =~= cmd@.skip(8));
                return RtlPlan::InjectAt { target: t, frame };
            }
            RtlPlan::Nothing
        } else if ty == crate::wifi::proto::T_POWER_PCT && len >= 1 {
            RtlPlan::PowerPct { idx: cmd[0] }
        } else if ty == crate::wifi::proto::T_BLE_ADV && len >= 1 {
            self.advq.push(cmd);
            RtlPlan::Nothing
        } else if ty == crate::wifi::proto::T_BLE_PACE && len >= 2 {
            let ms: u16 = get_le16(cmd, 0);
            if ms > 0 {
                self.burst_ms = ms as u32;
            }
            if len >= 6 {
                return RtlPlan::AdvInterval { lo: get_le16(cmd, 2), hi: get_le16(cmd, 4) };
            }
            RtlPlan::Nothing
        } else if ty == crate::wifi::proto::T_BLE_TXPOWER && len >= 1 {
            RtlPlan::BleTxPower { gain: cmd[0] }
        } else if ty == crate::wifi::proto::T_BLE_FILTER && len >= 1 {
            RtlPlan::ScanFilter { on: cmd[0] != 0 }
        } else if ty == crate::wifi::proto::T_BLE_READCAPS {
            RtlPlan::ReadFeatures
        } else if ty == crate::wifi::proto::T_BLE_HCI && len >= 2 {
            let params: Vec<u8> = copy_range(cmd, 2, len);
            assert(params@ =~= cmd@.skip(2));
            RtlPlan::Hci { opcode: get_le16(cmd, 0), params }
        } else if ty == crate::wifi::proto::T_COEX && len >= 4 {
            RtlPlan::Coex { window: get_le16(cmd, 0), interval: get_le16(cmd, 2) }
        } else if ty == crate::wifi::proto::T_READPOWER {
            RtlPlan::ReadPower
        } else if ty == crate::wifi::proto::T_RXINFO_ARM && len >= 1 {
            self.rxinfo_arm = cmd[0] as u32;
            RtlPlan::Nothing
        } else if ty == crate::wifi::proto::T_READCLOCK {
            let now: u64 = self.clock.now_us(raw);
            let mut body: Vec<u8> = Vec::new();
            push_le64(&mut body, now);
            assert(body@ =~= crate::bytes::le64(now));
            self.ring.push(crate::wifi::proto::T_CLOCK, body.as_slice());
            RtlPlan::Nothing
        } else if ty == crate::wifi::proto::T_CHANNEL && len >= 1 {
            RtlPlan::Channel { ch: cmd[0] }
        } else if ty == crate::wifi::proto::T_TXPOWER && len >= 1 {
            if cmd[0] == 0xFF {
                RtlPlan::ResetPower {
                    ch: if len >= 2 {
                        cmd[1]
                    } else {
                        START_CHANNEL
                    },
                }
            } else {
                RtlPlan::SetPower { idx: cmd[0] }
            }
        } else if ty == crate::wifi::proto::T_RATE && len >= 1 {
            RtlPlan::MgntRate { rate: cmd[0] }
        } else if ty == crate::wifi::proto::T_BW40 && len >= 1 {
            RtlPlan::Bw40 { on: cmd[0] != 0 }
        } else {
            RtlPlan::Nothing
        }
    }
}

/// No host command disturbs what the node counts and when it reports it.
pub proof fn commands_keep_the_counters(
    b: BridgeView,
    ty: u8,
    cmd: Seq<u8>,
    raw: u32,
    after: BridgeView,
    plan: RtlPlan,
)
    requires
        rtl_decided(b, ty, cmd, raw, after, plan),
    ensures
        after.activity == b.activity,
        after.ble_seen == b.ble_seen,
        after.last_occ == b.last_occ,
        after.last_scan == b.last_scan,
        after.ble_up == b.ble_up,
{
}

} // verus!
