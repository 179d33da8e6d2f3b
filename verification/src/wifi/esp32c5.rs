//! The ESP32-C5 node: capture with a name filter before the serial link, and its host commands.

use std::collections::VecDeque;

use vstd::prelude::*;

use crate::bytes::{as_signed, copy_range, get_le32, push_all, push_le32, push_le64};
use crate::tier0::PrefixFilter;
use crate::wifi::proto::{is_named_data, send_framed, txtime};

verus! {

/// Longest frame captured.
pub const MAXFRAME: usize = 512;
/// Most masks a filter holds.
pub const MAX_MASKS: usize = 8;
/// Most frames waiting for the serial link.
pub const RXQ_MAX: usize = 32;

/// The masks a host has loaded.
pub struct NameFilter {
    pub enabled: bool,
    pub masks: Vec<PrefixFilter>,
}

impl NameFilter {
    /// At most eight masks.
    pub open spec fn wf(self) -> bool {
        self.masks@.len() <= 8
    }

    /// Whether a frame that carries the filter `addr` in its address fields is wanted: a filter
    /// that is off, or empty, wants all.
    pub open spec fn wants(self, addr: Seq<u8>) -> bool {
        self.enabled && self.masks@.len() > 0 ==> exists|i: int|
            0 <= i < self.masks@.len() && #[trigger] crate::tier0::covers(
                addr,
                self.masks@[i].0@,
            )
    }

    /// What loading a command body makes of the filter.
    pub open spec fn loaded(self, pl: Seq<u8>, after: NameFilter) -> bool {
        let nm: int = if pl[1] <= 8 {
            pl[1] as int
        } else {
            8
        };
        if pl.len() >= 2 + 16 * nm {
            &&& after.enabled == (pl[0] != 0)
            &&& after.masks@.len() == nm
            &&& forall|m: int|
                0 <= m < nm ==> (#[trigger] after.masks@[m]).0@ == pl.subrange(
                    2 + 16 * m,
                    18 + 16 * m,
                )
        } else {
            after == self
        }
    }

    /// No filter.
    pub fn new() -> (f: NameFilter)
        ensures
            f.wf(),
            !f.enabled,
            f.masks@.len() == 0,
    {
        NameFilter { enabled: false, masks: Vec::new() }
    }

    /// Tests the filter of a frame against the masks.
    pub fn passes(&self, addr: &PrefixFilter) -> (b: bool)
        ensures
            b == self.wants(addr.0@),
    {
        if !self.enabled || self.masks.len() == 0 {
            return true;
        }
        let mut i: usize = 0;
        while i < self.masks.len()
            invariant
                i <= self.masks.len(),
                forall|k: int|
                    0 <= k < i ==> !(#[trigger] crate::tier0::covers(addr.0@, self.masks@[k].0@)),
            decreases self.masks.len() - i,
        {
            if addr.may_match(&self.masks[i]) {
                return true;
            }
            i += 1;
        }
        false
    }

    /// Loads masks from a command body `[enabled][count][mask]*`. A body that is too short for its
    /// count changes nothing; masks beyond the eighth are ignored.
    pub fn load(&mut self, pl: &[u8])
        requires
            old(self).wf(),
            pl.len() >= 2,
        ensures
            final(self).wf(),
            old(self).loaded(pl@, *final(self)),
    {
        let nm: usize = if pl[1] as usize <= MAX_MASKS {
            pl[1] as usize
        } else {
            MAX_MASKS
        };
        if pl.len() < 2 + nm * 16 {
            return;
        }
        let mut masks: Vec<PrefixFilter> = Vec::new();
        let mut m: usize = 0;
        while m < nm
            invariant
                m <= nm <= 8,
                pl.len() >= 2 + nm * 16,
                masks@.len() == m,
                forall|k: int|
                    0 <= k < m ==> (#[trigger] masks@[k]).0@ == pl@.subrange(
                        2 + 16 * k,
                        18 + 16 * k,
                    ),
            decreases nm - m,
        {
            let bits: [u8; 16] = sixteen(pl, 2 + 16 * m);
            masks.push(PrefixFilter(bits));
            m += 1;
        }
        self.masks = masks;
        self.enabled = pl[0] != 0;
    }
}

fn sixteen(s: &[u8], at: usize) -> (b: [u8; 16])
    requires
        at + 16 <= s.len(),
    ensures
        b@ == s@.subrange(at as int, at + 16),
{
    let mut b: [u8; 16] = [0u8; 16];
    let mut i: usize = 0;
    while i < 16
        invariant
            i <= 16,
            at + 16 <= s.len(),
            forall|k: int| 0 <= k < i ==> b@[k] == s@[at + k],
        decreases 16 - i,
    {
        b[i] = s[at + i];
        i += 1;
    }
    assert(b@ =~= s@.subrange(at as int, at + 16));
    b
}

/// A captured frame on its way to the host.
pub struct RxItem {
    pub rssi: i8,
    pub ts_us: u32,
    pub frame: Vec<u8>,
}

/// Whether a captured frame goes to the host: a data frame of a plausible length that carries named
/// data and whose address fields, from the receiver address on, pass the filter.
pub open spec fn captured(nf: NameFilter, is_data: bool, f: Seq<u8>) -> bool {
    &&& is_data
    &&& 32 <= f.len() <= 512
    &&& crate::wifi::proto::carries_named_data(f)
    &&& nf.wants(f.subrange(4, 20))
}

/// Decides about a captured frame.
pub fn accept(nf: &NameFilter, is_data: bool, f: &[u8]) -> (b: bool)
    ensures
        b == captured(*nf, is_data, f@),
{
    if !is_data || f.len() < 32 || f.len() > MAXFRAME {
        return false;
    }
    if !is_named_data(f) {
        return false;
    }
    let addr: PrefixFilter = PrefixFilter(sixteen(f, 4));
    nf.passes(&addr)
}

/// What a capture makes of the waiting frames: a wanted one comes last, unless 32 are waiting.
pub open spec fn queued(
    q: Seq<RxItem>,
    wanted: bool,
    f: Seq<u8>,
    rssi: i8,
    ts_us: u32,
    after: Seq<RxItem>,
) -> bool {
    if wanted && q.len() < 32 {
        &&& after.len() == q.len() + 1
        &&& after.drop_last() == q
        &&& after.last().rssi == rssi
        &&& after.last().ts_us == ts_us
        &&& after.last().frame@ == f
    } else {
        after == q
    }
}

/// What taking a frame makes of the waiting frames: the oldest leaves.
pub open spec fn popped(q: Seq<RxItem>, item: Option<RxItem>, after: Seq<RxItem>) -> bool {
    &&& item is None <==> q.len() == 0
    &&& item is None ==> after == q
    &&& item matches Some(x) ==> x == q[0] && after == q.skip(1)
}

/// Frames waiting for the serial link, oldest first.
pub struct RxQueue {
    q: VecDeque<RxItem>,
}

impl View for RxQueue {
    type V = Seq<RxItem>;

    closed spec fn view(&self) -> Seq<RxItem> {
        self.q@
    }
}

impl RxQueue {
    /// An empty queue.
    pub fn new() -> (r: RxQueue)
        ensures
            r@ == Seq::<RxItem>::empty(),
    {
        RxQueue { q: VecDeque::new() }
    }

    /// Takes what the capture callback saw: an accepted frame is queued with its signal strength and
    /// its stamp, unless 32 are waiting.
    pub fn rx_cb(&mut self, nf: &NameFilter, is_data: bool, f: &[u8], rssi: i8, ts_us: u32)
        ensures
            queued(old(self)@, captured(*nf, is_data, f@), f@, rssi, ts_us, final(self)@),
    {
        if !accept(nf, is_data, f) {
            return;
        }
        if self.q.len() < RXQ_MAX {
            let frame: Vec<u8> = copy_range(f, 0, f.len());
            assert(frame@ =~= f@);
            let ghost before = self@;
            self.q.push_back(RxItem { rssi, ts_us, frame });
            assert(self@.drop_last() =~= before);
        }
    }

    /// Takes the oldest frame.
    pub fn pop(&mut self) -> (item: Option<RxItem>)
        ensures
            popped(old(self)@, item, final(self)@),
    {
        let ghost before = self@;
        let item: Option<RxItem> = self.q.pop_front();
        proof {
            if item is Some {
                assert(self@ =~= before.skip(1));
            }
        }
        item
    }
}

/// The body that delivers a frame: signal strength, stamp, bytes.
pub open spec fn rx_body(rssi: i8, ts_us: u32, f: Seq<u8>) -> Seq<u8> {
    seq![crate::bytes::twos8(rssi)] + crate::bytes::le32(ts_us) + f
}

/// The message that delivers a frame.
pub fn rx_message(item: &RxItem) -> (bytes: Vec<u8>)
    ensures
        bytes@ == crate::wifi::proto::message_bytes(
            0x82,
            rx_body(item.rssi, item.ts_us, item.frame@),
        ),
{
    let mut out: Vec<u8> = Vec::new();
    out.push(crate::bytes::as_byte(item.rssi));
    push_le32(&mut out, item.ts_us);
    push_all(&mut out, item.frame.as_slice());
    assert(out@ =~= rx_body(item.rssi, item.ts_us, item.frame@));
    send_framed(crate::wifi::proto::T_RX_TS, out.as_slice())
}

/// What a host command asks of the radio.
pub enum C5Plan {
    /// Nothing: unknown, too short, or out of range.
    Ignore,
    /// Transmit this frame.
    Inject { frame: Vec<u8> },
    /// Tune.
    Channel { ch: u8 },
    /// Set the greatest transmit power.
    TxPower { power: i8 },
    /// Use 40 MHz, or 20.
    Bandwidth { ht40: bool },
    /// Set the rate.
    Rate { rate: u8 },
    /// Spin until `target`, transmit, report.
    InjectAt { target: u64, frame: Vec<u8> },
    /// Send this message.
    Reply { message: Vec<u8> },
    /// The filter has been loaded, or its body was refused.
    FilterSet,
}

/// What a command asks for, and what it does to the filter.
pub open spec fn c5_decided(
    nf: NameFilter,
    ty: u8,
    pl: Seq<u8>,
    now: u64,
    after: NameFilter,
    plan: C5Plan,
) -> bool {
    if ty == 0x07 && pl.len() >= 2 {
        plan == C5Plan::FilterSet && nf.loaded(pl, after)
    } else {
        &&& after == nf
        &&& if ty == 0x01 {
            plan matches C5Plan::Inject { frame } && frame@ == pl
        } else if ty == 0x02 && pl.len() >= 1 {
            plan == (C5Plan::Channel { ch: pl[0] })
        } else if ty == 0x03 && pl.len() >= 1 {
            plan == (C5Plan::TxPower { power: crate::bytes::from_twos8(pl[0]) })
        } else if ty == 0x05 && pl.len() >= 1 {
            plan == (C5Plan::Bandwidth { ht40: pl[0] != 0 })
        } else if ty == 0x04 && pl.len() >= 1 {
            plan == (C5Plan::Rate { rate: pl[0] })
        } else if ty == 0x06 && pl.len() >= 1 && pl.len() > 1 + 2 * pl[0] {
            plan matches C5Plan::Inject { frame } && frame@ == pl.skip(1 + 2 * pl[0])
        } else if ty == 0x09 && pl.len() >= 4 {
            let d = crate::bytes::le32_at(pl, 0);
            plan matches C5Plan::InjectAt { target, frame } && target == now + (if d <= 100_000 {
                d as int
            } else {
                100_000
            }) && frame@ == pl.skip(4)
        } else if ty == 0x0A && pl.len() >= 8 && now <= target_of(pl) <= now + 100_000
            && target_of(pl) <= i64::MAX {
            plan matches C5Plan::InjectAt { target, frame } && target == target_of(pl) && frame@
                == pl.skip(8)
        } else if ty == 0x0B {
            plan matches C5Plan::Reply { message } && message@
                == crate::wifi::proto::message_bytes(0x85, crate::bytes::le64(now))
        } else {
            plan == C5Plan::Ignore
        }
    }
}

/// The instant an absolute schedule names.
pub open spec fn target_of(pl: Seq<u8>) -> int {
    crate::bytes::le32_at(pl, 0) + crate::bytes::le32_at(pl, 4) * 4_294_967_296
}

/// Takes a host command; `now` is the schedule clock in microseconds.
pub fn dispatch(nf: &mut NameFilter, ty: u8, pl: &[u8], now: u64) -> (plan: C5Plan)
    requires
        old(nf).wf(),
        pl.len() <= 65_535,
        now <= i64::MAX - 100_000,
    ensures
        final(nf).wf(),
        c5_decided(*old(nf), ty, pl@, now, *final(nf), plan),
{
    if ty == crate::wifi::proto::T_NAMEFILTER && pl.len() >= 2 {
        nf.load(pl);
        C5Plan::FilterSet
    } else if ty == crate::wifi::proto::T_INJECT {
        let frame: Vec<u8> = copy_range(pl, 0, pl.len());
        assert(frame@ =~= pl@);
        C5Plan::Inject { frame }
    } else if ty == crate::wifi::proto::T_CHANNEL && pl.len() >= 1 {
        C5Plan::Channel { ch: pl[0] }
    } else if ty == crate::wifi::proto::T_TXPOWER && pl.len() >= 1 {
        C5Plan::TxPower { power: as_signed(pl[0]) }
    } else if ty == crate::wifi::proto::T_BW40 && pl.len() >= 1 {
        C5Plan::Bandwidth { ht40: pl[0] != 0 }
    } else if ty == crate::wifi::proto::T_RATE && pl.len() >= 1 {
        C5Plan::Rate { rate: pl[0] }
    } else if ty == crate::wifi::proto::T_INJECT_ATTR && pl.len() >= 1 {
        let off: usize = 1 + 2 * pl[0] as usize;
        if pl.len() > off {
            let frame: Vec<u8> = copy_range(pl, off, pl.len());
            assert(frame@ =~= pl@.skip(off as int));
            return C5Plan::Inject { frame };
        }
        C5Plan::Ignore
    } else if ty == crate::wifi::proto::T_INJECT_AT && pl.len() >= 4 {
        let d: u64 = get_le32(pl, 0) as u64;
        let delay: u64 = if d <= crate::wifi::proto::SCHED_MAX_DELAY_US {
            d
        } else {
            crate::wifi::proto::SCHED_MAX_DELAY_US
        };
        let frame: Vec<u8> = copy_range(pl, 4, pl.len());
        assert(frame@ =~= pl@.skip(4));
        C5Plan::InjectAt { target: now + delay, frame }
    } else if ty == crate::wifi::proto::T_INJECT_ABS && pl.len() >= 8 {
        let t: u64 = get_le32(pl, 0) as u64 + get_le32(pl, 4) as u64 * 4_294_967_296;
        if t <= i64::MAX as u64 && t >= now && t - now <= crate::wifi::proto::SCHED_MAX_DELAY_US {
            let frame: Vec<u8> = copy_range(pl, 8, pl.len());
            assert(frame@ =~= pl@.skip(8));
            return C5Plan::InjectAt { target: t, frame };
        }
        C5Plan::Ignore
    } else if ty == crate::wifi::proto::T_READCLOCK {
        let mut body: Vec<u8> = Vec::new();
        push_le64(&mut body, now);
        assert(body@ =~= crate::bytes::le64(now));
        C5Plan::Reply { message: send_framed(crate::wifi::proto::T_CLOCK, body.as_slice()) }
    } else {
        C5Plan::Ignore
    }
}

/// The report of a scheduled injection.
pub fn report(target: u64, actual: u64, tsf: u64) -> (message: Vec<u8>)
    ensures
        message@ == crate::wifi::proto::message_bytes(
            0x83,
            crate::wifi::proto::txtime_body(target, actual, tsf),
        ),
{
    let body: Vec<u8> = txtime(target, actual, tsf);
    send_framed(crate::wifi::proto::T_TXTIME, body.as_slice())
}

/// No scheduled injection keeps the loop spinning for longer than the cap.
pub proof fn spin_is_bounded(
    nf: NameFilter,
    ty: u8,
    pl: Seq<u8>,
    now: u64,
    after: NameFilter,
    plan: C5Plan,
)
    requires
        c5_decided(nf, ty, pl, now, after, plan),
    ensures
        plan matches C5Plan::InjectAt { target, frame } ==> now <= target <= now + 100_000,
{
}

/// An absolute schedule is honoured on the closed window from now to the cap, and on no other
/// instant.
pub proof fn absolute_window_is_closed(
    nf: NameFilter,
    pl: Seq<u8>,
    now: u64,
    after: NameFilter,
    plan: C5Plan,
)
    requires
        c5_decided(nf, 0x0A, pl, now, after, plan),
        pl.len() >= 8,
        now <= i64::MAX - 100_000,
    ensures
        plan is InjectAt <==> now <= target_of(pl) <= now + 100_000,
        plan !is InjectAt ==> plan == C5Plan::Ignore,
{
}

/// The filter never drops what its owner registered: a frame of a name passes whenever one of the
/// masks was made for an ancestor of that name.
pub proof fn registered_names_pass(
    nf: NameFilter,
    i: int,
    empty: Seq<u8>,
    f: Seq<u8>,
    key: Seq<u8>,
    name: Seq<u8>,
    p: Seq<u8>,
    k: u32,
)
    requires
        32 <= f.len() <= 512,
        crate::wifi::proto::carries_named_data(f),
        crate::tier0::is_name_filter(f.subrange(4, 20), key, name, k),
        crate::tier0::is_ancestor(name, p),
        0 <= i < nf.masks@.len(),
        forall|b: int| 0 <= b < 128 ==> !(#[trigger] crate::tier0::filter_bit(empty, b)),
        crate::tier0::marks(
            empty,
            nf.masks@[i].0@,
            key,
            p.take(crate::tier0::clamp_len(p)),
            k,
        ),
    ensures
        captured(nf, true, f),
{
    let q = p.take(crate::tier0::clamp_len(p));
    crate::tier0::name_filter_has_no_false_negatives(f.subrange(4, 20), key, name, p, k);
    crate::tier0::mask_asks_for_its_prefix(
        empty,
        nf.masks@[i].0@,
        f.subrange(4, 20),
        key,
        q,
        k,
    );
    assert(crate::tier0::covers(f.subrange(4, 20), nf.masks@[i].0@));
}

} // verus!
