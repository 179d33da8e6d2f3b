//! Shadow filters: the filter of a frame is judged but not obeyed, and its verdict is held against
//! the name that travels with it.

use vstd::prelude::*;

use crate::bytes::copy_range;
use crate::flrc_link::{whiten, FRAME_BYTES};
use crate::gcs::GcsFilter;
use crate::tier0::name_filter;

verus! {

/// The key that senders and receivers of the experiment share: `ndn/tier0-group!`.
pub const KEY: [u8; 16] = [
    110, 100, 110, 47, 116, 105, 101, 114, 48, 45, 103, 114, 111, 117, 112, 33,
];
/// Namespaces in the traffic.
pub const NAMESPACES: u32 = 16;
/// Longest frame of the experiment.
pub const MAX_FRAME: usize = 48;
/// Bytes of the fixed filter at the receiver.
pub const SHADOW_FILTER_LEN: usize = 12;

/// A frame with a body filter, before whitening: the filter's length, the filter, the name's
/// length, the name, zeros.
pub open spec fn body_frame(wire: Seq<u8>, name: Seq<u8>) -> Seq<u8> {
    let used = seq![wire.len() as u8] + wire + seq![name.len() as u8] + name;
    used + Seq::new((48 - used.len()) as nat, |i: int| 0u8)
}

fn place(frame: &mut [u8; FRAME_BYTES], at: usize, s: &[u8])
    requires
        at + s.len() <= 48,
    ensures
        final(frame)@ == old(frame)@.take(at as int) + s@ + old(frame)@.skip(at + s.len()),
{
    let mut i: usize = 0;
    let ghost before = frame@;
    while i < s.len()
        invariant
            i <= s.len(),
            at + s.len() <= 48,
            frame@.len() == 48,
            before.len() == 48,
            forall|k: int| 0 <= k < i ==> frame@[at + k] == s@[k],
            forall|k: int| 0 <= k < at ==> frame@[k] == before[k],
            forall|k: int| at + i <= k < 48 ==> frame@[k] == before[k],
        decreases s.len() - i,
    {
        frame[at + i] = s[i];
        i += 1;
    }
    assert(frame@ =~= before.take(at as int) + s@ + before.skip(at + s.len()));
}

/// The frame of a name with its body filter, whitened; none where it does not fit.
pub fn gcs_frame(key: &[u8; 16], name: &[u8]) -> (r: Option<[u8; FRAME_BYTES]>)
    ensures
        exists|f: crate::gcs::GcsView|
            {
                &&& #[trigger] crate::gcs::is_filter_of(f, key@, name@)
                &&& f.bit_len <= 192
                &&& r is Some <==> 2 + f.wire().len() + name@.len() <= 48
                &&& r matches Some(a) ==> a@ == crate::flrc_link::whitened(
                    body_frame(f.wire(), name@),
                )
            },
{
    let filter: GcsFilter = GcsFilter::from_name(key, name);
    let ghost view = filter@;
    let mut wire: [u8; 25] = [0u8; 25];
    let g: usize = filter.to_wire(&mut wire);
    let head: Vec<u8> = copy_range(wire.as_slice(), 0, g);
    assert(head@ =~= view.wire());
    assert(crate::gcs::is_filter_of(view, key@, name@));
    if name.len() > FRAME_BYTES || 2 + g + name.len() > FRAME_BYTES {
        return None;
    }
    let mut frame: [u8; FRAME_BYTES] = [0u8; FRAME_BYTES];
    frame[0] = g as u8;
    place(&mut frame, 1, head.as_slice());
    frame[1 + g] = name.len() as u8;
    place(&mut frame, 2 + g, name);
    assert(frame@ =~= body_frame(view.wire(), name@));
    whiten(&mut frame);
    Some(frame)
}

/// What a received frame carries, once it is plain again.
#[verifier::ext_equal]
pub struct ShadowView {
    pub filter: Seq<u8>,
    pub name: Seq<u8>,
}

/// What a received frame carries.
pub struct Shadow {
    pub filter: Vec<u8>,
    pub name: Vec<u8>,
}

impl View for Shadow {
    type V = ShadowView;

    open spec fn view(&self) -> ShadowView {
        ShadowView { filter: self.filter@, name: self.name@ }
    }
}

/// What plain bytes with a body filter carry, where their lengths fit.
pub open spec fn body_parts(b: Seq<u8>) -> Option<ShadowView> {
    if b.len() < 3 || 2 + b[0] > b.len() || 2 + b[0] + b[1 + b[0]] > b.len() {
        None
    } else {
        Some(
            ShadowView {
                filter: b.subrange(1, 1 + b[0]),
                name: b.subrange(2 + b[0], 2 + b[0] + b[1 + b[0]]),
            },
        )
    }
}

/// The frame as it is read: no more than the longest of the experiment.
pub open spec fn clipped(b: Seq<u8>) -> Seq<u8> {
    if b.len() <= 48 {
        b
    } else {
        b.take(48)
    }
}

/// Reads a received frame with a body filter.
pub fn parse_gcs(received: &[u8]) -> (r: Option<Shadow>)
    ensures
        (match r {
            Some(s) => body_parts(crate::flrc_link::whitened(clipped(received@))) == Some(s@),
            None => body_parts(crate::flrc_link::whitened(clipped(received@))) is None,
        }),
{
    let n: usize = if received.len() <= MAX_FRAME {
        received.len()
    } else {
        MAX_FRAME
    };
    let mut b: Vec<u8> = copy_range(received, 0, n);
    assert(b@ =~= clipped(received@));
    let mut plain: [u8; FRAME_BYTES] = [0u8; FRAME_BYTES];
    place(&mut plain, 0, b.as_slice());
    whiten(&mut plain);
    b = copy_range(plain.as_slice(), 0, n);
    assert(b@ =~= crate::flrc_link::whitened(clipped(received@)));
    if n < 3 {
        return None;
    }
    let g: usize = b[0] as usize;
    if 2 + g > n {
        return None;
    }
    let name_len: usize = b[1 + g] as usize;
    if 2 + g + name_len > n {
        return None;
    }
    let filter: Vec<u8> = copy_range(b.as_slice(), 1, 1 + g);
    let name: Vec<u8> = copy_range(b.as_slice(), 2 + g, 2 + g + name_len);
    Some(Shadow { filter, name })
}

/// A frame with a fixed filter, before whitening: filter, the name's length, the name, zeros.
pub open spec fn fixed_frame(bits: Seq<u8>, name: Seq<u8>) -> Seq<u8> {
    let used = bits + seq![name.len() as u8] + name;
    used + Seq::new((48 - used.len()) as nat, |i: int| 0u8)
}

/// The frame of a name with its fixed filter, whitened.
pub fn tier0_frame(key: &[u8; 16], name: &[u8]) -> (a: [u8; FRAME_BYTES])
    requires
        name.len() <= 31,
    ensures
        exists|bits: Seq<u8>|
            {
                &&& #[trigger] crate::tier0::is_name_filter(
                    bits,
                    key@,
                    name@,
                    crate::tier0::K,
                )
                &&& bits.len() == 16
                &&& a@ == crate::flrc_link::whitened(fixed_frame(bits, name@))
            },
{
    let bits: [u8; 16] = name_filter(key, name, crate::tier0::K);
    assert(crate::tier0::is_name_filter(bits@, key@, name@, crate::tier0::K));
    let mut frame: [u8; FRAME_BYTES] = [0u8; FRAME_BYTES];
    place(&mut frame, 0, bits.as_slice());
    frame[16] = name.len() as u8;
    place(&mut frame, 17, name);
    assert(frame@ =~= fixed_frame(bits@, name@));
    whiten(&mut frame);
    frame
}

/// What plain bytes with a twelve-byte filter carry, where their lengths fit.
pub open spec fn fixed_parts(b: Seq<u8>) -> Option<ShadowView> {
    if b.len() < 14 || 13 + b[12] > b.len() {
        None
    } else {
        Some(ShadowView { filter: b.take(12), name: b.subrange(13, 13 + b[12]) })
    }
}

/// Reads a received frame with a twelve-byte filter.
pub fn parse_tier0(received: &[u8]) -> (r: Option<Shadow>)
    ensures
        (match r {
            Some(s) => fixed_parts(clipped(received@)) == Some(s@),
            None => fixed_parts(clipped(received@)) is None,
        }),
{
    let n: usize = if received.len() <= MAX_FRAME {
        received.len()
    } else {
        MAX_FRAME
    };
    if n < SHADOW_FILTER_LEN + 2 {
        return None;
    }
    let name_len: usize = received[12] as usize;
    if 13 + name_len > n {
        return None;
    }
    let filter: Vec<u8> = copy_range(received, 0, 12);
    let name: Vec<u8> = copy_range(received, 13, 13 + name_len);
    assert(filter@ =~= clipped(received@).take(12));
    assert(name@ =~= clipped(received@).subrange(13, 13 + name_len));
    Some(Shadow { filter, name })
}

/// A name starts with a prefix, byte for byte.
pub open spec fn starts_with(name: Seq<u8>, p: Seq<u8>) -> bool {
    p.len() <= name.len() && name.take(p.len() as int) == p
}

fn begins(name: &[u8], p: &[u8]) -> (b: bool)
    ensures
        b == starts_with(name@, p@),
{
    if p.len() > name.len() {
        return false;
    }
    let mut i: usize = 0;
    while i < p.len()
        invariant
            i <= p.len() <= name.len(),
            forall|k: int| 0 <= k < i ==> name@[k] == p@[k],
        decreases p.len() - i,
    {
        if name[i] != p[i] {
            assert(name@.take(p@.len() as int)[i as int] != p@[i as int]);
            return false;
        }
        i += 1;
    }
    assert(name@.take(p@.len() as int) =~= p@);
    true
}

/// The name is under a registered prefix.
pub open spec fn wanted(name: Seq<u8>, registered: Seq<Vec<u8>>) -> bool {
    exists|i: int| 0 <= i < registered.len() && starts_with(name, (#[trigger] registered[i])@)
}

/// Whether the name is under a registered prefix.
pub fn truth(name: &[u8], registered: &[Vec<u8>]) -> (b: bool)
    ensures
        b == wanted(name@, registered@),
{
    let mut i: usize = 0;
    while i < registered.len()
        invariant
            i <= registered.len(),
            forall|k: int| 0 <= k < i ==> !starts_with(name@, (#[trigger] registered@[k])@),
        decreases registered.len() - i,
    {
        if begins(name, registered[i].as_slice()) {
            return true;
        }
        i += 1;
    }
    false
}

/// A body filter accepts some registered prefix.
pub open spec fn gcs_accepts(wire: Seq<u8>, key: Seq<u8>, registered: Seq<Vec<u8>>) -> bool {
    exists|i: int|
        0 <= i < registered.len() && crate::gcs::unwire(wire).accepts(
            key,
            (#[trigger] registered[i])@,
        )
}

/// Whether a body filter accepts some registered prefix.
pub fn gcs_verdict(wire: &[u8], key: &[u8; 16], registered: &[Vec<u8>]) -> (b: bool)
    ensures
        b == gcs_accepts(wire@, key@, registered@),
{
    let filter: GcsFilter = GcsFilter::from_wire(wire);
    let mut i: usize = 0;
    while i < registered.len()
        invariant
            i <= registered.len(),
            filter@ == crate::gcs::unwire(wire@),
            forall|k: int|
                0 <= k < i ==> !crate::gcs::unwire(wire@).accepts(
                    key@,
                    (#[trigger] registered@[k])@,
                ),
        decreases registered.len() - i,
    {
        if filter.may_match(key, registered[i].as_slice()) {
            return true;
        }
        i += 1;
    }
    false
}

/// Every bit of the mask is set in the filter.
pub open spec fn bytes_cover(filter: Seq<u8>, mask: Seq<u8>) -> bool {
    forall|i: int| 0 <= i < mask.len() ==> #[trigger] filter[i] & mask[i] == mask[i]
}

/// A fixed filter passes some mask.
pub open spec fn mask_accepts(filter: Seq<u8>, masks: Seq<Vec<u8>>) -> bool {
    exists|m: int| 0 <= m < masks.len() && bytes_cover(filter, (#[trigger] masks[m])@)
}

fn covers_mask(filter: &[u8], mask: &[u8]) -> (b: bool)
    requires
        mask.len() <= filter.len(),
    ensures
        b == bytes_cover(filter@, mask@),
{
    let mut i: usize = 0;
    while i < mask.len()
        invariant
            i <= mask.len() <= filter.len(),
            forall|k: int| 0 <= k < i ==> #[trigger] filter@[k] & mask@[k] == mask@[k],
        decreases mask.len() - i,
    {
        if filter[i] & mask[i] != mask[i] {
            assert(filter@[i as int] & mask@[i as int] != mask@[i as int]);
            return false;
        }
        i += 1;
    }
    true
}

/// Whether a fixed filter passes some mask.
pub fn mask_verdict(filter: &[u8], masks: &[Vec<u8>]) -> (b: bool)
    requires
        forall|m: int| 0 <= m < masks@.len() ==> (#[trigger] masks@[m])@.len() <= filter@.len(),
    ensures
        b == mask_accepts(filter@, masks@),
{
    let mut m: usize = 0;
    while m < masks.len()
        invariant
            m <= masks.len(),
            forall|k: int|
                0 <= k < masks@.len() ==> (#[trigger] masks@[k])@.len() <= filter@.len(),
            forall|k: int| 0 <= k < m ==> !bytes_cover(filter@, (#[trigger] masks@[k])@),
        decreases masks.len() - m,
    {
        if covers_mask(filter, masks[m].as_slice()) {
            return true;
        }
        m += 1;
    }
    false
}

/// The tally of an experiment. The counts are free-running: each goes back to 0 behind its largest
/// value.
#[derive(Clone, Copy, PartialEq, Eq, Structural)]
pub struct Score {
    pub seen: u32,
    /// Rejected.
    pub rejected: u32,
    /// Accepted.
    pub accepted: u32,
    /// Accepted and wanted.
    pub true_acc: u32,
    /// Accepted and not wanted.
    pub false_pos: u32,
    /// Rejected and wanted.
    pub false_neg: u32,
    /// Frames that failed their checksum, which no filter is asked about.
    pub crc_bad: u32,
}

impl Score {
    /// The counts add up, as far as they are free-running.
    pub open spec fn wf(self) -> bool {
        &&& self.seen == self.rejected.wrapping_add(self.accepted)
        &&& self.accepted == self.true_acc.wrapping_add(self.false_pos)
    }

    /// The tally with one more frame.
    pub open spec fn with(self, accept: bool, want: bool) -> Score {
        Score {
            seen: self.seen.wrapping_add(1),
            rejected: if accept {
                self.rejected
            } else {
                self.rejected.wrapping_add(1)
            },
            accepted: if accept {
                self.accepted.wrapping_add(1)
            } else {
                self.accepted
            },
            true_acc: if accept && want {
                self.true_acc.wrapping_add(1)
            } else {
                self.true_acc
            },
            false_pos: if accept && !want {
                self.false_pos.wrapping_add(1)
            } else {
                self.false_pos
            },
            false_neg: if !accept && want {
                self.false_neg.wrapping_add(1)
            } else {
                self.false_neg
            },
            ..self
        }
    }

    /// Nothing seen.
    pub fn new() -> (s: Score)
        ensures
            s.wf(),
            s == (Score {
                seen: 0,
                rejected: 0,
                accepted: 0,
                true_acc: 0,
                false_pos: 0,
                false_neg: 0,
                crc_bad: 0,
            }),
    {
        Score {
            seen: 0,
            rejected: 0,
            accepted: 0,
            true_acc: 0,
            false_pos: 0,
            false_neg: 0,
            crc_bad: 0,
        }
    }

    /// Counts a frame that failed its checksum.
    pub fn bad_crc(&mut self)
        ensures
            *final(self) == (Score { crc_bad: old(self).crc_bad.wrapping_add(1), ..*old(self) }),
    {
        self.crc_bad = self.crc_bad.wrapping_add(1);
    }

    /// Counts a verdict against the truth.
    pub fn add_verdict(&mut self, accept: bool, want: bool)
        requires
            old(self).wf(),
        ensures
            final(self).wf(),
            *final(self) == old(self).with(accept, want),
    {
        self.seen = self.seen.wrapping_add(1);
        if accept {
            self.accepted = self.accepted.wrapping_add(1);
            if want {
                self.true_acc = self.true_acc.wrapping_add(1);
            } else {
                self.false_pos = self.false_pos.wrapping_add(1);
            }
        } else {
            self.rejected = self.rejected.wrapping_add(1);
            if want {
                self.false_neg = self.false_neg.wrapping_add(1);
            }
        }
    }

    /// Rejected frames in a million.
    pub fn reject_ppm(&self) -> (ppm: u64)
        requires
            self.seen > 0,
        ensures
            ppm == crate::lab::filter_test::per_million(self.rejected as int, self.seen as int),
    {
        self.rejected as u64 * 1_000_000 / self.seen as u64
    }

    /// False positives in a million accepted frames.
    pub fn fp_ppm(&self) -> (ppm: u64)
        ensures
            self.accepted > 0 ==> ppm == crate::lab::filter_test::per_million(
                self.false_pos as int,
                self.accepted as int,
            ),
            self.accepted == 0 ==> ppm == 0,
    {
        if self.accepted > 0 {
            self.false_pos as u64 * 1_000_000 / self.accepted as u64
        } else {
            0
        }
    }

    /// Frames that were not wanted, as far as they were accepted for a reason.
    pub fn irrelevant(&self) -> (n: u32)
        requires
            self.true_acc <= self.seen,
        ensures
            n == self.seen - self.true_acc,
    {
        self.seen - self.true_acc
    }

    /// False positives in a million irrelevant frames.
    pub fn fp_of_irrelevant_ppm(&self) -> (ppm: u64)
        requires
            self.true_acc <= self.seen,
        ensures
            self.seen > self.true_acc ==> ppm == crate::lab::filter_test::per_million(
                self.false_pos as int,
                self.seen - self.true_acc,
            ),
            self.seen == self.true_acc ==> ppm == 0,
    {
        let n: u32 = self.irrelevant();
        if n > 0 {
            self.false_pos as u64 * 1_000_000 / n as u64
        } else {
            0
        }
    }
}

/// What was sent is read back: filter and name come out of the frame they went into.
pub proof fn body_frame_round_trip(wire: Seq<u8>, name: Seq<u8>)
    requires
        wire.len() >= 1,
        2 + wire.len() + name.len() <= 48,
    ensures
        body_parts(
            crate::flrc_link::whitened(
                clipped(crate::flrc_link::whitened(body_frame(wire, name))),
            ),
        ) == Some(ShadowView { filter: wire, name }),
{
    let plain = body_frame(wire, name);
    assert(clipped(crate::flrc_link::whitened(plain)) == crate::flrc_link::whitened(plain));
    crate::flrc_link::whitening_is_self_inverse(plain);
    assert(plain[0] == wire.len());
    assert(plain[1 + wire.len() as int] == name.len());
    assert(plain.subrange(1, 1 + wire.len() as int) =~= wire);
    assert(plain.subrange(2 + wire.len() as int, 2 + wire.len() as int + name.len()) =~= name);
}

/// The filter never costs a wanted frame: for a name under a registered prefix the verdict on the
/// filter that travelled with it is to accept, so that no false negative is ever counted.
pub proof fn shadow_has_no_false_negatives(
    f: crate::gcs::GcsView,
    key: Seq<u8>,
    name: Seq<u8>,
    registered: Seq<Vec<u8>>,
    i: int,
    s: Score,
)
    requires
        crate::gcs::is_filter_of(f, key, name),
        f.bit_len <= 192,
        0 <= i < registered.len(),
        crate::tier0::is_ancestor(name, registered[i]@),
    ensures
        gcs_accepts(f.wire(), key, registered),
        s.with(gcs_accepts(f.wire(), key, registered), true).false_neg == s.false_neg,
{
    crate::gcs::filter_has_no_false_negatives(f, key, name, registered[i]@);
    crate::gcs::filter_survives_the_wire(f, key, name, key, registered[i]@);
    assert(crate::gcs::unwire(f.wire()).accepts(key, registered[i]@));
}

} // verus!
