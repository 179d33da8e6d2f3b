//! Test patterns over the FLRC link: what arrived of what was sent.

use vstd::prelude::*;

use crate::flrc_link::FRAME_BYTES;

verus! {

/// Carrier offsets of the frequency sweep, in kHz.
pub const OFFSETS_KHZ: [i32; 13] = [-60, -40, -30, -20, -12, -6, 0, 6, 12, 20, 30, 40, 60];
/// Frames of one sweep step.
pub const N_PER_STEP: u32 = 24;
/// Time limit of a frequency step, in milliseconds.
pub const FREQ_STEP_TIMEOUT_MS: u64 = 4_000;
/// Time limit of a drift step, in milliseconds.
pub const DRIFT_STEP_TIMEOUT_MS: u64 = 2_500;
/// The register of the drift field.
pub const DRIFT_REG: u32 = 0x00F3_0C28;
/// The bits of the drift field.
pub const DRIFT_MASK: u32 = 0x0000_03E0;
/// First and last drift field of the sweep.
pub const DRIFT_FIRST: u32 = 16;
pub const DRIFT_LAST: u32 = 31;

/// A test pattern.
#[derive(Clone, Copy, PartialEq, Eq, Structural)]
pub enum Pattern {
    /// Every byte is its own index.
    Ramp,
    /// Every byte is this one.
    Flat { byte: u8 },
}

/// The byte a pattern has at an index.
pub open spec fn pattern_byte(p: Pattern, i: int) -> u8 {
    match p {
        Pattern::Ramp => (i % 256) as u8,
        Pattern::Flat { byte } => byte,
    }
}

/// The byte that is expected at an index.
pub fn expect(p: Pattern, i: usize) -> (b: u8)
    ensures
        b == pattern_byte(p, i as int),
{
    match p {
        Pattern::Ramp => (i % 256) as u8,
        Pattern::Flat { byte } => byte,
    }
}

/// The pattern of a label.
pub open spec fn labelled(label: Seq<u8>) -> Pattern {
    if label == seq![0x30u8, 0x30u8] {
        Pattern::Flat { byte: 0x00 }
    } else if label == seq![0x66u8, 0x66u8] {
        Pattern::Flat { byte: 0xff }
    } else if label == seq![0x35u8, 0x35u8] {
        Pattern::Flat { byte: 0x55 }
    } else if label == seq![0x61u8, 0x61u8] {
        Pattern::Flat { byte: 0xaa }
    } else {
        Pattern::Ramp
    }
}

/// The pattern of a two-character label: `00`, `ff`, `55`, `aa`, and the ramp for any other.
pub fn pattern_of(label: &[u8]) -> (p: Pattern)
    ensures
        p == labelled(label@),
{
    if label.len() != 2 {
        return Pattern::Ramp;
    }
    let (a, b): (u8, u8) = (label[0], label[1]);
    assert(label@ =~= seq![a, b]);
    assert(forall|x: u8| (seq![a, b] == seq![x, x]) <==> (a == x && b == x)) by {
        assert forall|x: u8| (seq![a, b] == seq![x, x]) <==> (a == x && b == x) by {
            assert(seq![a, b][0] == a && seq![a, b][1] == b);
            assert(seq![x, x][0] == x && seq![x, x][1] == x);
            if a == x && b == x {
                assert(seq![a, b] =~= seq![x, x]);
            }
        }
    }
    if a == 0x30 && b == 0x30 {
        Pattern::Flat { byte: 0x00 }
    } else if a == 0x66 && b == 0x66 {
        Pattern::Flat { byte: 0xff }
    } else if a == 0x35 && b == 0x35 {
        Pattern::Flat { byte: 0x55 }
    } else if a == 0x61 && b == 0x61 {
        Pattern::Flat { byte: 0xaa }
    } else {
        Pattern::Ramp
    }
}

/// The frame that is sent: the ramp.
pub fn ramp_frame() -> (f: [u8; FRAME_BYTES])
    ensures
        forall|i: int| 0 <= i < 48 ==> f@[i] == i,
{
    let mut f: [u8; FRAME_BYTES] = [0u8; FRAME_BYTES];
    let mut i: usize = 0;
    while i < FRAME_BYTES
        invariant
            i <= 48,
            forall|k: int| 0 <= k < i ==> f@[k] == k,
        decreases 48 - i,
    {
        f[i] = i as u8;
        i += 1;
    }
    f
}

/// How many leading bytes match the pattern.
pub open spec fn lead(p: Pattern, b: Seq<u8>, i: int) -> int
    decreases b.len() - i,
{
    if i < b.len() && b[i] == pattern_byte(p, i) {
        lead(p, b, i + 1)
    } else {
        i
    }
}

/// How many of the first `n` bytes match the pattern.
pub open spec fn hits(p: Pattern, b: Seq<u8>, n: int) -> int
    decreases n,
{
    if n <= 0 {
        0
    } else {
        hits(p, b, n - 1) + if b[n - 1] == pattern_byte(p, n - 1) {
            1int
        } else {
            0int
        }
    }
}

/// Counts the leading bytes that match.
pub fn count_lead(p: Pattern, b: &[u8]) -> (n: usize)
    ensures
        n == lead(p, b@, 0),
        n <= b.len(),
        forall|k: int| 0 <= k < n ==> b@[k] == pattern_byte(p, k),
        n < b.len() ==> b@[n as int] != pattern_byte(p, n as int),
{
    let mut i: usize = 0;
    while i < b.len() && b[i] == expect(p, i)
        invariant
            i <= b.len(),
            lead(p, b@, 0) == lead(p, b@, i as int),
            forall|k: int| 0 <= k < i ==> b@[k] == pattern_byte(p, k),
        decreases b.len() - i,
    {
        i += 1;
    }
    i
}

/// Counts the bytes that match.
pub fn count_hits(p: Pattern, b: &[u8]) -> (n: usize)
    ensures
        n == hits(p, b@, b@.len() as int),
        n <= b.len(),
{
    let mut n: usize = 0;
    let mut i: usize = 0;
    while i < b.len()
        invariant
            i <= b.len(),
            n <= i,
            n == hits(p, b@, i as int),
        decreases b.len() - i,
    {
        if b[i] == expect(p, i) {
            n += 1;
        }
        i += 1;
    }
    n
}

/// The tally of one sweep step.
#[derive(Clone, Copy, PartialEq, Eq, Structural)]
pub struct Step {
    pub n: u32,
    pub lead_sum: u32,
    pub lead_max: u32,
    pub hits_sum: u32,
    pub perfect: u32,
}

/// The mean of a number of readings by their sum, rounded down.
pub open spec fn mean(sum: int, n: int) -> int {
    sum / n
}

impl Step {
    /// Sums of so many frames of 48 bytes.
    pub open spec fn wf(self) -> bool {
        &&& self.n <= N_PER_STEP
        &&& self.lead_sum <= 48 * self.n
        &&& self.hits_sum <= 48 * self.n
        &&& self.lead_max <= 48
        &&& self.perfect <= self.n
    }

    /// The tally with one more frame.
    pub open spec fn counted(self, p: Pattern, b: Seq<u8>) -> Step {
        let l = lead(p, b, 0);
        let h = hits(p, b, 48);
        Step {
            n: (self.n + 1) as u32,
            lead_sum: (self.lead_sum + l) as u32,
            lead_max: if l > self.lead_max {
                l as u32
            } else {
                self.lead_max
            },
            hits_sum: (self.hits_sum + h) as u32,
            perfect: if h == 48 {
                (self.perfect + 1) as u32
            } else {
                self.perfect
            },
        }
    }

    /// The step wants another frame.
    pub open spec fn goes_on(self, now: u64, deadline: u64) -> bool {
        self.n < 24 && now < deadline
    }

    /// Nothing received.
    pub fn new() -> (s: Step)
        ensures
            s.wf(),
            s == (Step { n: 0, lead_sum: 0, lead_max: 0, hits_sum: 0, perfect: 0 }),
    {
        Step { n: 0, lead_sum: 0, lead_max: 0, hits_sum: 0, perfect: 0 }
    }

    /// Whether the step wants another frame, at `now` against its `deadline`.
    pub fn wants(&self, now: u64, deadline: u64) -> (b: bool)
        ensures
            b == self.goes_on(now, deadline),
    {
        self.n < N_PER_STEP && now < deadline
    }

    /// Counts a received frame.
    pub fn count(&mut self, p: Pattern, b: &[u8; FRAME_BYTES])
        requires
            old(self).wf(),
            old(self).n < 24,
        ensures
            final(self).wf(),
            *final(self) == old(self).counted(p, b@),
    {
        let l: u32 = count_lead(p, b.as_slice()) as u32;
        let h: u32 = count_hits(p, b.as_slice()) as u32;
        self.n = self.n + 1;
        self.lead_sum = self.lead_sum + l;
        if l > self.lead_max {
            self.lead_max = l;
        }
        self.hits_sum = self.hits_sum + h;
        if h == 48 {
            self.perfect = self.perfect + 1;
        }
    }

    /// The averages over the frames: leading matches and all matches.
    pub fn averages(&self) -> (r: Option<(u32, u32)>)
        ensures
            self.n == 0 ==> r is None,
            self.n > 0 ==> (r matches Some((lead, hits)) && lead == mean(
                self.lead_sum as int,
                self.n as int,
            ) && hits == mean(self.hits_sum as int, self.n as int)),
    {
        if self.n == 0 {
            None
        } else {
            Some((self.lead_sum / self.n, self.hits_sum / self.n))
        }
    }
}

/// The better of the best step so far and another.
pub open spec fn better_of(best: (i32, u32), setting: i32, hits_avg: u32) -> (i32, u32) {
    if hits_avg > best.1 {
        (setting, hits_avg)
    } else {
        best
    }
}

/// The best step so far, by its average matches; a later one must be better.
pub fn better(best: (i32, u32), setting: i32, hits_avg: u32) -> (r: (i32, u32))
    ensures
        r == better_of(best, setting, hits_avg),
{
    if hits_avg > best.1 {
        (setting, hits_avg)
    } else {
        best
    }
}

/// The carrier at an offset.
pub open spec fn carrier_at(off_khz: i32) -> int {
    915_000_000 + 1000 * off_khz
}

/// The carrier of a sweep step.
pub fn offset_carrier(off_khz: i32) -> (hz: u32)
    requires
        -60 <= off_khz <= 60,
    ensures
        hz == carrier_at(off_khz),
{
    (crate::flrc_link::FREQ_HZ as i64 + off_khz as i64 * 1000) as u32
}

/// The drift field in a register value.
pub open spec fn field_of(reg: u32) -> int {
    reg as int / 32 % 32
}

/// A drift field as it stands in its register.
pub open spec fn placed(field: u32) -> int {
    32 * field
}

/// The drift field of a register value.
pub fn drift_field(reg: u32) -> (f: u32)
    ensures
        f == field_of(reg),
{
    assert((reg & 0x0000_03E0) >> 5 == reg / 32 % 32) by (bit_vector);
    (reg & DRIFT_MASK) >> 5
}

/// The register bits of a drift field.
pub fn drift_bits(field: u32) -> (bits: u32)
    requires
        field < 32,
    ensures
        bits == placed(field),
{
    assert(field < 32 ==> field << 5 == 32 * field) by (bit_vector);
    field << 5
}

/// What a frame differs from the ramp by.
pub fn xor_mask(b: &[u8; FRAME_BYTES]) -> (m: [u8; FRAME_BYTES])
    ensures
        forall|i: int| 0 <= i < 48 ==> #[trigger] m@[i] == b@[i] ^ (i as u8),
{
    let mut m: [u8; FRAME_BYTES] = [0u8; FRAME_BYTES];
    let mut i: usize = 0;
    while i < FRAME_BYTES
        invariant
            i <= 48,
            forall|k: int| 0 <= k < i ==> #[trigger] m@[k] == b@[k] ^ (k as u8),
        decreases 48 - i,
    {
        m[i] = b[i] ^ (i as u8);
        i += 1;
    }
    m
}

/// How many of the first `n` bytes of two masks agree.
pub open spec fn agreeing(a: Seq<u8>, b: Seq<u8>, n: int) -> int
    decreases n,
{
    if n <= 0 {
        0
    } else {
        agreeing(a, b, n - 1) + if a[n - 1] == b[n - 1] {
            1int
        } else {
            0int
        }
    }
}

/// Counts the bytes in which two masks agree.
pub fn agreement(a: &[u8; FRAME_BYTES], b: &[u8; FRAME_BYTES]) -> (n: usize)
    ensures
        n == agreeing(a@, b@, 48),
        n <= 48,
{
    let mut n: usize = 0;
    let mut i: usize = 0;
    while i < FRAME_BYTES
        invariant
            i <= 48,
            n <= i,
            n == agreeing(a@, b@, i as int),
        decreases 48 - i,
    {
        if a[i] == b[i] {
            n += 1;
        }
        i += 1;
    }
    n
}

/// A frame is perfect exactly when every byte of it matches.
pub proof fn perfect_means_equal(p: Pattern, b: Seq<u8>, n: int)
    requires
        0 <= n <= b.len(),
    ensures
        hits(p, b, n) <= n,
        hits(p, b, n) == n <==> (forall|i: int| 0 <= i < n ==> b[i] == pattern_byte(p, i)),
    decreases n,
{
    if n > 0 {
        perfect_means_equal(p, b, n - 1);
        if hits(p, b, n) == n {
            assert(forall|i: int| 0 <= i < n ==> b[i] == pattern_byte(p, i));
        }
        if forall|i: int| 0 <= i < n ==> b[i] == pattern_byte(p, i) {
            assert(b[n - 1] == pattern_byte(p, n - 1));
        }
    }
}

} // verus!
