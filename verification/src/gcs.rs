//! A prefix set as a Golomb-coded set, for bearers whose filter rides in the frame body.
//!
//! Each inserted prefix hashes to a value below `n * 256`; the sorted distinct values travel as
//! Rice-coded gaps, most significant bit first, behind one byte that holds `n`.

use vstd::arithmetic::power2::{lemma2_to64, lemma2_to64_rest, lemma_pow2_unfold, pow2};
use vstd::prelude::*;

use crate::tier0::{clamp_prefix, for_each_prefix, name_hash};

verus! {

/// Rice parameter: a gap is a unary multiple of 2^8 and eight low bits.
pub const GCS_P: u32 = 8;

/// Type byte that marks the filter in a frame body.
pub const BODY_PREFIX_TLV: u8 = 0xF5;

/// Body bytes reserved for one name's filter.
pub const GCS_MAX_BYTES: usize = 24;

/// Bit `i` of a byte string, most significant bit first.
pub open spec fn bit_at(bytes: Seq<u8>, i: int) -> bool {
    (bytes[i / 8] >> ((7 - i % 8) as u8)) & 1 == 1
}

/// The first `n` bits of a byte string.
pub open spec fn bits_of(bytes: Seq<u8>, n: nat) -> Seq<bool> {
    Seq::new(n, |i: int| bit_at(bytes, i))
}

/// `n` copies of one bit.
pub open spec fn repeat(b: bool, n: nat) -> Seq<bool> {
    Seq::new(n, |i: int| b)
}

/// The `n` low bits of `v`, most significant first.
pub open spec fn low_bits(v: nat, n: nat) -> Seq<bool>
    decreases n,
{
    if n == 0 {
        Seq::empty()
    } else {
        low_bits(v / 2, (n - 1) as nat).push(v % 2 == 1)
    }
}

/// The number a bit string writes, most significant first.
pub open spec fn bits_value(b: Seq<bool>) -> nat
    decreases b.len(),
{
    if b.len() == 0 {
        0
    } else {
        2 * bits_value(b.drop_last()) + if b.last() {
            1nat
        } else {
            0nat
        }
    }
}

/// The Rice code of one gap with parameter `p`: its multiple of 2^p in unary, a zero, the `p` low
/// bits.
pub open spec fn rice_bits(gap: nat, p: nat) -> Seq<bool> {
    repeat(true, gap / pow2(p)) + seq![false] + low_bits(gap % pow2(p), p)
}

/// The Rice codes of a list of gaps, one behind the other.
pub open spec fn encode(gaps: Seq<nat>, p: nat) -> Seq<bool>
    decreases gaps.len(),
{
    if gaps.len() == 0 {
        Seq::empty()
    } else {
        encode(gaps.drop_last(), p) + rice_bits(gaps.last(), p)
    }
}

/// How many ones stand at `pos` before the next zero; `None` where no zero follows.
pub open spec fn unary_at(bits: Seq<bool>, pos: int) -> Option<nat>
    decreases bits.len() - pos,
{
    if pos >= bits.len() {
        None
    } else if !bits[pos] {
        Some(0)
    } else {
        match unary_at(bits, pos + 1) {
            Some(q) => Some(q + 1),
            None => None,
        }
    }
}

/// The gap whose code with parameter `p` stands at `pos`, and the position behind it.
pub open spec fn rice_at(bits: Seq<bool>, pos: int, p: nat) -> Option<(nat, int)> {
    match unary_at(bits, pos) {
        Some(q) => {
            let s = pos + q + 1;
            if s + p > bits.len() {
                None
            } else {
                Some((q * pow2(p) + bits_value(bits.subrange(s, s + p)), s + p))
            }
        },
        None => None,
    }
}

/// The gaps that can be read from `pos` on.
pub open spec fn gaps_from(bits: Seq<bool>, pos: int, p: nat) -> Seq<nat>
    decreases bits.len() - pos,
{
    match rice_at(bits, pos, p) {
        Some((g, next)) => seq![g] + gaps_from(bits, next, p),
        None => Seq::empty(),
    }
}

/// Some partial sum of the gaps, starting from `base`, is `v`.
pub open spec fn sums_hit(gaps: Seq<nat>, base: nat, v: nat) -> bool
    decreases gaps.len(),
{
    gaps.len() > 0 && (base + gaps[0] == v || sums_hit(gaps.drop_first(), base + gaps[0], v))
}

/// The value of a prefix in a set of `n` of them.
pub open spec fn set_value(key: Seq<u8>, prefix: Seq<u8>, n: nat) -> nat {
    (crate::tier0::siphash(key, prefix) as nat) % (n * 256)
}

/// `s` with `v` in its place, nothing twice.
pub open spec fn insert_sorted(s: Seq<nat>, v: nat) -> Seq<nat>
    decreases s.len(),
{
    if s.len() == 0 {
        seq![v]
    } else if s.last() == v {
        s
    } else if s.last() < v {
        s.push(v)
    } else {
        insert_sorted(s.drop_last(), v).push(s.last())
    }
}

/// The values of the first `j` inserted prefixes of a name, ascending, nothing twice.
pub open spec fn values(key: Seq<u8>, name: Seq<u8>, j: nat) -> Seq<nat>
    decreases j,
{
    let all = crate::tier0::prefixes(name);
    if j == 0 {
        Seq::empty()
    } else {
        insert_sorted(
            values(key, name, (j - 1) as nat),
            set_value(key, all[j - 1], all.len()),
        )
    }
}

/// The differences of an ascending list, the first from 0.
pub open spec fn gaps_of(s: Seq<nat>) -> Seq<nat> {
    Seq::new(
        s.len(),
        |i: int|
            if i == 0 {
                s[0]
            } else {
                (s[i] - s[i - 1]) as nat
            },
    )
}

/// The bits that travel for a name.
pub open spec fn name_bits(key: Seq<u8>, name: Seq<u8>) -> Seq<bool> {
    encode(gaps_of(values(key, name, crate::tier0::prefixes(name).len())), GCS_P as nat)
}

/// What a filter holds: how many prefixes were inserted, how many bits of the body count, and the
/// body.
pub struct GcsView {
    pub n: nat,
    pub bit_len: nat,
    pub body: Seq<u8>,
}

impl GcsView {
    /// The bits that count.
    pub open spec fn bits(self) -> Seq<bool> {
        bits_of(self.body, self.bit_len)
    }

    /// Whether a receiver that registers `prefix` accepts the frame.
    pub open spec fn accepts(self, key: Seq<u8>, prefix: Seq<u8>) -> bool {
        self.n > 0 && sums_hit(
            gaps_from(self.bits(), 0, GCS_P as nat),
            0,
            set_value(key, prefix.take(crate::tier0::clamp_len(prefix)), self.n),
        )
    }

    /// The bytes the filter is on the wire.
    pub open spec fn wire(self) -> Seq<u8> {
        seq![self.n as u8] + self.body.take(self.wire_body_len())
    }

    /// Body bytes on the wire.
    pub open spec fn wire_body_len(self) -> int {
        (self.bit_len as int + 7) / 8
    }
}

/// What the wire bytes stand for: the count, and as much body as the filter has room for.
pub open spec fn unwire(wire: Seq<u8>) -> GcsView {
    let body = if wire.len() > 0 {
        wire.skip(1)
    } else {
        Seq::empty()
    };
    let nb: nat = if body.len() <= 24 {
        body.len()
    } else {
        24
    };
    GcsView {
        n: if wire.len() > 0 {
            wire[0] as nat
        } else {
            0
        },
        bit_len: 8 * nb,
        body: Seq::new(
            24,
            |i: int|
                if i < nb {
                    body[i]
                } else {
                    0
                },
        ),
    }
}

proof fn lemma_write_bit(x: u8, a: u8, b: u8)
    by (bit_vector)
    requires
        a < 8,
        b < 8,
    ensures
        ((x | (1u8 << a)) >> b) & 1 == (if a == b {
            1
        } else {
            (x >> b) & 1
        }),
{
}

proof fn lemma_bit_is_0_or_1(x: u8, a: u8)
    by (bit_vector)
    requires
        a < 8,
    ensures
        (x >> a) & 1 == 0 || (x >> a) & 1 == 1,
        0u8 >> a == 0,
        0u8 & 1 == 0,
{
}

/// The first `n` bits of a bit string, or all of it.
pub open spec fn cut_bits(s: Seq<bool>, n: nat) -> Seq<bool> {
    if s.len() <= n {
        s
    } else {
        s.take(n as int)
    }
}

/// Cutting early or late makes no difference.
proof fn lemma_cut_bits(s: Seq<bool>, t: Seq<bool>, n: nat)
    ensures
        cut_bits(cut_bits(s, n) + t, n) == cut_bits(s + t, n),
{
    assert(cut_bits(cut_bits(s, n) + t, n) =~= cut_bits(s + t, n));
}

/// Appends bits to a zeroed body of `N` bytes. What does not fit is counted and dropped.
pub struct BitW<const N: usize> {
    buf: [u8; N],
    pos: usize,
}

impl<const N: usize> BitW<N> {
    /// Nothing is set behind the bits that were written.
    pub closed spec fn wf(self) -> bool {
        forall|i: int| self.pos <= i < 8 * N ==> !(#[trigger] bit_at(self.buf@, i))
    }

    /// The bits that were written, as far as they fit.
    pub closed spec fn bits(self) -> Seq<bool> {
        bits_of(
            self.buf@,
            if self.pos <= 8 * N {
                self.pos as nat
            } else {
                (8 * N) as nat
            },
        )
    }

    /// How many bits were written.
    pub closed spec fn count(self) -> nat {
        self.pos as nat
    }

    /// Nothing written to an all-zero body.
    pub fn new(buf: [u8; N]) -> (w: BitW<N>)
        requires
            forall|i: int| 0 <= i < N ==> buf@[i] == 0,
        ensures
            w.wf(),
            w.bits() == Seq::<bool>::empty(),
            w.count() == 0,
    {
        let w = BitW { buf, pos: 0 };
        proof {
            assert forall|i: int| 0 <= i < 8 * N implies !(#[trigger] bit_at(w.buf@, i)) by {
                lemma_bit_is_0_or_1(0, (7 - i % 8) as u8);
            }
        }
        w
    }

    fn bit(&mut self, b: bool)
        requires
            old(self).wf(),
            old(self).pos < usize::MAX,
        ensures
            final(self).wf(),
            final(self).bits() == cut_bits(old(self).bits().push(b), (8 * N) as nat),
            final(self).pos == old(self).pos + 1,
    {
        let ghost before = *self;
        let at: usize = self.pos;
        if b && at / 8 < N {
            self.buf[at / 8] = self.buf[at / 8] | (1u8 << ((7 - at % 8) as u8));
        }
        self.pos = at + 1;
        proof {
            assert forall|i: int| 0 <= i < 8 * N implies bit_at(self.buf@, i) == (if i == at {
                b
            } else {
                bit_at(before.buf@, i)
            }) by {
                if b && at / 8 < N {
                    lemma_write_bit(
                        before.buf@[at as int / 8],
                        (7 - at % 8) as u8,
                        (7 - i % 8) as u8,
                    );
                }
            }
            assert(self.bits() =~= cut_bits(before.bits().push(b), (8 * N) as nat));
        }
    }

    fn low(&mut self, v: u64, n: u32)
        requires
            old(self).wf(),
            n < 64,
            old(self).pos + n <= usize::MAX,
        ensures
            final(self).wf(),
            final(self).bits() == cut_bits(
                old(self).bits() + low_bits(v as nat % pow2(n as nat), n as nat),
                (8 * N) as nat,
            ),
            final(self).pos == old(self).pos + n,
    {
        let ghost before = *self;
        let ghost room: nat = (8 * N) as nat;
        let mut i: u32 = n;
        proof {
            assert(before.bits() + low_bits((v >> n) as nat, 0) =~= before.bits());
        }
        while i > 0
            invariant
                i <= n < 64,
                room == 8 * N,
                self.wf(),
                self.pos == before.pos + n - i,
                before.pos + n <= usize::MAX,
                self.bits() == cut_bits(
                    before.bits() + low_bits((v >> i) as nat, (n - i) as nat),
                    room,
                ),
            decreases i,
        {
            let ghost so_far = before.bits() + low_bits((v >> i) as nat, (n - i) as nat);
            i -= 1;
            let b: bool = (v >> i) & 1 == 1;
            proof {
                lemma_shift_step(v, i);
                lemma_cut_bits(so_far, seq![b], room);
                assert(cut_bits(so_far, room).push(b) =~= cut_bits(so_far, room) + seq![b]);
                assert(so_far + seq![b] =~= before.bits() + low_bits(
                    (v >> i) as nat,
                    (n - i) as nat,
                ));
            }
            self.bit(b);
        }
        proof {
            assert(v >> 0u32 == v) by (bit_vector);
            lemma_low_bits_mod(v as nat, n as nat);
        }
    }

    /// Appends the Rice code of a gap with parameter `p`.
    pub fn rice(&mut self, gap: u64, p: u32)
        requires
            old(self).wf(),
            p < 64,
            old(self).count() + gap as nat / pow2(p as nat) + 1 + p <= usize::MAX,
        ensures
            wrote(*old(self), gap, p, *final(self)),
    {
        let ghost before = *self;
        let ghost room: nat = (8 * N) as nat;
        let q: u64 = gap >> p;
        proof {
            vstd::bits::lemma_u64_shr_is_div(gap, p as u64);
            assert(gap >> p == gap >> (p as u64));
            assert(before.bits() + repeat(true, 0) =~= before.bits());
        }
        let mut i: u64 = 0;
        while i < q
            invariant
                i <= q,
                room == 8 * N,
                self.wf(),
                self.pos == before.pos + i,
                before.pos + q + 1 + p <= usize::MAX,
                self.bits() == cut_bits(before.bits() + repeat(true, i as nat), room),
            decreases q - i,
        {
            proof {
                let so_far = before.bits() + repeat(true, i as nat);
                lemma_cut_bits(so_far, seq![true], room);
                assert(cut_bits(so_far, room).push(true) =~= cut_bits(so_far, room) + seq![true]);
                assert(so_far + seq![true] =~= before.bits() + repeat(true, (i + 1) as nat));
            }
            self.bit(true);
            i += 1;
        }
        let ghost ones = before.bits() + repeat(true, q as nat);
        let ghost low = low_bits(gap as nat % pow2(p as nat), p as nat);
        proof {
            lemma_cut_bits(ones, seq![false], room);
            assert(cut_bits(ones, room).push(false) =~= cut_bits(ones, room) + seq![false]);
            lemma_cut_bits(ones + seq![false], low, room);
            assert(ones + seq![false] + low =~= before.bits() + rice_bits(gap as nat, p as nat));
        }
        self.bit(false);
        self.low(gap, p);
    }

    /// A reader of what was written.
    pub fn reader(&self) -> (r: BitR<N>)
        requires
            self.count() <= 8 * N,
        ensures
            r.wf(),
            r.bits() == self.bits(),
            r.at() == 0,
    {
        BitR { buf: self.buf, pos: 0, len: self.pos }
    }
}

/// What writing a gap does: its code stands behind what was there, as far as it fits.
pub open spec fn wrote<const N: usize>(before: BitW<N>, gap: u64, p: u32, after: BitW<N>) -> bool {
    let code = rice_bits(gap as nat, p as nat);
    &&& after.wf()
    &&& after.bits() == cut_bits(before.bits() + code, (8 * N) as nat)
    &&& after.count() == before.count() + gap as nat / pow2(p as nat) + 1 + p
}

proof fn lemma_shift_step(v: u64, i: u32)
    by (bit_vector)
    requires
        i < 63,
    ensures
        (v >> i) / 2 == v >> ((i + 1) as u32),
        (v >> i) % 2 == (v >> i) & 1,
{
}

/// The low bits of a number are those of its remainder.
proof fn lemma_low_bits_mod(v: nat, n: nat)
    ensures
        low_bits(v % pow2(n), n) == low_bits(v, n),
    decreases n,
{
    vstd::arithmetic::power2::lemma_pow2_pos(n);
    if n > 0 {
        let half = pow2((n - 1) as nat);
        lemma_pow2_unfold(n);
        vstd::arithmetic::power2::lemma_pow2_pos((n - 1) as nat);
        lemma_low_bits_mod(v / 2, (n - 1) as nat);
        vstd::arithmetic::div_mod::lemma_mod_breakdown(v as int, 2, half as int);
        let w = v % pow2(n);
        assert(w == 2 * ((v / 2) % half) + v % 2);
        assert(w / 2 == (v / 2) % half && w % 2 == v % 2);
    }
}

/// Reads bits from a body of `N` bytes.
pub struct BitR<const N: usize> {
    buf: [u8; N],
    pos: usize,
    len: usize,
}

/// What reading a gap does: it gives the one whose code stands at the position, in 64 bits, and goes
/// behind it; `None` where no whole code stands there.
pub open spec fn read<const N: usize>(
    before: BitR<N>,
    p: u32,
    gap: Option<u64>,
    after: BitR<N>,
) -> bool {
    let found = rice_at(before.bits(), before.at(), p as nat);
    &&& after.wf()
    &&& after.bits() == before.bits()
    &&& gap is Some <==> found is Some
    &&& gap matches Some(g) ==> g == (found->0).0 % 0x1_0000_0000_0000_0000 && after.at()
        == (found->0).1
}

impl<const N: usize> BitR<N> {
    /// It stays in the body.
    pub closed spec fn wf(self) -> bool {
        self.pos <= self.len <= 8 * N
    }

    /// The bits that count.
    pub closed spec fn bits(self) -> Seq<bool> {
        bits_of(self.buf@, self.len as nat)
    }

    /// The position of the next bit.
    pub closed spec fn at(self) -> int {
        self.pos as int
    }

    fn bit(&mut self) -> (b: Option<bool>)
        requires
            old(self).wf(),
        ensures
            final(self).wf(),
            final(self).buf == old(self).buf,
            final(self).len == old(self).len,
            b is Some <==> old(self).pos < old(self).len,
            b matches Some(v) ==> v == old(self).bits()[old(self).pos as int] && final(self).pos
                == old(self).pos + 1,
    {
        if self.pos >= self.len {
            return None;
        }
        let b: bool = (self.buf[self.pos / 8] >> ((7 - self.pos % 8) as u8)) & 1 == 1;
        self.pos += 1;
        Some(b)
    }

    fn low(&mut self, n: u32) -> (v: Option<u64>)
        requires
            old(self).wf(),
            n < 64,
        ensures
            final(self).wf(),
            final(self).buf == old(self).buf,
            final(self).len == old(self).len,
            v is Some <==> old(self).pos + n <= old(self).len,
            v matches Some(x) ==> x < pow2(n as nat) && x == bits_value(
                old(self).bits().subrange(old(self).pos as int, old(self).pos + n),
            ) && final(self).pos == old(self).pos + n,
    {
        let ghost start = *self;
        let mut v: u64 = 0;
        let mut i: u32 = 0;
        proof {
            lemma2_to64();
        }
        while i < n
            invariant
                i <= n < 64,
                start == *old(self),
                self.wf(),
                self.buf == start.buf,
                self.len == start.len,
                self.pos == start.pos + i,
                start.pos + i <= start.len,
                v < pow2(i as nat),
                v == bits_value(start.bits().subrange(start.pos as int, start.pos + i)),
            decreases n - i,
        {
            match self.bit() {
                Some(b) => {
                    proof {
                        let s = start.bits().subrange(start.pos as int, start.pos + i + 1);
                        assert(s.drop_last() =~= start.bits().subrange(
                            start.pos as int,
                            start.pos + i,
                        ));
                        assert(s.last() == b);
                        lemma_pow2_unfold((i + 1) as nat);
                        lemma2_to64_rest();
                        vstd::arithmetic::power2::lemma_pow2_strictly_increases((i + 1) as nat, 64);
                    }
                    v = 2 * v + if b {
                        1
                    } else {
                        0
                    };
                },
                None => {
                    return None;
                },
            }
            i += 1;
        }
        Some(v)
    }

    /// Reads the gap at the position, coded with parameter `p`, in 64 bits.
    pub fn rice(&mut self, p: u32) -> (gap: Option<u64>)
        requires
            old(self).wf(),
            p < 64,
        ensures
            read(*old(self), p, gap, *final(self)),
    {
        let ghost start = *self;
        let mut q: u64 = 0;
        loop
            invariant_except_break
                start == *old(self),
                start.wf(),
                self.wf(),
                self.buf == start.buf,
                self.len == start.len,
                self.pos == start.pos + q,
                unary_at(start.bits(), start.pos as int) == (match unary_at(
                    start.bits(),
                    self.pos as int,
                ) {
                    Some(r) => Some(r + q as nat),
                    None => None,
                }),
            ensures
                start == *old(self),
                self.wf(),
                self.buf == start.buf,
                self.len == start.len,
                self.pos == start.pos + q + 1,
                unary_at(start.bits(), start.pos as int) == Some(q as nat),
            decreases self.len - self.pos,
        {
            match self.bit() {
                Some(b) => {
                    if !b {
                        break;
                    }
                    q += 1;
                },
                None => {
                    return None;
                },
            }
        }
        match self.low(p) {
            Some(low) => {
                let unit: u128 = 1u128 << p;
                proof {
                    lemma_unit(p);
                    assert(0 <= q * unit <= 0xFFFF_FFFF_FFFF_FFFF * 0x8000_0000_0000_0000)
                        by (nonlinear_arith)
                        requires
                            0 <= q <= 0xFFFF_FFFF_FFFF_FFFF,
                            0 <= unit <= 0x8000_0000_0000_0000,
                    ;
                }
                Some(((q as u128 * unit + low as u128) % 0x1_0000_0000_0000_0000) as u64)
            },
            None => None,
        }
    }
}

/// A shifted one is a power of two, the largest of them half the range.
proof fn lemma_unit(p: u32)
    requires
        p < 64,
    ensures
        1u128 << p == pow2(p as nat),
        pow2(p as nat) <= 0x8000_0000_0000_0000,
{
    lemma2_to64();
    lemma2_to64_rest();
    if p < 63 {
        vstd::arithmetic::power2::lemma_pow2_strictly_increases(p as nat, 63);
    }
    vstd::bits::lemma_u64_shl_is_mul(1, p as u64);
    assert(1u128 << p == (1u64 << p) as u128) by (bit_vector)
        requires
            p < 64,
    ;
    assert(1u64 << p == 1u64 << (p as u64));
}

proof fn lemma_bits_value_bound(b: Seq<bool>)
    ensures
        bits_value(b) < pow2(b.len()),
    decreases b.len(),
{
    if b.len() == 0 {
        lemma2_to64();
    } else {
        lemma_bits_value_bound(b.drop_last());
        lemma_pow2_unfold(b.len());
    }
}

/// A gap is smaller than its code is long, in units of 2^p.
proof fn lemma_gap_is_bounded(bits: Seq<bool>, pos: int, p: nat)
    requires
        0 <= pos,
        rice_at(bits, pos, p) is Some,
    ensures
        ({
            let (v, next) = rice_at(bits, pos, p)->0;
            &&& v < pow2(p) * (next - pos)
            &&& pos < next <= bits.len()
        }),
{
    let (v, next) = rice_at(bits, pos, p)->0;
    let q = unary_at(bits, pos)->0;
    let s = pos + q + 1;
    lemma_bits_value_bound(bits.subrange(s, s + p));
    let low = bits_value(bits.subrange(s, s + p));
    let unit = pow2(p);
    assert(q * unit + low < unit * (next - pos)) by (nonlinear_arith)
        requires
            low < unit,
            q + 1 <= next - pos,
    ;
}

/// The smallest place for `v`: behind everything not greater.
proof fn lemma_insert_sorted(s: Seq<nat>, v: nat, i: int)
    requires
        0 <= i <= s.len(),
        forall|k: int| i <= k < s.len() ==> s[k] > v,
        i > 0 ==> s[i - 1] <= v,
    ensures
        insert_sorted(s, v) == (if i > 0 && s[i - 1] == v {
            s
        } else {
            s.insert(i, v)
        }),
    decreases s.len(),
{
    if s.len() == 0 {
        assert(s.insert(0, v) =~= seq![v]);
    } else if i == s.len() {
        assert(s.insert(i, v) =~= s.push(v));
    } else {
        assert(s.last() > v);
        let t = s.drop_last();
        lemma_insert_sorted(t, v, i);
        if i > 0 && s[i - 1] == v {
            assert(t.push(s.last()) =~= s);
        } else {
            assert(t.insert(i, v).push(s.last()) =~= s.insert(i, v));
        }
    }
}

/// Strictly ascending.
pub open spec fn ascending(s: Seq<nat>) -> bool {
    forall|i: int, j: int| 0 <= i < j < s.len() ==> s[i] < s[j]
}

/// Inserting keeps the order, loses nothing, adds only `v`, and stays below a common bound.
proof fn lemma_insert_sorted_keeps(s: Seq<nat>, v: nat, bound: nat)
    requires
        ascending(s),
        v < bound,
        forall|i: int| 0 <= i < s.len() ==> s[i] < bound,
    ensures
        ascending(insert_sorted(s, v)),
        insert_sorted(s, v).contains(v),
        forall|x: nat| s.contains(x) ==> #[trigger] insert_sorted(s, v).contains(x),
        forall|i: int|
            0 <= i < insert_sorted(s, v).len() ==> #[trigger] insert_sorted(s, v)[i] < bound,
        forall|i: int|
            0 <= i < insert_sorted(s, v).len() ==> s.contains(#[trigger] insert_sorted(s, v)[i])
                || insert_sorted(s, v)[i] == v,
        s.len() <= insert_sorted(s, v).len() <= s.len() + 1,
        insert_sorted(s, v).len() > 0,
    decreases s.len(),
{
    let r = insert_sorted(s, v);
    if s.len() == 0 {
        assert(r[0] == v);
    } else if s.last() == v {
        assert(r[r.len() - 1] == v);
    } else if s.last() < v {
        assert(r[r.len() - 1] == v);
        assert forall|x: nat| s.contains(x) implies #[trigger] r.contains(x) by {
            let k = choose|k: int| 0 <= k < s.len() && s[k] == x;
            assert(r[k] == x);
        }
        assert forall|i: int| 0 <= i < r.len() implies s.contains(#[trigger] r[i]) || r[i] == v by {
            if i < s.len() {
                assert(r[i] == s[i]);
            }
        }
    } else {
        let t = s.drop_last();
        let u = insert_sorted(t, v);
        lemma_insert_sorted_keeps(t, v, bound);
        assert(r == u.push(s.last()));
        let k = choose|k: int| 0 <= k < u.len() && u[k] == v;
        assert(r[k] == v);
        assert forall|x: nat| s.contains(x) implies #[trigger] r.contains(x) by {
            let m = choose|m: int| 0 <= m < s.len() && s[m] == x;
            if m < t.len() {
                assert(t[m] == x);
                assert(u.contains(x));
                let w = choose|w: int| 0 <= w < u.len() && u[w] == x;
                assert(r[w] == x);
            } else {
                assert(r[r.len() - 1] == x);
            }
        }
        assert forall|i: int| 0 <= i < r.len() implies s.contains(#[trigger] r[i]) || r[i] == v by {
            if i < u.len() {
                assert(r[i] == u[i]);
                if t.contains(u[i]) {
                    let w = choose|w: int| 0 <= w < t.len() && t[w] == u[i];
                    assert(s[w] == u[i]);
                }
            } else {
                assert(r[i] == s[s.len() - 1]);
            }
        }
        assert forall|i: int, j: int| 0 <= i < j < r.len() implies r[i] < r[j] by {
            if j == u.len() {
                assert(r[i] == u[i]);
                if u[i] != v {
                    let w = choose|w: int| 0 <= w < t.len() && t[w] == u[i];
                    assert(s[w] < s[s.len() - 1]);
                }
            } else {
                assert(u[i] < u[j]);
            }
        }
    }
}

/// The values of a name are ascending, below the hash range, at most one per prefix, and each
/// prefix has its own among them.
proof fn lemma_values(key: Seq<u8>, name: Seq<u8>, j: nat)
    requires
        j <= crate::tier0::prefixes(name).len(),
    ensures
        ascending(values(key, name, j)),
        values(key, name, j).len() <= j,
        j > 0 ==> values(key, name, j).len() > 0,
        forall|i: int|
            0 <= i < values(key, name, j).len() ==> #[trigger] values(key, name, j)[i]
                < crate::tier0::prefixes(name).len() * 256,
        forall|k: int|
            0 <= k < j ==> values(key, name, j).contains(
                #[trigger] set_value(
                    key,
                    crate::tier0::prefixes(name)[k],
                    crate::tier0::prefixes(name).len(),
                ),
            ),
    decreases j,
{
    if j > 0 {
        let all = crate::tier0::prefixes(name);
        lemma_values(key, name, (j - 1) as nat);
        let m: nat = all.len() * 256;
        let v = set_value(key, all[j - 1], all.len());
        lemma_insert_sorted_keeps(values(key, name, (j - 1) as nat), v, m);
        let before = values(key, name, (j - 1) as nat);
        let after = values(key, name, j);
        assert forall|k: int| 0 <= k < j implies after.contains(
            #[trigger] set_value(key, all[k], all.len()),
        ) by {
            if k < j - 1 {
                assert(before.contains(set_value(key, all[k], all.len())));
            }
        }
    }
}

proof fn lemma_low_bits_len(v: nat, n: nat)
    ensures
        low_bits(v, n).len() == n,
    decreases n,
{
    if n > 0 {
        lemma_low_bits_len(v / 2, (n - 1) as nat);
    }
}

/// The code of ascending values below `bound` takes nine bits per value and one more for every 256
/// up to the last.
proof fn lemma_code_len(s: Seq<nat>, j: int)
    requires
        ascending(s),
        0 <= j <= s.len(),
    ensures
        encode(gaps_of(s).take(j), GCS_P as nat).len() <= 9 * j + (if j > 0 {
            s[j - 1] as int / 256
        } else {
            0
        }),
    decreases j,
{
    let g = gaps_of(s).take(j);
    if j > 0 {
        lemma_code_len(s, j - 1);
        assert(g.drop_last() =~= gaps_of(s).take(j - 1));
        lemma2_to64();
        lemma_low_bits_len(g.last() % 256, 8);
        assert(rice_bits(g.last(), GCS_P as nat).len() == g.last() / 256 + 9);
        if j > 1 {
            assert(s[j - 2] < s[j - 1]);
        }
    }
}

/// A prefix set as a Golomb-coded set.
#[derive(Clone, Copy)]
pub struct GcsFilter {
    n: u8,
    bit_len: u16,
    bytes: [u8; GCS_MAX_BYTES],
}

impl View for GcsFilter {
    type V = GcsView;

    closed spec fn view(&self) -> GcsView {
        GcsView { n: self.n as nat, bit_len: self.bit_len as nat, body: self.bytes@ }
    }
}

impl GcsFilter {
    #[verifier::type_invariant]
    spec fn inv(self) -> bool {
        self.bit_len <= 192
    }

    /// Encodes every inserted prefix of a name, root first.
    pub fn from_name(key: &[u8; 16], name: &[u8]) -> (f: GcsFilter)
        ensures
            is_filter_of(f@, key@, name@),
            f@.bit_len <= 192,
    {
        let all: Vec<Vec<u8>> = for_each_prefix(name);
        let n: usize = all.len();
        let ghost pre = crate::tier0::prefixes(name@);
        proof {
            assert(pre.len() == n) by {
                assert(crate::tier0::byte_strings(all@).len() == n);
            }
        }
        let m: u64 = (n as u64) * 256;
        let mut vals: Vec<u64> = Vec::new();
        let ghost mut model: Seq<nat> = Seq::empty();
        let mut j: usize = 0;
        while j < n
            invariant
                j <= n == all.len() == pre.len(),
                1 <= n <= 9,
                m == n * 256,
                crate::tier0::byte_strings(all@) == pre,
                pre == crate::tier0::prefixes(name@),
                model == values(key@, name@, j as nat),
                model == vals@.map_values(|x: u64| x as nat),
            decreases n - j,
        {
            assert(all@[j as int]@ == pre[j as int]) by {
                assert(crate::tier0::byte_strings(all@)[j as int] == all@[j as int]@);
            }
            let v: u64 = name_hash(key, all[j].as_slice()) % m;
            let mut i: usize = vals.len();
            while i > 0 && vals[i - 1] > v
                invariant
                    i <= vals.len(),
                    forall|k: int| i <= k < vals.len() ==> vals[k] > v,
                decreases i,
            {
                i -= 1;
            }
            let ghost before = vals@;
            proof {
                lemma_insert_sorted(model, v as nat, i as int);
            }
            if i == 0 || vals[i - 1] != v {
                vals.insert(i, v);
                proof {
                    assert(vals@.map_values(|x: u64| x as nat) =~= model.insert(
                        i as int,
                        v as nat,
                    ));
                }
            }
            proof {
                assert(v as nat == set_value(key@, pre[j as int], pre.len()));
                model = values(key@, name@, (j + 1) as nat);
            }
            j += 1;
        }
        proof {
            lemma_values(key@, name@, n as nat);
        }
        let ghost gaps = gaps_of(model);
        let mut w: BitW<GCS_MAX_BYTES> = BitW::new([0u8; GCS_MAX_BYTES]);
        let mut prev: u64 = 0;
        let mut i: usize = 0;
        proof {
            assert(gaps.take(0) =~= Seq::<nat>::empty());
        }
        while i < vals.len()
            invariant
                i <= vals.len() <= n,
                1 <= n <= 9,
                model == vals@.map_values(|x: u64| x as nat),
                gaps == gaps_of(model),
                ascending(model),
                forall|k: int| 0 <= k < model.len() ==> #[trigger] model[k] < n * 256,
                prev == (if i == 0 {
                    0
                } else {
                    vals[i - 1]
                }),
                w.wf(),
                w.pos <= 192,
                w.bits() == encode(gaps.take(i as int), GCS_P as nat),
            decreases vals.len() - i,
        {
            let v: u64 = vals[i];
            proof {
                lemma_code_len(model, i as int + 1);
                assert(model[i as int] == v as nat);
                if i > 0 {
                    assert(model[i - 1] == prev as nat);
                }
                let g = gaps.take(i as int + 1);
                assert(g.drop_last() =~= gaps.take(i as int));
                assert(g.last() == (v - prev) as nat);
                lemma2_to64();
                lemma_low_bits_len(g.last() % 256, 8);
                assert(encode(g, GCS_P as nat).len() == w.pos + (v - prev) / 256 + 9);
                assert(v < n * 256);
                assert(encode(g, GCS_P as nat).len() <= 9 * (i + 1) + v as int / 256);
            }
            w.rice(v - prev, GCS_P);
            prev = v;
            i += 1;
        }
        proof {
            assert(gaps.take(i as int) =~= gaps);
        }
        GcsFilter { n: n as u8, bit_len: w.pos as u16, bytes: w.buf }
    }

    /// Could a name that carries this filter lie under `prefix`? A `false` is exact.
    pub fn may_match(&self, key: &[u8; 16], prefix: &[u8]) -> (wanted: bool)
        ensures
            wanted == self@.accepts(key@, prefix@),
    {
        proof {
            use_type_invariant(self);
        }
        let clamped: usize = clamp_prefix(prefix);
        let m: u64 = (self.n as u64) * 256;
        if m == 0 {
            return false;
        }
        let head: &[u8] = vstd::slice::slice_subrange(prefix, 0, clamped);
        assert(head@ =~= prefix@.take(clamped as int));
        let qv: u64 = name_hash(key, head) % m;
        let mut r = BitR { buf: self.bytes, pos: 0, len: self.bit_len as usize };
        let ghost bits = self@.bits();
        let mut acc: u64 = 0;
        loop
            invariant
                r.len <= 192,
                r.pos <= r.len,
                r.bits() == bits,
                acc <= 256 * r.pos,
                sums_hit(gaps_from(bits, 0, GCS_P as nat), 0, qv as nat) == sums_hit(
                    gaps_from(bits, r.pos as int, GCS_P as nat),
                    acc as nat,
                    qv as nat,
                ),
                self.n > 0,
                bits == self@.bits(),
                qv as nat == set_value(
                    key@,
                    prefix@.take(crate::tier0::clamp_len(prefix@)),
                    self@.n,
                ),
            decreases r.len - r.pos,
        {
            let ghost at = r.pos as int;
            match r.rice(GCS_P) {
                None => {
                    return false;
                },
                Some(gap) => {
                    proof {
                        lemma2_to64();
                        lemma_gap_is_bounded(bits, at, GCS_P as nat);
                    }
                    acc += gap;
                    proof {
                        let rest = gaps_from(bits, r.pos as int, GCS_P as nat);
                        let all = gaps_from(bits, at, GCS_P as nat);
                        assert(all == seq![gap as nat] + rest);
                        assert(all.drop_first() =~= rest);
                        if acc > qv {
                            lemma_sums_past(rest, acc as nat, qv as nat);
                        }
                    }
                    if acc == qv {
                        return true;
                    }
                    if acc > qv {
                        return false;
                    }
                },
            }
        }
    }
}

/// Sums only grow: nothing behind a larger sum can hit.
proof fn lemma_sums_past(gaps: Seq<nat>, base: nat, v: nat)
    requires
        base > v,
    ensures
        !sums_hit(gaps, base, v),
    decreases gaps.len(),
{
    if gaps.len() > 0 {
        lemma_sums_past(gaps.drop_first(), base + gaps[0], v);
    }
}

impl GcsFilter {
    /// Serialises to the start of `out`, which must have room, and returns the byte count.
    pub fn to_wire(&self, out: &mut [u8]) -> (len: usize)
        requires
            old(out).len() >= 1 + self@.wire_body_len(),
        ensures
            len == self@.wire().len(),
            final(out)@ == self@.wire() + old(out)@.skip(len as int),
    {
        proof {
            use_type_invariant(self);
        }
        let nbytes: usize = (self.bit_len as usize + 7) / 8;
        let ghost before = out@;
        out[0] = self.n;
        let mut i: usize = 0;
        while i < nbytes
            invariant
                i <= nbytes <= 24,
                out@.len() == before.len() >= 1 + nbytes,
                out@[0] == self.n,
                forall|k: int| 0 <= k < i ==> out@[1 + k] == self.bytes@[k],
                forall|k: int| 1 + i <= k < before.len() ==> out@[k] == before[k],
            decreases nbytes - i,
        {
            out[1 + i] = self.bytes[i];
            i += 1;
        }
        proof {
            assert(out@ =~= self@.wire() + before.skip(1 + nbytes as int));
        }
        1 + nbytes
    }

    /// The bytes this filter takes on the wire.
    pub fn wire_len(&self) -> (len: usize)
        ensures
            len == self@.wire().len(),
            len == 1 + self@.wire_body_len(),
    {
        proof {
            use_type_invariant(self);
        }
        1 + (self.bit_len as usize + 7) / 8
    }

    /// Reads a filter from its wire bytes; what does not fit the body is ignored.
    pub fn from_wire(wire: &[u8]) -> (f: GcsFilter)
        ensures
            f@ == unwire(wire@),
    {
        let n: u8 = if wire.len() > 0 {
            wire[0]
        } else {
            0
        };
        let have: usize = if wire.len() > 0 {
            wire.len() - 1
        } else {
            0
        };
        let nb: usize = if have <= GCS_MAX_BYTES {
            have
        } else {
            GCS_MAX_BYTES
        };
        let mut bytes: [u8; GCS_MAX_BYTES] = [0u8; GCS_MAX_BYTES];
        let mut i: usize = 0;
        while i < nb
            invariant
                i <= nb <= 24,
                nb < wire.len() || nb == 0,
                forall|k: int| 0 <= k < i ==> bytes@[k] == wire@[1 + k],
                forall|k: int| i <= k < 24 ==> bytes@[k] == 0,
            decreases nb - i,
        {
            bytes[i] = wire[1 + i];
            i += 1;
        }
        let f = GcsFilter { n, bit_len: (nb * 8) as u16, bytes };
        assert(f@.body =~= unwire(wire@).body);
        f
    }
}

/// A number written in `n` bits reads back.
proof fn lemma_low_bits_value(v: nat, n: nat)
    requires
        v < pow2(n),
    ensures
        low_bits(v, n).len() == n,
        bits_value(low_bits(v, n)) == v,
    decreases n,
{
    if n == 0 {
        lemma2_to64();
    } else {
        lemma_pow2_unfold(n);
        lemma_low_bits_value(v / 2, (n - 1) as nat);
        assert(low_bits(v, n).drop_last() =~= low_bits(v / 2, (n - 1) as nat));
    }
}

/// A run of ones closed by a zero reads as its length.
proof fn lemma_unary(bits: Seq<bool>, pos: int, q: nat)
    requires
        0 <= pos,
        pos + q < bits.len(),
        forall|i: int| pos <= i < pos + q ==> bits[i],
        !bits[pos + q],
    ensures
        unary_at(bits, pos) == Some(q),
    decreases q,
{
    if q > 0 {
        lemma_unary(bits, pos + 1, (q - 1) as nat);
    }
}

/// A gap's code reads back as the gap.
proof fn lemma_rice_reads_back(bits: Seq<bool>, pos: int, gap: nat, p: nat)
    requires
        0 <= pos,
        pos + rice_bits(gap, p).len() <= bits.len(),
        bits.subrange(pos, pos + rice_bits(gap, p).len()) == rice_bits(gap, p),
    ensures
        rice_at(bits, pos, p) == Some((gap, pos + rice_bits(gap, p).len())),
{
    let unit = pow2(p);
    vstd::arithmetic::power2::lemma_pow2_pos(p);
    vstd::arithmetic::div_mod::lemma_fundamental_div_mod(gap as int, unit as int);
    let q: nat = gap / unit;
    assert(q * unit == unit * q) by (nonlinear_arith);
    lemma_low_bits_value(gap % unit, p);
    let code = rice_bits(gap, p);
    let sub = bits.subrange(pos, pos + code.len());
    assert forall|i: int| pos <= i < pos + q implies bits[i] by {
        assert(sub[i - pos] == code[i - pos]);
    }
    assert(bits[pos + q] == sub[q as int]);
    assert(sub[q as int] == code[q as int]);
    lemma_unary(bits, pos, q);
    let s = pos + q + 1;
    let low = low_bits(gap % unit, p);
    assert forall|i: int| 0 <= i < p implies #[trigger] bits.subrange(s, s + p)[i] == low[i] by {
        assert(sub[q + 1 + i] == code[q + 1 + i]);
    }
    assert(bits.subrange(s, s + p) =~= low);
}

/// The code of the first `j` gaps opens the code of all.
proof fn lemma_encode_opens(gaps: Seq<nat>, p: nat, j: int)
    requires
        0 <= j <= gaps.len(),
    ensures
        encode(gaps.take(j), p).len() <= encode(gaps, p).len(),
        encode(gaps, p).take(encode(gaps.take(j), p).len() as int) == encode(gaps.take(j), p),
    decreases gaps.len() - j,
{
    if j == gaps.len() {
        assert(gaps.take(j) =~= gaps);
        assert(encode(gaps, p).take(encode(gaps, p).len() as int) =~= encode(gaps, p));
    } else {
        lemma_encode_opens(gaps, p, j + 1);
        let a = gaps.take(j + 1);
        assert(a.drop_last() =~= gaps.take(j));
        assert(encode(a, p) == encode(gaps.take(j), p) + rice_bits(a.last(), p));
        let n = encode(gaps.take(j), p).len() as int;
        assert(encode(gaps, p).take(n) =~= encode(gaps.take(j + 1), p).take(n));
        assert(encode(a, p).take(n) =~= encode(gaps.take(j), p));
    }
}

/// Each code reads back where it stands, whatever follows the last.
proof fn lemma_code_in_place(gaps: Seq<nat>, p: nat, tail: Seq<bool>, j: int)
    requires
        0 <= j < gaps.len(),
    ensures
        rice_at(encode(gaps, p) + tail, encode(gaps.take(j), p).len() as int, p) == Some(
            (gaps[j], encode(gaps.take(j + 1), p).len() as int),
        ),
{
    let bits = encode(gaps, p) + tail;
    lemma_encode_opens(gaps, p, j + 1);
    let a = gaps.take(j + 1);
    let g = gaps[j];
    assert(a.drop_last() =~= gaps.take(j));
    assert(a.last() == g);
    let pos = encode(gaps.take(j), p).len() as int;
    let next = encode(a, p).len() as int;
    let code = bits.subrange(pos, next);
    assert forall|i: int| 0 <= i < next - pos implies #[trigger] code[i] == rice_bits(g, p)[i] by {
        assert(encode(gaps, p).take(next)[pos + i] == encode(a, p)[pos + i]);
    }
    assert(code =~= rice_bits(g, p));
    lemma_rice_reads_back(bits, pos, g, p);
}

/// What was coded reads back, whatever follows it.
proof fn lemma_decode(gaps: Seq<nat>, p: nat, tail: Seq<bool>, j: int)
    requires
        0 <= j <= gaps.len(),
    ensures
        gaps_from(encode(gaps, p) + tail, encode(gaps.take(j), p).len() as int, p) == gaps.skip(j)
            + gaps_from(encode(gaps, p) + tail, encode(gaps, p).len() as int, p),
    decreases gaps.len() - j,
{
    let bits = encode(gaps, p) + tail;
    let end = encode(gaps, p).len() as int;
    if j == gaps.len() {
        assert(gaps.take(j) =~= gaps);
        assert(gaps.skip(j) + gaps_from(bits, end, p) =~= gaps_from(bits, end, p));
    } else {
        lemma_decode(gaps, p, tail, j + 1);
        lemma_code_in_place(gaps, p, tail, j);
        let pos = encode(gaps.take(j), p).len() as int;
        let next = encode(gaps.take(j + 1), p).len() as int;
        let g = gaps[j];
        assert(gaps_from(bits, pos, p) == seq![g] + gaps_from(bits, next, p));
        assert(seq![g] + (gaps.skip(j + 1) + gaps_from(bits, end, p)) =~= gaps.skip(j) + gaps_from(
            bits,
            end,
            p,
        ));
    }
}

/// Reading undoes writing, whatever the parameter: the codes of a list of gaps, one behind the
/// other, read back as those gaps in that order, and then as nothing more.
pub proof fn gaps_read_back_in_order(gaps: Seq<nat>, p: nat)
    ensures
        gaps_from(encode(gaps, p), 0, p) == gaps,
        rice_at(encode(gaps, p), encode(gaps, p).len() as int, p) is None,
{
    let none = Seq::<bool>::empty();
    assert(encode(gaps, p) + none =~= encode(gaps, p));
    assert(gaps.take(0) =~= Seq::<nat>::empty());
    lemma_decode(gaps, p, none, 0);
    assert(gaps.skip(0) + Seq::<nat>::empty() =~= gaps);
}

/// Gaps without their width.
pub open spec fn plain(gaps: Seq<u64>) -> Seq<nat> {
    gaps.map_values(|g: u64| g as nat)
}

/// Gaps written one behind the other: `ws[i]` is the writer before the gap `i`.
pub open spec fn written<const N: usize>(ws: Seq<BitW<N>>, gaps: Seq<u64>, p: u32) -> bool {
    &&& ws.len() == gaps.len() + 1
    &&& ws[0].bits() == Seq::<bool>::empty()
    &&& ws[0].count() == 0
    &&& forall|i: int| 0 <= i < gaps.len() ==> #[trigger] write_step(ws, gaps, p, i)
}

/// One of these writes.
pub open spec fn write_step<const N: usize>(
    ws: Seq<BitW<N>>,
    gaps: Seq<u64>,
    p: u32,
    i: int,
) -> bool {
    wrote(ws[i], gaps[i], p, ws[i + 1])
}

/// Gaps read one behind the other from the start: `rs[i]` is the reader before the result `i`.
pub open spec fn read_out<const N: usize>(
    rs: Seq<BitR<N>>,
    p: u32,
    got: Seq<Option<u64>>,
) -> bool {
    &&& rs.len() == got.len() + 1
    &&& rs[0].at() == 0
    &&& forall|i: int| 0 <= i < got.len() ==> #[trigger] read_step(rs, p, got, i)
}

/// One of these reads.
pub open spec fn read_step<const N: usize>(
    rs: Seq<BitR<N>>,
    p: u32,
    got: Seq<Option<u64>>,
    i: int,
) -> bool {
    read(rs[i], p, got[i], rs[i + 1])
}

proof fn lemma_counts_grow<const N: usize>(ws: Seq<BitW<N>>, gaps: Seq<u64>, p: u32, k: int)
    requires
        written(ws, gaps, p),
        0 <= k <= gaps.len(),
    ensures
        ws[k].count() <= ws.last().count(),
    decreases gaps.len() - k,
{
    if k < gaps.len() {
        lemma_counts_grow(ws, gaps, p, k + 1);
        vstd::arithmetic::power2::lemma_pow2_pos(p as nat);
        assert(write_step(ws, gaps, p, k));
    }
}

proof fn lemma_written<const N: usize>(ws: Seq<BitW<N>>, gaps: Seq<u64>, p: u32, k: int)
    requires
        written(ws, gaps, p),
        ws.last().count() <= 8 * N,
        0 <= k <= gaps.len(),
    ensures
        ws[k].bits() == encode(plain(gaps).take(k), p as nat),
        ws[k].count() == encode(plain(gaps).take(k), p as nat).len(),
    decreases k,
{
    let all = plain(gaps);
    if k > 0 {
        lemma_written(ws, gaps, p, k - 1);
        assert(write_step(ws, gaps, p, k - 1));
        vstd::arithmetic::power2::lemma_pow2_pos(p as nat);
        lemma_low_bits_len(gaps[k - 1] as nat % pow2(p as nat), p as nat);
        lemma_counts_grow(ws, gaps, p, k);
        assert(all.take(k).drop_last() =~= all.take(k - 1));
        assert(all.take(k).last() == gaps[k - 1] as nat);
    } else {
        assert(all.take(0) =~= Seq::<nat>::empty());
    }
}

proof fn lemma_read_out<const N: usize>(
    gaps: Seq<u64>,
    p: u32,
    rs: Seq<BitR<N>>,
    got: Seq<Option<u64>>,
    k: int,
)
    requires
        read_out(rs, p, got),
        got.len() == gaps.len() + 1,
        rs[0].bits() == encode(plain(gaps), p as nat),
        0 <= k <= gaps.len(),
    ensures
        rs[k].bits() == encode(plain(gaps), p as nat),
        rs[k].at() == encode(plain(gaps).take(k), p as nat).len(),
        k > 0 ==> got[k - 1] == Some(gaps[k - 1]),
    decreases k,
{
    let all = plain(gaps);
    if k > 0 {
        lemma_read_out(gaps, p, rs, got, k - 1);
        assert(all[k - 1] == gaps[k - 1] as nat);
        assert(read_step(rs, p, got, k - 1));
        let none = Seq::<bool>::empty();
        assert(encode(all, p as nat) + none =~= encode(all, p as nat));
        lemma_code_in_place(all, p as nat, none, k - 1);
    } else {
        assert(all.take(0) =~= Seq::<nat>::empty());
    }
}

/// A reader gives back what a writer was given: after any number of gaps that fit the body, as many
/// reads with the same parameter give those gaps in their order, and one more gives nothing.
pub proof fn written_gaps_are_read_back<const N: usize>(
    ws: Seq<BitW<N>>,
    gaps: Seq<u64>,
    p: u32,
    rs: Seq<BitR<N>>,
    got: Seq<Option<u64>>,
)
    requires
        p < 64,
        written(ws, gaps, p),
        ws.last().count() <= 8 * N,
        rs[0].bits() == ws.last().bits(),
        read_out(rs, p, got),
        got.len() == gaps.len() + 1,
    ensures
        got == gaps.map_values(|g: u64| Some(g)).push(None),
{
    let n = gaps.len() as int;
    let all = plain(gaps);
    assert(all.take(n) =~= all);
    lemma_written(ws, gaps, p, n);
    assert forall|i: int| 0 <= i < n implies got[i] == Some(gaps[i]) by {
        lemma_read_out(gaps, p, rs, got, i + 1);
    }
    lemma_read_out(gaps, p, rs, got, n);
    assert(read_step(rs, p, got, n));
    gaps_read_back_in_order(all, p as nat);
    assert(got =~= gaps.map_values(|g: u64| Some(g)).push(None));
}

/// Zero bits read as zero gaps.
proof fn lemma_zero_gaps(bits: Seq<bool>, pos: int, p: nat)
    requires
        0 <= pos,
        forall|i: int| pos <= i < bits.len() ==> !bits[i],
    ensures
        forall|i: int| 0 <= i < gaps_from(bits, pos, p).len() ==> gaps_from(bits, pos, p)[i] == 0,
    decreases bits.len() - pos,
{
    if pos < bits.len() {
        lemma_unary(bits, pos, 0);
        let next = pos + 1 + p;
        if next <= bits.len() {
            let low = bits.subrange(pos + 1, next);
            vstd::arithmetic::power2::lemma_pow2_pos(p);
            lemma_low_bits_value(0, p);
            lemma_low_bits_zero(p);
            assert(low =~= low_bits(0, p));
            lemma_zero_gaps(bits, next, p);
            let rest = gaps_from(bits, next, p);
            assert(0 * pow2(p) == 0);
            assert(rice_at(bits, pos, p) == Some((0nat, next)));
            assert(gaps_from(bits, pos, p) == seq![0nat] + rest);
        }
    }
}

proof fn lemma_low_bits_zero(n: nat)
    ensures
        low_bits(0, n) == repeat(false, n),
    decreases n,
{
    if n > 0 {
        lemma_low_bits_zero((n - 1) as nat);
        assert(low_bits(0, n) =~= repeat(false, n));
    } else {
        assert(low_bits(0, n) =~= repeat(false, n));
    }
}

/// Zero gaps behind others hit nothing new.
proof fn lemma_zero_gaps_hit_nothing(gaps: Seq<nat>, zeros: Seq<nat>, base: nat, v: nat)
    requires
        forall|i: int| 0 <= i < zeros.len() ==> zeros[i] == 0,
        gaps.len() > 0 || base != v,
    ensures
        sums_hit(gaps + zeros, base, v) == sums_hit(gaps, base, v),
    decreases gaps.len() + zeros.len(),
{
    let all = gaps + zeros;
    if gaps.len() == 0 {
        assert(all =~= zeros);
        if zeros.len() > 0 {
            let rest = zeros.drop_first();
            assert(gaps + rest =~= rest);
            lemma_zero_gaps_hit_nothing(gaps, rest, base, v);
        }
    } else {
        assert(all.drop_first() =~= gaps.drop_first() + zeros);
        if base + gaps[0] != v {
            lemma_zero_gaps_hit_nothing(gaps.drop_first(), zeros, base + gaps[0], v);
        }
    }
}

/// Padding a coded set with zero bits, any number of them, changes no verdict.
pub proof fn trailing_zeros_cannot_create_a_match(gaps: Seq<nat>, p: nat, zeros: nat, v: nat)
    requires
        gaps.len() > 0,
    ensures
        sums_hit(gaps_from(encode(gaps, p) + repeat(false, zeros), 0, p), 0, v) == sums_hit(
            gaps,
            0,
            v,
        ),
{
    let tail = repeat(false, zeros);
    let bits = encode(gaps, p) + tail;
    let end = encode(gaps, p).len() as int;
    lemma_decode(gaps, p, tail, 0);
    assert(gaps.take(0) =~= Seq::<nat>::empty());
    assert(gaps.skip(0) =~= gaps);
    lemma_zero_gaps(bits, end, p);
    lemma_zero_gaps_hit_nothing(gaps, gaps_from(bits, end, p), 0, v);
}

/// Summing the gaps of an ascending list passes through each of its values.
proof fn lemma_gaps_reach(s: Seq<nat>, i: int, k: int)
    requires
        ascending(s),
        0 <= i <= k < s.len(),
    ensures
        sums_hit(
            gaps_of(s).skip(i),
            if i == 0 {
                0
            } else {
                s[i - 1]
            },
            s[k],
        ),
    decreases k - i,
{
    let g = gaps_of(s).skip(i);
    assert(g[0] == gaps_of(s)[i]);
    if i > 0 {
        assert(s[i - 1] < s[i]);
    }
    if i < k {
        lemma_gaps_reach(s, i + 1, k);
        assert(g.drop_first() =~= gaps_of(s).skip(i + 1));
    }
}

/// The filter `f` is the one of `name`, as [`GcsFilter::from_name`] leaves it.
pub open spec fn is_filter_of(f: GcsView, key: Seq<u8>, name: Seq<u8>) -> bool {
    &&& f.n == crate::tier0::prefixes(name).len()
    &&& f.bits() == name_bits(key, name)
    &&& f.body.len() == 24
    &&& forall|i: int| f.bit_len <= i < 192 ==> !(#[trigger] bit_at(f.body, i))
}

proof fn lemma_prefix_count(name: Seq<u8>)
    ensures
        1 <= crate::tier0::prefixes(name).len() <= 9,
{
}

/// The verdict of a name's filter on a value, with `zeros` padding bits behind it.
proof fn lemma_padded_verdict(key: Seq<u8>, name: Seq<u8>, zeros: nat, v: nat)
    ensures
        sums_hit(
            gaps_from(name_bits(key, name) + repeat(false, zeros), 0, GCS_P as nat),
            0,
            v,
        ) == sums_hit(
            gaps_of(values(key, name, crate::tier0::prefixes(name).len())),
            0,
            v,
        ),
{
    lemma_prefix_count(name);
    lemma_values(key, name, crate::tier0::prefixes(name).len());
    trailing_zeros_cannot_create_a_match(
        gaps_of(values(key, name, crate::tier0::prefixes(name).len())),
        GCS_P as nat,
        zeros,
        v,
    );
}

/// The filter of a name never misses: whichever ancestor of the name a receiver registers, the
/// filter accepts it.
pub proof fn filter_has_no_false_negatives(f: GcsView, key: Seq<u8>, name: Seq<u8>, p: Seq<u8>)
    requires
        is_filter_of(f, key, name),
        crate::tier0::is_ancestor(name, p),
    ensures
        f.accepts(key, p),
{
    let all = crate::tier0::prefixes(name);
    lemma_prefix_count(name);
    lemma_values(key, name, all.len());
    crate::tier0::clamped_ancestor_is_inserted(name, p);
    let q = p.take(crate::tier0::clamp_len(p));
    let j = choose|j: int| 0 <= j < all.len() && all[j] == q;
    let v = set_value(key, q, f.n);
    let s = values(key, name, all.len());
    assert(s.contains(set_value(key, all[j], all.len())));
    let k = choose|k: int| 0 <= k < s.len() && s[k] == v;
    lemma_gaps_reach(s, 0, k);
    assert(gaps_of(s).skip(0) =~= gaps_of(s));
    lemma_padded_verdict(key, name, 0, v);
    assert(name_bits(key, name) + repeat(false, 0) =~= name_bits(key, name));
}

/// What sums of gaps hit is a value of the list.
proof fn lemma_gaps_hit_values(s: Seq<nat>, i: int, v: nat)
    requires
        ascending(s),
        0 <= i <= s.len(),
        sums_hit(
            gaps_of(s).skip(i),
            if i == 0 {
                0
            } else {
                s[i - 1]
            },
            v,
        ),
    ensures
        s.contains(v),
    decreases s.len() - i,
{
    let g = gaps_of(s).skip(i);
    let base: nat = if i == 0 {
        0
    } else {
        s[i - 1]
    };
    assert(g.len() > 0);
    assert(g[0] == gaps_of(s)[i]);
    if i > 0 {
        assert(s[i - 1] < s[i]);
    }
    assert(base + g[0] == s[i]);
    if s[i] != v {
        assert(g.drop_first() =~= gaps_of(s).skip(i + 1));
        lemma_gaps_hit_values(s, i + 1, v);
    }
}

/// The values of a name come from its inserted prefixes.
proof fn lemma_values_come_from(key: Seq<u8>, name: Seq<u8>, j: nat, v: nat)
    requires
        j <= crate::tier0::prefixes(name).len(),
        values(key, name, j).contains(v),
    ensures
        exists|k: int|
            0 <= k < j && v == set_value(
                key,
                #[trigger] crate::tier0::prefixes(name)[k],
                crate::tier0::prefixes(name).len(),
            ),
    decreases j,
{
    if j > 0 {
        let all = crate::tier0::prefixes(name);
        let before = values(key, name, (j - 1) as nat);
        let w = set_value(key, all[j - 1], all.len());
        lemma_values(key, name, (j - 1) as nat);
        lemma_insert_sorted_keeps(before, w, all.len() * 256);
        let i = choose|i: int| 0 <= i < values(key, name, j).len() && values(key, name, j)[i] == v;
        assert(insert_sorted(before, w)[i] == v);
        if v == w {
            assert(v == set_value(key, all[j - 1], all.len()));
        } else {
            lemma_values_come_from(key, name, (j - 1) as nat, v);
        }
    }
}

/// A name's filter rejects exactly: it accepts a registered prefix if and only if the hash of what
/// is looked up, in the filter's range of 256 values to each inserted prefix, meets the hash of one
/// of the prefixes that were inserted for the name. A prefix that meets none of them is rejected.
pub proof fn filter_accepts_only_its_own_hashes(
    f: GcsView,
    key: Seq<u8>,
    name: Seq<u8>,
    asked_key: Seq<u8>,
    p: Seq<u8>,
)
    requires
        is_filter_of(f, key, name),
    ensures
        ({
            let inserted = crate::tier0::prefixes(name);
            let range: nat = inserted.len() * 256;
            let asked = p.take(crate::tier0::clamp_len(p));
            f.accepts(asked_key, p) <==> exists|j: int|
                0 <= j < inserted.len() && crate::tier0::siphash(asked_key, asked) as nat % range
                    == crate::tier0::siphash(key, #[trigger] inserted[j]) as nat % range
        }),
{
    let all = crate::tier0::prefixes(name);
    let asked = p.take(crate::tier0::clamp_len(p));
    let v = set_value(asked_key, asked, f.n);
    let s = values(key, name, all.len());
    lemma_prefix_count(name);
    lemma_values(key, name, all.len());
    lemma_padded_verdict(key, name, 0, v);
    assert(name_bits(key, name) + repeat(false, 0) =~= name_bits(key, name));
    assert(gaps_of(s).skip(0) =~= gaps_of(s));
    if f.accepts(asked_key, p) {
        lemma_gaps_hit_values(s, 0, v);
        lemma_values_come_from(key, name, all.len(), v);
        let j = choose|j: int|
            0 <= j < all.len() && v == set_value(key, #[trigger] all[j], all.len());
        assert(crate::tier0::siphash(asked_key, asked) as nat % (all.len() * 256)
            == crate::tier0::siphash(key, all[j]) as nat % (all.len() * 256));
    }
    if exists|j: int|
        0 <= j < all.len() && crate::tier0::siphash(asked_key, asked) as nat % (all.len() * 256)
            == crate::tier0::siphash(key, #[trigger] all[j]) as nat % (all.len() * 256) {
        let j = choose|j: int|
            0 <= j < all.len() && crate::tier0::siphash(asked_key, asked) as nat % (all.len()
                * 256) == crate::tier0::siphash(key, #[trigger] all[j]) as nat % (all.len() * 256);
        assert(set_value(key, all[j], all.len()) == v);
        assert(s.contains(v));
        let k = choose|k: int| 0 <= k < s.len() && s[k] == v;
        lemma_gaps_reach(s, 0, k);
    }
}

/// A name's filter is short: at least three bytes on the wire, and at most thirteen.
pub proof fn filter_is_short(f: GcsView, key: Seq<u8>, name: Seq<u8>)
    requires
        is_filter_of(f, key, name),
    ensures
        3 <= f.wire().len() <= 13,
{
    lemma_prefix_count(name);
    let n = crate::tier0::prefixes(name).len();
    let s = values(key, name, n);
    lemma_values(key, name, n);
    let g = gaps_of(s);
    let j = s.len() as int;
    assert(g.take(j) =~= g);
    lemma_code_len(s, j);
    assert(s[j - 1] < n * 256);
    lemma2_to64();
    lemma_low_bits_len(g.last() % 256, 8);
    assert(rice_bits(g.last(), GCS_P as nat).len() >= 9);
    assert(encode(g, GCS_P as nat).len() >= 9);
    assert(f.bits().len() == f.bit_len);
}

/// Sending a name's filter and reading it back changes no verdict, whatever key and prefix ask.
pub proof fn filter_survives_the_wire(
    f: GcsView,
    key: Seq<u8>,
    name: Seq<u8>,
    asked_key: Seq<u8>,
    p: Seq<u8>,
)
    requires
        is_filter_of(f, key, name),
        f.bit_len <= 192,
    ensures
        unwire(f.wire()).n == f.n,
        unwire(f.wire()).accepts(asked_key, p) == f.accepts(asked_key, p),
{
    lemma_prefix_count(name);
    let g = unwire(f.wire());
    let nb = f.wire_body_len();
    let body = f.wire().skip(1);
    assert(body =~= f.body.take(nb));
    let pad: nat = (8 * nb - f.bit_len) as nat;
    assert(g.bits() =~= f.bits() + repeat(false, pad)) by {
        assert forall|i: int| 0 <= i < 8 * nb implies g.bits()[i] == (f.bits() + repeat(
            false,
            pad,
        ))[i] by {
            assert(g.body[i / 8] == f.body[i / 8]);
            assert(bit_at(g.body, i) == bit_at(f.body, i));
        }
    }
    let v = set_value(asked_key, p.take(crate::tier0::clamp_len(p)), f.n);
    lemma_padded_verdict(key, name, pad, v);
    lemma_padded_verdict(key, name, 0, v);
    assert(name_bits(key, name) + repeat(false, 0) =~= name_bits(key, name));
}

} // verus!
