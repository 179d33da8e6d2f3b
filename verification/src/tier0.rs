//! The keyed name hash and the fixed-size prefix filter.
//!
//! A sender hashes every prefix of a name into a 126-bit filter that travels in address fields; a
//! receiver tests a registered prefix with a few bit probes, before any name is parsed. The hash is
//! SipHash-2-4 with 64-bit output, keyed so that a private group cannot be linked.

use vstd::prelude::*;

verus! {

/// The four words of the SipHash state.
#[derive(Clone, Copy)]
pub struct SipState {
    pub v0: u64,
    pub v1: u64,
    pub v2: u64,
    pub v3: u64,
}

/// `x` rotated left by `b` places, for `b` strictly between 0 and 64.
pub open spec fn rotl(x: u64, b: u64) -> u64 {
    (x << b) | (x >> ((64 - b) as u64))
}

fn rotate(x: u64, b: u64) -> (r: u64)
    requires
        0 < b < 64,
    ensures
        r == rotl(x, b),
{
    (x << b) | (x >> (64 - b))
}

/// One round of the SipHash permutation.
pub open spec fn sip_round(s: SipState) -> SipState {
    let a0 = s.v0.wrapping_add(s.v1);
    let a1 = rotl(s.v1, 13) ^ a0;
    let b0 = rotl(a0, 32);
    let a2 = s.v2.wrapping_add(s.v3);
    let a3 = rotl(s.v3, 16) ^ a2;
    let c0 = b0.wrapping_add(a3);
    let c3 = rotl(a3, 21) ^ c0;
    let c2 = a2.wrapping_add(a1);
    let c1 = rotl(a1, 17) ^ c2;
    SipState { v0: c0, v1: c1, v2: rotl(c2, 32), v3: c3 }
}

fn round(s: SipState) -> (r: SipState)
    ensures
        r == sip_round(s),
{
    let a0: u64 = s.v0.wrapping_add(s.v1);
    let a1: u64 = rotate(s.v1, 13) ^ a0;
    let b0: u64 = rotate(a0, 32);
    let a2: u64 = s.v2.wrapping_add(s.v3);
    let a3: u64 = rotate(s.v3, 16) ^ a2;
    let c0: u64 = b0.wrapping_add(a3);
    let c3: u64 = rotate(a3, 21) ^ c0;
    let c2: u64 = a2.wrapping_add(a1);
    let c1: u64 = rotate(a1, 17) ^ c2;
    SipState { v0: c0, v1: c1, v2: rotate(c2, 32), v3: c3 }
}

/// The little-endian value of the bytes `d[start..end]`, at most eight of them.
pub open spec fn le_word(d: Seq<u8>, start: int, end: int) -> u64
    decreases end - start,
{
    if start >= end {
        0
    } else {
        (le_word(d, start + 1, end) << 8u64) | (d[start] as u64)
    }
}

fn load_le(d: &[u8], start: usize, end: usize) -> (w: u64)
    requires
        start <= end <= d.len(),
    ensures
        w == le_word(d@, start as int, end as int),
{
    let mut w: u64 = 0;
    let mut i: usize = end;
    while i > start
        invariant
            start <= i <= end <= d.len(),
            w == le_word(d@, i as int, end as int),
        decreases i,
    {
        i -= 1;
        w = (w << 8u64) | (d[i] as u64);
    }
    w
}

/// Two rounds over one message word.
pub open spec fn sip_absorb(s: SipState, m: u64) -> SipState {
    let x = SipState { v0: s.v0, v1: s.v1, v2: s.v2, v3: s.v3 ^ m };
    let y = sip_round(sip_round(x));
    SipState { v0: y.v0 ^ m, v1: y.v1, v2: y.v2, v3: y.v3 }
}

fn absorb(s: SipState, m: u64) -> (r: SipState)
    ensures
        r == sip_absorb(s, m),
{
    let x = SipState { v0: s.v0, v1: s.v1, v2: s.v2, v3: s.v3 ^ m };
    let y = round(round(x));
    SipState { v0: y.v0 ^ m, v1: y.v1, v2: y.v2, v3: y.v3 }
}

/// The state after the key and the first `n` whole words of `d`.
pub open spec fn sip_words(key: Seq<u8>, d: Seq<u8>, n: nat) -> SipState
    decreases n,
{
    if n == 0 {
        let k0 = le_word(key, 0, 8);
        let k1 = le_word(key, 8, 16);
        SipState {
            v0: 0x736f_6d65_7073_6575 ^ k0,
            v1: 0x646f_7261_6e64_6f6d ^ k1,
            v2: 0x6c79_6765_6e65_7261 ^ k0,
            v3: 0x7465_6462_7974_6573 ^ k1,
        }
    } else {
        sip_absorb(sip_words(key, d, (n - 1) as nat), le_word(d, 8 * (n - 1), 8 * n as int))
    }
}

/// SipHash-2-4 of `d` under a sixteen-byte key: the whole words, then the tail with the length in
/// the top byte, then four rounds.
pub open spec fn siphash(key: Seq<u8>, d: Seq<u8>) -> u64 {
    let n: nat = d.len() / 8;
    let last = le_word(d, 8 * n as int, d.len() as int) | ((d.len() % 256) as u64) << 56u64;
    let s = sip_absorb(sip_words(key, d, n), last);
    let f = SipState { v0: s.v0, v1: s.v1, v2: s.v2 ^ 0xff, v3: s.v3 };
    let r = sip_round(sip_round(sip_round(sip_round(f))));
    r.v0 ^ r.v1 ^ r.v2 ^ r.v3
}

/// SipHash-2-4 with 64-bit output.
pub fn siphash24(key: &[u8; 16], data: &[u8]) -> (h: u64)
    ensures
        h == siphash(key@, data@),
{
    let k: &[u8] = key.as_slice();
    let k0: u64 = load_le(k, 0, 8);
    let k1: u64 = load_le(k, 8, 16);
    let mut s = SipState {
        v0: 0x736f_6d65_7073_6575 ^ k0,
        v1: 0x646f_7261_6e64_6f6d ^ k1,
        v2: 0x6c79_6765_6e65_7261 ^ k0,
        v3: 0x7465_6462_7974_6573 ^ k1,
    };
    let n: usize = data.len() / 8;
    let mut i: usize = 0;
    while i < n
        invariant
            0 <= i <= n == data.len() / 8,
            s == sip_words(key@, data@, i as nat),
        decreases n - i,
    {
        let m: u64 = load_le(data, 8 * i, 8 * i + 8);
        s = absorb(s, m);
        i += 1;
    }
    let tail: u64 = load_le(data, 8 * n, data.len());
    let last: u64 = tail | ((data.len() % 256) as u64) << 56u64;
    s = absorb(s, last);
    let f = SipState { v0: s.v0, v1: s.v1, v2: s.v2 ^ 0xff, v3: s.v3 };
    let r = round(round(round(round(f))));
    r.v0 ^ r.v1 ^ r.v2 ^ r.v3
}

/// Deepest prefix a sender inserts.
pub const MAX_DEPTH: usize = 8;

/// Filter bits that hold positions; the two below them are the address-type bits.
pub const M_BITS: u32 = 126;

/// Positions per prefix in the filter that ships.
pub const K: u32 = 4;

/// The positions in `1..upto` that hold a slash, ascending.
pub open spec fn cuts(name: Seq<u8>, upto: int) -> Seq<int>
    decreases upto,
{
    if upto <= 1 {
        Seq::empty()
    } else {
        let s = cuts(name, upto - 1);
        if name[upto - 1] == 0x2fu8 {
            s.push(upto - 1)
        } else {
            s
        }
    }
}

/// The root name.
pub open spec fn root() -> Seq<u8> {
    seq![0x2fu8]
}

/// The prefixes a sender inserts for `name`: the root, the name cut at each of its first seven
/// inner slashes, and the name itself where it has no more than seven.
pub open spec fn prefixes(name: Seq<u8>) -> Seq<Seq<u8>> {
    let c = cuts(name, name.len() as int);
    let inner = if c.len() <= 7 {
        c
    } else {
        c.take(7)
    };
    let whole: Seq<Seq<u8>> = if name.len() > 0 && c.len() <= 7 {
        seq![name]
    } else {
        Seq::empty()
    };
    seq![root()] + inner.map_values(|i: int| name.take(i)) + whole
}

/// How much of a registered prefix is compared: up to its seventh inner slash, all of it where
/// there are fewer.
pub open spec fn clamp_len(prefix: Seq<u8>) -> int {
    let c = cuts(prefix, prefix.len() as int);
    if c.len() >= 7 {
        c[6]
    } else {
        prefix.len() as int
    }
}

/// The views of a vector of byte strings.
pub open spec fn byte_strings(v: Seq<Vec<u8>>) -> Seq<Seq<u8>> {
    v.map_values(|b: Vec<u8>| b@)
}

fn bytes_of(s: &[u8], end: usize) -> (v: Vec<u8>)
    requires
        end <= s.len(),
    ensures
        v@ == s@.take(end as int),
{
    let mut v: Vec<u8> = Vec::new();
    let mut i: usize = 0;
    while i < end
        invariant
            i <= end <= s.len(),
            v@ == s@.take(i as int),
        decreases end - i,
    {
        v.push(s[i]);
        i += 1;
    }
    v
}

/// Every prefix of a slash-separated name that a sender inserts, root first.
pub fn for_each_prefix(name: &[u8]) -> (out: Vec<Vec<u8>>)
    ensures
        byte_strings(out@) == prefixes(name@),
        1 <= out.len() <= MAX_DEPTH + 1,
{
    let mut out: Vec<Vec<u8>> = Vec::new();
    let mut slash: Vec<u8> = Vec::new();
    slash.push(0x2f);
    out.push(slash);
    assert(byte_strings(out@) =~= seq![root()]);
    let mut depth: usize = 0;
    let mut i: usize = 1;
    while i < name.len()
        invariant
            1 <= i,
            i <= name.len() || (name.len() == 0 && i == 1),
            depth < MAX_DEPTH,
            depth == cuts(name@, i as int).len(),
            byte_strings(out@) == seq![root()] + cuts(name@, i as int).map_values(
                |j: int| name@.take(j),
            ),
        decreases name.len() - i,
    {
        if name[i] == 0x2f {
            depth += 1;
            if depth >= MAX_DEPTH {
                proof {
                    lemma_cuts_prefix(name@, i as int + 1, name@.len() as int);
                    let c = cuts(name@, name@.len() as int);
                    assert(cuts(name@, i as int) =~= c.take(7)) by {
                        assert(cuts(name@, i as int + 1).drop_last() =~= cuts(name@, i as int));
                    }
                    assert(prefixes(name@) =~= byte_strings(out@));
                }
                return out;
            }
            let p: Vec<u8> = bytes_of(name, i);
            let ghost before = out@;
            out.push(p);
            proof {
                assert(byte_strings(out@) =~= byte_strings(before).push(name@.take(i as int)));
                let c = cuts(name@, i as int);
                let f = |j: int| name@.take(j);
                assert(c.push(i as int).map_values(f) =~= c.map_values(f).push(
                    name@.take(i as int),
                ));
                assert((seq![root()] + c.map_values(f)).push(name@.take(i as int)) =~= seq![root()]
                    + c.map_values(f).push(name@.take(i as int)));
            }
        }
        i += 1;
    }
    proof {
        if name@.len() <= 1 {
            assert(cuts(name@, name@.len() as int) =~= cuts(name@, 1));
        }
    }
    if name.len() > 0 {
        let p: Vec<u8> = bytes_of(name, name.len());
        let ghost before = out@;
        out.push(p);
        proof {
            assert(name@.take(name@.len() as int) =~= name@);
            assert(byte_strings(out@) =~= byte_strings(before).push(name@));
        }
    }
    assert(prefixes(name@) =~= byte_strings(out@));
    out
}

/// The cuts below an earlier position are the first ones.
pub proof fn lemma_cuts_prefix(name: Seq<u8>, j: int, k: int)
    requires
        j <= k,
    ensures
        cuts(name, j).len() <= cuts(name, k).len(),
        cuts(name, j) == cuts(name, k).take(cuts(name, j).len() as int),
    decreases k - j,
{
    if j < k {
        lemma_cuts_prefix(name, j, k - 1);
        assert(cuts(name, j) =~= cuts(name, k).take(cuts(name, j).len() as int));
    } else {
        assert(cuts(name, j) =~= cuts(name, k).take(cuts(name, j).len() as int));
    }
}

/// Truncates a registered prefix to the deepest form a sender would have inserted.
pub fn clamp_prefix(prefix: &[u8]) -> (len: usize)
    ensures
        len == clamp_len(prefix@),
        len <= prefix.len(),
{
    let mut comps: usize = 0;
    let mut i: usize = 1;
    while i < prefix.len()
        invariant
            1 <= i,
            i <= prefix.len() || (prefix.len() == 0 && i == 1),
            comps == cuts(prefix@, i as int).len(),
            comps < 7,
        decreases prefix.len() - i,
    {
        if prefix[i] == 0x2f {
            comps += 1;
            if comps >= MAX_DEPTH - 1 {
                proof {
                    lemma_cuts_prefix(prefix@, i as int + 1, prefix@.len() as int);
                    assert(cuts(prefix@, i as int + 1)[6] == i);
                }
                return i;
            }
        }
        i += 1;
    }
    proof {
        if prefix@.len() <= 1 {
            assert(cuts(prefix@, prefix@.len() as int) =~= cuts(prefix@, 1));
        }
    }
    prefix.len()
}

/// The keyed hash of a name or prefix.
pub fn name_hash(key: &[u8; 16], name: &[u8]) -> (h: u64)
    ensures
        h == siphash(key@, name@),
{
    siphash24(key, name)
}

/// `p` names `name` itself, one of its ancestors, or the root.
pub open spec fn is_ancestor(name: Seq<u8>, p: Seq<u8>) -> bool {
    ||| p == root()
    ||| {
        &&& 0 < p.len() <= name.len()
        &&& p == name.take(p.len() as int)
        &&& p.len() == name.len() || name[p.len() as int] == 0x2fu8
    }
}

/// Cutting a name behind `k` does not move the cuts before `k`.
proof fn lemma_cuts_take(name: Seq<u8>, j: int, k: int)
    requires
        j <= k <= name.len(),
        0 <= k,
    ensures
        cuts(name.take(k), j) == cuts(name, j),
    decreases j,
{
    if j > 1 {
        lemma_cuts_take(name, j - 1, k);
    }
}

/// Every cut lies where it was counted.
proof fn lemma_cuts_range(name: Seq<u8>, k: int)
    ensures
        forall|i: int| 0 <= i < cuts(name, k).len() ==> 1 <= #[trigger] cuts(name, k)[i] < k,
    decreases k,
{
    if k > 1 {
        lemma_cuts_range(name, k - 1);
        assert forall|i: int| 0 <= i < cuts(name, k).len() implies 1 <= #[trigger] cuts(name, k)[i]
            < k by {
            if i < cuts(name, k - 1).len() {
                assert(cuts(name, k)[i] == cuts(name, k - 1)[i]);
            }
        }
    }
}

/// Whatever prefix of a name a receiver registers, what it looks up is one that the sender of that
/// name inserted: the depth cap loses nothing.
pub proof fn clamped_ancestor_is_inserted(name: Seq<u8>, p: Seq<u8>)
    requires
        is_ancestor(name, p),
    ensures
        prefixes(name).contains(p.take(clamp_len(p))),
{
    let c = cuts(name, name.len() as int);
    let cp = cuts(p, p.len() as int);
    let all = prefixes(name);
    if p == root() {
        assert(cp =~= Seq::empty());
        assert(p.take(1) =~= p);
        assert(all[0] == p.take(clamp_len(p)));
    } else {
        let n = p.len() as int;
        lemma_cuts_take(name, n, n);
        lemma_cuts_prefix(name, n, name.len() as int);
        lemma_cuts_range(name, name.len() as int);
        assert(cp == c.take(cp.len() as int));
        if cp.len() >= 7 {
            let cut = c[6];
            assert(cp[6] == cut);
            assert(1 <= cut < n) by {
                lemma_cuts_range(p, n);
            }
            assert(p.take(cut) =~= name.take(cut));
            assert(all[7] == name.take(cut));
        } else if n < name.len() {
            lemma_cuts_prefix(name, n + 1, name.len() as int);
            assert(cuts(name, n + 1) == cuts(name, n).push(n));
            assert(c[cp.len() as int] == cuts(name, n + 1)[cp.len() as int]);
            assert(p.take(n) =~= name.take(n));
            assert(all[1 + cp.len() as int] == name.take(n));
        } else {
            assert(p =~= name);
            assert(p.take(n) =~= name);
            assert(all[all.len() - 1] == name);
        }
    }
}

/// Slashes behind the first byte of a name, in its first `upto` bytes.
pub open spec fn inner_slashes(name: Seq<u8>, upto: int) -> nat
    decreases upto,
{
    if upto <= 1 {
        0
    } else {
        inner_slashes(name, upto - 1) + if name[upto - 1] == 0x2fu8 {
            1nat
        } else {
            0nat
        }
    }
}

proof fn lemma_cuts_count(name: Seq<u8>, upto: int)
    ensures
        cuts(name, upto).len() == inner_slashes(name, upto),
        forall|i: int|
            0 <= i < cuts(name, upto).len() ==> name[#[trigger] cuts(name, upto)[i]] == 0x2fu8
                && inner_slashes(name, cuts(name, upto)[i]) == i,
    decreases upto,
{
    if upto > 1 {
        lemma_cuts_count(name, upto - 1);
        let c = cuts(name, upto);
        assert forall|i: int| 0 <= i < c.len() implies name[#[trigger] c[i]] == 0x2fu8
            && inner_slashes(name, c[i]) == i by {
            if i < cuts(name, upto - 1).len() {
                assert(c[i] == cuts(name, upto - 1)[i]);
            }
        }
    }
}

/// What a receiver looks up is the registered prefix itself, unless it is deeper than seven
/// components; then it is its first seven, cut in front of the slash that follows them.
pub proof fn a_prefix_is_cut_only_when_too_deep(p: Seq<u8>)
    ensures
        inner_slashes(p, p.len() as int) < 7 ==> clamp_len(p) == p.len(),
        inner_slashes(p, p.len() as int) >= 7 ==> 1 <= clamp_len(p) < p.len() && p[clamp_len(p)]
            == 0x2fu8 && inner_slashes(p, clamp_len(p)) == 6,
{
    lemma_cuts_count(p, p.len() as int);
    lemma_cuts_range(p, p.len() as int);
    let c = cuts(p, p.len() as int);
    if c.len() >= 7 {
        assert(p[c[6]] == 0x2fu8);
    }
}

/// A sender inserts the root and then, in the order of their lengths, nothing but ancestors of the
/// name: each a part of the name that ends in front of a slash or with the name. Every ancestor with
/// fewer than seven inner slashes is among them.
pub proof fn only_ancestors_are_inserted(name: Seq<u8>, j: int, p: Seq<u8>)
    requires
        0 <= j < prefixes(name).len(),
    ensures
        1 <= prefixes(name).len() <= 9,
        prefixes(name)[0] == seq![0x2fu8],
        j > 0 ==> ({
            let q = prefixes(name)[j];
            &&& 0 < q.len() <= name.len()
            &&& q == name.take(q.len() as int)
            &&& q.len() == name.len() || name[q.len() as int] == 0x2fu8
            &&& inner_slashes(name, q.len() as int) == j - 1
        }),
        0 < p.len() <= name.len() && p == name.take(p.len() as int) && (p.len() == name.len()
            || name[p.len() as int] == 0x2fu8) && inner_slashes(p, p.len() as int) < 7
            ==> prefixes(name).contains(p),
{
    let c = cuts(name, name.len() as int);
    lemma_cuts_count(name, name.len() as int);
    lemma_cuts_range(name, name.len() as int);
    let inner = if c.len() <= 7 {
        c
    } else {
        c.take(7)
    };
    if j > 0 {
        if j - 1 < inner.len() {
            assert(prefixes(name)[j] == name.take(c[j - 1]));
            assert(name[c[j - 1]] == 0x2fu8);
        } else {
            assert(prefixes(name)[j] == name);
            assert(name.take(name.len() as int) =~= name);
        }
    }
    if 0 < p.len() <= name.len() && p == name.take(p.len() as int) && (p.len() == name.len()
        || name[p.len() as int] == 0x2fu8) && inner_slashes(p, p.len() as int) < 7 {
        a_prefix_is_cut_only_when_too_deep(p);
        clamped_ancestor_is_inserted(name, p);
        assert(p.take(p.len() as int) =~= p);
    }
}

/// Domain separator of the second hash.
pub const KEY2_DOMAIN: [u8; 16] = [
    0x6e, 0x64, 0x6e, 0x2f, 0x74, 0x69, 0x65, 0x72, 0x30, 0x2d, 0x68, 0x32, 0, 0, 0, 0,
];

/// The second hash key of a group: its key with the domain separator mixed in.
pub open spec fn second_key(key: Seq<u8>) -> Seq<u8> {
    Seq::new(16, |i: int| key[i] ^ KEY2_DOMAIN[i])
}

fn key2(key: &[u8; 16]) -> (k: [u8; 16])
    ensures
        k@ == second_key(key@),
{
    let mut k: [u8; 16] = *key;
    let mut i: usize = 0;
    while i < 16
        invariant
            i <= 16,
            forall|j: int| 0 <= j < i ==> k[j] == key[j] ^ KEY2_DOMAIN[j],
            forall|j: int| i <= j < 16 ==> k[j] == key[j],
        decreases 16 - i,
    {
        k[i] = k[i] ^ KEY2_DOMAIN[i];
        i += 1;
    }
    assert(k@ =~= second_key(key@));
    k
}

/// The filter position that probe `i` of a prefix touches.
pub open spec fn probe(key: Seq<u8>, prefix: Seq<u8>, i: u32) -> int {
    let h1 = siphash(key, prefix) as u32;
    let h2 = (siphash(second_key(key), prefix) as u32) | 1;
    h1.wrapping_add(i.wrapping_mul(h2)) % M_BITS + 2
}

/// Filter bit `i`, least significant first within each byte.
pub open spec fn filter_bit(bits: Seq<u8>, i: int) -> bool {
    (bits[i / 8] >> ((i % 8) as u8)) & 1 == 1
}

/// The first `k` probes of a prefix touch position `i`.
pub open spec fn probed(key: Seq<u8>, prefix: Seq<u8>, k: u32, i: int) -> bool {
    exists|j: u32| j < k && #[trigger] probe(key, prefix, j) == i
}

proof fn lemma_set_bit(x: u8, a: u8, b: u8)
    by (bit_vector)
    requires
        a < 8,
        b < 8,
    ensures
        ((x | (1u8 << a)) >> b) & 1 == (if a == b {
            1
        } else {
            (x >> b) & 1
        }),
{
}

proof fn lemma_test_bit(x: u8, a: u8)
    by (bit_vector)
    requires
        a < 8,
    ensures
        (x & (1u8 << a) == 0) <==> !((x >> a) & 1 == 1),
{
}

/// `after` is `before` with the `k` probes of a prefix marked, and nothing else changed.
pub open spec fn marks(
    before: Seq<u8>,
    after: Seq<u8>,
    key: Seq<u8>,
    prefix: Seq<u8>,
    k: u32,
) -> bool {
    forall|i: int|
        0 <= i < 128 ==> (#[trigger] filter_bit(after, i) <==> filter_bit(before, i) || probed(
            key,
            prefix,
            k,
            i,
        ))
}

/// Marks the `k` probes of a prefix, leaving every other bit as it was.
pub fn set_bits(bits: &mut [u8; 16], key: &[u8; 16], prefix: &[u8], k: u32)
    ensures
        marks(old(bits)@, final(bits)@, key@, prefix@, k),
{
    let h1: u32 = name_hash(key, prefix) as u32;
    let second: [u8; 16] = key2(key);
    let h2: u32 = (name_hash(&second, prefix) as u32) | 1;
    let mut i: u32 = 0;
    let ghost start = bits@;
    while i < k
        invariant
            i <= k,
            h1 == siphash(key@, prefix@) as u32,
            h2 == (siphash(second_key(key@), prefix@) as u32) | 1,
            forall|b: int|
                0 <= b < 128 ==> (#[trigger] filter_bit(bits@, b) <==> filter_bit(start, b)
                    || probed(key@, prefix@, i, b)),
        decreases k - i,
    {
        let pos: usize = (h1.wrapping_add(i.wrapping_mul(h2)) % M_BITS) as usize + 2;
        let ghost before = bits@;
        bits[pos / 8] = bits[pos / 8] | (1u8 << ((pos % 8) as u8));
        proof {
            assert(pos == probe(key@, prefix@, i));
            assert forall|b: int| 0 <= b < 128 implies (#[trigger] filter_bit(bits@, b)
                <==> filter_bit(start, b) || probed(key@, prefix@, (i + 1) as u32, b)) by {
                lemma_set_bit(before[pos as int / 8], (pos % 8) as u8, (b % 8) as u8);
                assert(filter_bit(bits@, b) <==> filter_bit(before, b) || b == pos);
                if probed(key@, prefix@, (i + 1) as u32, b) {
                    let j = choose|j: u32| j < i + 1 && #[trigger] probe(key@, prefix@, j) == b;
                    if j < i {
                        assert(probed(key@, prefix@, i, b));
                    }
                }
                if probed(key@, prefix@, i, b) {
                    let j = choose|j: u32| j < i && #[trigger] probe(key@, prefix@, j) == b;
                    assert(j < i + 1 && probe(key@, prefix@, j) == b);
                }
            }
        }
        i += 1;
    }
}

/// Every one of the `k` probes of a prefix is marked.
pub open spec fn holds(bits: Seq<u8>, key: Seq<u8>, prefix: Seq<u8>, k: u32) -> bool {
    forall|j: u32| j < k ==> filter_bit(bits, #[trigger] probe(key, prefix, j))
}

/// Tests the `k` probes of a prefix.
pub fn contains(bits: &[u8; 16], key: &[u8; 16], prefix: &[u8], k: u32) -> (found: bool)
    ensures
        found <==> holds(bits@, key@, prefix@, k),
{
    let h1: u32 = name_hash(key, prefix) as u32;
    let second: [u8; 16] = key2(key);
    let h2: u32 = (name_hash(&second, prefix) as u32) | 1;
    let mut i: u32 = 0;
    while i < k
        invariant
            i <= k,
            h1 == siphash(key@, prefix@) as u32,
            h2 == (siphash(second_key(key@), prefix@) as u32) | 1,
            holds(bits@, key@, prefix@, i),
        decreases k - i,
    {
        let pos: usize = (h1.wrapping_add(i.wrapping_mul(h2)) % M_BITS) as usize + 2;
        proof {
            assert(pos == probe(key@, prefix@, i));
            lemma_test_bit(bits@[pos as int / 8], (pos % 8) as u8);
        }
        if bits[pos / 8] & (1u8 << ((pos % 8) as u8)) == 0 {
            return false;
        }
        i += 1;
    }
    true
}

/// How many of the first `n` positions are marked.
pub open spec fn marked(bits: Seq<u8>, n: int) -> nat
    decreases n,
{
    if n <= 0 {
        0
    } else {
        marked(bits, n - 1) + if filter_bit(bits, n - 1 + 2) {
            1nat
        } else {
            0nat
        }
    }
}

/// Counts the marked positions of a filter.
pub fn popcount(bits: &[u8; 16]) -> (n: u32)
    ensures
        n == marked(bits@, M_BITS as int),
        n <= M_BITS,
{
    let mut n: u32 = 0;
    let mut p: usize = 0;
    while p < M_BITS as usize
        invariant
            p <= M_BITS,
            n <= p,
            n == marked(bits@, p as int),
        decreases M_BITS - p,
    {
        let q: usize = p + 2;
        proof {
            lemma_test_bit(bits@[q as int / 8], (q % 8) as u8);
        }
        if bits[q / 8] & (1u8 << ((q % 8) as u8)) != 0 {
            n += 1;
        }
        p += 1;
    }
    n
}

/// A prefix whose probes were marked is found, and marking never hides one that was found before.
pub proof fn marked_prefix_is_found(
    before: Seq<u8>,
    after: Seq<u8>,
    key: Seq<u8>,
    prefix: Seq<u8>,
    k: u32,
)
    requires
        marks(before, after, key, prefix, k),
    ensures
        holds(after, key, prefix, k),
        forall|other: Seq<u8>, n: u32|
            #![trigger holds(after, key, other, n)]
            holds(before, key, other, n) ==> holds(after, key, other, n),
{
    assert forall|j: u32| j < k implies filter_bit(after, #[trigger] probe(key, prefix, j)) by {
        assert(probed(key, prefix, k, probe(key, prefix, j)));
    }
    assert forall|other: Seq<u8>, n: u32|
        #![trigger holds(after, key, other, n)]
        holds(before, key, other, n) implies holds(after, key, other, n) by {
        assert forall|j: u32| j < n implies filter_bit(after, #[trigger] probe(key, other, j)) by {
            assert(filter_bit(before, probe(key, other, j)));
        }
    }
}

/// Some inserted prefix of `name`, among the first `n`, probes position `i`.
pub open spec fn name_probes(key: Seq<u8>, name: Seq<u8>, k: u32, n: int, i: int) -> bool {
    exists|j: int| 0 <= j < n && #[trigger] probed(key, prefixes(name)[j], k, i)
}

/// The bits of `name`'s filter are the probes of its inserted prefixes.
pub open spec fn is_name_filter(bits: Seq<u8>, key: Seq<u8>, name: Seq<u8>, k: u32) -> bool {
    forall|i: int|
        0 <= i < 128 ==> (#[trigger] filter_bit(bits, i) <==> name_probes(
            key,
            name,
            k,
            prefixes(name).len() as int,
            i,
        ))
}

/// Builds the filter that travels with a name: the probes of every inserted prefix.
pub fn name_filter(key: &[u8; 16], name: &[u8], k: u32) -> (bits: [u8; 16])
    ensures
        is_name_filter(bits@, key@, name@, k),
{
    let mut bits: [u8; 16] = [0u8; 16];
    let all: Vec<Vec<u8>> = for_each_prefix(name);
    let mut j: usize = 0;
    proof {
        assert(0u8 >> 0u8 == 0 && 0u8 & 1 == 0) by (bit_vector);
        assert forall|i: int| 0 <= i < 128 implies !(#[trigger] filter_bit(bits@, i)) by {
            let b: u8 = (i % 8) as u8;
            assert((0u8 >> b) & 1 == 0) by (bit_vector);
        }
    }
    while j < all.len()
        invariant
            j <= all.len(),
            byte_strings(all@) == prefixes(name@),
            forall|i: int|
                0 <= i < 128 ==> (#[trigger] filter_bit(bits@, i) <==> name_probes(
                    key@,
                    name@,
                    k,
                    j as int,
                    i,
                )),
        decreases all.len() - j,
    {
        let ghost before = bits@;
        assert(all@[j as int]@ == prefixes(name@)[j as int]) by {
            assert(byte_strings(all@)[j as int] == all@[j as int]@);
        }
        set_bits(&mut bits, key, all[j].as_slice(), k);
        proof {
            assert forall|i: int| 0 <= i < 128 implies (#[trigger] filter_bit(bits@, i)
                <==> name_probes(key@, name@, k, j as int + 1, i)) by {
                assert(filter_bit(bits@, i) <==> filter_bit(before, i) || probed(
                    key@,
                    prefixes(name@)[j as int],
                    k,
                    i,
                ));
            }
        }
        j += 1;
    }
    bits
}

/// The filter of a name never misses: every ancestor a receiver registers is found in it.
pub proof fn name_filter_has_no_false_negatives(
    bits: Seq<u8>,
    key: Seq<u8>,
    name: Seq<u8>,
    p: Seq<u8>,
    k: u32,
)
    requires
        is_name_filter(bits, key, name, k),
        is_ancestor(name, p),
    ensures
        holds(bits, key, p.take(clamp_len(p)), k),
{
    clamped_ancestor_is_inserted(name, p);
    let q = p.take(clamp_len(p));
    let n = choose|n: int| 0 <= n < prefixes(name).len() && prefixes(name)[n] == q;
    assert forall|j: u32| j < k implies filter_bit(bits, #[trigger] probe(key, q, j)) by {
        assert(probed(key, prefixes(name)[n], k, probe(key, q, j)));
    }
}

/// Some prefix that is inserted for `name` probes position `i`.
pub open spec fn is_shared(key: Seq<u8>, name: Seq<u8>, k: u32, i: int) -> bool {
    exists|n: int, m: u32|
        0 <= n < prefixes(name).len() && m < k && #[trigger] probe(key, prefixes(name)[n], m) == i
}

proof fn lemma_shared(bits: Seq<u8>, key: Seq<u8>, name: Seq<u8>, k: u32, i: int)
    requires
        is_name_filter(bits, key, name, k),
        0 <= i < 128,
    ensures
        filter_bit(bits, i) <==> is_shared(key, name, k, i),
{
    let last = prefixes(name).len() as int;
    assert(filter_bit(bits, i) <==> name_probes(key, name, k, last, i));
    if name_probes(key, name, k, last, i) {
        let n = choose|n: int| 0 <= n < last && #[trigger] probed(key, prefixes(name)[n], k, i);
        let m = choose|m: u32| m < k && #[trigger] probe(key, prefixes(name)[n], m) == i;
        assert(probe(key, prefixes(name)[n], m) == i);
    }
    if is_shared(key, name, k, i) {
        let (n, m) = choose|n: int, m: u32|
            0 <= n < last && m < k && #[trigger] probe(key, prefixes(name)[n], m) == i;
        assert(probed(key, prefixes(name)[n], k, i));
    }
}

/// A name's filter finds exactly: a prefix is found in it if and only if every position that the
/// prefix probes is also probed by some prefix that was inserted for the name. One position of its
/// own is enough to be rejected.
pub proof fn name_filter_finds_only_shared_probes(
    bits: Seq<u8>,
    key: Seq<u8>,
    name: Seq<u8>,
    p: Seq<u8>,
    k: u32,
)
    requires
        is_name_filter(bits, key, name, k),
    ensures
        holds(bits, key, p, k) <==> forall|j: u32|
            j < k ==> is_shared(key, name, k, #[trigger] probe(key, p, j)),
{
    assert forall|j: u32|
        #![trigger probe(key, p, j)]
        j < k implies (filter_bit(bits, probe(key, p, j)) <==> is_shared(
        key,
        name,
        k,
        probe(key, p, j),
    )) by {
        lemma_probe_range(key, p, j);
        lemma_shared(bits, key, name, k, probe(key, p, j));
    }
}

proof fn lemma_probe_range(key: Seq<u8>, p: Seq<u8>, j: u32)
    ensures
        2 <= probe(key, p, j) < 128,
{
}

/// Probes lie behind the two lowest bits, which are not the filter's. The first is where the low word
/// of the hash falls; from there each next one is the same odd stride on, modulo the word and then
/// the filter, and the stride is the low word of the second hash made odd.
pub proof fn probes_keep_their_stride(key: Seq<u8>, prefix: Seq<u8>, j: u32)
    requires
        j < u32::MAX,
    ensures
        probe(key, prefix, 0) == siphash(key, prefix) as u32 % 126 + 2,
        exists|here: u32, next: u32|
            #![trigger here.wrapping_sub(next)]
            {
                let stride = (siphash(second_key(key), prefix) as u32) | 1;
                &&& stride % 2 == 1
                &&& next == here.wrapping_add(stride)
                &&& probe(key, prefix, j) == here % 126 + 2
                &&& probe(key, prefix, (j + 1) as u32) == next % 126 + 2
                &&& j == 0 ==> here == siphash(key, prefix) as u32
            },
{
    let h1 = siphash(key, prefix) as u32;
    let h2 = (siphash(second_key(key), prefix) as u32) | 1;
    let n: u32 = (j + 1) as u32;
    let word = siphash(second_key(key), prefix) as u32;
    assert((word | 1) % 2 == 1) by (bit_vector);
    let here = h1.wrapping_add(j.wrapping_mul(h2));
    let next = h1.wrapping_add(n.wrapping_mul(h2));
    lemma_next_multiple(j, h2);
    assert(next == here.wrapping_add(h2));
    assert(0u32.wrapping_mul(h2) == 0);
    let w = here.wrapping_sub(next);
}

proof fn lemma_next_multiple(j: u32, h: u32)
    requires
        j < u32::MAX,
    ensures
        ((j + 1) as u32).wrapping_mul(h) == j.wrapping_mul(h).wrapping_add(h),
{
    let a: int = j * h;
    assert((j + 1) * h == a + h) by (nonlinear_arith)
        requires
            a == j * h,
    ;
    assert(a >= 0) by (nonlinear_arith)
        requires
            a == j * h,
    ;
    vstd::arithmetic::div_mod::lemma_add_mod_noop(a, h as int, 0x1_0000_0000);
    let r: int = a % 0x1_0000_0000;
    assert(0 <= r < 0x1_0000_0000);
    assert((r + h) % 0x1_0000_0000 == if r + h >= 0x1_0000_0000 {
        r + h - 0x1_0000_0000
    } else {
        r + h
    });
}

/// A filter as it travels in the address fields.
#[derive(Clone, Copy)]
pub struct PrefixFilter(pub [u8; 16]);

/// Every bit of `mask` is set in `frame`.
pub open spec fn covers(frame: Seq<u8>, mask: Seq<u8>) -> bool {
    forall|i: int| 0 <= i < 128 && filter_bit(mask, i) ==> #[trigger] filter_bit(frame, i)
}

/// Bit `b` is set in `m` and clear in `f`.
spec fn lacks(f: u8, m: u8, b: u8) -> bool {
    (m >> b) & 1 == 1 && !((f >> b) & 1 == 1)
}

proof fn lemma_byte_covers(f: u8, m: u8)
    by (bit_vector)
    ensures
        (f & m != m) <==> (lacks(f, m, 0) || lacks(f, m, 1) || lacks(f, m, 2) || lacks(f, m, 3)
            || lacks(f, m, 4) || lacks(f, m, 5) || lacks(f, m, 6) || lacks(f, m, 7)),
{
}

impl PrefixFilter {
    /// Could the frame that carries this filter be wanted under `mask`?
    pub fn may_match(&self, mask: &PrefixFilter) -> (wanted: bool)
        ensures
            wanted <==> covers(self.0@, mask.0@),
    {
        let mut i: usize = 0;
        while i < 16
            invariant
                i <= 16,
                forall|b: int|
                    0 <= b < 8 * i && filter_bit(mask.0@, b) ==> #[trigger] filter_bit(self.0@, b),
            decreases 16 - i,
        {
            proof {
                lemma_byte_covers(self.0@[i as int], mask.0@[i as int]);
            }
            if self.0[i] & mask.0[i] != mask.0[i] {
                proof {
                    let b = choose|b: u8|
                        b < 8 && #[trigger] lacks(self.0@[i as int], mask.0@[i as int], b);
                    assert(!filter_bit(self.0@, 8 * i + b));
                    assert(filter_bit(mask.0@, 8 * i + b));
                }
                return false;
            }
            proof {
                assert forall|b: int| 0 <= b < 8 * (i + 1) && filter_bit(mask.0@, b) implies
                    #[trigger] filter_bit(self.0@, b) by {
                    if b >= 8 * i {
                        assert(!lacks(self.0@[i as int], mask.0@[i as int], (b % 8) as u8));
                    }
                }
            }
            i += 1;
        }
        true
    }
}

/// A mask that holds the probes of one prefix and nothing else asks exactly for that prefix.
pub proof fn mask_asks_for_its_prefix(
    empty: Seq<u8>,
    mask: Seq<u8>,
    frame: Seq<u8>,
    key: Seq<u8>,
    prefix: Seq<u8>,
    k: u32,
)
    requires
        forall|i: int| 0 <= i < 128 ==> !(#[trigger] filter_bit(empty, i)),
        marks(empty, mask, key, prefix, k),
    ensures
        covers(frame, mask) <==> holds(frame, key, prefix, k),
{
    if covers(frame, mask) {
        assert forall|j: u32| j < k implies filter_bit(frame, #[trigger] probe(key, prefix, j)) by {
            let i = probe(key, prefix, j);
            assert(probed(key, prefix, k, i));
            assert(filter_bit(mask, i));
        }
    }
    if holds(frame, key, prefix, k) {
        assert forall|i: int| 0 <= i < 128 && filter_bit(mask, i) implies #[trigger] filter_bit(
            frame,
            i,
        ) by {
            assert(!filter_bit(empty, i));
            let j = choose|j: u32| j < k && #[trigger] probe(key, prefix, j) == i;
            assert(filter_bit(frame, probe(key, prefix, j)));
        }
    }
}

/// A frame's filter covers a mask exactly if in each of the sixteen bytes the mask adds nothing to
/// what the frame has.
pub proof fn covering_is_bytewise(frame: Seq<u8>, mask: Seq<u8>)
    ensures
        covers(frame, mask) <==> forall|b: int|
            0 <= b < 16 ==> frame[b] & #[trigger] mask[b] == mask[b],
{
    if forall|b: int| 0 <= b < 16 ==> frame[b] & #[trigger] mask[b] == mask[b] {
        assert forall|i: int| 0 <= i < 128 && filter_bit(mask, i) implies #[trigger] filter_bit(
            frame,
            i,
        ) by {
            let b = i / 8;
            lemma_byte_covers(frame[b], mask[b]);
            assert(frame[b] & mask[b] == mask[b]);
            assert(!lacks(frame[b], mask[b], (i % 8) as u8));
        }
    }
    if covers(frame, mask) {
        assert forall|b: int| 0 <= b < 16 implies frame[b] & #[trigger] mask[b] == mask[b] by {
            lemma_byte_covers(frame[b], mask[b]);
            if frame[b] & mask[b] != mask[b] {
                let k = choose|k: u8| k < 8 && #[trigger] lacks(frame[b], mask[b], k);
                assert((8 * b + k) / 8 == b && (8 * b + k) % 8 == k);
                assert(filter_bit(mask, 8 * b + k));
                assert(!filter_bit(frame, 8 * b + k));
            }
        }
    }
}

/// The count of marked bits is the count of bits: none marked count 0, and a filter with one bit more
/// counts one more; the two lowest bits, which no probe reaches, do not count.
pub proof fn one_bit_more_counts_one_more(a: Seq<u8>, b: Seq<u8>, i: int, n: int)
    requires
        0 <= i < 128,
        0 <= n <= 126,
        !filter_bit(a, i),
        filter_bit(b, i),
        forall|k: int| 0 <= k < 128 && k != i ==> (#[trigger] filter_bit(a, k) <==> filter_bit(b, k)),
    ensures
        marked(b, n) == marked(a, n) + if 2 <= i < n + 2 {
            1nat
        } else {
            0nat
        },
        (forall|k: int| 0 <= k < 128 ==> !(#[trigger] filter_bit(a, k))) ==> marked(a, n) == 0,
        marked(a, n) <= n,
    decreases n,
{
    if n > 0 {
        one_bit_more_counts_one_more(a, b, i, n - 1);
        assert(n + 1 != i ==> (filter_bit(a, n + 1) <==> filter_bit(b, n + 1)));
    }
}

} // verus!
