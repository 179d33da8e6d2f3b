//! The accuracy of the fixed filter, measured on generated names.

use vstd::prelude::*;

use crate::lab::names::{make_disjoint_name, make_trial_name};
use crate::tier0::{contains, for_each_prefix, name_filter, popcount};

verus! {

/// Names of the other namespace that are asked for in one trial.
pub const TRIALS: u32 = 20_000;
/// Names per number of probes in the sweep.
pub const SWEEP_NAMES: u32 = 12;

/// What a trial found.
#[derive(Clone, Copy, PartialEq, Eq, Structural)]
pub struct Trial {
    /// Bits set in the filter.
    pub bits: u32,
    /// Names of the other namespace that the filter let through.
    pub false_pos: u32,
    /// Prefixes of the name itself that the filter rejected.
    pub false_neg: u32,
}

/// How many of the first `n` names of the other namespace a filter lets through; their depth runs
/// from one to `span`, their salt from `salt`.
pub open spec fn let_through(
    bits: Seq<u8>,
    key: Seq<u8>,
    k: u32,
    span: int,
    salt: int,
    n: int,
) -> int
    decreases n,
{
    if n <= 0 {
        0
    } else {
        let asked = crate::lab::names::disjoint_name(1 + (n - 1) % span, (salt + n - 1) as u32);
        let_through(bits, key, k, span, salt, n - 1) + if crate::tier0::holds(bits, key, asked, k) {
            1int
        } else {
            0int
        }
    }
}

/// How many of the first `n` prefixes of a name a filter rejects.
pub open spec fn missed(bits: Seq<u8>, key: Seq<u8>, name: Seq<u8>, k: u32, n: int) -> int
    decreases n,
{
    if n <= 0 {
        0
    } else {
        missed(bits, key, name, k, n - 1) + if crate::tier0::holds(
            bits,
            key,
            crate::tier0::prefixes(name)[n - 1],
            k,
        ) {
            0int
        } else {
            1int
        }
    }
}

/// Counts the prefixes of a name that a filter rejects. The filter need not be the name's own.
pub fn count_false_neg(bits: &[u8; 16], key: &[u8; 16], name: &[u8], k: u32) -> (n: u32)
    ensures
        n == missed(bits@, key@, name@, k, crate::tier0::prefixes(name@).len() as int),
        n <= 9,
{
    let all: Vec<Vec<u8>> = for_each_prefix(name);
    let mut n: u32 = 0;
    let mut i: usize = 0;
    assert(crate::tier0::byte_strings(all@).len() == all.len());
    while i < all.len()
        invariant
            i <= all.len() <= 9,
            n <= i,
            n == missed(bits@, key@, name@, k, i as int),
            crate::tier0::byte_strings(all@) == crate::tier0::prefixes(name@),
            crate::tier0::byte_strings(all@).len() == all.len(),
        decreases all.len() - i,
    {
        assert(crate::tier0::byte_strings(all@)[i as int] == all@[i as int]@);
        if !contains(bits, key, all[i].as_slice(), k) {
            n = n + 1;
        }
        i += 1;
    }
    n
}

/// A name's own filter rejects none of its prefixes.
pub proof fn own_prefixes_are_never_missed(
    bits: Seq<u8>,
    key: Seq<u8>,
    name: Seq<u8>,
    k: u32,
    n: int,
)
    requires
        crate::tier0::is_name_filter(bits, key, name, k),
        n <= crate::tier0::prefixes(name).len(),
    ensures
        missed(bits, key, name, k, n) == 0,
    decreases n,
{
    if n > 0 {
        own_prefixes_are_never_missed(bits, key, name, k, n - 1);
        lemma_inserted_is_held(bits, key, name, k, n - 1);
    }
}

proof fn lemma_inserted_is_held(bits: Seq<u8>, key: Seq<u8>, name: Seq<u8>, k: u32, n: int)
    requires
        crate::tier0::is_name_filter(bits, key, name, k),
        0 <= n < crate::tier0::prefixes(name).len(),
    ensures
        crate::tier0::holds(bits, key, crate::tier0::prefixes(name)[n], k),
{
    let q = crate::tier0::prefixes(name)[n];
    assert forall|j: u32| j < k implies crate::tier0::filter_bit(
        bits,
        #[trigger] crate::tier0::probe(key, q, j),
    ) by {
        assert(crate::tier0::probed(key, q, k, crate::tier0::probe(key, q, j)));
    }
}

/// Counts the names of the other namespace that a filter lets through.
pub fn count_false_pos(
    bits: &[u8; 16],
    key: &[u8; 16],
    k: u32,
    span: usize,
    salt: u32,
    trials: u32,
) -> (n: u32)
    requires
        1 <= span <= 8,
        salt + trials <= u32::MAX,
    ensures
        n == let_through(bits@, key@, k, span as int, salt as int, trials as int),
        n <= trials,
{
    let mut buf: [u8; 40] = [0u8; 40];
    let mut n: u32 = 0;
    let mut t: u32 = 0;
    while t < trials
        invariant
            t <= trials,
            n <= t,
            1 <= span <= 8,
            salt + trials <= u32::MAX,
            n == let_through(bits@, key@, k, span as int, salt as int, t as int),
        decreases trials - t,
    {
        let depth: usize = 1 + t as usize % span;
        let m: usize = make_disjoint_name(&mut buf, depth, salt + t);
        let asked: &[u8] = vstd::slice::slice_subrange(buf.as_slice(), 0, m);
        assert(asked@ =~= crate::lab::names::disjoint_name(
            1 + t as int % span as int,
            (salt + t) as u32,
        ));
        if contains(bits, key, asked, k) {
            n = n + 1;
        }
        t += 1;
    }
    n
}

/// The filter of a name.
pub open spec fn filter_of(key: Seq<u8>, name: Seq<u8>, k: u32) -> Seq<u8> {
    choose|bits: Seq<u8>| #[trigger] crate::tier0::is_name_filter(bits, key, name, k)
}

/// Bits set in the filter of a trial name.
pub open spec fn trial_bits(key: Seq<u8>, k: u32, depth: int, name_salt: u32) -> nat {
    crate::tier0::marked(
        filter_of(key, crate::lab::names::trial_name(depth, name_salt), k),
        126,
    )
}

/// Names of the other namespace that the filter of a trial name lets through.
pub open spec fn trial_passes(
    key: Seq<u8>,
    k: u32,
    depth: int,
    name_salt: u32,
    salt: int,
    trials: int,
) -> int {
    let_through(
        filter_of(key, crate::lab::names::trial_name(depth, name_salt), k),
        key,
        k,
        depth,
        salt,
        trials,
    )
}

/// Two filters of one name have the same bits, so they count the same.
proof fn lemma_same_marks(
    a: Seq<u8>,
    b: Seq<u8>,
    key: Seq<u8>,
    name: Seq<u8>,
    k: u32,
    n: int,
)
    requires
        crate::tier0::is_name_filter(a, key, name, k),
        crate::tier0::is_name_filter(b, key, name, k),
        n <= 126,
    ensures
        crate::tier0::marked(a, n) == crate::tier0::marked(b, n),
    decreases n,
{
    if n > 0 {
        lemma_same_marks(a, b, key, name, k, n - 1);
        assert(crate::tier0::filter_bit(a, n + 1) == crate::tier0::filter_bit(b, n + 1));
    }
}

/// Two filters of one name let the same names through.
proof fn lemma_same_passes(
    a: Seq<u8>,
    b: Seq<u8>,
    key: Seq<u8>,
    name: Seq<u8>,
    k: u32,
    span: int,
    salt: int,
    n: int,
)
    requires
        crate::tier0::is_name_filter(a, key, name, k),
        crate::tier0::is_name_filter(b, key, name, k),
    ensures
        let_through(a, key, k, span, salt, n) == let_through(b, key, k, span, salt, n),
    decreases n,
{
    if n > 0 {
        lemma_same_passes(a, b, key, name, k, span, salt, n - 1);
        let asked = crate::lab::names::disjoint_name(1 + (n - 1) % span, (salt + n - 1) as u32);
        assert forall|j: u32| crate::tier0::filter_bit(
            a,
            #[trigger] crate::tier0::probe(key, asked, j),
        ) == crate::tier0::filter_bit(b, crate::tier0::probe(key, asked, j)) by {
            let i = crate::tier0::probe(key, asked, j);
            assert(0 <= i < 128);
            assert(crate::tier0::filter_bit(a, i) == crate::tier0::filter_bit(b, i));
        }
        assert(crate::tier0::holds(a, key, asked, k) == crate::tier0::holds(b, key, asked, k));
    }
}

/// One trial: the filter of the trial name of `depth` and `name_salt`, asked about itself and
/// about `trials` names of the other namespace.
pub fn trial(
    key: &[u8; 16],
    k: u32,
    depth: usize,
    name_salt: u32,
    salt: u32,
    trials: u32,
) -> (r: Trial)
    requires
        1 <= depth <= 8,
        salt + trials <= u32::MAX,
    ensures
        r.false_neg == 0,
        r.bits == trial_bits(key@, k, depth as int, name_salt),
        r.false_pos == trial_passes(
            key@,
            k,
            depth as int,
            name_salt,
            salt as int,
            trials as int,
        ),
        r.bits <= 126,
        r.false_pos <= trials,
{
    let mut buf: [u8; 40] = [0u8; 40];
    let n: usize = make_trial_name(&mut buf, depth, name_salt);
    let name: &[u8] = vstd::slice::slice_subrange(buf.as_slice(), 0, n);
    assert(name@ =~= crate::lab::names::trial_name(depth as int, name_salt));
    let bits: [u8; 16] = name_filter(key, name, k);
    assert(crate::tier0::is_name_filter(
        bits@,
        key@,
        crate::lab::names::trial_name(depth as int, name_salt),
        k,
    ));
    let false_neg: u32 = count_false_neg(&bits, key, name, k);
    let false_pos: u32 = count_false_pos(&bits, key, k, depth, salt, trials);
    proof {
        own_prefixes_are_never_missed(
            bits@,
            key@,
            name@,
            k,
            crate::tier0::prefixes(name@).len() as int,
        );
        let f = filter_of(key@, name@, k);
        lemma_same_marks(bits@, f, key@, name@, k, 126);
        lemma_same_passes(
            bits@,
            f,
            key@,
            name@,
            k,
            depth as int,
            salt as int,
            trials as int,
        );
    }
    Trial { bits: popcount(&bits), false_pos, false_neg }
}

/// A part of a whole, in whole parts per million.
pub open spec fn per_million(part: int, whole: int) -> int {
    part * 1_000_000 / whole
}

/// A share in a million.
pub fn ppm(part: u32, whole: u32) -> (r: u64)
    requires
        whole > 0,
    ensures
        r == per_million(part as int, whole as int),
{
    part as u64 * 1_000_000 / whole as u64
}

/// The sum of a sweep over one number of probes.
#[derive(Clone, Copy, PartialEq, Eq, Structural)]
pub struct Sweep {
    pub bits: u32,
    pub false_pos: u32,
    pub false_neg: u32,
    pub trials: u32,
}

/// Bits set in the first `n` filters of a sweep.
pub open spec fn sweep_bits(key: Seq<u8>, k: u32, n: int) -> int
    decreases n,
{
    if n <= 0 {
        0
    } else {
        sweep_bits(key, k, n - 1) + trial_bits(key, k, 8, (0x1000 + (n - 1) * 0x111) as u32)
    }
}

/// Names that the first `n` filters of a sweep let through.
pub open spec fn sweep_passes(key: Seq<u8>, k: u32, n: int) -> int
    decreases n,
{
    if n <= 0 {
        0
    } else {
        sweep_passes(key, k, n - 1) + trial_passes(
            key,
            k,
            8,
            (0x1000 + (n - 1) * 0x111) as u32,
            (n - 1) * 20_000,
            1_666,
        )
    }
}

/// A sweep: twelve names of the greatest depth, each asked about an equal share of the trials. The
/// filters never reject a prefix of their own name.
pub fn sweep(key: &[u8; 16], k: u32) -> (s: Sweep)
    ensures
        s.false_neg == 0,
        s.trials == 19_992,
        s.bits == sweep_bits(key@, k, 12),
        s.false_pos == sweep_passes(key@, k, 12),
{
    let per: u32 = TRIALS / SWEEP_NAMES;
    let mut s = Sweep { bits: 0, false_pos: 0, false_neg: 0, trials: 0 };
    let mut r: u32 = 0;
    while r < SWEEP_NAMES
        invariant
            r <= 12,
            per == 1_666,
            s.false_neg == 0,
            s.trials == r * 1_666,
            s.bits <= r * 126,
            s.bits == sweep_bits(key@, k, r as int),
            s.false_pos <= s.trials,
            s.false_pos == sweep_passes(key@, k, r as int),
        decreases 12 - r,
    {
        let one: Trial = trial(
            key,
            k,
            crate::tier0::MAX_DEPTH,
            0x1000 + r * 0x111,
            r * TRIALS,
            per,
        );
        s.bits = s.bits + one.bits;
        s.false_pos = s.false_pos + one.false_pos;
        s.false_neg = s.false_neg + one.false_neg;
        s.trials = s.trials + per;
        r += 1;
    }
    s
}

} // verus!
