//! Generated names: components of four hexadecimal digits.

use vstd::prelude::*;

verus! {

/// A hexadecimal digit, in lower case.
pub open spec fn digit(d: nat) -> u8 {
    if d < 10 {
        (48 + d) as u8
    } else {
        (87 + d) as u8
    }
}

/// A component: a slash and the low sixteen bits in hexadecimal.
pub open spec fn component(v: u32) -> Seq<u8> {
    seq![
        0x2fu8,
        digit((v / 4096 % 16) as nat),
        digit((v / 256 % 16) as nat),
        digit((v / 16 % 16) as nat),
        digit((v % 16) as nat),
    ]
}

/// The components of `f(0)` to `f(n - 1)`.
pub open spec fn joined(f: spec_fn(int) -> u32, n: int) -> Seq<u8>
    decreases n,
{
    if n <= 0 {
        Seq::empty()
    } else {
        joined(f, n - 1) + component(f(n - 1))
    }
}

proof fn lemma_joined_len(f: spec_fn(int) -> u32, n: int)
    requires
        n >= 0,
    ensures
        joined(f, n).len() == 5 * n,
    decreases n,
{
    if n > 0 {
        lemma_joined_len(f, n - 1);
    }
}

fn nibble(d: u32) -> (c: u8)
    requires
        d < 16,
    ensures
        c == digit(d as nat),
{
    if d < 10 {
        48 + d as u8
    } else {
        87 + d as u8
    }
}

fn put(buf: &mut [u8], at: usize, v: u32)
    requires
        at + 5 <= old(buf).len(),
    ensures
        final(buf)@.len() == old(buf)@.len(),
        final(buf)@ == old(buf)@.take(at as int) + component(v) + old(buf)@.skip(at + 5),
{
    buf[at] = 0x2f;
    buf[at + 1] = nibble(v / 4096 % 16);
    buf[at + 2] = nibble(v / 256 % 16);
    buf[at + 3] = nibble(v / 16 % 16);
    buf[at + 4] = nibble(v % 16);
    assert(buf@ =~= old(buf)@.take(at as int) + component(v) + old(buf)@.skip(at + 5));
}

/// One more component behind those of `n` turns.
proof fn lemma_put(
    start: Seq<u8>,
    before: Seq<u8>,
    after: Seq<u8>,
    f: spec_fn(int) -> u32,
    n: int,
)
    requires
        n >= 0,
        5 * n + 5 <= start.len(),
        before == joined(f, n) + start.skip(5 * n),
        after == before.take(5 * n) + component(f(n)) + before.skip(5 * n + 5),
    ensures
        after == joined(f, n + 1) + start.skip(5 * n + 5),
{
    lemma_joined_len(f, n);
    assert(before.take(5 * n) =~= joined(f, n));
    assert(before.skip(5 * n + 5) =~= start.skip(5 * n + 5));
    assert(after =~= joined(f, n + 1) + start.skip(5 * n + 5));
}

/// How deep the name of a sequence number is: two to six components.
pub open spec fn depth_of(seq_no: u32) -> int {
    2 + seq_no as int % 5
}

/// The values of the components of a traffic name: the namespace, then words that move with the
/// sequence number.
pub open spec fn traffic_value(ns: u32, seq_no: u32, c: int) -> u32 {
    if c == 0 {
        ns
    } else {
        seq_no.wrapping_add((7 * c) as u32)
    }
}

/// The name of a sequence number in a namespace.
pub open spec fn traffic_name(ns: u32, seq_no: u32) -> Seq<u8> {
    joined(|c: int| traffic_value(ns, seq_no, c), depth_of(seq_no))
}

/// Writes the name of a sequence number in a namespace to the start of `buf` and returns its length.
pub fn make_name(buf: &mut [u8], ns: u32, seq_no: u32) -> (n: usize)
    requires
        old(buf).len() >= 5 * depth_of(seq_no),
    ensures
        n == 5 * depth_of(seq_no),
        final(buf)@ == traffic_name(ns, seq_no) + old(buf)@.skip(n as int),
        traffic_name(ns, seq_no).len() == n,
{
    let depth: usize = 2 + (seq_no % 5) as usize;
    let ghost start = buf@;
    let ghost f = |c: int| traffic_value(ns, seq_no, c);
    let mut c: usize = 0;
    assert(buf@ =~= joined(f, 0) + start.skip(0));
    while c < depth
        invariant
            c <= depth <= 6,
            depth == depth_of(seq_no),
            start.len() >= 5 * depth,
            buf@.len() == start.len(),
            f == (|c: int| traffic_value(ns, seq_no, c)),
            buf@ == joined(f, c as int) + start.skip(5 * c),
        decreases depth - c,
    {
        let v: u32 = if c == 0 {
            ns
        } else {
            seq_no.wrapping_add(7 * c as u32)
        };
        let ghost before = buf@;
        put(buf, 5 * c, v);
        proof {
            assert(f(c as int) == v);
            lemma_put(start, before, buf@, f, c as int);
        }
        c += 1;
    }
    proof {
        lemma_joined_len(f, depth as int);
    }
    5 * depth
}

/// The values of the components of a trial name: a count, and the salt at the end.
pub open spec fn trial_value(depth: int, salt: u32, c: int) -> u32 {
    if c + 1 == depth {
        salt
    } else {
        c as u32
    }
}

/// A trial name.
pub open spec fn trial_name(depth: int, salt: u32) -> Seq<u8> {
    joined(|c: int| trial_value(depth, salt, c), depth)
}

/// Writes a trial name to the start of `buf` and returns its length.
pub fn make_trial_name(buf: &mut [u8], depth: usize, salt: u32) -> (n: usize)
    requires
        old(buf).len() >= 5 * depth,
    ensures
        n == 5 * depth,
        final(buf)@ == trial_name(depth as int, salt) + old(buf)@.skip(n as int),
        trial_name(depth as int, salt).len() == n,
{
    assert(buf.len() <= usize::MAX);
    let ghost start = buf@;
    let ghost f = |c: int| trial_value(depth as int, salt, c);
    let mut c: usize = 0;
    assert(buf@ =~= joined(f, 0) + start.skip(0));
    while c < depth
        invariant
            c <= depth,
            usize::MAX >= start.len() >= 5 * depth,
            buf@.len() == start.len(),
            f == (|c: int| trial_value(depth as int, salt, c)),
            buf@ == joined(f, c as int) + start.skip(5 * c),
        decreases depth - c,
    {
        let v: u32 = if c + 1 == depth {
            salt
        } else {
            c as u32
        };
        let ghost before = buf@;
        put(buf, 5 * c, v);
        proof {
            assert(f(c as int) == v);
            lemma_put(start, before, buf@, f, c as int);
        }
        c += 1;
    }
    proof {
        lemma_joined_len(f, depth as int);
    }
    5 * depth
}

/// The values of the components of a name in the namespace that no trial name starts in: the top
/// digit is always `f`.
pub open spec fn disjoint_value(depth: int, salt: u32, c: int) -> u32 {
    (0xf000 + trial_value(depth, salt, c) % 0x1000) as u32
}

/// A name in the namespace that no trial name starts in.
pub open spec fn disjoint_name(depth: int, salt: u32) -> Seq<u8> {
    joined(|c: int| disjoint_value(depth, salt, c), depth)
}

/// Writes a name of the other namespace to the start of `buf` and returns its length.
pub fn make_disjoint_name(buf: &mut [u8], depth: usize, salt: u32) -> (n: usize)
    requires
        old(buf).len() >= 5 * depth,
    ensures
        n == 5 * depth,
        final(buf)@ == disjoint_name(depth as int, salt) + old(buf)@.skip(n as int),
        disjoint_name(depth as int, salt).len() == n,
{
    assert(buf.len() <= usize::MAX);
    let ghost start = buf@;
    let ghost f = |c: int| disjoint_value(depth as int, salt, c);
    let mut c: usize = 0;
    assert(buf@ =~= joined(f, 0) + start.skip(0));
    while c < depth
        invariant
            c <= depth,
            usize::MAX >= start.len() >= 5 * depth,
            buf@.len() == start.len(),
            f == (|c: int| disjoint_value(depth as int, salt, c)),
            buf@ == joined(f, c as int) + start.skip(5 * c),
        decreases depth - c,
    {
        let base: u32 = if c + 1 == depth {
            salt
        } else {
            c as u32
        };
        let v: u32 = 0xf000 + base % 0x1000;
        let ghost before = buf@;
        put(buf, 5 * c, v);
        proof {
            assert(f(c as int) == v);
            lemma_put(start, before, buf@, f, c as int);
        }
        c += 1;
    }
    proof {
        lemma_joined_len(f, depth as int);
    }
    5 * depth
}

proof fn lemma_first(f: spec_fn(int) -> u32, n: int)
    requires
        n >= 1,
    ensures
        joined(f, n).len() >= 5,
        joined(f, n).take(5) == component(f(0)),
    decreases n,
{
    lemma_joined_len(f, n);
    if n == 1 {
        assert(joined(f, 0) =~= Seq::<u8>::empty());
        assert(joined(f, 1).take(5) =~= component(f(0)));
    } else {
        lemma_first(f, n - 1);
        lemma_joined_len(f, n - 1);
        assert(joined(f, n).take(5) =~= joined(f, n - 1).take(5));
    }
}

/// The two kinds of names never meet: a trial name of at least two components and a name of the
/// other namespace differ in their first component.
pub proof fn namespaces_are_disjoint(depth: int, salt: u32, other: int, other_salt: u32)
    requires
        depth >= 2,
        other >= 1,
    ensures
        trial_name(depth, salt).take(5) != disjoint_name(other, other_salt).take(5),
{
    let f = |c: int| trial_value(depth, salt, c);
    let g = |c: int| disjoint_value(other, other_salt, c);
    lemma_first(f, depth);
    lemma_first(g, other);
    assert(f(0) == 0);
    let v = g(0);
    assert(v == 0xf000 + trial_value(other, other_salt, 0) % 0x1000);
    assert(component(f(0))[1] == 0x30);
    assert(v as int / 4096 == 15);
    assert(component(v)[1] == 0x66);
}

} // verus!
