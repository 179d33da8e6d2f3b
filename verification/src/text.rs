//! Bounded log lines: text and numbers appended to a fixed buffer, cut where it is full.

use vstd::prelude::*;

verus! {

/// Bytes a log line holds.
pub const LINE_MAX: usize = 96;

/// A text cut to `cap` bytes.
pub open spec fn cut(s: Seq<u8>, cap: nat) -> Seq<u8> {
    if s.len() <= cap {
        s
    } else {
        s.take(cap as int)
    }
}

/// The decimal digits of a number.
pub open spec fn decimal(n: nat) -> Seq<u8>
    decreases n,
{
    if n < 10 {
        seq![(48 + n) as u8]
    } else {
        decimal(n / 10).push((48 + n % 10) as u8)
    }
}

/// The decimal text of a signed number.
pub open spec fn signed(n: int) -> Seq<u8> {
    if n < 0 {
        seq![0x2du8] + decimal((-n) as nat)
    } else {
        decimal(n as nat)
    }
}

/// A hexadecimal digit in upper case.
pub open spec fn hex_digit(d: nat) -> u8 {
    if d < 10 {
        (48 + d) as u8
    } else {
        (55 + d) as u8
    }
}

/// The `width` low hexadecimal digits of a number.
pub open spec fn hex(n: nat, width: nat) -> Seq<u8>
    decreases width,
{
    if width == 0 {
        Seq::empty()
    } else {
        hex(n / 16, (width - 1) as nat).push(hex_digit(n % 16))
    }
}

/// The bytes of a string.
pub open spec fn text(s: &str) -> Seq<u8> {
    vstd::utf8::encode_utf8(s@)
}

/// Cutting early changes nothing about what is cut in the end.
pub proof fn lemma_cut_append(a: Seq<u8>, b: Seq<u8>, cap: nat)
    ensures
        cut(cut(a, cap) + b, cap) == cut(a + b, cap),
{
    assert(cut(cut(a, cap) + b, cap) =~= cut(a + b, cap));
}

/// The decimal digits of a number, most significant first.
pub fn decimal_digits(n: u64) -> (d: Vec<u8>)
    ensures
        d@ == decimal(n as nat),
{
    // `low` gathers the digits from the right.
    let mut low: Vec<u8> = Vec::new();
    let mut m: u64 = n;
    assert(decimal(n as nat) + low@.reverse() =~= decimal(n as nat));
    while m >= 10
        invariant
            low.len() + m <= n,
            decimal(n as nat) == decimal(m as nat) + low@.reverse(),
        decreases m,
    {
        proof {
            let d = (48 + m % 10) as u8;
            assert(low@.push(d).reverse() =~= seq![d] + low@.reverse());
            assert(decimal((m / 10) as nat).push(d) + low@.reverse() =~= decimal((m / 10) as nat)
                + (seq![d] + low@.reverse()));
        }
        low.push((48 + m % 10) as u8);
        m = m / 10;
    }
    low.push((48 + m) as u8);
    assert(low@.reverse() =~= seq![(48 + m) as u8] + low@.drop_last().reverse());
    let mut d: Vec<u8> = Vec::new();
    let mut i: usize = low.len();
    while i > 0
        invariant
            i <= low.len(),
            d.len() == low.len() - i,
            forall|k: int| 0 <= k < d.len() ==> d@[k] == low@[low.len() - 1 - k],
        decreases i,
    {
        i -= 1;
        d.push(low[i]);
    }
    assert(d@ =~= low@.reverse());
    d
}

/// Appends bytes to a buffer of `cap` bytes, dropping what no longer fits.
pub fn append_cut(buf: &mut Vec<u8>, bytes: &[u8], cap: usize)
    requires
        old(buf).len() <= cap,
    ensures
        final(buf)@ == cut(old(buf)@ + bytes@, cap as nat),
        final(buf).len() <= cap,
{
    let ghost start = buf@;
    let mut i: usize = 0;
    assert(start + bytes@.take(0) =~= start);
    while i < bytes.len()
        invariant
            i <= bytes.len(),
            buf.len() <= cap,
            buf@ == cut(start + bytes@.take(i as int), cap as nat),
        decreases bytes.len() - i,
    {
        proof {
            assert(start + bytes@.take(i as int + 1) =~= (start + bytes@.take(i as int)).push(
                bytes@[i as int],
            ));
        }
        let ghost before = buf@;
        if buf.len() < cap {
            buf.push(bytes[i]);
        }
        proof {
            assert(buf@ =~= cut(start + bytes@.take(i as int + 1), cap as nat));
        }
        i += 1;
    }
    assert(bytes@.take(i as int) =~= bytes@);
}

/// One log line.
pub struct BufWriter {
    buf: Vec<u8>,
}

impl View for BufWriter {
    type V = Seq<u8>;

    closed spec fn view(&self) -> Seq<u8> {
        self.buf@
    }
}

impl BufWriter {
    #[verifier::type_invariant]
    spec fn inv(self) -> bool {
        self.buf.len() <= 96
    }

    /// An empty line.
    pub fn new() -> (w: BufWriter)
        ensures
            w@ == Seq::<u8>::empty(),
    {
        BufWriter { buf: Vec::new() }
    }

    /// The line so far.
    pub fn as_slice(&self) -> (s: &[u8])
        ensures
            s@ == self@,
    {
        self.buf.as_slice()
    }

    /// The line so far, owned.
    pub fn into_vec(self) -> (v: Vec<u8>)
        ensures
            v@ == self@,
            v.len() <= 96,
    {
        proof {
            use_type_invariant(&self);
        }
        self.buf
    }

    /// Appends bytes.
    pub fn write_bytes(&mut self, bytes: &[u8])
        ensures
            final(self)@ == cut(old(self)@ + bytes@, 96),
    {
        proof {
            use_type_invariant(&*self);
        }
        let mut buf: Vec<u8> = vstd::slice::slice_to_vec(self.buf.as_slice());
        append_cut(&mut buf, bytes, LINE_MAX);
        self.buf = buf;
    }

    /// Appends a text.
    pub fn write_str(&mut self, s: &str)
        ensures
            final(self)@ == cut(old(self)@ + text(s), 96),
    {
        self.write_bytes(s.as_bytes());
    }

    /// Appends a number in decimal.
    pub fn write_dec(&mut self, n: u64)
        ensures
            final(self)@ == cut(old(self)@ + decimal(n as nat), 96),
    {
        let d: Vec<u8> = decimal_digits(n);
        self.write_bytes(d.as_slice());
    }

    /// Appends a signed number in decimal.
    pub fn write_signed(&mut self, n: i64)
        ensures
            final(self)@ == cut(old(self)@ + signed(n as int), 96),
    {
        if n < 0 {
            let mut d: Vec<u8> = Vec::new();
            d.push(0x2d);
            let m: u64 = if n == i64::MIN {
                9_223_372_036_854_775_808
            } else {
                (-n) as u64
            };
            let mut digits: Vec<u8> = decimal_digits(m);
            d.append(&mut digits);
            assert(d@ =~= signed(n as int));
            self.write_bytes(d.as_slice());
        } else {
            self.write_dec(n as u64);
        }
    }

    /// Appends the `width` low hexadecimal digits of a number.
    pub fn write_hex(&mut self, n: u32, width: usize)
        requires
            width <= 8,
        ensures
            final(self)@ == cut(old(self)@ + hex(n as nat, width as nat), 96),
    {
        let d: Vec<u8> = hex_digits(n, width);
        self.write_bytes(d.as_slice());
    }
}

/// The `width` low hexadecimal digits of a number, most significant first.
pub fn hex_digits(n: u32, width: usize) -> (d: Vec<u8>)
    ensures
        d@ == hex(n as nat, width as nat),
    decreases width,
{
    if width == 0 {
        return Vec::new();
    }
    let mut d: Vec<u8> = hex_digits(n / 16, width - 1);
    let low: u32 = n % 16;
    d.push(
        if low < 10 {
            (48 + low) as u8
        } else {
            (55 + low) as u8
        },
    );
    d
}

/// The number that a text of decimal digits stands for.
pub open spec fn decimal_value(s: Seq<u8>) -> int
    decreases s.len(),
{
    if s.len() == 0 {
        0
    } else {
        10 * decimal_value(s.drop_last()) + (s.last() - 48)
    }
}

/// The number that a text of upper-case hexadecimal digits stands for.
pub open spec fn hex_value(s: Seq<u8>) -> int
    decreases s.len(),
{
    if s.len() == 0 {
        0
    } else {
        16 * hex_value(s.drop_last()) + (if s.last() < 65 {
            s.last() - 48
        } else {
            s.last() - 55
        })
    }
}

/// A number's decimal text stands for the number, is made of digits, and has no zero in front but
/// its own.
pub proof fn decimal_reads_back(n: nat)
    ensures
        decimal_value(decimal(n)) == n,
        decimal(n).len() > 0,
        forall|i: int| 0 <= i < decimal(n).len() ==> 48 <= #[trigger] decimal(n)[i] <= 57,
        n > 0 ==> decimal(n)[0] != 48,
    decreases n,
{
    if n < 10 {
        let s = decimal(n);
        assert(s.drop_last() =~= Seq::<u8>::empty());
        reveal_with_fuel(decimal_value, 2);
    } else {
        decimal_reads_back(n / 10);
        let d = decimal(n / 10);
        let s = decimal(n);
        assert(s.drop_last() =~= d);
        assert(s[0] == d[0]);
        assert forall|i: int| 0 <= i < s.len() implies 48 <= #[trigger] s[i] <= 57 by {
            if i < d.len() {
                assert(s[i] == d[i]);
            }
        }
    }
}

/// A signed number's text is the text of its size, behind a minus sign exactly below zero.
pub proof fn signs_stand_in_front(n: int)
    ensures
        n >= 0 ==> decimal_value(signed(n)) == n && signed(n)[0] != 0x2d,
        n < 0 ==> signed(n)[0] == 0x2d && decimal_value(signed(n).skip(1)) == -n,
{
    if n >= 0 {
        decimal_reads_back(n as nat);
        assert(48 <= decimal(n as nat)[0]);
    } else {
        decimal_reads_back((-n) as nat);
        assert(signed(n).skip(1) =~= decimal((-n) as nat));
    }
}

/// A hexadecimal text has the width asked for and stands for what that many digits can hold of the
/// number; every digit is one in upper case.
pub proof fn hex_reads_back(n: nat, width: nat)
    ensures
        hex(n, width).len() == width,
        hex_value(hex(n, width)) == n as int % vstd::arithmetic::power::pow(16, width),
        forall|i: int|
            0 <= i < width ==> 48 <= #[trigger] hex(n, width)[i] <= 57 || 65 <= hex(n, width)[i]
                <= 70,
    decreases width,
{
    let p = vstd::arithmetic::power::pow(16, width);
    vstd::arithmetic::power::lemma_pow_positive(16, width);
    if width == 0 {
        vstd::arithmetic::power::lemma_pow0(16);
    } else {
        let w = (width - 1) as nat;
        let h = hex(n / 16, w);
        let s = hex(n, width);
        let q = vstd::arithmetic::power::pow(16, w);
        hex_reads_back(n / 16, w);
        vstd::arithmetic::power::lemma_pow_positive(16, w);
        reveal(vstd::arithmetic::power::pow);
        assert(p == 16 * q);
        assert(s.drop_last() =~= h);
        assert forall|i: int| 0 <= i < width implies 48 <= #[trigger] s[i] <= 57 || 65 <= s[i]
            <= 70 by {
            if i < h.len() {
                assert(s[i] == h[i]);
            }
        }
        let d = n as int % 16;
        let r = (n as int / 16) % q;
        let k = (n as int / 16) / q;
        vstd::arithmetic::div_mod::lemma_fundamental_div_mod(n as int / 16, q);
        vstd::arithmetic::div_mod::lemma_mod_bound(n as int / 16, q);
        assert(n as int == 16 * (n as int / 16) + d);
        assert(n as int == p * k + (16 * r + d)) by (nonlinear_arith)
            requires
                n as int == 16 * (n as int / 16) + d,
                n as int / 16 == q * k + r,
                p == 16 * q,
        ;
        assert(0 <= 16 * r + d < p);
        vstd::arithmetic::div_mod::lemma_fundamental_div_mod_converse(n as int, p, k, 16 * r + d);
        assert(n / 16 == n as int / 16);
        assert(hex_value(s) == 16 * hex_value(h) + d);
    }
}

/// A line keeps its beginning and never more than it holds.
pub proof fn lines_are_cut_at_the_end(s: Seq<u8>, cap: nat)
    ensures
        cut(s, cap).len() <= cap,
        s.len() <= cap ==> cut(s, cap) == s,
        s.len() > cap ==> cut(s, cap).len() == cap,
        forall|i: int| 0 <= i < cut(s, cap).len() ==> cut(s, cap)[i] == s[i],
{
}

} // verus!
