//! Control frames for the name-filtering Wi-Fi firmware: the command line that describes one, and
//! its bytes.

use vstd::prelude::*;

use crate::bytes::{push_all, push_be32, push_be64};

verus! {

/// The address that the firmware consumes instead of transmitting to.
pub const CTL: [u8; 6] = [0x03, 0x4e, 0x44, 0x52, 0x43, 0x54];
/// Second address of a control frame.
pub const ADDR2: [u8; 6] = [0x03, 0x66, 0x77, 0x88, 0x99, 0xaa];
/// Third address of a control frame.
pub const ADDR3: [u8; 6] = [0x03, 0xbb, 0xcc, 0xdd, 0xee, 0xff];
/// Marks the body of a control frame.
pub const MAGIC: u32 = 0x4e44_5243;
/// Shortest control frame.
pub const FRAME_MIN: usize = 64;

/// A control frame before its padding: a capture header without fields, a data frame from and to
/// fixed addresses, the mark, the operation, the length modulo 256, the payload.
pub open spec fn unpadded(op: u8, payload: Seq<u8>) -> Seq<u8> {
    seq![0u8, 0u8, 8u8, 0u8, 0u8, 0u8, 0u8, 0u8] + seq![8u8, 0u8, 0u8, 0u8] + CTL@ + ADDR2@
        + ADDR3@ + seq![0u8, 0u8] + crate::bytes::be32(0x4e44_5243) + seq![
        op,
        (payload.len() % 256) as u8,
    ] + payload
}

/// A control frame: zeros up to 64 bytes.
pub open spec fn control_frame(op: u8, payload: Seq<u8>) -> Seq<u8> {
    let f = unpadded(op, payload);
    if f.len() < 64 {
        f + Seq::new((64 - f.len()) as nat, |i: int| 0u8)
    } else {
        f
    }
}

/// The bytes of a control frame.
pub fn frame(op: u8, payload: &[u8]) -> (f: Vec<u8>)
    ensures
        f@ == control_frame(op, payload@),
{
    let mut f: Vec<u8> = Vec::new();
    let radiotap: [u8; 8] = [0x00, 0x00, 0x08, 0x00, 0x00, 0x00, 0x00, 0x00];
    let fc: [u8; 4] = [0x08, 0x00, 0x00, 0x00];
    push_all(&mut f, radiotap.as_slice());
    push_all(&mut f, fc.as_slice());
    push_all(&mut f, CTL.as_slice());
    push_all(&mut f, ADDR2.as_slice());
    push_all(&mut f, ADDR3.as_slice());
    f.push(0);
    f.push(0);
    push_be32(&mut f, MAGIC);
    f.push(op);
    f.push((payload.len() % 256) as u8);
    push_all(&mut f, payload);
    let ghost start = f@;
    assert(start =~= unpadded(op, payload@));
    while f.len() < FRAME_MIN
        invariant
            f@.len() >= start.len(),
            f@.len() <= 64 || f@.len() == start.len(),
            f@.take(start.len() as int) == start,
            forall|k: int| start.len() <= k < f@.len() ==> f@[k] == 0,
        decreases 64 - f.len(),
    {
        let ghost before = f@;
        f.push(0);
        assert(f@.take(start.len() as int) =~= before.take(start.len() as int));
    }
    assert forall|k: int| 0 <= k < start.len() implies f@[k] == start[k] by {
        assert(f@.take(start.len() as int)[k] == f@[k]);
    }
    assert(f@ =~= control_frame(op, payload@));
    f
}

/// Two commands never share a frame.
pub proof fn control_frames_differ(op: u8, p: Seq<u8>, op2: u8, p2: Seq<u8>)
    requires
        p.len() <= 255,
        p2.len() <= 255,
        control_frame(op, p) == control_frame(op2, p2),
    ensures
        op == op2,
        p == p2,
{
    let f = control_frame(op, p);
    let g = control_frame(op2, p2);
    assert(f[36] == op && g[36] == op2);
    assert(f[37] == p.len() && g[37] == p2.len());
    assert forall|i: int| 0 <= i < p.len() implies p[i] == p2[i] by {
        assert(f[38 + i] == p[i]);
        assert(g[38 + i] == p2[i]);
    }
    assert(p =~= p2);
}

/// The value of a digit.
pub open spec fn digit(c: char, radix: int) -> Option<int> {
    let v: int = if '0' <= c <= '9' {
        c as int - 48
    } else if 'a' <= c <= 'f' {
        c as int - 87
    } else if 'A' <= c <= 'F' {
        c as int - 55
    } else {
        99
    };
    if v < radix {
        Some(v)
    } else {
        None
    }
}

/// A text of digits only.
pub open spec fn all_digits(s: Seq<char>, radix: int) -> bool {
    forall|i: int| 0 <= i < s.len() ==> digit(#[trigger] s[i], radix) is Some
}

/// The value of a text of digits.
pub open spec fn value(s: Seq<char>, radix: int) -> int
    decreases s.len(),
{
    if s.len() == 0 {
        0
    } else {
        value(s.drop_last(), radix) * radix + digit(s.last(), radix)->0
    }
}

/// A text without one leading plus sign.
pub open spec fn unsigned(s: Seq<char>) -> Seq<char> {
    if s.len() > 0 && s[0] == '+' {
        s.skip(1)
    } else {
        s
    }
}

/// The number of a text: digits behind an optional plus sign, no more than `max`.
pub open spec fn number(s: Seq<char>, radix: int, max: int) -> Option<int> {
    let d = unsigned(s);
    if d.len() > 0 && all_digits(d, radix) && value(d, radix) <= max {
        Some(value(d, radix))
    } else {
        None
    }
}

proof fn lemma_value_grows(s: Seq<char>, n: int, radix: int)
    requires
        all_digits(s, radix),
        0 <= n <= s.len(),
        radix >= 1,
    ensures
        0 <= value(s.take(n), radix) <= value(s, radix),
    decreases s.len() - n,
{
    if n < s.len() {
        lemma_value_grows(s, n + 1, radix);
        let t = s.take(n + 1);
        assert(t.drop_last() =~= s.take(n));
        assert(digit(s[n], radix) is Some);
        lemma_value_nonneg(s.take(n), radix);
        let v = value(s.take(n), radix);
        assert(v * radix >= v) by (nonlinear_arith)
            requires
                v >= 0,
                radix >= 1,
        ;
    } else {
        assert(s.take(n) =~= s);
        lemma_value_nonneg(s, radix);
    }
}

proof fn lemma_value_nonneg(s: Seq<char>, radix: int)
    requires
        all_digits(s, radix),
        radix >= 1,
    ensures
        value(s, radix) >= 0,
    decreases s.len(),
{
    if s.len() > 0 {
        let t = s.drop_last();
        assert forall|i: int| 0 <= i < t.len() implies digit(#[trigger] t[i], radix) is Some by {
            assert(digit(s[i], radix) is Some);
        }
        lemma_value_nonneg(t, radix);
        assert(digit(s[s.len() - 1], radix) is Some);
        let v = value(t, radix);
        assert(v * radix >= 0) by (nonlinear_arith)
            requires
                v >= 0,
                radix >= 1,
        ;
    }
}

fn digit_of(c: char, radix: u64) -> (d: Option<u64>)
    requires
        radix <= 16,
    ensures
        (match d {
            Some(v) => digit(c, radix as int) == Some(v as int) && v < radix,
            None => digit(c, radix as int) is None,
        }),
{
    let v: u64 = if '0' <= c && c <= '9' {
        c as u64 - 48
    } else if 'a' <= c && c <= 'f' {
        c as u64 - 87
    } else if 'A' <= c && c <= 'F' {
        c as u64 - 55
    } else {
        99
    };
    if v < radix {
        Some(v)
    } else {
        None
    }
}

/// The number of a text.
pub fn parse_number(s: &[char], radix: u64, max: u64) -> (n: Option<u64>)
    requires
        radix == 10 || radix == 16,
    ensures
        (match n {
            Some(v) => number(s@, radix as int, max as int) == Some(v as int),
            None => number(s@, radix as int, max as int) is None,
        }),
{
    let start: usize = if s.len() > 0 && s[0] == '+' {
        1
    } else {
        0
    };
    let ghost d = unsigned(s@);
    assert(d =~= s@.skip(start as int));
    if s.len() == start {
        return None;
    }
    let mut v: u64 = 0;
    let mut i: usize = start;
    assert(d.take(0) =~= Seq::<char>::empty());
    while i < s.len()
        invariant
            start <= i <= s.len(),
            d == unsigned(s@),
            d == s@.skip(start as int),
            d.len() > 0,
            radix == 10 || radix == 16,
            forall|k: int| 0 <= k < i - start ==> digit(#[trigger] d[k], radix as int) is Some,
            v == value(d.take(i - start), radix as int),
            v <= max,
        decreases s.len() - i,
    {
        assert(s@[i as int] == d[i - start]);
        match digit_of(s[i], radix) {
            Some(x) => {
                proof {
                    let t = d.take(i - start + 1);
                    assert(t.drop_last() =~= d.take(i - start));
                    assert(t.last() == d[i - start]);
                }
                if x > max || v > (max - x) / radix {
                    proof {
                        assert(v * radix + x > max) by (nonlinear_arith)
                            requires
                                radix == 10 || radix == 16,
                                v >= 0,
                                x >= 0,
                                x > max || v > (max - x) / radix as int,
                        ;
                        if all_digits(d, radix as int) {
                            lemma_value_grows(d, i - start + 1, radix as int);
                        }
                    }
                    return None;
                }
                assert(v * radix + x <= max) by (nonlinear_arith)
                    requires
                        radix == 10 || radix == 16,
                        x <= max,
                        v <= (max - x) / radix as int,
                ;
                v = v * radix + x;
            },
            None => {
                assert(digit(d[i - start], radix as int) is None);
                return None;
            },
        }
        i += 1;
    }
    assert(d.take(d.len() as int) =~= d);
    Some(v)
}

/// White space, as text is trimmed of it.
pub open spec fn white(c: char) -> bool {
    let u = c as int;
    9 <= u <= 13 || u == 32 || u == 0x85 || u == 0xA0 || u == 0x1680 || 0x2000 <= u <= 0x200A || u
        == 0x2028 || u == 0x2029 || u == 0x202F || u == 0x205F || u == 0x3000
}

/// A text without leading white space.
pub open spec fn trim_front(s: Seq<char>) -> Seq<char>
    decreases s.len(),
{
    if s.len() > 0 && white(s[0]) {
        trim_front(s.skip(1))
    } else {
        s
    }
}

/// A text without trailing white space.
pub open spec fn trim_back(s: Seq<char>) -> Seq<char>
    decreases s.len(),
{
    if s.len() > 0 && white(s.last()) {
        trim_back(s.drop_last())
    } else {
        s
    }
}

/// A text without leading `0x` marks.
pub open spec fn unmarked(s: Seq<char>) -> Seq<char>
    decreases s.len(),
{
    if s.len() >= 2 && s[0] == '0' && s[1] == 'x' {
        unmarked(s.skip(2))
    } else {
        s
    }
}

/// The byte of one entry of a mask, if it is one.
pub open spec fn entry(s: Seq<char>) -> Seq<u8> {
    match number(unmarked(trim_back(trim_front(s))), 16, 255) {
        Some(v) => seq![v as u8],
        None => Seq::empty(),
    }
}

/// The bytes of a mask: hexadecimal entries between commas, leaving out what is none. `cur` is the
/// entry read so far.
pub open spec fn mask_bytes(cur: Seq<char>, s: Seq<char>) -> Seq<u8>
    decreases s.len(),
{
    if s.len() == 0 {
        entry(cur)
    } else if s[0] == ',' {
        entry(cur) + mask_bytes(Seq::empty(), s.skip(1))
    } else {
        mask_bytes(cur.push(s[0]), s.skip(1))
    }
}

fn is_white(c: char) -> (b: bool)
    ensures
        b == white(c),
{
    let u: u32 = c as u32;
    (9 <= u && u <= 13) || u == 32 || u == 0x85 || u == 0xA0 || u == 0x1680 || (0x2000 <= u && u
        <= 0x200A) || u == 0x2028 || u == 0x2029 || u == 0x202F || u == 0x205F || u == 0x3000
}

fn push_entry(out: &mut Vec<u8>, s: &[char])
    ensures
        final(out)@ == old(out)@ + entry(s@),
{
    let mut lo: usize = 0;
    let mut hi: usize = s.len();
    assert(s@.subrange(0, s@.len() as int) =~= s@);
    while lo < hi && is_white(s[lo])
        invariant
            lo <= hi == s.len(),
            trim_front(s@) == trim_front(s@.subrange(lo as int, hi as int)),
        decreases hi - lo,
    {
        assert(s@.subrange(lo as int, hi as int).skip(1) =~= s@.subrange(lo + 1, hi as int));
        lo += 1;
    }
    let ghost front = s@.subrange(lo as int, hi as int);
    assert(trim_front(s@) == front);
    while lo < hi && is_white(s[hi - 1])
        invariant
            lo <= hi <= s.len(),
            trim_back(front) == trim_back(s@.subrange(lo as int, hi as int)),
        decreases hi - lo,
    {
        assert(s@.subrange(lo as int, hi as int).drop_last() =~= s@.subrange(
            lo as int,
            hi - 1,
        ));
        hi -= 1;
    }
    let ghost both = s@.subrange(lo as int, hi as int);
    assert(trim_back(front) == both);
    while hi - lo >= 2 && s[lo] == '0' && s[lo + 1] == 'x'
        invariant
            lo <= hi <= s.len(),
            unmarked(both) == unmarked(s@.subrange(lo as int, hi as int)),
        decreases hi - lo,
    {
        assert(s@.subrange(lo as int, hi as int).skip(2) =~= s@.subrange(lo + 2, hi as int));
        lo += 2;
    }
    let ghost bare = s@.subrange(lo as int, hi as int);
    assert(unmarked(both) == bare);
    let part: &[char] = vstd::slice::slice_subrange(s, lo, hi);
    match parse_number(part, 16, 255) {
        Some(v) => {
            out.push(v as u8);
            assert(out@ =~= old(out)@ + entry(s@));
        },
        None => {
            assert(out@ =~= old(out)@ + entry(s@));
        },
    }
}

/// The bytes of a mask.
pub fn parse_mask(s: &[char]) -> (out: Vec<u8>)
    ensures
        out@ == mask_bytes(Seq::empty(), s@),
{
    let mut out: Vec<u8> = Vec::new();
    let mut cur: Vec<char> = Vec::new();
    let mut i: usize = 0;
    assert(s@.skip(0) =~= s@);
    assert(out@ + mask_bytes(cur@, s@) =~= mask_bytes(Seq::empty(), s@));
    while i < s.len()
        invariant
            i <= s.len(),
            out@ + mask_bytes(cur@, s@.skip(i as int)) == mask_bytes(Seq::empty(), s@),
        decreases s.len() - i,
    {
        let ghost rest = s@.skip(i as int);
        assert(rest.skip(1) =~= s@.skip(i + 1));
        assert(rest[0] == s@[i as int]);
        if s[i] == ',' {
            let ghost before = out@;
            push_entry(&mut out, cur.as_slice());
            proof {
                let tail = mask_bytes(Seq::empty(), rest.skip(1));
                assert(before + (entry(cur@) + tail) =~= (before + entry(cur@)) + tail);
            }
            cur = Vec::new();
        } else {
            cur.push(s[i]);
        }
        i += 1;
    }
    push_entry(&mut out, cur.as_slice());
    out
}

/// A command, by the operation and the payload it stands for.
pub struct Command {
    pub op: u8,
    pub payload: Vec<u8>,
}

/// The number of an argument, or the value it has when it is missing or no number.
pub open spec fn arg_or(args: Seq<Vec<char>>, k: int, default: u8) -> u8 {
    if k < args.len() {
        match number(args[k]@, 10, 255) {
            Some(v) => v as u8,
            None => default,
        }
    } else {
        default
    }
}

/// The operation and the payload of a command line.
pub open spec fn described(name: Seq<char>, args: Seq<Vec<char>>) -> Option<(u8, Seq<u8>)> {
    if name == "enable"@ {
        Some((0x01, seq![arg_or(args, 0, 1)]))
    } else if name == "drop-foreign"@ {
        Some((0x02, seq![arg_or(args, 0, 0)]))
    } else if name == "key"@ {
        let key: int = if args.len() > 0 {
            match number(args[0]@, 10, u64::MAX as int) {
                Some(v) => v,
                None => 0,
            }
        } else {
            0
        };
        Some((0x03, crate::bytes::be64(key as u64)))
    } else if name == "nmasks"@ {
        Some((0x04, seq![arg_or(args, 0, 0)]))
    } else if name == "mask"@ {
        let list: Seq<char> = if args.len() > 1 {
            args[1]@
        } else {
            Seq::empty()
        };
        Some((0x05, seq![arg_or(args, 0, 0)] + mask_bytes(Seq::empty(), list)))
    } else if name == "clear-stats"@ {
        Some((0x06, Seq::empty()))
    } else if name == "lease"@ {
        Some((0x07, seq![arg_or(args, 0, 2), arg_or(args, 1, 8), arg_or(args, 2, 0)]))
    } else if name == "quiet-off"@ {
        Some((0x08, Seq::empty()))
    } else {
        None
    }
}

fn is_named(name: &[char], text: &str) -> (b: bool)
    ensures
        b == (name@ == text@),
{
    let n: usize = text.unicode_len();
    if name.len() != n {
        return false;
    }
    let mut i: usize = 0;
    while i < n
        invariant
            i <= n == name.len() == text@.len(),
            forall|k: int| 0 <= k < i ==> name@[k] == text@[k],
        decreases n - i,
    {
        if name[i] != text.get_char(i) {
            return false;
        }
        i += 1;
    }
    assert(name@ =~= text@);
    true
}

fn arg_number(args: &[Vec<char>], k: usize, default: u8) -> (v: u8)
    ensures
        v == arg_or(args@, k as int, default),
{
    if k < args.len() {
        match parse_number(args[k].as_slice(), 10, 255) {
            Some(v) => v as u8,
            None => default,
        }
    } else {
        default
    }
}

fn one_byte(op: u8, v: u8) -> (c: Option<Command>)
    ensures
        c matches Some(x) && x.op == op && x.payload@ == seq![v],
{
    let mut payload: Vec<u8> = Vec::new();
    payload.push(v);
    assert(payload@ =~= seq![v]);
    Some(Command { op, payload })
}

/// Reads a command line: its name and what follows it. `None` for a name that stands for nothing.
pub fn command(name: &[char], args: &[Vec<char>]) -> (c: Option<Command>)
    ensures
        (match c {
            Some(x) => described(name@, args@) == Some((x.op, x.payload@)),
            None => described(name@, args@) is None,
        }),
{
    if is_named(name, "enable") {
        return one_byte(0x01, arg_number(args, 0, 1));
    }
    if is_named(name, "drop-foreign") {
        return one_byte(0x02, arg_number(args, 0, 0));
    }
    if is_named(name, "key") {
        let mut key: u64 = 0;
        if args.len() > 0 {
            match parse_number(args[0].as_slice(), 10, u64::MAX) {
                Some(v) => {
                    key = v;
                },
                None => {},
            }
        }
        let mut payload: Vec<u8> = Vec::new();
        push_be64(&mut payload, key);
        assert(payload@ =~= crate::bytes::be64(key));
        return Some(Command { op: 0x03, payload });
    }
    if is_named(name, "nmasks") {
        return one_byte(0x04, arg_number(args, 0, 0));
    }
    if is_named(name, "mask") {
        let mut payload: Vec<u8> = Vec::new();
        payload.push(arg_number(args, 0, 0));
        let bytes: Vec<u8> = if args.len() > 1 {
            parse_mask(args[1].as_slice())
        } else {
            let empty: Vec<char> = Vec::new();
            assert(empty@ =~= Seq::<char>::empty());
            parse_mask(empty.as_slice())
        };
        push_all(&mut payload, bytes.as_slice());
        assert(payload@ =~= seq![arg_or(args@, 0, 0)] + bytes@);
        return Some(Command { op: 0x05, payload });
    }
    if is_named(name, "clear-stats") {
        let payload: Vec<u8> = Vec::new();
        assert(payload@ =~= Seq::<u8>::empty());
        return Some(Command { op: 0x06, payload });
    }
    if is_named(name, "lease") {
        let mut payload: Vec<u8> = Vec::new();
        payload.push(arg_number(args, 0, 2));
        payload.push(arg_number(args, 1, 8));
        payload.push(arg_number(args, 2, 0));
        assert(payload@ =~= seq![arg_or(args@, 0, 2), arg_or(args@, 1, 8), arg_or(args@, 2, 0)]);
        return Some(Command { op: 0x07, payload });
    }
    if is_named(name, "quiet-off") {
        let payload: Vec<u8> = Vec::new();
        assert(payload@ =~= Seq::<u8>::empty());
        return Some(Command { op: 0x08, payload });
    }
    None
}

/// A control frame is a data frame to the address that the firmware consumes, with its mark, its
/// operation, its length and its payload each at their place, padded with zeros to 64 bytes.
pub proof fn control_frames_are_laid_out(op: u8, payload: Seq<u8>, i: int)
    requires
        payload.len() <= 255,
        0 <= i,
    ensures
        ({
            let f = control_frame(op, payload);
            &&& f.len() == (if payload.len() <= 26 {
                64nat
            } else {
                38 + payload.len()
            })
            &&& f[2] == 8 && f[8] == 8
            &&& f.subrange(12, 18) == CTL@
            &&& f.subrange(18, 24) == ADDR2@
            &&& f.subrange(24, 30) == ADDR3@
            &&& f[32] == 0x4E && f[33] == 0x44 && f[34] == 0x52 && f[35] == 0x43
            &&& f[36] == op
            &&& f[37] == payload.len()
            &&& i < payload.len() ==> f[38 + i] == payload[i]
            &&& payload.len() <= i < f.len() - 38 ==> f[38 + i] == 0
        }),
{
    let f = control_frame(op, payload);
    assert(f.subrange(12, 18) =~= CTL@);
    assert(f.subrange(18, 24) =~= ADDR2@);
    assert(f.subrange(24, 30) =~= ADDR3@);
}

/// The characters of an ASCII text.
pub open spec fn chars(s: Seq<u8>) -> Seq<char> {
    s.map_values(|b: u8| b as char)
}

proof fn lemma_decimal_value(s: Seq<u8>)
    requires
        forall|i: int| 0 <= i < s.len() ==> 48 <= #[trigger] s[i] <= 57,
    ensures
        all_digits(chars(s), 10),
        value(chars(s), 10) == crate::text::decimal_value(s),
    decreases s.len(),
{
    let c = chars(s);
    assert forall|i: int| 0 <= i < c.len() implies digit(#[trigger] c[i], 10) is Some by {
        assert(48 <= s[i] <= 57);
        assert(c[i] as int == s[i]);
    }
    if s.len() > 0 {
        assert(c.drop_last() =~= chars(s.drop_last()));
        lemma_decimal_value(s.drop_last());
        assert(48 <= s[s.len() - 1] <= 57);
        assert(c.last() as int == s.last());
    }
}

/// A number that is written down is read back, with a plus sign in front or without, and refused
/// where it is greater than what the field holds.
pub proof fn written_numbers_are_read(v: nat, max: int)
    ensures
        v <= max ==> number(chars(crate::text::decimal(v)), 10, max) == Some(v as int),
        v <= max ==> number(seq!['+'] + chars(crate::text::decimal(v)), 10, max) == Some(v as int),
        v > max ==> number(chars(crate::text::decimal(v)), 10, max) is None,
{
    let s = crate::text::decimal(v);
    let c = chars(s);
    crate::text::decimal_reads_back(v);
    lemma_decimal_value(s);
    assert(48 <= s[0] <= 57);
    assert(c[0] as int == s[0]);
    assert(unsigned(c) == c);
    let p = seq!['+'] + c;
    assert(p.skip(1) =~= c);
}

/// A text with a character that is no digit is no number.
pub proof fn texts_are_no_numbers(s: Seq<char>, i: int, radix: int, max: int)
    requires
        0 <= i < unsigned(s).len(),
        digit(unsigned(s)[i], radix) is None,
    ensures
        number(s, radix, max) is None,
        number(Seq::empty(), radix, max) is None,
{
    if all_digits(unsigned(s), radix) {
        assert(digit(unsigned(s)[i], radix) is Some);
    }
}

proof fn lemma_names_differ()
    ensures
        "enable"@ != "drop-foreign"@ && "enable"@ != "key"@ && "enable"@ != "nmasks"@,
        "drop-foreign"@ != "key"@ && "drop-foreign"@ != "nmasks"@ && "key"@ != "nmasks"@,
        "mask"@ != "enable"@ && "mask"@ != "drop-foreign"@ && "mask"@ != "key"@ && "mask"@
            != "nmasks"@,
        "lease"@ != "enable"@ && "lease"@ != "drop-foreign"@ && "lease"@ != "key"@ && "lease"@
            != "nmasks"@ && "lease"@ != "mask"@ && "lease"@ != "clear-stats"@,
        "clear-stats"@ != "enable"@ && "clear-stats"@ != "drop-foreign"@ && "clear-stats"@ != "key"@
            && "clear-stats"@ != "nmasks"@ && "clear-stats"@ != "mask"@,
        "quiet-off"@ != "enable"@ && "quiet-off"@ != "drop-foreign"@ && "quiet-off"@ != "key"@
            && "quiet-off"@ != "nmasks"@ && "quiet-off"@ != "mask"@ && "quiet-off"@
            != "clear-stats"@ && "quiet-off"@ != "lease"@,
{
    reveal_strlit("enable");
    reveal_strlit("drop-foreign");
    reveal_strlit("key");
    reveal_strlit("nmasks");
    reveal_strlit("mask");
    reveal_strlit("clear-stats");
    reveal_strlit("lease");
    reveal_strlit("quiet-off");
    assert("enable"@[0] == 'e' && "drop-foreign"@[0] == 'd' && "key"@[0] == 'k' && "nmasks"@[0]
        == 'n' && "mask"@[0] == 'm' && "clear-stats"@[0] == 'c' && "lease"@[0] == 'l'
        && "quiet-off"@[0] == 'q');
}

/// The numbers of a command line are the bytes of its payload, for every value: one for the three
/// switches, three for a lease, the key as eight bytes.
pub proof fn arguments_become_the_payload(
    args: Seq<Vec<char>>,
    a: u8,
    b: u8,
    c: u8,
    key: Seq<Vec<char>>,
    k: u64,
)
    requires
        args.len() == 3,
        args[0]@ == chars(crate::text::decimal(a as nat)),
        args[1]@ == chars(crate::text::decimal(b as nat)),
        args[2]@ == chars(crate::text::decimal(c as nat)),
        key.len() == 1,
        key[0]@ == chars(crate::text::decimal(k as nat)),
    ensures
        described("enable"@, args) == Some((0x01u8, seq![a])),
        described("drop-foreign"@, args) == Some((0x02u8, seq![a])),
        described("nmasks"@, args) == Some((0x04u8, seq![a])),
        described("lease"@, args) == Some((0x07u8, seq![a, b, c])),
        described("key"@, key) matches Some((op, p)) && op == 0x03 && p.len() == 8
            && crate::bytes::u64_at(p, 0) == k,
        described("clear-stats"@, args) == Some((0x06u8, Seq::<u8>::empty())),
        described("quiet-off"@, args) == Some((0x08u8, Seq::<u8>::empty())),
        described("mask"@, args) matches Some((op, p)) && op == 0x05 && p.len() > 0 && p[0] == a,
{
    lemma_names_differ();
    written_numbers_are_read(a as nat, 255);
    written_numbers_are_read(b as nat, 255);
    written_numbers_are_read(c as nat, 255);
    written_numbers_are_read(k as nat, u64::MAX as int);
    crate::bytes::be_round_trip(0, 0, k);
}

/// A hexadecimal digit, in lower case.
pub open spec fn hex_char(d: int) -> char {
    if d < 10 {
        (48 + d) as char
    } else {
        (87 + d) as char
    }
}

/// The two digits of a byte.
pub open spec fn hex_pair(b: u8) -> Seq<char> {
    seq![hex_char(b as int / 16), hex_char(b as int % 16)]
}

/// A mask as it is written: the bytes in hexadecimal, between commas.
pub open spec fn mask_text(m: Seq<u8>) -> Seq<char>
    decreases m.len(),
{
    if m.len() == 0 {
        Seq::empty()
    } else if m.len() == 1 {
        hex_pair(m[0])
    } else {
        hex_pair(m[0]) + seq![','] + mask_text(m.skip(1))
    }
}

proof fn lemma_hex_char(d: int)
    requires
        0 <= d < 16,
    ensures
        digit(hex_char(d), 16) == Some(d),
        !white(hex_char(d)),
        hex_char(d) != ',' && hex_char(d) != 'x' && hex_char(d) != '+',
{
}

proof fn lemma_hex_pair(b: u8)
    ensures
        entry(hex_pair(b)) == seq![b],
{
    let s = hex_pair(b);
    let hi: int = b as int / 16;
    let lo: int = b as int % 16;
    lemma_hex_char(hi);
    lemma_hex_char(lo);
    assert(trim_front(s) == s);
    assert(trim_back(s) == s);
    assert(unmarked(s) == s);
    assert(unsigned(s) == s);
    assert(all_digits(s, 16)) by {
        assert(s[0] == hex_char(hi) && s[1] == hex_char(lo));
    }
    reveal_with_fuel(value, 3);
    assert(s.drop_last().drop_last() =~= Seq::<char>::empty());
    assert(s.drop_last().last() == hex_char(hi));
    assert(value(s, 16) == b);
}

/// A mask that is written down is read back, byte for byte.
pub proof fn written_masks_are_read(m: Seq<u8>)
    requires
        m.len() > 0,
    ensures
        mask_bytes(Seq::empty(), mask_text(m)) == m,
    decreases m.len(),
{
    let s = mask_text(m);
    let p = hex_pair(m[0]);
    let e = Seq::<char>::empty();
    lemma_hex_pair(m[0]);
    lemma_hex_char(m[0] as int / 16);
    lemma_hex_char(m[0] as int % 16);
    assert(s[0] == p[0] && s[1] == p[1]);
    assert(e.push(p[0]).push(p[1]) =~= p);
    assert(s.skip(1).skip(1) =~= s.skip(2));
    assert(s.skip(1)[0] == p[1]);
    assert(mask_bytes(e, s) == mask_bytes(e.push(p[0]), s.skip(1)));
    assert(mask_bytes(e.push(p[0]), s.skip(1)) == mask_bytes(p, s.skip(2)));
    if m.len() == 1 {
        assert(s.skip(2) =~= e);
        assert(m =~= seq![m[0]]);
    } else {
        written_masks_are_read(m.skip(1));
        let t = s.skip(2);
        assert(t[0] == ',');
        assert(t.skip(1) =~= mask_text(m.skip(1)));
        assert(mask_bytes(p, t) == entry(p) + mask_bytes(e, t.skip(1)));
        assert(seq![m[0]] + m.skip(1) =~= m);
    }
}

} // verus!
