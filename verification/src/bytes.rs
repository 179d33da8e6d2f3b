//! Numbers as bytes, in network and in little-endian order.

use vstd::prelude::*;

verus! {

/// A 16-bit number, most significant byte first.
pub open spec fn be16(v: u16) -> Seq<u8> {
    seq![(v / 256) as u8, (v % 256) as u8]
}

/// A 32-bit number, most significant byte first.
pub open spec fn be32(v: u32) -> Seq<u8> {
    seq![
        (v / 16_777_216) as u8,
        (v / 65_536 % 256) as u8,
        (v / 256 % 256) as u8,
        (v % 256) as u8,
    ]
}

/// A 64-bit number, most significant byte first.
pub open spec fn be64(v: u64) -> Seq<u8> {
    be32((v / 4_294_967_296) as u32) + be32((v % 4_294_967_296) as u32)
}

/// A signed 16-bit number in two's complement, most significant byte first.
pub open spec fn be16_signed(v: i16) -> Seq<u8> {
    be16(twos16(v))
}

/// The two's complement pattern of a signed 16-bit number.
pub open spec fn twos16(v: i16) -> u16 {
    if v >= 0 {
        v as u16
    } else {
        (v + 65_536) as u16
    }
}

/// The signed number of a 16-bit pattern.
pub open spec fn from_twos16(u: u16) -> i16 {
    if u < 32_768 {
        u as i16
    } else {
        (u - 65_536) as i16
    }
}

/// The signed number of an 8-bit pattern.
pub open spec fn from_twos8(u: u8) -> i8 {
    if u < 128 {
        u as i8
    } else {
        (u - 256) as i8
    }
}

/// The two's complement pattern of a signed 8-bit number.
pub open spec fn twos8(v: i8) -> u8 {
    if v >= 0 {
        v as u8
    } else {
        (v + 256) as u8
    }
}

/// The 16-bit number at `at`, most significant byte first.
pub open spec fn u16_at(s: Seq<u8>, at: int) -> u16 {
    (s[at] * 256 + s[at + 1]) as u16
}

/// The 32-bit number at `at`, most significant byte first.
pub open spec fn u32_at(s: Seq<u8>, at: int) -> u32 {
    (s[at] * 16_777_216 + s[at + 1] * 65_536 + s[at + 2] * 256 + s[at + 3]) as u32
}

/// The 64-bit number at `at`, most significant byte first.
pub open spec fn u64_at(s: Seq<u8>, at: int) -> u64 {
    (u32_at(s, at) * 4_294_967_296 + u32_at(s, at + 4)) as u64
}

/// The 16-bit number at `at`, least significant byte first.
pub open spec fn le16_at(s: Seq<u8>, at: int) -> u16 {
    (s[at] + s[at + 1] * 256) as u16
}

/// The 32-bit number at `at`, least significant byte first.
pub open spec fn le32_at(s: Seq<u8>, at: int) -> u32 {
    (s[at] + s[at + 1] * 256 + s[at + 2] * 65_536 + s[at + 3] * 16_777_216) as u32
}

/// A 16-bit number, least significant byte first.
pub open spec fn le16(v: u16) -> Seq<u8> {
    seq![(v % 256) as u8, (v / 256) as u8]
}

/// A 32-bit number, least significant byte first.
pub open spec fn le32(v: u32) -> Seq<u8> {
    seq![
        (v % 256) as u8,
        (v / 256 % 256) as u8,
        (v / 65_536 % 256) as u8,
        (v / 16_777_216) as u8,
    ]
}

/// A 64-bit number, least significant byte first.
pub open spec fn le64(v: u64) -> Seq<u8> {
    le32((v % 4_294_967_296) as u32) + le32((v / 4_294_967_296) as u32)
}

/// Appends a 16-bit number, most significant byte first.
pub fn push_be16(out: &mut Vec<u8>, v: u16)
    ensures
        final(out)@ == old(out)@ + be16(v),
{
    let ghost before = out@;
    out.push((v / 256) as u8);
    out.push((v % 256) as u8);
    assert(out@ =~= before + be16(v));
}

/// Appends a signed 16-bit number, most significant byte first.
pub fn push_be16_signed(out: &mut Vec<u8>, v: i16)
    ensures
        final(out)@ == old(out)@ + be16_signed(v),
{
    let u: u16 = if v >= 0 {
        v as u16
    } else {
        (v as i32 + 65_536) as u16
    };
    push_be16(out, u);
}

/// Appends a 32-bit number, most significant byte first.
pub fn push_be32(out: &mut Vec<u8>, v: u32)
    ensures
        final(out)@ == old(out)@ + be32(v),
{
    let ghost before = out@;
    out.push((v / 16_777_216) as u8);
    out.push((v / 65_536 % 256) as u8);
    out.push((v / 256 % 256) as u8);
    out.push((v % 256) as u8);
    assert(out@ =~= before + be32(v));
}

/// Appends a 64-bit number, most significant byte first.
pub fn push_be64(out: &mut Vec<u8>, v: u64)
    ensures
        final(out)@ == old(out)@ + be64(v),
{
    let ghost before = out@;
    push_be32(out, (v / 4_294_967_296) as u32);
    push_be32(out, (v % 4_294_967_296) as u32);
    assert(out@ =~= before + be64(v));
}

/// Appends a 32-bit number, least significant byte first.
pub fn push_le32(out: &mut Vec<u8>, v: u32)
    ensures
        final(out)@ == old(out)@ + le32(v),
{
    let ghost before = out@;
    out.push((v % 256) as u8);
    out.push((v / 256 % 256) as u8);
    out.push((v / 65_536 % 256) as u8);
    out.push((v / 16_777_216) as u8);
    assert(out@ =~= before + le32(v));
}

/// Appends a 64-bit number, least significant byte first.
pub fn push_le64(out: &mut Vec<u8>, v: u64)
    ensures
        final(out)@ == old(out)@ + le64(v),
{
    let ghost before = out@;
    push_le32(out, (v % 4_294_967_296) as u32);
    push_le32(out, (v / 4_294_967_296) as u32);
    assert(out@ =~= before + le64(v));
}

/// Appends bytes.
pub fn push_all(out: &mut Vec<u8>, bytes: &[u8])
    ensures
        final(out)@ == old(out)@ + bytes@,
{
    let ghost before = out@;
    let mut i: usize = 0;
    assert(before + bytes@.take(0) =~= before);
    while i < bytes.len()
        invariant
            i <= bytes.len(),
            out@ == before + bytes@.take(i as int),
        decreases bytes.len() - i,
    {
        out.push(bytes[i]);
        i += 1;
        assert(out@ =~= before + bytes@.take(i as int));
    }
    assert(bytes@.take(i as int) =~= bytes@);
}

/// The bytes `s[start..end]`, owned.
pub fn copy_range(s: &[u8], start: usize, end: usize) -> (v: Vec<u8>)
    requires
        start <= end <= s.len(),
    ensures
        v@ == s@.subrange(start as int, end as int),
{
    let mut v: Vec<u8> = Vec::new();
    push_all(&mut v, vstd::slice::slice_subrange(s, start, end));
    assert(v@ =~= s@.subrange(start as int, end as int));
    v
}

/// Reads a 16-bit number, most significant byte first.
pub fn get_be16(s: &[u8], at: usize) -> (v: u16)
    requires
        at + 2 <= s.len(),
    ensures
        v == u16_at(s@, at as int),
{
    s[at] as u16 * 256 + s[at + 1] as u16
}

/// Reads a signed 16-bit number, most significant byte first.
pub fn get_be16_signed(s: &[u8], at: usize) -> (v: i16)
    requires
        at + 2 <= s.len(),
    ensures
        v == from_twos16(u16_at(s@, at as int)),
{
    let u: u16 = get_be16(s, at);
    if u < 32_768 {
        u as i16
    } else {
        (u as i32 - 65_536) as i16
    }
}

/// Reads a 32-bit number, most significant byte first.
pub fn get_be32(s: &[u8], at: usize) -> (v: u32)
    requires
        at + 4 <= s.len(),
    ensures
        v == u32_at(s@, at as int),
{
    s[at] as u32 * 16_777_216 + s[at + 1] as u32 * 65_536 + s[at + 2] as u32 * 256
        + s[at + 3] as u32
}

/// Reads a 64-bit number, most significant byte first.
pub fn get_be64(s: &[u8], at: usize) -> (v: u64)
    requires
        at + 8 <= s.len(),
    ensures
        v == u64_at(s@, at as int),
{
    get_be32(s, at) as u64 * 4_294_967_296 + get_be32(s, at + 4) as u64
}

/// Reads a 16-bit number, least significant byte first.
pub fn get_le16(s: &[u8], at: usize) -> (v: u16)
    requires
        at + 2 <= s.len(),
    ensures
        v == le16_at(s@, at as int),
{
    s[at] as u16 + s[at + 1] as u16 * 256
}

/// Reads a 32-bit number, least significant byte first.
pub fn get_le32(s: &[u8], at: usize) -> (v: u32)
    requires
        at + 4 <= s.len(),
    ensures
        v == le32_at(s@, at as int),
{
    s[at] as u32 + s[at + 1] as u32 * 256 + s[at + 2] as u32 * 65_536 + s[at + 3] as u32
        * 16_777_216
}

/// The signed number of a byte.
pub fn as_signed(u: u8) -> (v: i8)
    ensures
        v == from_twos8(u),
{
    if u < 128 {
        u as i8
    } else {
        (u as i16 - 256) as i8
    }
}

/// The byte of a signed number.
pub fn as_byte(v: i8) -> (u: u8)
    ensures
        u == twos8(v),
{
    if v >= 0 {
        v as u8
    } else {
        (v as i16 + 256) as u8
    }
}

proof fn lemma_be32(b: u32)
    ensures
        u32_at(be32(b), 0) == b,
{
    let q3: u32 = b / 16_777_216;
    let q2: u32 = b / 65_536;
    let q1: u32 = b / 256;
    assert(q2 / 256 == q3 && q1 / 256 == q2);
    assert(be32(b)[0] == q3);
    assert(be32(b)[1] == q2 % 256);
    assert(be32(b)[2] == q1 % 256);
    assert(be32(b)[3] == b % 256);
}

/// What is written big-endian reads back.
pub proof fn be_round_trip(a: u16, b: u32, c: u64)
    ensures
        u16_at(be16(a), 0) == a,
        u32_at(be32(b), 0) == b,
        u64_at(be64(c), 0) == c,
{
    lemma_be32(b);
    let hi: u32 = (c / 4_294_967_296) as u32;
    let lo: u32 = (c % 4_294_967_296) as u32;
    lemma_be32(hi);
    lemma_be32(lo);
    let s = be64(c);
    assert(u32_at(s, 0) == u32_at(be32(hi), 0));
    assert(u32_at(s, 4) == u32_at(be32(lo), 0));
}

/// A number is found where its bytes stand, whatever surrounds them.
pub proof fn numbers_are_found_in_place(s: Seq<u8>, at: int, a: u16, b: u32, c: u64)
    requires
        0 <= at,
    ensures
        at + 2 <= s.len() && s.subrange(at, at + 2) == be16(a) ==> u16_at(s, at) == a,
        at + 4 <= s.len() && s.subrange(at, at + 4) == be32(b) ==> u32_at(s, at) == b,
        at + 8 <= s.len() && s.subrange(at, at + 8) == be64(c) ==> u64_at(s, at) == c,
{
    be_round_trip(a, b, c);
    if at + 2 <= s.len() && s.subrange(at, at + 2) == be16(a) {
        let t = s.subrange(at, at + 2);
        assert(t[0] == s[at] && t[1] == s[at + 1]);
    }
    if at + 4 <= s.len() && s.subrange(at, at + 4) == be32(b) {
        let t = s.subrange(at, at + 4);
        assert(t[0] == s[at] && t[1] == s[at + 1] && t[2] == s[at + 2] && t[3] == s[at + 3]);
    }
    if at + 8 <= s.len() && s.subrange(at, at + 8) == be64(c) {
        let t = s.subrange(at, at + 8);
        assert(t[0] == s[at] && t[1] == s[at + 1] && t[2] == s[at + 2] && t[3] == s[at + 3]);
        assert(t[4] == s[at + 4] && t[5] == s[at + 5] && t[6] == s[at + 6] && t[7] == s[at + 7]);
        assert(u32_at(t, 0) == u32_at(s, at) && u32_at(t, 4) == u32_at(s, at + 4));
    }
}

/// What is written little-endian reads back.
pub proof fn le_round_trip(a: u16, b: u32)
    ensures
        le16_at(le16(a), 0) == a,
        le32_at(le32(b), 0) == b,
{
}

/// A little-endian number is found where its bytes stand, whatever surrounds them; eight bytes are
/// two of four, the lower first.
pub proof fn low_first_numbers_are_found_in_place(s: Seq<u8>, at: int, a: u16, b: u32, c: u64)
    requires
        0 <= at,
    ensures
        at + 2 <= s.len() && s.subrange(at, at + 2) == le16(a) ==> le16_at(s, at) == a,
        at + 4 <= s.len() && s.subrange(at, at + 4) == le32(b) ==> le32_at(s, at) == b,
        at + 8 <= s.len() && s.subrange(at, at + 8) == le64(c) ==> le32_at(s, at) + le32_at(
            s,
            at + 4,
        ) * 4_294_967_296 == c,
{
    le_round_trip(a, b);
    if at + 2 <= s.len() && s.subrange(at, at + 2) == le16(a) {
        let t = s.subrange(at, at + 2);
        assert(t[0] == s[at] && t[1] == s[at + 1]);
    }
    if at + 4 <= s.len() && s.subrange(at, at + 4) == le32(b) {
        let t = s.subrange(at, at + 4);
        assert(t[0] == s[at] && t[1] == s[at + 1] && t[2] == s[at + 2] && t[3] == s[at + 3]);
    }
    if at + 8 <= s.len() && s.subrange(at, at + 8) == le64(c) {
        let t = s.subrange(at, at + 8);
        let lo = (c % 4_294_967_296) as u32;
        let hi = (c / 4_294_967_296) as u32;
        assert(t[0] == s[at] && t[1] == s[at + 1] && t[2] == s[at + 2] && t[3] == s[at + 3]);
        assert(t[4] == s[at + 4] && t[5] == s[at + 5] && t[6] == s[at + 6] && t[7] == s[at + 7]);
        le_round_trip(0, lo);
        le_round_trip(0, hi);
        assert(le32_at(s, at) == le32_at(le32(lo), 0));
        assert(le32_at(s, at + 4) == le32_at(le32(hi), 0));
    }
}

/// Each byte of a number counts 256 times the one behind it, or, low first, the one before it.
pub proof fn bytes_count_by_their_place(a: u16, b: u32)
    ensures
        be16(a).len() == 2 && le16(a).len() == 2 && be32(b).len() == 4 && le32(b).len() == 4,
        be16(a)[0] * 256 + be16(a)[1] == a,
        le16(a)[1] * 256 + le16(a)[0] == a,
        ((be32(b)[0] * 256 + be32(b)[1]) * 256 + be32(b)[2]) * 256 + be32(b)[3] == b,
        ((le32(b)[3] * 256 + le32(b)[2]) * 256 + le32(b)[1]) * 256 + le32(b)[0] == b,
{
    lemma_be32(b);
    le_round_trip(a, b);
}

/// A signed number survives its byte pattern, which differs from it by a whole turn of the byte.
pub proof fn signed_round_trip(a: i8, b: i16)
    ensures
        from_twos8(twos8(a)) == a,
        from_twos16(twos16(b)) == b,
        twos8(a) == a as int % 256,
        twos16(b) == b as int % 65_536,
{
}

} // verus!
