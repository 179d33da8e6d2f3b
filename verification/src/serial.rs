//! The host link of the LoRa nodes: `7E A5 type len payload check`, with the exclusive-or of
//! everything behind the sync bytes as the check.

use vstd::prelude::*;

verus! {

/// First sync byte.
pub const SYNC0: u8 = 0x7E;
/// Second sync byte.
pub const SYNC1: u8 = 0xA5;

/// The exclusive-or of a byte string.
pub open spec fn xor_all(s: Seq<u8>) -> u8
    decreases s.len(),
{
    if s.len() == 0 {
        0
    } else {
        xor_all(s.drop_last()) ^ s.last()
    }
}

/// The check byte of a frame.
pub open spec fn check_byte(typ: u8, len: u8, payload: Seq<u8>) -> u8 {
    (typ ^ len) ^ xor_all(payload)
}

/// The bytes of a frame. The length field holds the payload length modulo 256.
pub open spec fn frame_bytes(typ: u8, payload: Seq<u8>) -> Seq<u8> {
    let len = (payload.len() % 256) as u8;
    seq![SYNC0, SYNC1, typ, len] + payload + seq![check_byte(typ, len, payload)]
}

proof fn lemma_xor_assoc(a: u8, b: u8, c: u8)
    by (bit_vector)
    ensures
        (a ^ b) ^ c == a ^ (b ^ c),
        a ^ 0 == a,
        0 ^ a == a,
        a ^ a == 0,
{
}

/// Encodes one frame for the host link.
pub fn encode_frame(typ: u8, payload: &[u8]) -> (bytes: Vec<u8>)
    ensures
        bytes@ == frame_bytes(typ, payload@),
{
    let len: u8 = (payload.len() % 256) as u8;
    let mut bytes: Vec<u8> = Vec::new();
    bytes.push(SYNC0);
    bytes.push(SYNC1);
    bytes.push(typ);
    bytes.push(len);
    let mut crc: u8 = typ ^ len;
    let mut i: usize = 0;
    proof {
        lemma_xor_assoc(typ ^ len, 0, 0);
        assert(payload@.take(0) =~= Seq::<u8>::empty());
        assert(bytes@ =~= seq![SYNC0, SYNC1, typ, len] + payload@.take(0));
    }
    while i < payload.len()
        invariant
            i <= payload.len(),
            bytes@ == seq![SYNC0, SYNC1, typ, len] + payload@.take(i as int),
            crc == (typ ^ len) ^ xor_all(payload@.take(i as int)),
        decreases payload.len() - i,
    {
        proof {
            let next = payload@.take(i as int + 1);
            assert(next.drop_last() =~= payload@.take(i as int));
            lemma_xor_assoc(typ ^ len, xor_all(payload@.take(i as int)), payload@[i as int]);
        }
        crc = crc ^ payload[i];
        bytes.push(payload[i]);
        i += 1;
        assert(bytes@ =~= seq![SYNC0, SYNC1, typ, len] + payload@.take(i as int));
    }
    assert(payload@.take(i as int) =~= payload@);
    bytes.push(crc);
    assert(bytes@ =~= frame_bytes(typ, payload@));
    bytes
}

/// What the parser expects next.
#[derive(Clone, Copy, PartialEq, Eq, Structural, Debug)]
pub enum Expect {
    FirstSync,
    SecondSync,
    Type,
    Length,
    Body,
    Check,
}

/// What a parser holds: what it expects, the header it has read, the body so far, and the running
/// check.
#[verifier::ext_equal]
pub struct ParserView {
    pub expect: Expect,
    pub typ: u8,
    pub len: u8,
    pub crc: u8,
    pub body: Seq<u8>,
}

/// A whole frame.
pub struct Frame {
    pub typ: u8,
    pub payload: Vec<u8>,
}

/// A whole frame, as a value.
#[verifier::ext_equal]
pub struct FrameView {
    pub typ: u8,
    pub payload: Seq<u8>,
}

impl View for Frame {
    type V = FrameView;

    open spec fn view(&self) -> FrameView {
        FrameView { typ: self.typ, payload: self.payload@ }
    }
}

impl ParserView {
    /// A parser that has read nothing.
    pub open spec fn idle(self) -> bool {
        self.expect == Expect::FirstSync
    }

    /// The parser after one more byte.
    pub open spec fn after(self, b: u8) -> ParserView {
        match self.expect {
            Expect::FirstSync => if b == SYNC0 {
                ParserView { expect: Expect::SecondSync, ..self }
            } else {
                self
            },
            Expect::SecondSync => if b == SYNC1 {
                ParserView { expect: Expect::Type, ..self }
            } else if b == SYNC0 {
                self
            } else {
                ParserView { expect: Expect::FirstSync, ..self }
            },
            Expect::Type => ParserView { expect: Expect::Length, typ: b, crc: b, ..self },
            Expect::Length => ParserView {
                expect: if b == 0 {
                    Expect::Check
                } else {
                    Expect::Body
                },
                len: b,
                crc: self.crc ^ b,
                body: Seq::empty(),
                ..self
            },
            Expect::Body => ParserView {
                expect: if self.body.len() + 1 >= self.len {
                    Expect::Check
                } else {
                    Expect::Body
                },
                crc: self.crc ^ b,
                body: self.body.push(b),
                ..self
            },
            Expect::Check => ParserView { expect: Expect::FirstSync, ..self },
        }
    }

    /// The frame that one more byte completes.
    pub open spec fn yields(self, b: u8) -> Option<FrameView> {
        if self.expect == Expect::Check && b == self.crc {
            Some(FrameView { typ: self.typ, payload: self.body })
        } else {
            None
        }
    }

    /// The parser after a run of bytes.
    pub open spec fn after_all(self, s: Seq<u8>) -> ParserView
        decreases s.len(),
    {
        if s.len() == 0 {
            self
        } else {
            self.after_all(s.drop_last()).after(s.last())
        }
    }

    /// The frames that a run of bytes completes, in order.
    pub open spec fn frames(self, s: Seq<u8>) -> Seq<FrameView>
        decreases s.len(),
    {
        if s.len() == 0 {
            Seq::empty()
        } else {
            let before = self.frames(s.drop_last());
            match self.after_all(s.drop_last()).yields(s.last()) {
                Some(f) => before.push(f),
                None => before,
            }
        }
    }
}

/// Reads frames from a byte stream, one byte at a time.
pub struct Parser {
    expect: Expect,
    typ: u8,
    len: u8,
    crc: u8,
    body: Vec<u8>,
}

impl View for Parser {
    type V = ParserView;

    closed spec fn view(&self) -> ParserView {
        ParserView {
            expect: self.expect,
            typ: self.typ,
            len: self.len,
            crc: self.crc,
            body: self.body@,
        }
    }
}

impl Parser {
    /// A parser that has read nothing.
    pub fn new() -> (p: Parser)
        ensures
            p@ == (ParserView {
                expect: Expect::FirstSync,
                typ: 0,
                len: 0,
                crc: 0,
                body: Seq::empty(),
            }),
    {
        Parser { expect: Expect::FirstSync, typ: 0, len: 0, crc: 0, body: Vec::new() }
    }

    /// Takes one byte; returns the frame that it completes.
    pub fn push(&mut self, b: u8) -> (done: Option<Frame>)
        ensures
            final(self)@ == old(self)@.after(b),
            (match done {
                Some(f) => old(self)@.yields(b) == Some(f@),
                None => old(self)@.yields(b) is None,
            }),
    {
        match self.expect {
            Expect::FirstSync => {
                if b == SYNC0 {
                    self.expect = Expect::SecondSync;
                }
            },
            Expect::SecondSync => {
                self.expect = if b == SYNC1 {
                    Expect::Type
                } else if b == SYNC0 {
                    Expect::SecondSync
                } else {
                    Expect::FirstSync
                };
            },
            Expect::Type => {
                self.typ = b;
                self.crc = b;
                self.expect = Expect::Length;
            },
            Expect::Length => {
                self.len = b;
                self.crc = self.crc ^ b;
                self.body = Vec::new();
                self.expect = if b == 0 {
                    Expect::Check
                } else {
                    Expect::Body
                };
            },
            Expect::Body => {
                self.crc = self.crc ^ b;
                self.body.push(b);
                if self.body.len() >= self.len as usize {
                    self.expect = Expect::Check;
                }
            },
            Expect::Check => {
                self.expect = Expect::FirstSync;
                if b == self.crc {
                    let payload: Vec<u8> = vstd::slice::slice_to_vec(self.body.as_slice());
                    return Some(Frame { typ: self.typ, payload });
                }
            },
        }
        None
    }
}

proof fn lemma_body(p: ParserView, payload: Seq<u8>, n: int)
    requires
        p.expect == Expect::Body,
        p.body.len() == 0,
        p.len == payload.len(),
        1 <= n <= payload.len(),
    ensures
        p.after_all(payload.take(n)) == (ParserView {
            expect: if n == payload.len() {
                Expect::Check
            } else {
                Expect::Body
            },
            typ: p.typ,
            len: p.len,
            crc: p.crc ^ xor_all(payload.take(n)),
            body: payload.take(n),
        }),
        p.frames(payload.take(n)).len() == 0,
    decreases n,
{
    let s = payload.take(n);
    assert(s.drop_last() =~= payload.take(n - 1));
    if n == 1 {
        assert(payload.take(0) =~= Seq::<u8>::empty());
        assert(p.after_all(s.drop_last()) == p);
        assert(p.frames(s.drop_last()).len() == 0);
        lemma_xor_assoc(p.crc, 0, s.last());
        assert(xor_all(s.drop_last()) == 0);
        assert(p.after_all(s).body =~= payload.take(1));
        assert(p.after_all(s) =~= p.after(s.last()));
    } else {
        lemma_body(p, payload, n - 1);
        lemma_xor_assoc(p.crc, xor_all(payload.take(n - 1)), s.last());
        assert(p.after_all(s).body =~= payload.take(n));
    }
}

proof fn lemma_after_concat(p: ParserView, a: Seq<u8>, b: Seq<u8>)
    ensures
        p.after_all(a + b) == p.after_all(a).after_all(b),
        p.frames(a + b) == p.frames(a) + p.after_all(a).frames(b),
    decreases b.len(),
{
    if b.len() == 0 {
        assert(a + b =~= a);
        assert(p.frames(a) + p.after_all(a).frames(b) =~= p.frames(a));
    } else {
        assert((a + b).drop_last() =~= a + b.drop_last());
        lemma_after_concat(p, a, b.drop_last());
        assert(p.frames(a + b) =~= p.frames(a) + p.after_all(a).frames(b));
    }
}

proof fn lemma_push(p: ParserView, s: Seq<u8>, b: u8)
    ensures
        p.after_all(s.push(b)) == p.after_all(s).after(b),
        p.frames(s.push(b)) == (match p.after_all(s).yields(b) {
            Some(f) => p.frames(s).push(f),
            None => p.frames(s),
        }),
{
    assert(s.push(b).drop_last() =~= s);
}

proof fn lemma_header(p: ParserView, typ: u8, len: u8)
    requires
        p.expect == Expect::FirstSync || p.expect == Expect::SecondSync,
    ensures
        p.after_all(seq![SYNC0, SYNC1, typ, len]) == (ParserView {
            expect: if len == 0 {
                Expect::Check
            } else {
                Expect::Body
            },
            typ,
            len,
            crc: typ ^ len,
            body: Seq::empty(),
        }),
        p.frames(seq![SYNC0, SYNC1, typ, len]) == Seq::<FrameView>::empty(),
{
    let s0 = Seq::<u8>::empty();
    lemma_push(p, s0, SYNC0);
    lemma_push(p, s0.push(SYNC0), SYNC1);
    lemma_push(p, s0.push(SYNC0).push(SYNC1), typ);
    lemma_push(p, s0.push(SYNC0).push(SYNC1).push(typ), len);
    assert(s0.push(SYNC0).push(SYNC1).push(typ).push(len) =~= seq![SYNC0, SYNC1, typ, len]);
}

/// What one side encodes the other reads: a parser between frames that is fed a frame yields that
/// frame and nothing else, and is between frames again.
pub proof fn frame_round_trip(p: ParserView, typ: u8, payload: Seq<u8>)
    requires
        p.expect == Expect::FirstSync || p.expect == Expect::SecondSync,
        payload.len() <= 255,
    ensures
        p.frames(frame_bytes(typ, payload)) == seq![FrameView { typ, payload }],
        p.after_all(frame_bytes(typ, payload)).idle(),
{
    let len = payload.len() as u8;
    let head = seq![SYNC0, SYNC1, typ, len];
    let check = seq![check_byte(typ, len, payload)];
    let all = frame_bytes(typ, payload);
    assert(all =~= head + payload + check);
    lemma_header(p, typ, len);
    let h4 = p.after_all(head);
    lemma_after_concat(p, head, payload);
    let mid = p.after_all(head + payload);
    if payload.len() == 0 {
        assert(h4.after_all(payload) == h4);
        assert(xor_all(payload) == 0);
        lemma_xor_assoc(typ ^ len, 0, 0);
        assert(mid.body =~= payload);
    } else {
        lemma_body(h4, payload, payload.len() as int);
        assert(payload.take(payload.len() as int) =~= payload);
    }
    assert(mid.expect == Expect::Check && mid.typ == typ && mid.body == payload && mid.crc
        == check_byte(typ, len, payload));
    assert(p.frames(head + payload).len() == 0);
    lemma_after_concat(p, head + payload, check);
    lemma_push(mid, Seq::empty(), check[0]);
    assert(Seq::<u8>::empty().push(check[0]) =~= check);
    assert(mid.frames(check) =~= seq![FrameView { typ, payload }]);
    assert(p.frames(all) =~= seq![FrameView { typ, payload }]);
}

/// Line noise before a frame does not cost the frame: whatever bytes leave the parser between
/// frames or behind a first sync byte, the next frame is read.
pub proof fn frame_is_found_behind_noise(p: ParserView, noise: Seq<u8>, typ: u8, payload: Seq<u8>)
    requires
        p.after_all(noise).expect == Expect::FirstSync || p.after_all(noise).expect
            == Expect::SecondSync,
        payload.len() <= 255,
    ensures
        p.frames(noise + frame_bytes(typ, payload)) == p.frames(noise).push(
            FrameView { typ, payload },
        ),
{
    frame_round_trip(p.after_all(noise), typ, payload);
    lemma_after_concat(p, noise, frame_bytes(typ, payload));
    assert(p.frames(noise) + seq![FrameView { typ, payload }] =~= p.frames(noise).push(
        FrameView { typ, payload },
    ));
}

/// A parser between frames ignores bytes that are no sync byte.
pub proof fn noise_without_sync_is_ignored(p: ParserView, noise: Seq<u8>)
    requires
        p.idle(),
        forall|i: int| 0 <= i < noise.len() ==> noise[i] != SYNC0,
    ensures
        p.after_all(noise) == p,
        p.frames(noise).len() == 0,
    decreases noise.len(),
{
    if noise.len() > 0 {
        noise_without_sync_is_ignored(p, noise.drop_last());
    }
}

/// A damaged check byte yields no frame, and the parser is ready for the next one.
pub proof fn damaged_frame_is_dropped(p: ParserView, b: u8)
    requires
        p.expect == Expect::Check,
        b != p.crc,
    ensures
        p.yields(b) is None,
        p.after(b).idle(),
{
}

/// A frame is its two sync bytes, its type, its length, its payload and its check, each at their
/// place, and the exclusive-or of everything behind the sync bytes is zero.
pub proof fn frames_are_laid_out(typ: u8, payload: Seq<u8>, i: int)
    requires
        payload.len() <= 255,
        0 <= i,
    ensures
        ({
            let f = frame_bytes(typ, payload);
            &&& f.len() == payload.len() + 5
            &&& f[0] == 0x7E && f[1] == 0xA5
            &&& f[2] == typ
            &&& f[3] == payload.len()
            &&& i < payload.len() ==> f[4 + i] == payload[i]
            &&& xor_all(f.skip(2)) == 0
        }),
{
    let f = frame_bytes(typ, payload);
    let len = payload.len() as u8;
    let head = seq![typ, len];
    let body = head + payload;
    assert(f.skip(2) =~= body.push(check_byte(typ, len, payload)));
    assert(f.skip(2).drop_last() =~= body);
    lemma_xor_behind(head, payload);
    reveal_with_fuel(xor_all, 3);
    assert(head.drop_last().drop_last() =~= Seq::<u8>::empty());
    assert(head.drop_last() =~= seq![typ]);
    assert(seq![typ].drop_last() =~= Seq::<u8>::empty());
    lemma_xor_assoc(typ, 0, 0);
    lemma_xor_assoc((typ ^ len) ^ xor_all(payload), 0, 0);
}

proof fn lemma_xor_behind(a: Seq<u8>, b: Seq<u8>)
    ensures
        xor_all(a + b) == xor_all(a) ^ xor_all(b),
    decreases b.len(),
{
    if b.len() == 0 {
        assert(a + b =~= a);
        lemma_xor_assoc(xor_all(a), 0, 0);
    } else {
        lemma_xor_behind(a, b.drop_last());
        assert((a + b).drop_last() =~= a + b.drop_last());
        lemma_xor_assoc(xor_all(a), xor_all(b.drop_last()), b.last());
    }
}

} // verus!
