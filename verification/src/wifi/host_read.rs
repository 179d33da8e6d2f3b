//! Reading host commands byte by byte, with a bound on how long a command may take.

use vstd::prelude::*;

use crate::bytes::copy_range;
use crate::wifi::deframe::Message;

verus! {

/// Longest command.
pub const MAX_FRAME: usize = 1600;

/// What is expected next.
#[derive(Clone, Copy, PartialEq, Eq, Structural)]
pub enum Want {
    FirstSync,
    SecondSync,
    Type,
    LenLow,
    LenHigh,
    Body,
}

/// A command on its way.
#[verifier::ext_equal]
pub struct ReaderView {
    pub want: Want,
    pub ty: u8,
    pub len: int,
    pub body: Seq<u8>,
}

impl ReaderView {
    /// The reader after one more byte. A wrong sync byte and an impossible length start over.
    pub open spec fn after(self, b: u8) -> ReaderView {
        match self.want {
            Want::FirstSync => if b == 0x4E {
                ReaderView { want: Want::SecondSync, ..self }
            } else {
                self
            },
            Want::SecondSync => if b == 0x44 {
                ReaderView { want: Want::Type, ..self }
            } else {
                ReaderView { want: Want::FirstSync, ..self }
            },
            Want::Type => ReaderView { want: Want::LenLow, ty: b, ..self },
            Want::LenLow => ReaderView { want: Want::LenHigh, len: b as int, ..self },
            Want::LenHigh => {
                let len: int = self.len + 256 * b;
                ReaderView {
                    want: if len > 1600 || len == 0 {
                        Want::FirstSync
                    } else {
                        Want::Body
                    },
                    len,
                    body: Seq::empty(),
                    ..self
                }
            },
            Want::Body => ReaderView {
                want: if self.body.len() + 1 >= self.len {
                    Want::FirstSync
                } else {
                    Want::Body
                },
                body: self.body.push(b),
                ..self
            },
        }
    }

    /// The command that one more byte completes.
    pub open spec fn yields(self, b: u8) -> Option<crate::wifi::deframe::MessageView> {
        if self.want == Want::LenHigh && self.len + 256 * b == 0 {
            Some(crate::wifi::deframe::MessageView { ty: self.ty, payload: Seq::empty() })
        } else if self.want == Want::Body && self.body.len() + 1 >= self.len {
            Some(crate::wifi::deframe::MessageView { ty: self.ty, payload: self.body.push(b) })
        } else {
            None
        }
    }

    /// The reader after a run of bytes.
    pub open spec fn after_all(self, s: Seq<u8>) -> ReaderView
        decreases s.len(),
    {
        if s.len() == 0 {
            self
        } else {
            self.after_all(s.drop_last()).after(s.last())
        }
    }
}

/// Reads commands from the host.
pub struct HostReader {
    want: Want,
    ty: u8,
    len: usize,
    body: Vec<u8>,
}

impl View for HostReader {
    type V = ReaderView;

    closed spec fn view(&self) -> ReaderView {
        ReaderView { want: self.want, ty: self.ty, len: self.len as int, body: self.body@ }
    }
}

impl HostReader {
    /// The length is that of a command, and the low byte of one while the high byte is awaited.
    pub closed spec fn wf(self) -> bool {
        &&& self.want == Want::LenHigh ==> self.len <= 255
        &&& self.want == Want::Body ==> self.body@.len() < self.len <= 1600
    }

    /// Nothing read.
    pub fn new() -> (r: HostReader)
        ensures
            r.wf(),
            r@ == (ReaderView {
                want: Want::FirstSync,
                ty: 0,
                len: 0,
                body: Seq::empty(),
            }),
    {
        HostReader { want: Want::FirstSync, ty: 0, len: 0, body: Vec::new() }
    }

    /// Whether a command is on its way, so that its time is running.
    pub fn in_body(&self) -> (b: bool)
        ensures
            b == (self@.want == Want::Body),
    {
        match self.want {
            Want::Body => true,
            _ => false,
        }
    }

    /// Takes one byte; returns the command that it completes.
    pub fn push(&mut self, b: u8) -> (done: Option<Message>)
        requires
            old(self).wf(),
        ensures
            final(self).wf(),
            final(self)@ == old(self)@.after(b),
            (match done {
                Some(m) => old(self)@.yields(b) == Some(m@),
                None => old(self)@.yields(b) is None,
            }),
    {
        match self.want {
            Want::FirstSync => {
                if b == crate::wifi::proto::SYNC0 {
                    self.want = Want::SecondSync;
                }
            },
            Want::SecondSync => {
                self.want = if b == crate::wifi::proto::SYNC1 {
                    Want::Type
                } else {
                    Want::FirstSync
                };
            },
            Want::Type => {
                self.ty = b;
                self.want = Want::LenLow;
            },
            Want::LenLow => {
                self.len = b as usize;
                self.want = Want::LenHigh;
            },
            Want::LenHigh => {
                self.len = self.len + 256 * b as usize;
                self.body = Vec::new();
                if self.len == 0 {
                    self.want = Want::FirstSync;
                    let payload: Vec<u8> = Vec::new();
                    assert(payload@ =~= Seq::<u8>::empty());
                    return Some(Message { ty: self.ty, payload });
                }
                self.want = if self.len > MAX_FRAME {
                    Want::FirstSync
                } else {
                    Want::Body
                };
            },
            Want::Body => {
                self.body.push(b);
                if self.body.len() >= self.len {
                    self.want = Want::FirstSync;
                    let payload: Vec<u8> = copy_range(self.body.as_slice(), 0, self.body.len());
                    assert(payload@ =~= self.body@);
                    return Some(Message { ty: self.ty, payload });
                }
            },
        }
        None
    }

    /// The time of a command has run out: it is given up.
    pub fn give_up(&mut self)
        requires
            old(self).wf(),
        ensures
            final(self).wf(),
            final(self)@ == (ReaderView { want: Want::FirstSync, ..old(self)@ }),
    {
        self.want = Want::FirstSync;
    }
}

/// How long a command's body may take, in milliseconds.
pub const BODY_TIMEOUT_MS: u32 = 200;

/// A body is out of time, on a clock that wraps.
pub open spec fn out_of_time(start_ms: u32, now_ms: u32) -> bool {
    now_ms.wrapping_sub(start_ms) >= 200
}

/// Whether a body is out of time, on a clock that wraps.
pub fn timed_out(start_ms: u32, now_ms: u32) -> (b: bool)
    ensures
        b == out_of_time(start_ms, now_ms),
{
    now_ms.wrapping_sub(start_ms) >= BODY_TIMEOUT_MS
}

proof fn lemma_push(p: ReaderView, s: Seq<u8>, b: u8)
    ensures
        p.after_all(s.push(b)) == p.after_all(s).after(b),
{
    assert(s.push(b).drop_last() =~= s);
}

proof fn lemma_body(p: ReaderView, body: Seq<u8>, n: int)
    requires
        p.want == Want::Body,
        p.body.len() == 0,
        p.len == body.len(),
        0 <= n < body.len(),
    ensures
        p.after_all(body.take(n)) == (ReaderView { body: body.take(n), ..p }),
    decreases n,
{
    if n == 0 {
        assert(body.take(0) =~= Seq::<u8>::empty());
        assert(p.body =~= body.take(0));
    } else {
        lemma_body(p, body, n - 1);
        assert(body.take(n).drop_last() =~= body.take(n - 1));
        assert(body.take(n - 1).push(body[n - 1]) =~= body.take(n));
    }
}

/// What the host encodes the node reads: fed all bytes of a command but the last, a reader between
/// commands is one byte away from exactly that command.
pub proof fn command_round_trip(p: ReaderView, ty: u8, payload: Seq<u8>)
    requires
        p.want == Want::FirstSync,
        payload.len() <= 1600,
    ensures
        ({
            let m = crate::wifi::proto::message_bytes(ty, payload);
            &&& p.after_all(m.drop_last()).yields(m.last()) == Some(
                crate::wifi::deframe::MessageView { ty, payload },
            )
            &&& p.after_all(m).want == Want::FirstSync
        }),
{
    let m = crate::wifi::proto::message_bytes(ty, payload);
    let lo = (payload.len() % 256) as u8;
    let hi = (payload.len() / 256 % 256) as u8;
    let s0 = Seq::<u8>::empty();
    lemma_push(p, s0, 0x4E);
    lemma_push(p, s0.push(0x4E), 0x44);
    lemma_push(p, s0.push(0x4E).push(0x44), ty);
    lemma_push(p, s0.push(0x4E).push(0x44).push(ty), lo);
    let h4 = s0.push(0x4E).push(0x44).push(ty).push(lo);
    lemma_push(p, h4, hi);
    let q = p.after_all(h4.push(hi));
    if payload.len() == 0 {
        assert(m =~= h4.push(hi));
        assert(m.drop_last() =~= h4);
        assert(p.after_all(h4).yields(hi)->0.payload =~= payload);
    } else {
        assert(q.want == Want::Body && q.len == payload.len() && q.ty == ty);
        let n = payload.len() as int;
        lemma_body(q, payload, n - 1);
        lemma_concat(p, h4.push(hi), payload.take(n - 1));
        assert(m.drop_last() =~= h4.push(hi) + payload.take(n - 1));
        assert(payload.take(n - 1).push(payload[n - 1]) =~= payload);
        lemma_push(p, m.drop_last(), m.last());
        assert(m.drop_last().push(m.last()) =~= m);
    }
}

proof fn lemma_concat(p: ReaderView, a: Seq<u8>, b: Seq<u8>)
    ensures
        p.after_all(a + b) == p.after_all(a).after_all(b),
    decreases b.len(),
{
    if b.len() == 0 {
        assert(a + b =~= a);
    } else {
        assert((a + b).drop_last() =~= a + b.drop_last());
        lemma_concat(p, a, b.drop_last());
    }
}

} // verus!
