//! The outbound byte ring: whole messages in, bytes out.

use vstd::prelude::*;

verus! {

/// Size of the ring; one byte stays free.
pub const RING: usize = 8192;

/// Bytes waiting for the serial port, and how many messages did not fit.
pub struct Ring {
    buf: Vec<u8>,
    start: usize,
    used: usize,
    dropped: u32,
}

/// What a ring holds.
#[verifier::ext_equal]
pub struct RingView {
    pub bytes: Seq<u8>,
    pub dropped: u32,
}

impl View for Ring {
    type V = RingView;

    closed spec fn view(&self) -> RingView {
        RingView {
            bytes: Seq::new(self.used as nat, |k: int| self.buf@[(self.start + k) % 8192]),
            dropped: self.dropped,
        }
    }
}

impl RingView {
    /// The ring after a message: all of it, or none of it and a count.
    pub open spec fn pushed(self, ty: u8, body: Seq<u8>) -> RingView {
        if self.bytes.len() + 5 + body.len() > 8191 {
            RingView { dropped: self.dropped.wrapping_add(1), ..self }
        } else {
            RingView {
                bytes: self.bytes + crate::wifi::proto::message_bytes(ty, body),
                ..self
            }
        }
    }

    /// How much a drain takes.
    pub open spec fn drained(self, budget: nat) -> int {
        if self.bytes.len() <= budget {
            self.bytes.len() as int
        } else {
            budget as int
        }
    }
}

impl Ring {
    /// Positions inside the ring, one byte free.
    pub closed spec fn wf(self) -> bool {
        self.buf@.len() == 8192 && self.start < 8192 && self.used <= 8191
    }

    /// An empty ring.
    pub fn new() -> (r: Ring)
        ensures
            r.wf(),
            r@ == (RingView { bytes: Seq::empty(), dropped: 0 }),
    {
        let mut buf: Vec<u8> = Vec::new();
        while buf.len() < RING
            invariant
                buf.len() <= 8192,
            decreases 8192 - buf.len(),
        {
            buf.push(0);
        }
        let r = Ring { buf, start: 0, used: 0, dropped: 0 };
        assert(r@.bytes =~= Seq::<u8>::empty());
        r
    }

    /// How many messages did not fit.
    pub fn dropped(&self) -> (n: u32)
        ensures
            n == self@.dropped,
    {
        self.dropped
    }

    /// Appends one whole message, or drops it whole and counts it.
    pub fn push(&mut self, ty: u8, body: &[u8])
        requires
            old(self).wf(),
        ensures
            final(self).wf(),
            final(self)@ == old(self)@.pushed(ty, body@),
    {
        let ghost before = self@;
        if body.len() > 8186 || self.used + 5 + body.len() > RING - 1 {
            self.dropped = self.dropped.wrapping_add(1);
            assert(self@.bytes =~= before.bytes);
            return;
        }
        let msg: Vec<u8> = crate::wifi::proto::send_framed(ty, body);
        let start: usize = self.start;
        let used: usize = self.used;
        let mut i: usize = 0;
        let ghost queued = before.bytes;
        while i < msg.len()
            invariant
                i <= msg.len(),
                self.buf@.len() == 8192,
                start == self.start < 8192,
                used == self.used,
                self.dropped == before.dropped,
                used + msg.len() <= 8191,
                queued.len() == used,
                forall|k: int|
                    0 <= k < used ==> self.buf@[(start + k) % 8192] == #[trigger] queued[k],
                forall|k: int|
                    0 <= k < i ==> self.buf@[(start + used + k) % 8192] == #[trigger] msg@[k],
            decreases msg.len() - i,
        {
            let at: usize = (start + used + i) % RING;
            self.buf.set(at, msg[i]);
            i += 1;
        }
        self.used = used + msg.len();
        proof {
            let m = crate::wifi::proto::message_bytes(ty, body@);
            assert forall|k: int| 0 <= k < used + msg.len() implies self@.bytes[k] == (queued
                + m)[k] by {
                if k >= used {
                    assert(msg@[k - used] == m[k - used]);
                } else {
                    assert(queued[k] == self.buf@[(start + k) % 8192]);
                }
            }
            assert(self@.bytes =~= queued + m);
        }
    }

    /// Takes at most `budget` bytes from the front.
    pub fn drain(&mut self, budget: usize) -> (out: Vec<u8>)
        requires
            old(self).wf(),
        ensures
            final(self).wf(),
            out@ == old(self)@.bytes.take(old(self)@.drained(budget as nat)),
            final(self)@ == (RingView {
                bytes: old(self)@.bytes.skip(old(self)@.drained(budget as nat)),
                ..old(self)@
            }),
    {
        let ghost before = self@;
        let n: usize = if self.used <= budget {
            self.used
        } else {
            budget
        };
        let mut out: Vec<u8> = Vec::new();
        let mut i: usize = 0;
        while i < n
            invariant
                i <= n <= self.used <= 8191,
                self.buf@.len() == 8192,
                self.start < 8192,
                self@ == before,
                out@.len() == i,
                forall|k: int| 0 <= k < i ==> out@[k] == before.bytes[k],
            decreases n - i,
        {
            out.push(self.buf[(self.start + i) % RING]);
            i += 1;
        }
        assert(out@ =~= before.bytes.take(n as int));
        self.start = (self.start + n) % RING;
        self.used = self.used - n;
        assert(self@.bytes =~= before.bytes.skip(n as int));
        out
    }
}

/// Nothing is lost or reordered between a drain's output and what stays.
pub proof fn drain_splits_the_stream(r: RingView, budget: nat)
    ensures
        r.bytes.take(r.drained(budget)) + r.bytes.skip(r.drained(budget)) == r.bytes,
{
    assert(r.bytes.take(r.drained(budget)) + r.bytes.skip(r.drained(budget)) =~= r.bytes);
}

/// A message enters whole or not at all, and never disturbs what was queued before it.
pub proof fn messages_are_whole(r: RingView, ty: u8, body: Seq<u8>)
    ensures
        r.pushed(ty, body).bytes == r.bytes || r.pushed(ty, body).bytes == r.bytes
            + crate::wifi::proto::message_bytes(ty, body),
        r.pushed(ty, body).bytes == r.bytes ==> r.pushed(ty, body).dropped
            == r.dropped.wrapping_add(1),
{
    assert(crate::wifi::proto::message_bytes(ty, body).len() == 5 + body.len());
    if r.pushed(ty, body).bytes.len() == r.bytes.len() {
        assert(r.bytes.len() + 5 + body.len() > 8191);
    }
}

} // verus!
