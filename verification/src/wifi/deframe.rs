//! Cutting a received byte stream into messages.

use vstd::prelude::*;

use crate::bytes::copy_range;

verus! {

/// Bytes the accumulator holds.
pub const ACC: usize = 2048;
/// Left-over bytes beyond this are no message any more.
pub const ACC_GUARD: usize = 1984;

/// One message.
pub struct Message {
    pub ty: u8,
    pub payload: Vec<u8>,
}

/// One message, as a value.
#[verifier::ext_equal]
pub struct MessageView {
    pub ty: u8,
    pub payload: Seq<u8>,
}

impl View for Message {
    type V = MessageView;

    open spec fn view(&self) -> MessageView {
        MessageView { ty: self.ty, payload: self.payload@ }
    }
}

/// The views of a list of messages.
pub open spec fn messages(v: Seq<Message>) -> Seq<MessageView> {
    v.map_values(|m: Message| m@)
}

/// The length field of a message at the start of `s`.
pub open spec fn length_field(s: Seq<u8>) -> nat {
    (s[3] + s[4] * 256) as nat
}

/// A message starts here.
pub open spec fn synced(s: Seq<u8>) -> bool {
    s[0] == 0x4E && s[1] == 0x44
}

/// The messages in a stream and what is left behind the last: bytes that start no message are
/// skipped, an unfinished message stays.
pub open spec fn deframe(s: Seq<u8>) -> (Seq<MessageView>, Seq<u8>)
    decreases s.len(),
{
    if s.len() < 5 {
        (Seq::empty(), s)
    } else if !synced(s) {
        deframe(s.skip(1))
    } else if s.len() < 5 + length_field(s) {
        (Seq::empty(), s)
    } else {
        let (ms, rest) = deframe(s.skip(5 + length_field(s) as int));
        (
            seq![
                MessageView {
                    ty: s[2],
                    payload: s.subrange(5, 5 + length_field(s) as int),
                },
            ] + ms,
            rest,
        )
    }
}

/// The bytes kept between two reads.
pub open spec fn kept(rest: Seq<u8>) -> Seq<u8> {
    if rest.len() > 1984 {
        Seq::empty()
    } else {
        rest
    }
}

/// Collects received bytes into messages.
pub struct Deframer {
    acc: Vec<u8>,
}

impl View for Deframer {
    type V = Seq<u8>;

    closed spec fn view(&self) -> Seq<u8> {
        self.acc@
    }
}

impl Deframer {
    /// An empty accumulator.
    pub fn new() -> (d: Deframer)
        ensures
            d@ == Seq::<u8>::empty(),
    {
        Deframer { acc: Vec::new() }
    }

    /// How many bytes the next read may bring.
    pub fn space(&self) -> (n: usize)
        requires
            self@.len() <= 1984,
        ensures
            n == 2048 - self@.len(),
    {
        ACC - self.acc.len()
    }

    /// Takes what a read brought and returns the messages that are complete. Left-overs that fill
    /// the accumulator almost to the end are given up: they cannot become a message.
    pub fn feed(&mut self, bytes: &[u8]) -> (out: Vec<Message>)
        requires
            old(self)@.len() <= 1984,
            old(self)@.len() + bytes.len() <= 2048,
        ensures
            messages(out@) == deframe(old(self)@ + bytes@).0,
            final(self)@ == kept(deframe(old(self)@ + bytes@).1),
            final(self)@.len() <= 1984,
    {
        crate::bytes::push_all(&mut self.acc, bytes);
        let ghost all = self.acc@;
        let n: usize = self.acc.len();
        let mut out: Vec<Message> = Vec::new();
        let mut i: usize = 0;
        proof {
            assert(all.skip(0) =~= all);
            assert(messages(out@) + deframe(all).0 =~= deframe(all).0);
        }
        while n - i >= 5
            invariant
                n == self.acc.len() == all.len() <= 2048,
                all == self.acc@,
                i <= n,
                deframe(all).0 == messages(out@) + deframe(all.skip(i as int)).0,
                deframe(all).1 == deframe(all.skip(i as int)).1,
            ensures
                deframe(all.skip(i as int)).0 == Seq::<MessageView>::empty(),
                deframe(all.skip(i as int)).1 == all.skip(i as int),
            decreases n - i,
        {
            let ghost s = all.skip(i as int);
            proof {
                assert(s[0] == all[i as int]);
                assert(s[1] == all[i + 1]);
                assert(s[2] == all[i + 2]);
                assert(s[3] == all[i + 3]);
                assert(s[4] == all[i + 4]);
            }
            if self.acc[i] != crate::wifi::proto::SYNC0 || self.acc[i + 1]
                != crate::wifi::proto::SYNC1 {
                proof {
                    assert(s.skip(1) =~= all.skip(i as int + 1));
                }
                i += 1;
                continue;
            }
            let ty: u8 = self.acc[i + 2];
            let len: usize = self.acc[i + 3] as usize + self.acc[i + 4] as usize * 256;
            if n - i < 5 + len {
                break;
            }
            let payload: Vec<u8> = copy_range(self.acc.as_slice(), i + 5, i + 5 + len);
            let ghost before = out@;
            out.push(Message { ty, payload });
            proof {
                let m = MessageView { ty: s[2], payload: s.subrange(5, 5 + len as int) };
                assert(payload@ =~= s.subrange(5, 5 + len as int));
                assert(s.skip(5 + len as int) =~= all.skip(i + 5 + len as int));
                assert(messages(out@) =~= messages(before).push(m));
                let later = deframe(all.skip(i + 5 + len as int)).0;
                assert(messages(before) + (seq![m] + later) =~= messages(out@) + later);
            }
            i += 5 + len;
        }
        proof {
            assert(messages(out@) + Seq::<MessageView>::empty() =~= messages(out@));
        }
        let rest: Vec<u8> = copy_range(self.acc.as_slice(), i, n);
        assert(rest@ =~= all.skip(i as int));
        if rest.len() > ACC_GUARD {
            self.acc = Vec::new();
        } else {
            self.acc = rest;
        }
        out
    }
}

/// Reading in pieces finds the same messages as reading at once, wherever the cut falls.
pub proof fn pieces_make_no_difference(a: Seq<u8>, b: Seq<u8>)
    ensures
        deframe(a + b).0 == deframe(a).0 + deframe(deframe(a).1 + b).0,
        deframe(a + b).1 == deframe(deframe(a).1 + b).1,
    decreases a.len(),
{
    let whole = a + b;
    if a.len() < 5 {
        assert(deframe(a).0 + deframe(whole).0 =~= deframe(whole).0);
    } else if !synced(a) {
        pieces_make_no_difference(a.skip(1), b);
        assert(whole.skip(1) =~= a.skip(1) + b);
    } else if a.len() < 5 + length_field(a) {
        assert(deframe(a).0 + deframe(whole).0 =~= deframe(whole).0);
    } else {
        let n = 5 + length_field(a) as int;
        pieces_make_no_difference(a.skip(n), b);
        assert(whole.skip(n) =~= a.skip(n) + b);
        assert(whole.subrange(5, n) =~= a.subrange(5, n));
        let m = MessageView { ty: a[2], payload: a.subrange(5, n) };
        let x = deframe(a.skip(n)).0;
        let y = deframe(deframe(a.skip(n)).1 + b).0;
        assert(seq![m] + (x + y) =~= (seq![m] + x) + y);
    }
}

/// What one side sends the other reads: an encoded message comes out as it went in, and whatever
/// follows it is read next.
pub proof fn message_round_trip(ty: u8, payload: Seq<u8>, more: Seq<u8>)
    requires
        payload.len() <= 65_535,
    ensures
        deframe(crate::wifi::proto::message_bytes(ty, payload) + more).0 == seq![
            MessageView { ty, payload },
        ] + deframe(more).0,
        deframe(crate::wifi::proto::message_bytes(ty, payload) + more).1 == deframe(more).1,
{
    let s = crate::wifi::proto::message_bytes(ty, payload) + more;
    assert(length_field(s) == payload.len());
    assert(s.subrange(5, 5 + payload.len() as int) =~= payload);
    assert(s.skip(5 + payload.len() as int) =~= more);
}

/// Noise before a message does not cost the message, where it holds no sync byte.
pub proof fn noise_is_skipped(noise: Seq<u8>, ty: u8, payload: Seq<u8>)
    requires
        payload.len() <= 65_535,
        forall|i: int| 0 <= i < noise.len() ==> noise[i] != 0x4E,
    ensures
        deframe(noise + crate::wifi::proto::message_bytes(ty, payload)).0 == seq![
            MessageView { ty, payload },
        ],
    decreases noise.len(),
{
    let m = crate::wifi::proto::message_bytes(ty, payload);
    if noise.len() == 0 {
        assert(noise + m =~= m + Seq::<u8>::empty());
        message_round_trip(ty, payload, Seq::empty());
        assert(seq![MessageView { ty, payload }] + deframe(Seq::<u8>::empty()).0 =~= seq![
            MessageView { ty, payload },
        ]);
    } else {
        noise_is_skipped(noise.skip(1), ty, payload);
        let s = noise + m;
        assert(s[0] == noise[0]);
        assert(s.skip(1) =~= noise.skip(1) + m);
    }
}

} // verus!
