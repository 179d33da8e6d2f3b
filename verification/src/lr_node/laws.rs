//! What holds of every host command.

use vstd::prelude::*;

use crate::lr_node::bridge::{BridgeView, LrPlanView, TxKind};

verus! {

/// The bitmap that the node hands out tells the truth: an opcode it leaves out is refused, and one
/// it holds is never refused as unknown or as beyond the hardware.
pub proof fn bitmap_is_the_truth(b: BridgeView, op: u8, pl: Seq<u8>, ticks: u32, now: u64)
    requires
        op < 32,
    ensures
        ({
            let p = b.st.mode.spec_phy();
            let plan = crate::lr_node::bridge::decided(b, op, pl, ticks, now).1;
            if (crate::lr_node::info::bitmap(p) >> op) & 1 != 0 {
                plan != crate::lr_node::bridge::refused(op, 0x01) && plan
                    != crate::lr_node::bridge::refused(op, 0x02)
            } else {
                exists|r: u8| plan == #[trigger] crate::lr_node::bridge::refused(op, r)
            }
        }),
{
    let p = b.st.mode.spec_phy();
    crate::lr_node::info::bitmap_is_exact(p, op);
    let plan = crate::lr_node::bridge::decided(b, op, pl, ticks, now).1;
    if crate::lr_node::info::acts(p, op) {
        lemma_refusals_differ(op);
        lemma_acting_is_not_unknown(b, op, pl, ticks, now);
    } else {
        if plan == crate::lr_node::bridge::refused(op, 0x01) {
        } else if plan == crate::lr_node::bridge::refused(op, 0x02) {
        } else if plan == crate::lr_node::bridge::refused(op, 0x03) {
        } else {
            assert(op == 0x1E);
            assert(plan == crate::lr_node::bridge::refused(op, 0x04));
        }
    }
}

proof fn lemma_refusals_differ(op: u8)
    ensures
        forall|r: u8, q: u8|
            r != q ==> #[trigger] crate::lr_node::bridge::refused(op, r)
                != #[trigger] crate::lr_node::bridge::refused(op, q),
{
    assert forall|r: u8, q: u8| r != q implies #[trigger] crate::lr_node::bridge::refused(op, r)
        != #[trigger] crate::lr_node::bridge::refused(op, q) by {
        assert(crate::lr_node::bridge::refused(op, r)->frames[0].payload[1] == r);
        assert(crate::lr_node::bridge::refused(op, q)->frames[0].payload[1] == q);
    }
}

proof fn lemma_acting_is_not_unknown(b: BridgeView, op: u8, pl: Seq<u8>, ticks: u32, now: u64)
    requires
        crate::lr_node::info::acts(b.st.mode.spec_phy(), op),
    ensures
        ({
            let plan = crate::lr_node::bridge::decided(b, op, pl, ticks, now).1;
            &&& plan != crate::lr_node::bridge::refused(op, 0x01)
            &&& plan != crate::lr_node::bridge::refused(op, 0x02)
        }),
{
    lemma_refusals_differ(op);
    let plan = crate::lr_node::bridge::decided(b, op, pl, ticks, now).1;
    let r1 = crate::lr_node::bridge::refused(op, 0x01);
    let r2 = crate::lr_node::bridge::refused(op, 0x02);
    assert(r1->frames[0].typ == 0x8F && r2->frames[0].typ == 0x8F);
    if op == 0x17 || op == 0x1A {
        assert(plan->frames[0].typ == 0x8A || plan->frames[0].typ == 0x8B);
    }
    assert(crate::lr_node::bridge::refused(op, 0x03) != r1);
    assert(crate::lr_node::bridge::refused(op, 0x04) != r1);
    assert(crate::lr_node::bridge::refused(op, 0x03) != r2);
    assert(crate::lr_node::bridge::refused(op, 0x04) != r2);
}

/// Every command is answered, never silence: with a refusal that names its opcode, or with the event
/// of its kind.
pub proof fn every_command_is_answered(b: BridgeView, op: u8, pl: Seq<u8>, ticks: u32, now: u64)
    ensures
        ({
            let plan = crate::lr_node::bridge::decided(b, op, pl, ticks, now).1;
            plan.answered_by(crate::lora_node::opcode::answer_type(op)) || exists|reason: u8|
                plan == #[trigger] crate::lr_node::bridge::refused(op, reason)
        }),
{
    let plan = crate::lr_node::bridge::decided(b, op, pl, ticks, now).1;
    if !plan.answered_by(crate::lora_node::opcode::answer_type(op)) {
        assert(plan == crate::lr_node::bridge::refused(op, 0x01) || plan
            == crate::lr_node::bridge::refused(op, 0x02) || plan
            == crate::lr_node::bridge::refused(op, 0x03) || plan
            == crate::lr_node::bridge::refused(op, 0x04));
    }
}

/// A transmission that the host asked for is answered with its verdict, whatever became of it, after
/// any line about its instant.
pub proof fn transmissions_are_answered(debug: bool, kind: TxKind, ok: bool, ticks: u32)
    ensures
        ({
            let events = crate::lr_node::flow::tx_events(debug, kind, ok, ticks);
            &&& events.len() > 0
            &&& events.last().typ == 0x82
            &&& forall|i: int| 0 <= i < events.len() - 1 ==> (#[trigger] events[i]).typ == 0x84
        }),
{
}

/// A command that is refused changes nothing but the reading of the clock.
pub proof fn refusals_change_nothing(
    b: BridgeView,
    op: u8,
    pl: Seq<u8>,
    ticks: u32,
    now: u64,
    reason: u8,
)
    requires
        crate::lr_node::bridge::decided(b, op, pl, ticks, now).1
            == crate::lr_node::bridge::refused(op, reason),
    ensures
        ({
            let after = crate::lr_node::bridge::decided(b, op, pl, ticks, now).0;
            after == (BridgeView { clock: after.clock, ..b })
        }),
{
    let plan = crate::lr_node::bridge::decided(b, op, pl, ticks, now).1;
    assert(plan->frames[0].typ == 0x8F);
}

/// A command shorter than its fields is refused as such, and does nothing.
pub proof fn short_commands_are_refused(b: BridgeView, op: u8, pl: Seq<u8>, ticks: u32, now: u64)
    requires
        1 <= op <= 0x20,
        op != 0x05 && op != 0x0D && op != 0x16 && op != 0x19,
        pl.len() < crate::lr_node::bridge::shortest(op),
    ensures
        crate::lr_node::bridge::decided(b, op, pl, ticks, now) == (
            b,
            crate::lr_node::bridge::refused(op, 0x03),
        ),
{
}

/// A transmission at an instant lies at most a second ahead; one whose instant has passed is not
/// waited for, and one that is waited for is still ahead on the 32-bit counter too.
pub proof fn absolute_schedule_is_bounded(
    b: BridgeView,
    pl: Seq<u8>,
    ticks: u32,
    now: u64,
    payload: Seq<u8>,
    target: u32,
    wait: bool,
)
    requires
        pl.len() >= 8,
        crate::lr_node::bridge::decided(b, 0x1F, pl, ticks, now).1 == (LrPlanView::Transmit {
            payload,
            kind: TxKind::Abs { target },
            wait,
        }),
    ensures
        ({
            let t = crate::bytes::u64_at(pl, 0);
            let c = b.clock.after(ticks).reached();
            &&& t <= c + 16_000_000
            &&& wait <==> t > c
            &&& wait ==> crate::lr_node::clock::wait_action(target, ticks)
                != crate::lr_node::clock::WaitStep::Due
        }),
{
    if wait {
        lemma_ahead(b.clock.after(ticks), crate::bytes::u64_at(pl, 0));
    }
}

proof fn lemma_ahead(c: crate::lr_node::clock::MacClock, t: u64)
    requires
        c.reached() < t <= c.reached() + 16_000_000,
    ensures
        crate::lr_node::clock::wait_action((t % 4_294_967_296) as u32, c.last)
            != crate::lr_node::clock::WaitStep::Due,
{
    assert(c.reached() % 4_294_967_296 == c.last);
    crate::lr_node::clock::deadline_is_exact(t, c.reached() as u64);
}

/// The activity counter is free-running: no command resets it.
pub proof fn activity_is_never_reset(b: BridgeView, op: u8, pl: Seq<u8>, ticks: u32, now: u64)
    ensures
        crate::lr_node::bridge::decided(b, op, pl, ticks, now).0.sense.activity
            == b.sense.activity,
{
}

} // verus!
