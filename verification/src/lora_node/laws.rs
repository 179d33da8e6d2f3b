//! What holds of the node across commands.

use vstd::prelude::*;

use crate::lora_node::command::Plan;
use crate::lora_node::node::Node;

verus! {

/// The capability bitmap is the truth: an opcode that is not in it is refused by name and changes
/// nothing, and one that is in it is never called unknown.
pub proof fn the_bitmap_is_the_truth(
    n: Node,
    op: u8,
    buf: Seq<u8>,
    now: u64,
    after: Node,
    plan: Plan,
)
    requires
        crate::lora_node::command::decided(n, op, buf, now, after, plan),
    ensures
        !crate::lora_node::opcode::implemented(op) && op != 0x16 ==> crate::lora_node::command::refused(
            n,
            after,
            plan,
            op,
            0x01,
        ),
        op == 0x16 ==> crate::lora_node::command::refused(n, after, plan, op, 0x02),
        crate::lora_node::opcode::implemented(op) ==> !crate::lora_node::command::replies_with(
            plan,
            crate::lora_node::report::unsupported_view(op, 0x01),
        ),
{
    if crate::lora_node::opcode::implemented(op) {
        let unknown = crate::lora_node::report::unsupported_view(op, 0x01);
        assert(unknown.payload[1] == 0x01);
        assert(crate::lora_node::report::unsupported_view(op, 0x03).payload[1] == 0x03);
        assert(crate::lora_node::report::unsupported_view(op, 0x04).payload[1] == 0x04);
        assert(unknown.typ == 0x8F);
    }
}

/// A command that is too short is refused as such, whatever else its bytes say.
pub proof fn short_commands_are_refused(
    n: Node,
    op: u8,
    buf: Seq<u8>,
    now: u64,
    after: Node,
    plan: Plan,
)
    requires
        crate::lora_node::command::decided(n, op, buf, now, after, plan),
        crate::lora_node::opcode::implemented(op),
        buf.len() < crate::lora_node::opcode::min_len(op),
    ensures
        crate::lora_node::command::refused(n, after, plan, op, 0x03),
{
}

/// Every command is answered, never silence: with a refusal that names its opcode, or with the event
/// of its kind. One that is answered later, when the scheduled transmission has ended, is the one
/// that takes the free slot.
pub proof fn every_command_is_answered(
    n: Node,
    op: u8,
    buf: Seq<u8>,
    now: u64,
    after: Node,
    plan: Plan,
)
    requires
        crate::lora_node::command::decided(n, op, buf, now, after, plan),
    ensures
        plan.answered_by(crate::lora_node::opcode::answer_type(op)) || exists|reason: u8| #[trigger]
            crate::lora_node::command::refused(n, after, plan, op, reason),
        plan is Scheduled ==> n.sched is Idle && after.sched is Pending,
{
    if !plan.answered_by(crate::lora_node::opcode::answer_type(op)) {
        assert(crate::lora_node::command::refused(n, after, plan, op, 0x01)
            || crate::lora_node::command::refused(n, after, plan, op, 0x02)
            || crate::lora_node::command::refused(n, after, plan, op, 0x03)
            || crate::lora_node::command::refused(n, after, plan, op, 0x04));
    }
}

/// A scheduled transmission is answered exactly once, and its slot falls free with the answer: a
/// frame that cannot be loaded is answered then, one that was loaded keeps the slot, and the end of
/// the transmission is answered whatever became of it, after any line about it.
pub proof fn a_scheduled_transmission_is_answered_once(
    n: Node,
    fire_at: u64,
    keyed: u64,
    loaded: bool,
    ok: bool,
)
    requires
        n.sched is Pending,
    ensures
        n.staged(loaded).sched is Idle <==> !loaded,
        loaded ==> n.staged(loaded).sched is Staged && n.staged(loaded).sched.deadline()
            == n.sched.deadline(),
        n.staged(true).fired(fire_at, keyed, ok).sched is Idle,
        ({
            let events = n.staged(true).fired_events(fire_at, keyed, ok);
            &&& events.len() > 0
            &&& events.last() == crate::lora_node::node::txdone_view(ok, 0)
            &&& forall|i: int|
                0 <= i < events.len() - 1 ==> (#[trigger] events[i]).typ
                    == crate::lora_node::opcode::EVT_LOG
        }),
{
}

/// The schedule slot is one deep: while it is taken, another scheduled transmission is answered as
/// failed at once, and the first one keeps its frame and its deadline.
pub proof fn a_taken_slot_is_kept(
    n: Node,
    op: u8,
    buf: Seq<u8>,
    now: u64,
    after: Node,
    plan: Plan,
)
    requires
        crate::lora_node::command::decided(n, op, buf, now, after, plan),
        n.sched !is Idle,
    ensures
        after.sched == n.sched,
        after.sched_buf == n.sched_buf,
        op == 0x18 && buf.len() >= 5 && crate::bytes::u32_at(buf, 0) <= 60_000_000
            ==> crate::lora_node::command::replies_with(
            plan,
            crate::lora_node::node::txdone_view(false, 0),
        ),
        op == 0x1F && buf.len() >= 9 && crate::bytes::u64_at(buf, 0) <= now + 60_000_000
            ==> crate::lora_node::command::replies_with(
            plan,
            crate::lora_node::node::txdone_view(false, 0),
        ),
{
}

/// A transmission scheduled for an absolute instant fires at that instant, not one later by the
/// time the command took to arrive.
pub proof fn absolute_schedule_keeps_the_target(
    n: Node,
    buf: Seq<u8>,
    now: u64,
    after: Node,
    plan: Plan,
)
    requires
        crate::lora_node::command::decided(n, 0x1F, buf, now, after, plan),
        n.sched is Idle,
        buf.len() >= 9,
        crate::bytes::u64_at(buf, 0) <= now + 60_000_000,
    ensures
        after.sched.deadline() == Some(crate::bytes::u64_at(buf, 0)),
        after.sched_buf@ == buf.skip(8),
{
}

/// A hop command from its arrival to its end: `taken` is the node once it was decided on, `after`
/// the node once the radio has done its part. `regs_ok` says whether the hop registers were
/// programmed, `built` whether the driver took the parameters.
pub open spec fn hop_command(
    before: Node,
    buf: Seq<u8>,
    now: u64,
    taken: Node,
    plan: Plan,
    regs_ok: bool,
    built: bool,
    after: Node,
) -> bool {
    &&& crate::lora_node::command::decided(
        before,
        crate::lora_node::opcode::CMD_SET_HOP,
        buf,
        now,
        taken,
        plan,
    )
    &&& plan matches Plan::SetHop { on, period, list }
    &&& crate::lora_node::outcome::hop_set(taken, on, period, list@, regs_ok, built, after)
}

/// A run of hop commands, one behind the other, that all switch hopping on without a failed register
/// access, each at its own time with its own period and list. The driver may accept or refuse each
/// list's first carrier.
pub open spec fn hop_run(
    states: Seq<Node>,
    bufs: Seq<Seq<u8>>,
    clocks: Seq<u64>,
    taken: Seq<Node>,
    plans: Seq<Plan>,
    built: Seq<bool>,
) -> bool {
    &&& states.len() >= 2
    &&& forall|i: int|
        0 <= i < states.len() - 1 ==> #[trigger] hop_step(
            states,
            bufs,
            clocks,
            taken,
            plans,
            built,
            i,
        )
}

/// One command of such a run.
pub open spec fn hop_step(
    states: Seq<Node>,
    bufs: Seq<Seq<u8>>,
    clocks: Seq<u64>,
    taken: Seq<Node>,
    plans: Seq<Plan>,
    built: Seq<bool>,
    i: int,
) -> bool {
    &&& bufs[i][0] == 1
    &&& hop_command(
        states[i],
        bufs[i],
        clocks[i],
        taken[i],
        plans[i],
        true,
        built[i],
        states[i + 1],
    )
}

proof fn lemma_hop_run(
    states: Seq<Node>,
    bufs: Seq<Seq<u8>>,
    clocks: Seq<u64>,
    taken: Seq<Node>,
    plans: Seq<Plan>,
    built: Seq<bool>,
    k: int,
)
    requires
        hop_run(states, bufs, clocks, taken, plans, built),
        states[0].hop.base_hz == 0,
        states[0].p.freq_hz != 0,
        1 <= k < states.len(),
    ensures
        states[k].hop.base_hz == states[0].p.freq_hz,
        states[k].p == (crate::lora_node::params::Params {
            freq_hz: states[k].p.freq_hz,
            ..states[0].p
        }),
    decreases k,
{
    assert(hop_step(states, bufs, clocks, taken, plans, built, k - 1));
    if k > 1 {
        lemma_hop_run(states, bufs, clocks, taken, plans, built, k - 1);
    }
}

/// Switching hopping off leads back to the carrier from before it was switched on, however often
/// the list was replaced in between, whatever the driver said to each list and whatever the clock
/// read. A hop command whose registers could not be programmed ends hopping and leads back just so.
pub proof fn hopping_off_restores_the_carrier(
    states: Seq<Node>,
    bufs: Seq<Seq<u8>>,
    clocks: Seq<u64>,
    taken: Seq<Node>,
    plans: Seq<Plan>,
    built: Seq<bool>,
    off_buf: Seq<u8>,
    off_now: u64,
    off_taken: Node,
    off_plan: Plan,
    regs_ok: bool,
    off_built: bool,
    off: Node,
)
    requires
        hop_run(states, bufs, clocks, taken, plans, built),
        states[0].hop.base_hz == 0,
        states[0].p.freq_hz != 0,
        off_buf[0] == 0 || !regs_ok,
        hop_command(
            states.last(),
            off_buf,
            off_now,
            off_taken,
            off_plan,
            regs_ok,
            off_built,
            off,
        ),
    ensures
        off.p == states[0].p,
        off.hop.base_hz == 0,
        !off.hop.enabled,
        off_buf[0] == 0 ==> off.hop.period == 0,
{
    lemma_hop_run(states, bufs, clocks, taken, plans, built, states.len() - 1);
}

/// Demotion by a command and the command itself leave a scheduled transmission scheduled, for the
/// same instant.
pub proof fn commands_do_not_cost_the_slot(
    n: Node,
    op: u8,
    buf: Seq<u8>,
    now: u64,
    after: Node,
    plan: Plan,
)
    requires
        n.wf(),
        n.sched !is Idle,
        crate::lora_node::command::decided(n.preempted(), op, buf, now, after, plan),
    ensures
        after.sched.deadline() == n.sched.deadline(),
        after.sched_buf == n.sched_buf,
        after.sched !is Staged,
{
    let m = n.preempted();
    crate::lora_node::sched::demotion_keeps_the_deadline(n.sched);
    a_taken_slot_is_kept(m, op, buf, now, after, plan);
}

} // verus!
