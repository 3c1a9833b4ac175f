//! What holds of every training step, told by the commands that go out and the
//! answers that come back.

use vstd::arithmetic::div_mod::lemma_fundamental_div_mod;
use vstd::prelude::*;

use crate::ids::{ObjectId, Uuid};
use crate::programs::pipeline_backward::lane::{law_finished_lane_is_complete, rows, Lane, WorkKind};
use crate::programs::pipeline_backward::run::{
    answer_refused, command_of, law_every_micro_batch_has_its_output, lemma_settled,
    outputs_below, planned, share, slots_below, PipelineAction, PipelineRun, RunPoint,
};
use crate::programs::pipeline_backward::{PipelineCommand, PipelineResponse, RunPipelineInput};

verus! {

broadcast use vstd::std_specs::hash::group_hash_axioms;

/// What passes between the scheduler and its stages.
pub enum Exchange {
    /// A command was put into an inbox, with the next mailbox of its port.
    Sent {
        stage: usize,
        replica: usize,
        inbox: ObjectId,
        command: PipelineCommand,
        recv: ObjectId,
    },
    /// An answer was found in a mailbox.
    Heard { stage: usize, replica: usize, mailbox: ObjectId, response: PipelineResponse },
    /// Nothing was sent and nothing was found.
    Quiet,
}

/// The command asks for `kind` of micro-batch `b` and wants its answer at
/// `reply`.
pub open spec fn command_asks(
    command: PipelineCommand,
    kind: WorkKind,
    b: int,
    reply: ObjectId,
) -> bool {
    match (command, kind) {
        (PipelineCommand::Forward { micro_batch, reply: to, .. }, WorkKind::Forward) => micro_batch
            == b && to == reply,
        (
            PipelineCommand::Backward { micro_batch, reply: to, .. },
            WorkKind::Backward,
        ) => micro_batch == b && to == reply,
        _ => false,
    }
}

/// The command asks for `kind` of work.
pub open spec fn is_kind(command: PipelineCommand, kind: WorkKind) -> bool {
    match kind {
        WorkKind::Forward => command is Forward,
        WorkKind::Backward => command is Backward,
    }
}

/// `x` asks stage `s` of replica `q` for `kind` of micro-batch `b`.
pub open spec fn asks(x: Exchange, s: int, q: int, kind: WorkKind, b: int, reply: ObjectId) -> bool {
    x matches Exchange::Sent { stage, replica, command, .. } && stage == s && replica == q
        && command_asks(command, kind, b, reply)
}

/// `x` is an emission from stage `s` of replica `q`.
pub open spec fn hears(x: Exchange, s: int, q: int) -> bool {
    x matches Exchange::Heard { stage, replica, response, .. } && stage == s && replica == q
        && response is Artifact
}

/// `x` finds the emission `e` of micro-batch `b` in the mailbox in which stage
/// `s` of replica `q` was to answer.
pub open spec fn heard(x: Exchange, s: int, q: int, to: ObjectId, b: int, e: ObjectId) -> bool {
    &&& x matches Exchange::Heard { stage, replica, mailbox, response }
    &&& stage == s
    &&& replica == q
    &&& mailbox == to
    &&& response matches PipelineResponse::Artifact { micro_batch, emission_id }
    &&& micro_batch == b
    &&& emission_id == e
}

/// In `h` stage `s` of replica `q` was asked for `kind` of micro-batch `b` at
/// `j`, and at `k` the emission `e` was found where the answer was wanted.
pub open spec fn answers(
    h: Seq<Exchange>,
    j: int,
    k: int,
    s: int,
    q: int,
    kind: WorkKind,
    b: int,
    e: ObjectId,
) -> bool {
    &&& 0 <= j < k < h.len()
    &&& h[k] is Heard
    &&& asks(h[j], s, q, kind, b, h[k]->mailbox)
    &&& heard(h[k], s, q, h[k]->mailbox, b, e)
}

/// Stage `s` of replica `q` answered `kind` of micro-batch `b` with `e`.
pub open spec fn answered_with(
    h: Seq<Exchange>,
    s: int,
    q: int,
    kind: WorkKind,
    b: int,
    e: ObjectId,
) -> bool {
    exists|j: int, k: int| #[trigger] answers(h, j, k, s, q, kind, b, e)
}

/// Stage `s` of replica `q` answered `kind` of micro-batch `b`.
pub open spec fn answered(h: Seq<Exchange>, s: int, q: int, kind: WorkKind, b: int) -> bool {
    exists|e: ObjectId| #[trigger] answered_with(h, s, q, kind, b, e)
}

/// How often stage `s` of replica `q` was asked for `kind` of work.
pub open spec fn times_asked(h: Seq<Exchange>, s: int, q: int, kind: WorkKind) -> nat
    decreases h.len(),
{
    if h.len() == 0 {
        0
    } else {
        times_asked(h.drop_last(), s, q, kind) + if h.last() matches Exchange::Sent {
            stage,
            replica,
            command,
            ..
        } && stage == s && replica == q && is_kind(command, kind) {
            1nat
        } else {
            0
        }
    }
}

/// The step looked for its next piece of work and stands before it.
pub open spec fn settled(run: PipelineRun) -> PipelineRun {
    PipelineRun { point: run.settled_point(), ..run }
}

/// The step went from `before` to `after` by `x`: it named a piece of work,
/// that was done, and it took the outcome.
pub open spec fn exchanged(before: PipelineRun, x: Exchange, after: PipelineRun) -> bool {
    let there = settled(before);
    match x {
        Exchange::Sent { stage, replica, inbox, command, recv } => {
            let reply = match command {
                PipelineCommand::Forward { reply, .. } => reply,
                PipelineCommand::Backward { reply, .. } => reply,
                PipelineCommand::Step { reply, .. } => reply,
            };
            &&& before.port_needed() matches Some(port)
            &&& before.inboxes@.contains_key(port)
            &&& before.action(recv, reply) == PipelineAction::Upload { inbox, command, recv }
            &&& there.after_upload(after, recv, reply)
            &&& stage == there.current().stage
            &&& replica == there.current().replica
        },
        Exchange::Heard { stage, replica, mailbox, response } => {
            &&& before.action(mailbox, mailbox) == PipelineAction::Poll { reply: mailbox }
            &&& answer_refused(there, response) is None
            &&& there.after_answer(after, Some(response))
            &&& stage == there.current().stage
            &&& replica == there.current().replica
        },
        Exchange::Quiet => match before.action(Uuid::spec_nil(), Uuid::spec_nil()) {
            PipelineAction::Upload { .. } => false,
            PipelineAction::Poll { .. } => there.after_answer(after, None),
            _ => after == there,
        },
    }
}

/// `states` is a training step on `input`, from its beginning on, and `h` what
/// passed on the way.
pub open spec fn is_history(
    input: RunPipelineInput,
    states: Seq<PipelineRun>,
    h: Seq<Exchange>,
) -> bool {
    &&& states.len() == h.len() + 1
    &&& planned(input, states[0])
    &&& forall|i: int| 0 <= i < states.len() ==> (#[trigger] states[i]).holds()
    &&& forall|i: int|
        #![trigger h[i]]
        0 <= i < h.len() ==> exchanged(states[i], h[i], states[i + 1])
}

/// What a lane has of micro-batch `b` from stage `s`.
spec fn entry(lane: Lane, kind: WorkKind, b: int, s: int) -> Option<ObjectId> {
    match kind {
        WorkKind::Forward => lane.activation(b, s),
        WorkKind::Backward => lane.gradient(b, s),
    }
}

spec fn started_of(lane: Lane, kind: WorkKind, s: int) -> int {
    match kind {
        WorkKind::Forward => lane.next_fwd@[s] as int,
        WorkKind::Backward => lane.next_bwd@[s] as int,
    }
}

spec fn quiet_since(h: Seq<Exchange>, j: int, s: int, q: int) -> bool {
    forall|x: int| j < x < h.len() ==> !hears(#[trigger] h[x], s, q)
}

/// What was asked at `j` is still owed or was kept.
spec fn accounted(h: Seq<Exchange>, j: int, lane: Lane, s: int, q: int) -> bool {
    forall|kind: WorkKind, b: int, reply: ObjectId| #[trigger]
        asks(h[j], s, q, kind, b, reply) ==> settled_or_owed(h, j, lane, s, q, kind, b)
}

spec fn settled_or_owed(
    h: Seq<Exchange>,
    j: int,
    lane: Lane,
    s: int,
    q: int,
    kind: WorkKind,
    b: int,
) -> bool {
    &&& 0 <= b < lane.micro_batches()
    &&& entry(lane, kind, b, s) is Some || (lane.waits(s, kind) && lane.busy@[s]->0.micro_batch == b
        && quiet_since(h, j, s, q))
}

spec fn owed(h: Seq<Exchange>, j: int, lane: Lane, s: int, q: int) -> bool {
    let pending = lane.busy@[s]->0;
    0 <= j < h.len() && asks(
        h[j],
        s,
        q,
        pending.kind,
        pending.micro_batch as int,
        pending.reply,
    )
}

/// The lane of replica `q` records at stage `s` exactly what `h` tells.
spec fn told(h: Seq<Exchange>, lane: Lane, s: int, q: int) -> bool {
    &&& forall|kind: WorkKind| #[trigger] times_asked(h, s, q, kind) == started_of(lane, kind, s)
    &&& forall|kind: WorkKind, b: int|
        0 <= b < lane.micro_batches() && (#[trigger] entry(lane, kind, b, s)) is Some
            ==> answered_with(h, s, q, kind, b, entry(lane, kind, b, s)->0)
    &&& lane.busy@[s] is Some ==> exists|j: int| #[trigger] owed(h, j, lane, s, q)
    &&& forall|j: int| 0 <= j < h.len() ==> #[trigger] accounted(h, j, lane, s, q)
}

spec fn all_told(h: Seq<Exchange>, run: PipelineRun) -> bool {
    forall|s: int, q: int|
        #![trigger told(h, run.lanes@[q], s, q)]
        0 <= s < run.stages && 0 <= q < run.lanes@.len() ==> told(h, run.lanes@[q], s, q)
}

proof fn lemma_answered_later(h: Seq<Exchange>, x: Exchange, s: int, q: int, kind: WorkKind, b: int, e: ObjectId)
    requires
        answered_with(h, s, q, kind, b, e),
    ensures
        answered_with(h.push(x), s, q, kind, b, e),
{
    let (j, k) = choose|j: int, k: int| #[trigger] answers(h, j, k, s, q, kind, b, e);
    assert(h.push(x)[j] == h[j]);
    assert(h.push(x)[k] == h[k]);
    assert(answers(h.push(x), j, k, s, q, kind, b, e));
}

proof fn lemma_times_push(h: Seq<Exchange>, x: Exchange, s: int, q: int, kind: WorkKind)
    ensures
        times_asked(h.push(x), s, q, kind) == times_asked(h, s, q, kind) + if x
            matches Exchange::Sent { stage, replica, command, .. } && stage == s && replica == q
            && is_kind(command, kind) {
            1nat
        } else {
            0
        },
{
    assert(h.push(x).drop_last() =~= h);
    assert(h.push(x).last() == x);
}

/// What does not touch a stage leaves its account as it is.
proof fn lemma_untouched(h: Seq<Exchange>, x: Exchange, before: Lane, after: Lane, s: int, q: int)
    requires
        told(h, before, s, q),
        !hears(x, s, q),
        !(x matches Exchange::Sent { stage, replica, command, .. } && stage == s && replica == q
            && !(command is Step)),
        after.micro_batches() == before.micro_batches(),
        after.busy@[s] == before.busy@[s],
        after.next_fwd@[s] == before.next_fwd@[s],
        after.next_bwd@[s] == before.next_bwd@[s],
        forall|kind: WorkKind, b: int|
            0 <= b < before.micro_batches() ==> #[trigger] entry(after, kind, b, s) == entry(
                before,
                kind,
                b,
                s,
            ),
    ensures
        told(h.push(x), after, s, q),
{
    let g = h.push(x);
    assert forall|kind: WorkKind| #[trigger]
        times_asked(g, s, q, kind) == started_of(after, kind, s) by {
        lemma_times_push(h, x, s, q, kind);
        assert(times_asked(h, s, q, kind) == started_of(before, kind, s));
    }
    assert forall|kind: WorkKind, b: int|
        0 <= b < after.micro_batches() && (#[trigger] entry(
            after,
            kind,
            b,
            s,
        )) is Some implies answered_with(g, s, q, kind, b, entry(after, kind, b, s)->0) by {
        assert(entry(before, kind, b, s) is Some);
        lemma_answered_later(h, x, s, q, kind, b, entry(after, kind, b, s)->0);
    }
    if after.busy@[s] is Some {
        let j = choose|j: int| #[trigger] owed(h, j, before, s, q);
        assert(g[j] == h[j]);
        assert(owed(g, j, after, s, q));
    }
    assert forall|j: int| 0 <= j < g.len() implies #[trigger] accounted(g, j, after, s, q) by {
        if j < h.len() {
            assert(g[j] == h[j]);
            assert(accounted(h, j, before, s, q));
            assert forall|kind: WorkKind, b: int, reply: ObjectId| #[trigger]
                asks(g[j], s, q, kind, b, reply) implies settled_or_owed(
                g,
                j,
                after,
                s,
                q,
                kind,
                b,
            ) by {
                assert(asks(h[j], s, q, kind, b, reply));
                if quiet_since(h, j, s, q) {
                    assert forall|y: int| j < y < g.len() implies !hears(#[trigger] g[y], s, q) by {
                        if y < h.len() {
                            assert(g[y] == h[y]);
                        }
                    }
                }
            }
        }
    }
}

/// Asking a stage for its work is told.
proof fn lemma_asked(
    h: Seq<Exchange>,
    x: Exchange,
    before: Lane,
    after: Lane,
    s: int,
    q: int,
    kind: WorkKind,
    reply: ObjectId,
)
    requires
        before.holds(),
        after.holds(),
        0 <= s < before.stages(),
        told(h, before, s, q),
        before.work(s) is Some,
        before.work(s)->0.kind_view() == kind,
        before.started(after, s, kind, reply),
        asks(x, s, q, kind, started_of(before, kind, s), reply),
    ensures
        told(h.push(x), after, s, q),
{
    let g = h.push(x);
    assert(before.stage_holds(s));
    assert(after.stage_holds(s));
    assert(before.inputs.len() == before.micro_batches());
    assert forall|any: WorkKind| #[trigger]
        times_asked(g, s, q, any) == started_of(after, any, s) by {
        lemma_times_push(h, x, s, q, any);
        assert(times_asked(h, s, q, any) == started_of(before, any, s));
    }
    assert forall|any: WorkKind, b: int|
        0 <= b < after.micro_batches() && (#[trigger] entry(
            after,
            any,
            b,
            s,
        )) is Some implies answered_with(g, s, q, any, b, entry(after, any, b, s)->0) by {
        assert(entry(before, any, b, s) == entry(after, any, b, s));
        lemma_answered_later(h, x, s, q, any, b, entry(after, any, b, s)->0);
    }
    assert(g[h.len() as int] == x);
    assert(owed(g, h.len() as int, after, s, q));
    assert forall|j: int| 0 <= j < g.len() implies #[trigger] accounted(g, j, after, s, q) by {
        if j < h.len() {
            assert(g[j] == h[j]);
            assert(accounted(h, j, before, s, q));
            assert forall|any: WorkKind, b: int, to: ObjectId| #[trigger]
                asks(g[j], s, q, any, b, to) implies settled_or_owed(
                g,
                j,
                after,
                s,
                q,
                any,
                b,
            ) by {
                assert(asks(h[j], s, q, any, b, to));
                assert(entry(before, any, b, s) == entry(after, any, b, s));
            }
        } else {
            assert(quiet_since(g, j, s, q));
        }
    }
}

/// Taking the answer of a busy stage is told.
proof fn lemma_heard(
    h: Seq<Exchange>,
    x: Exchange,
    before: Lane,
    after: Lane,
    s: int,
    q: int,
    e: ObjectId,
)
    requires
        before.holds(),
        after.holds(),
        0 <= s < before.stages(),
        told(h, before, s, q),
        before.busy@[s] is Some,
        before.answered(after, s, e),
        heard(
            x,
            s,
            q,
            before.busy@[s]->0.reply,
            before.busy@[s]->0.micro_batch as int,
            e,
        ),
    ensures
        told(h.push(x), after, s, q),
{
    let g = h.push(x);
    let pending = before.busy@[s]->0;
    let mb = pending.micro_batch as int;
    assert(before.stage_holds(s));
    assert forall|any: WorkKind| #[trigger]
        times_asked(g, s, q, any) == started_of(after, any, s) by {
        lemma_times_push(h, x, s, q, any);
        assert(times_asked(h, s, q, any) == started_of(before, any, s));
    }
    let owing = choose|j: int| #[trigger] owed(h, j, before, s, q);
    assert(g[owing] == h[owing]);
    assert(g[h.len() as int] == x);
    assert(answers(g, owing, h.len() as int, s, q, pending.kind, mb, e));
    assert forall|any: WorkKind, b: int|
        0 <= b < after.micro_batches() && (#[trigger] entry(
            after,
            any,
            b,
            s,
        )) is Some implies answered_with(g, s, q, any, b, entry(after, any, b, s)->0) by {
        if any == pending.kind && b == mb {
            assert(entry(after, any, b, s) == Some(e));
        } else {
            assert(entry(before, any, b, s) == entry(after, any, b, s));
            lemma_answered_later(h, x, s, q, any, b, entry(after, any, b, s)->0);
        }
    }
    assert forall|j: int| 0 <= j < g.len() implies #[trigger] accounted(g, j, after, s, q) by {
        if j < h.len() {
            assert(g[j] == h[j]);
            assert(accounted(h, j, before, s, q));
            assert forall|any: WorkKind, b: int, to: ObjectId| #[trigger]
                asks(g[j], s, q, any, b, to) implies settled_or_owed(
                g,
                j,
                after,
                s,
                q,
                any,
                b,
            ) by {
                assert(asks(h[j], s, q, any, b, to));
                assert(settled_or_owed(h, j, before, s, q, any, b));
                if any == pending.kind && b == mb {
                    assert(entry(after, any, b, s) == Some(e));
                } else {
                    assert(entry(before, any, b, s) == entry(after, any, b, s));
                }
            }
        }
    }
}

/// One exchange keeps every account true.
proof fn lemma_told_next(h: Seq<Exchange>, x: Exchange, before: PipelineRun, after: PipelineRun)
    requires
        before.holds(),
        after.holds(),
        all_told(h, before),
        exchanged(before, x, after),
    ensures
        all_told(h.push(x), after),
        after.stages == before.stages,
        after.lanes@.len() == before.lanes@.len(),
        after.slots == before.slots,
{
    let there = settled(before);
    let at = there.current();
    let r = at.replica as int;
    let n = before.slots@.len();
    lemma_settled(before);
    assert forall|s: int, q: int|
        #![trigger told(h.push(x), after.lanes@[q], s, q)]
        0 <= s < after.stages && 0 <= q < after.lanes@.len() implies told(
        h.push(x),
        after.lanes@[q],
        s,
        q,
    ) by {
        let lane = before.lanes@[q];
        let next = after.lanes@[q];
        assert(told(h, lane, s, q));
        assert(lane.holds() && next.holds());
        if x is Sent && there.point is Sending && q == r {
            let work = lane.work(at.stage as int)->0;
            let command = x->command;
            let reply = match command {
                PipelineCommand::Forward { reply, .. } => reply,
                PipelineCommand::Backward { reply, .. } => reply,
                PipelineCommand::Step { reply, .. } => reply,
            };
            if s == at.stage {
                lemma_asked(h, x, lane, next, s, q, work.kind_view(), reply);
            } else {
                lemma_untouched(h, x, lane, next, s, q);
            }
        } else if x is Heard && there.point is Waiting && q == r {
            let e = x->response->emission_id;
            if s == at.stage {
                lemma_heard(h, x, lane, next, s, q, e);
            } else {
                assert forall|kind: WorkKind, b: int|
                    0 <= b < lane.micro_batches() implies #[trigger] entry(next, kind, b, s)
                    == entry(lane, kind, b, s) by {
                    assert(lane.stage_holds(at.stage as int));
                    assert(rows(lane.forward)[b].len() == lane.stages());
                    assert(rows(lane.backward)[b].len() == lane.stages());
                }
                lemma_untouched(h, x, lane, next, s, q);
            }
        } else {
            lemma_untouched(h, x, lane, next, s, q);
        }
    }
}

/// What stays as it was planned.
spec fn as_planned(input: RunPipelineInput, run: PipelineRun) -> bool {
    &&& run.stages == input.nodes@.len()
    &&& run.lanes@.len() == input.width()
    &&& run.slots@ == slots_below(input.ports@, input.width(), input.nodes@.len())
    &&& run.step == input.step
    &&& forall|q: int|
        #![trigger run.lanes@[q]]
        0 <= q < run.lanes@.len() ==> run.lanes@[q].inputs@ == share(
            input.micro_batches@,
            each(input),
            q,
        )
}

/// How many micro-batches each replica runs.
pub open spec fn each(input: RunPipelineInput) -> nat {
    input.micro_batches@.len() / input.width()
}

proof fn lemma_planned(input: RunPipelineInput, run: PipelineRun)
    requires
        planned(input, run),
        run.holds(),
    ensures
        as_planned(input, run),
        all_told(Seq::empty(), run),
{
    assert forall|s: int, q: int|
        #![trigger told(Seq::empty(), run.lanes@[q], s, q)]
        0 <= s < run.stages && 0 <= q < run.lanes@.len() implies told(
        Seq::empty(),
        run.lanes@[q],
        s,
        q,
    ) by {
        let lane = run.lanes@[q];
        assert(lane.holds() && lane.stage_holds(s));
        assert(lane.busy@[s] is None);
        assert forall|kind: WorkKind, b: int| 0 <= b < lane.micro_batches() implies (
        #[trigger] entry(lane, kind, b, s)) is None by {
            assert(lane.activation(b, s) is None);
            assert(lane.gradient(b, s) is None);
        }
    }
}

/// At every point of a step the lanes record what was sent and heard so far.
proof fn lemma_history_told(
    input: RunPipelineInput,
    states: Seq<PipelineRun>,
    h: Seq<Exchange>,
    i: int,
)
    requires
        is_history(input, states, h),
        0 <= i <= h.len(),
    ensures
        all_told(h.take(i), states[i]),
        as_planned(input, states[i]),
    decreases i,
{
    if i == 0 {
        lemma_planned(input, states[0]);
        assert(h.take(0) =~= Seq::empty());
    } else {
        lemma_history_told(input, states, h, i - 1);
        assert(h.take(i) =~= h.take(i - 1).push(h[i - 1]));
        let before = states[i - 1];
        let after = states[i];
        assert(exchanged(before, h[i - 1], after));
        lemma_told_next(h.take(i - 1), h[i - 1], before, after);
        lemma_settled(before);
        assert forall|q: int|
            #![trigger after.lanes@[q]]
            0 <= q < after.lanes@.len() implies after.lanes@[q].inputs@ == share(
            input.micro_batches@,
            each(input),
            q,
        ) by {
            assert(before.lanes@[q].inputs@ == share(input.micro_batches@, each(input), q));
        }
    }
}

/// The number of micro-batches of each lane.
proof fn lemma_each(input: RunPipelineInput, run: PipelineRun)
    requires
        as_planned(input, run),
        run.holds(),
    ensures
        forall|q: int|
            #![trigger run.lanes@[q]]
            0 <= q < run.lanes@.len() ==> run.lanes@[q].micro_batches() == each(input)
                && run.lanes@[q].stages() == input.nodes@.len(),
        forall|q: int, b: int|
            #![trigger run.lanes@[q].inputs@[b]]
            0 <= q < run.lanes@.len() && 0 <= b < each(input) ==> run.lanes@[q].inputs@[b]
                == input.micro_batches@[q * each(input) + b].emission_id.object,
{
    let m = each(input);
    let w = input.width();
    let total = input.micro_batches@.len();
    lemma_fundamental_div_mod(total as int, w as int);
    assert forall|q: int|
        #![trigger run.lanes@[q]]
        0 <= q < run.lanes@.len() implies run.lanes@[q].micro_batches() == m
        && run.lanes@[q].stages() == input.nodes@.len() by {
        lemma_share_in_range(q, m as int, w as int, total as int);
        assert(share(input.micro_batches@, m, q).len() == m);
    }
    assert forall|q: int, b: int|
        #![trigger run.lanes@[q].inputs@[b]]
        0 <= q < run.lanes@.len() && 0 <= b < m implies run.lanes@[q].inputs@[b]
        == input.micro_batches@[q * m + b].emission_id.object by {
        lemma_share_in_range(q, m as int, w as int, total as int);
        assert(run.lanes@[q].inputs@ == share(input.micro_batches@, m, q));
    }
}

proof fn lemma_share_in_range(q: int, m: int, w: int, total: int)
    requires
        0 <= q < w,
        0 <= m,
        w * m <= total,
    ensures
        0 <= q * m,
        q * m + m <= total,
{
    assert(0 <= q * m && q * m + m <= w * m) by (nonlinear_arith)
        requires
            0 <= q,
            q + 1 <= w,
            0 <= m,
    ;
}

/// Before a command of tensor work goes out, its slot has that work, and the
/// command asks for it.
proof fn lemma_sent_is_work(before: PipelineRun, x: Exchange, after: PipelineRun)
    requires
        before.holds(),
        exchanged(before, x, after),
        x is Sent,
        !(x->command is Step),
    ensures
        x->Sent_replica < before.lanes@.len(),
        x->Sent_stage < before.stages,
        ({
            let lane = before.lanes@[x->Sent_replica as int];
            &&& lane.work(x->Sent_stage as int) is Some
            &&& x->command == command_of(
                lane.work(x->Sent_stage as int)->0,
                match x->command {
                    PipelineCommand::Forward { reply, .. } => reply,
                    PipelineCommand::Backward { reply, .. } => reply,
                    PipelineCommand::Step { reply, .. } => reply,
                },
            )
        }),
{
    lemma_settled(before);
}

/// A stage that is asked to go back is handed the gradient that the stage
/// behind it answered to the same micro-batch; the sink is handed what it
/// emitted itself on the way forward, and is told so.
pub proof fn law_backward_carries_the_gradient_from_behind(
    input: RunPipelineInput,
    states: Seq<PipelineRun>,
    h: Seq<Exchange>,
    i: int,
)
    requires
        is_history(input, states, h),
        0 <= i < h.len(),
        h[i] is Sent,
        h[i]->command is Backward,
    ensures
        ({
            let s = h[i]->Sent_stage as int;
            let q = h[i]->Sent_replica as int;
            let b = h[i]->command->Backward_micro_batch as int;
            let e = h[i]->command->gradient_emission_id;
            let sink = s + 1 == input.nodes@.len();
            &&& 0 <= s < input.nodes@.len()
            &&& 0 <= q < input.width()
            &&& 0 <= b < each(input)
            &&& h[i]->command->seed_from_forward == sink
            &&& !sink ==> answered_with(h.take(i), s + 1, q, WorkKind::Backward, b, e)
            &&& sink ==> answered_with(h.take(i), s, q, WorkKind::Forward, b, e)
            &&& answered(h.take(i), s, q, WorkKind::Forward, b)
        }),
{
    let run = states[i];
    assert(exchanged(run, h[i], states[i + 1]));
    lemma_history_told(input, states, h, i);
    lemma_each(input, run);
    lemma_sent_is_work(run, h[i], states[i + 1]);
    let s = h[i]->Sent_stage as int;
    let q = h[i]->Sent_replica as int;
    let b = h[i]->command->Backward_micro_batch as int;
    let lane = run.lanes@[q];
    assert(told(h.take(i), lane, s, q));
    assert(entry(lane, WorkKind::Forward, b, s) is Some);
    if s + 1 < run.stages {
        assert(told(h.take(i), lane, s + 1, q));
        assert(entry(lane, WorkKind::Backward, b, s + 1) is Some);
    }
}

/// The first stage is asked to run the micro-batches of its replica, and every
/// later stage what the stage before it answered to the same micro-batch.
pub proof fn law_forward_carries_the_activation_from_before(
    input: RunPipelineInput,
    states: Seq<PipelineRun>,
    h: Seq<Exchange>,
    i: int,
)
    requires
        is_history(input, states, h),
        0 <= i < h.len(),
        h[i] is Sent,
        h[i]->command is Forward,
    ensures
        ({
            let s = h[i]->Sent_stage as int;
            let q = h[i]->Sent_replica as int;
            let b = h[i]->command->Forward_micro_batch as int;
            let e = h[i]->command->emission_id;
            &&& 0 <= s < input.nodes@.len()
            &&& 0 <= q < input.width()
            &&& 0 <= b < each(input)
            &&& s == 0 ==> e == input.micro_batches@[q * each(input) + b].emission_id.object
            &&& s > 0 ==> answered_with(h.take(i), s - 1, q, WorkKind::Forward, b, e)
        }),
{
    let run = states[i];
    assert(exchanged(run, h[i], states[i + 1]));
    lemma_history_told(input, states, h, i);
    lemma_each(input, run);
    lemma_sent_is_work(run, h[i], states[i + 1]);
    let s = h[i]->Sent_stage as int;
    let q = h[i]->Sent_replica as int;
    let b = h[i]->command->Forward_micro_batch as int;
    let lane = run.lanes@[q];
    if s > 0 {
        assert(told(h.take(i), lane, s - 1, q));
        assert(entry(lane, WorkKind::Forward, b, s - 1) is Some);
    } else {
        assert(lane.inputs@[b] == h[i]->command->emission_id);
    }
}

/// A stage runs its micro-batches in order, each once forward and once back:
/// the micro-batch of a command is the number of commands of its kind that the
/// stage was sent before.
pub proof fn law_micro_batches_come_in_order(
    input: RunPipelineInput,
    states: Seq<PipelineRun>,
    h: Seq<Exchange>,
    i: int,
)
    requires
        is_history(input, states, h),
        0 <= i < h.len(),
        h[i] is Sent,
    ensures
        ({
            let s = h[i]->Sent_stage as int;
            let q = h[i]->Sent_replica as int;
            &&& h[i]->command matches PipelineCommand::Forward { micro_batch, .. } ==> micro_batch
                == times_asked(h.take(i), s, q, WorkKind::Forward)
            &&& h[i]->command matches PipelineCommand::Backward { micro_batch, .. } ==> micro_batch
                == times_asked(h.take(i), s, q, WorkKind::Backward)
        }),
{
    let run = states[i];
    assert(exchanged(run, h[i], states[i + 1]));
    lemma_history_told(input, states, h, i);
    let s = h[i]->Sent_stage as int;
    let q = h[i]->Sent_replica as int;
    if !(h[i]->command is Step) {
        lemma_sent_is_work(run, h[i], states[i + 1]);
        assert(told(h.take(i), run.lanes@[q], s, q));
        assert(times_asked(h.take(i), s, q, WorkKind::Forward) == started_of(
            run.lanes@[q],
            WorkKind::Forward,
            s,
        ));
        assert(times_asked(h.take(i), s, q, WorkKind::Backward) == started_of(
            run.lanes@[q],
            WorkKind::Backward,
            s,
        ));
    }
}

/// The smaller of two numbers.
pub open spec fn lesser(a: int, b: int) -> int {
    if a < b {
        a
    } else {
        b
    }
}

/// Stage `s` of replica `q` could be asked to go back: it is warm, its next
/// micro-batch has come out of it, and has come back out of the stage behind.
pub open spec fn may_go_back(input: RunPipelineInput, h: Seq<Exchange>, s: int, q: int) -> bool {
    let b = times_asked(h, s, q, WorkKind::Backward) as int;
    &&& b < each(input)
    &&& times_asked(h, s, q, WorkKind::Forward) >= lesser(
        each(input) as int,
        input.nodes@.len() - s,
    )
    &&& answered(h, s, q, WorkKind::Forward, b)
    &&& s + 1 == input.nodes@.len() || answered(h, s + 1, q, WorkKind::Backward, b)
}

/// What a stage answered is on record.
proof fn lemma_answered_is_kept(
    h: Seq<Exchange>,
    lane: Lane,
    s: int,
    q: int,
    kind: WorkKind,
    b: int,
)
    requires
        told(h, lane, s, q),
        answered(h, s, q, kind, b),
    ensures
        0 <= b < lane.micro_batches(),
        entry(lane, kind, b, s) is Some,
{
    let e = choose|e: ObjectId| #[trigger] answered_with(h, s, q, kind, b, e);
    let (j, k) = choose|j: int, k: int| #[trigger] answers(h, j, k, s, q, kind, b, e);
    assert(accounted(h, j, lane, s, q));
    assert(asks(h[j], s, q, kind, b, h[k]->mailbox));
    assert(settled_or_owed(h, j, lane, s, q, kind, b));
    assert(hears(h[k], s, q));
}

/// One forward, one backward: a stage goes back exactly when it may, and runs
/// forward only while it may not go back.
pub proof fn law_one_forward_one_backward(
    input: RunPipelineInput,
    states: Seq<PipelineRun>,
    h: Seq<Exchange>,
    i: int,
)
    requires
        is_history(input, states, h),
        0 <= i < h.len(),
        h[i] is Sent,
        !(h[i]->command is Step),
    ensures
        h[i]->command is Backward <==> may_go_back(
            input,
            h.take(i),
            h[i]->Sent_stage as int,
            h[i]->Sent_replica as int,
        ),
{
    let run = states[i];
    assert(exchanged(run, h[i], states[i + 1]));
    lemma_history_told(input, states, h, i);
    lemma_each(input, run);
    lemma_sent_is_work(run, h[i], states[i + 1]);
    let g = h.take(i);
    let s = h[i]->Sent_stage as int;
    let q = h[i]->Sent_replica as int;
    let lane = run.lanes@[q];
    let b = lane.next_bwd@[s] as int;
    assert(told(g, lane, s, q));
    assert(times_asked(g, s, q, WorkKind::Forward) == started_of(lane, WorkKind::Forward, s));
    assert(times_asked(g, s, q, WorkKind::Backward) == started_of(lane, WorkKind::Backward, s));
    if s + 1 < run.stages {
        assert(told(g, lane, s + 1, q));
    }
    if h[i]->command is Backward {
        law_backward_carries_the_gradient_from_behind(input, states, h, i);
        if s + 1 < run.stages {
            assert(answered_with(
                g,
                s + 1,
                q,
                WorkKind::Backward,
                b,
                h[i]->command->gradient_emission_id,
            ));
        }
    } else if may_go_back(input, g, s, q) {
        lemma_answered_is_kept(g, lane, s, q, WorkKind::Forward, b);
        if s + 1 < run.stages {
            lemma_answered_is_kept(g, lane, s + 1, q, WorkKind::Backward, b);
        }
        assert(lane.activation(b, s) is Some);
        assert(lane.backward_ready(s));
    }
}

/// The slots of a chain are its stages in order, and within each stage its
/// replicas in order, each with its own port.
pub proof fn law_slots_list_every_stage_and_replica(
    ports: Seq<Vec<u32>>,
    width: nat,
    stages: nat,
    s: int,
    q: int,
)
    requires
        width <= usize::MAX,
        stages <= usize::MAX,
        0 <= s < stages,
        0 <= q < width,
    ensures
        slots_below(ports, width, stages).len() == stages * width,
        0 <= s * width + q < stages * width,
        ({
            let slot = slots_below(ports, width, stages)[s * width + q];
            slot.stage == s && slot.replica == q && slot.port == ports[s]@[q]
        }),
    decreases stages,
{
    let rest = (stages - 1) as nat;
    lemma_slots_len(ports, width, rest);
    lemma_slots_len(ports, width, stages);
    assert(stages * width == rest * width + width) by (nonlinear_arith)
        requires
            stages == rest + 1,
    ;
    assert(0 <= s * width && s * width + width <= stages * width) by (nonlinear_arith)
        requires
            0 <= s,
            s + 1 <= stages,
    ;
    if s < rest {
        law_slots_list_every_stage_and_replica(ports, width, rest, s, q);
    }
}

proof fn lemma_slots_len(ports: Seq<Vec<u32>>, width: nat, stages: nat)
    ensures
        slots_below(ports, width, stages).len() == stages * width,
    decreases stages,
{
    if stages > 0 {
        lemma_slots_len(ports, width, (stages - 1) as nat);
        assert(stages * width == (stages - 1) * width + width) by (nonlinear_arith);
    } else {
        assert(0 * width == 0) by (nonlinear_arith);
    }
}

proof fn lemma_slot_port(ports: Seq<Vec<u32>>, width: nat, stages: nat, k: int)
    requires
        width <= usize::MAX,
        stages <= usize::MAX,
        0 <= k < slots_below(ports, width, stages).len(),
    ensures
        ({
            let slot = slots_below(ports, width, stages)[k];
            &&& slot.stage < stages
            &&& slot.replica < width
            &&& slot.port == ports[slot.stage as int]@[slot.replica as int]
        }),
    decreases stages,
{
    if stages > 0 && k < slots_below(ports, width, (stages - 1) as nat).len() {
        lemma_slot_port(ports, width, (stages - 1) as nat, k);
    }
}

/// No two slots share a port.
pub open spec fn ports_distinct(input: RunPipelineInput) -> bool {
    forall|s: int, q: int, t: int, r: int|
        #![trigger input.ports@[s]@[q], input.ports@[t]@[r]]
        0 <= s < input.nodes@.len() && 0 <= q < input.width() && 0 <= t < input.nodes@.len() && 0
            <= r < input.width() && input.ports@[s]@[q] == input.ports@[t]@[r] ==> s == t && q == r
}

/// Where stage `s` of replica `q` listens after `h`: at the mailbox its last
/// command named, or at `first` if it had none.
pub open spec fn listens_at(h: Seq<Exchange>, s: int, q: int, first: ObjectId) -> ObjectId
    decreases h.len(),
{
    if h.len() == 0 {
        first
    } else if h.last() matches Exchange::Sent { stage, replica, recv, .. } && stage == s && replica
        == q {
        h.last()->recv
    } else {
        listens_at(h.drop_last(), s, q, first)
    }
}

spec fn mailboxes_told(input: RunPipelineInput, h: Seq<Exchange>, run: PipelineRun) -> bool {
    forall|s: int, q: int|
        #![trigger input.ports@[s]@[q]]
        0 <= s < input.nodes@.len() && 0 <= q < input.width() ==> {
            let port = input.ports@[s]@[q];
            &&& run.inboxes@.contains_key(port) == input.inboxes@.contains_key(port)
            &&& input.inboxes@.contains_key(port) ==> run.inboxes@[port] == listens_at(
                h,
                s,
                q,
                input.inboxes@[port],
            )
        }
}

proof fn lemma_listens_push(h: Seq<Exchange>, x: Exchange, s: int, q: int, first: ObjectId)
    ensures
        listens_at(h.push(x), s, q, first) == if x matches Exchange::Sent { stage, replica, .. }
            && stage == s && replica == q {
            x->recv
        } else {
            listens_at(h, s, q, first)
        },
{
    assert(h.push(x).drop_last() =~= h);
    assert(h.push(x).last() == x);
}

/// The slot a command goes to, and the inbox it is put into.
proof fn lemma_sent_slot(input: RunPipelineInput, before: PipelineRun, x: Exchange, after: PipelineRun)
    requires
        as_planned(input, before),
        before.holds(),
        exchanged(before, x, after),
        x is Sent,
    ensures
        x->Sent_stage < input.nodes@.len(),
        x->Sent_replica < input.width(),
        ({
            let port = input.ports@[x->Sent_stage as int]@[x->Sent_replica as int];
            &&& before.inboxes@.contains_key(port)
            &&& x->inbox == before.inboxes@[port]
            &&& after.inboxes@ == before.inboxes@.insert(port, x->recv)
        }),
{
    lemma_settled(before);
    let k = match settled(before).point {
        RunPoint::Sending { slot } => slot as int,
        RunPoint::Stepping { sent } => sent as int,
        _ => 0,
    };
    assert(before.lanes.len() == before.lanes@.len());
    lemma_slot_port(input.ports@, input.width(), input.nodes@.len(), k);
}

proof fn lemma_mailboxes_told(
    input: RunPipelineInput,
    states: Seq<PipelineRun>,
    h: Seq<Exchange>,
    i: int,
)
    requires
        is_history(input, states, h),
        ports_distinct(input),
        0 <= i <= h.len(),
    ensures
        mailboxes_told(input, h.take(i), states[i]),
    decreases i,
{
    if i == 0 {
        assert(h.take(0) =~= Seq::empty());
    } else {
        lemma_mailboxes_told(input, states, h, i - 1);
        lemma_history_told(input, states, h, i - 1);
        let before = states[i - 1];
        let after = states[i];
        let x = h[i - 1];
        assert(exchanged(before, x, after));
        assert(h.take(i) =~= h.take(i - 1).push(x));
        if x is Sent {
            lemma_sent_slot(input, before, x, after);
        }
        assert forall|s: int, q: int|
            #![trigger input.ports@[s]@[q]]
            0 <= s < input.nodes@.len() && 0 <= q < input.width() implies {
            let port = input.ports@[s]@[q];
            &&& after.inboxes@.contains_key(port) == input.inboxes@.contains_key(port)
            &&& input.inboxes@.contains_key(port) ==> after.inboxes@[port] == listens_at(
                h.take(i),
                s,
                q,
                input.inboxes@[port],
            )
        } by {
            let port = input.ports@[s]@[q];
            lemma_listens_push(h.take(i - 1), x, s, q, input.inboxes@[port]);
            if x is Sent {
                let t = x->Sent_stage as int;
                let r = x->Sent_replica as int;
                if input.ports@[t]@[r] == port {
                    assert(t == s && r == q);
                }
            }
        }
    }
}

/// Every command is put where its stage listens: at the mailbox that its last
/// command named, or at first at the inbox of its port.
pub proof fn law_commands_reach_their_stage(
    input: RunPipelineInput,
    states: Seq<PipelineRun>,
    h: Seq<Exchange>,
    i: int,
)
    requires
        is_history(input, states, h),
        ports_distinct(input),
        0 <= i < h.len(),
        h[i] is Sent,
    ensures
        ({
            let s = h[i]->Sent_stage as int;
            let q = h[i]->Sent_replica as int;
            let port = input.ports@[s]@[q];
            &&& 0 <= s < input.nodes@.len()
            &&& 0 <= q < input.width()
            &&& input.inboxes@.contains_key(port)
            &&& h[i]->inbox == listens_at(h.take(i), s, q, input.inboxes@[port])
        }),
{
    assert(exchanged(states[i], h[i], states[i + 1]));
    lemma_history_told(input, states, h, i);
    lemma_mailboxes_told(input, states, h, i);
    lemma_sent_slot(input, states[i], h[i], states[i + 1]);
}

/// A request to apply the gradients, and where it is to be acknowledged.
pub struct StepRequest {
    pub stage: usize,
    pub replica: usize,
    pub step: usize,
    pub reply: ObjectId,
}

/// The requests of `h` to apply gradients, in order.
pub open spec fn steps_requested(h: Seq<Exchange>) -> Seq<StepRequest>
    decreases h.len(),
{
    if h.len() == 0 {
        Seq::empty()
    } else {
        let before = steps_requested(h.drop_last());
        match h.last() {
            Exchange::Sent {
                stage,
                replica,
                command: PipelineCommand::Step { reply, step },
                ..
            } => before.push(StepRequest { stage, replica, step, reply }),
            _ => before,
        }
    }
}

/// The mailboxes at which steps were acknowledged in `h`, in order.
pub open spec fn steps_acknowledged(h: Seq<Exchange>) -> Seq<ObjectId>
    decreases h.len(),
{
    if h.len() == 0 {
        Seq::empty()
    } else {
        let before = steps_acknowledged(h.drop_last());
        match h.last() {
            Exchange::Heard { mailbox, response: PipelineResponse::Stepped, .. } => before.push(
                mailbox,
            ),
            _ => before,
        }
    }
}

spec fn step_told(run: PipelineRun, h: Seq<Exchange>) -> bool {
    let requested = steps_requested(h);
    let n = run.slots@.len();
    &&& requested.len() == run.step_replies@.len()
    &&& requested.len() <= n
    &&& forall|k: int|
        #![trigger requested[k]]
        0 <= k < requested.len() ==> requested[k] == (StepRequest {
            stage: run.slots@[k].stage,
            replica: run.slots@[k].replica,
            step: (run.step + 1) as usize,
            reply: run.step_replies@[k],
        })
    &&& match run.point {
        RunPoint::Sending { .. } | RunPoint::Waiting { .. } => requested.len() == 0
            && steps_acknowledged(h).len() == 0,
        RunPoint::Stepping { sent } => requested.len() == sent && steps_acknowledged(h).len() == 0,
        RunPoint::Settling { settled, .. } => requested.len() == n && steps_acknowledged(h)
            == run.step_replies@.take(settled as int),
        RunPoint::Done => requested.len() == n && steps_acknowledged(h) == run.step_replies@,
    }
}

proof fn lemma_step_told(
    input: RunPipelineInput,
    states: Seq<PipelineRun>,
    h: Seq<Exchange>,
    i: int,
)
    requires
        is_history(input, states, h),
        0 <= i <= h.len(),
    ensures
        step_told(states[i], h.take(i)),
    decreases i,
{
    if i == 0 {
        assert(h.take(0) =~= Seq::empty());
    } else {
        lemma_step_told(input, states, h, i - 1);
        let before = states[i - 1];
        let after = states[i];
        let x = h[i - 1];
        let g = h.take(i - 1);
        assert(exchanged(before, x, after));
        assert(before.holds() && after.holds());
        assert(h.take(i) =~= g.push(x));
        assert(g.push(x).drop_last() =~= g);
        lemma_settled(before);
        lemma_step_told_next(g, x, before, after);
    }
}

proof fn lemma_step_told_next(g: Seq<Exchange>, x: Exchange, before: PipelineRun, after: PipelineRun)
    requires
        before.holds(),
        after.holds(),
        step_told(before, g),
        exchanged(before, x, after),
    ensures
        step_told(after, g.push(x)),
{
    let h = g.push(x);
    let replies = before.step_replies@;
    assert(h.drop_last() =~= g);
    assert(h.last() == x);
    lemma_settled(before);
    assert(replies.take(replies.len() as int) =~= replies);
    assert(replies.take(0) =~= Seq::empty());
    match before.point {
        RunPoint::Sending { .. } | RunPoint::Waiting { .. } => {
            assert(steps_requested(h) == steps_requested(g));
            assert(steps_acknowledged(h) == steps_acknowledged(g));
        },
        RunPoint::Stepping { sent } => {
            assert(steps_acknowledged(h) == steps_acknowledged(g));
            if sent < before.slots@.len() {
                assert(x is Sent);
                assert(x->command is Step);
                assert(steps_requested(h) == steps_requested(g).push(
                    StepRequest {
                        stage: x->Sent_stage,
                        replica: x->Sent_replica,
                        step: x->command->step,
                        reply: x->command->Step_reply,
                    },
                ));
                assert(after.step_replies@ == replies.push(x->command->Step_reply));
                assert(x->Sent_stage == before.slots@[sent as int].stage);
                assert(x->Sent_replica == before.slots@[sent as int].replica);
                assert(x->command->step == (before.step + 1) as usize);
                assert(steps_requested(g).len() == sent);
                assert forall|k: int|
                    #![trigger steps_requested(h)[k]]
                    0 <= k < steps_requested(h).len() implies steps_requested(h)[k] == (
                StepRequest {
                    stage: after.slots@[k].stage,
                    replica: after.slots@[k].replica,
                    step: (after.step + 1) as usize,
                    reply: after.step_replies@[k],
                }) by {
                    if k < sent {
                        assert(steps_requested(h)[k] == steps_requested(g)[k]);
                    }
                }
            } else {
                assert(x is Quiet);
                assert(steps_acknowledged(h) =~= replies.take(0));
            }
        },
        RunPoint::Settling { settled, idle } => {
            assert(steps_requested(h) == steps_requested(g));
            if !idle && settled < before.slots@.len() && x is Heard {
                assert(x->response is Stepped);
                assert(steps_acknowledged(h) == steps_acknowledged(g).push(x->mailbox));
                assert(replies.take(settled as int).push(replies[settled as int]) =~= replies.take(
                    settled + 1,
                ));
            } else {
                assert(x is Quiet);
                assert(steps_acknowledged(h) == steps_acknowledged(g));
            }
        },
        RunPoint::Done => {
            assert(x is Quiet);
        },
    }
}

/// Gradients are applied only once every micro-batch has come back from every
/// stage, and every request is for the step after the one the input names.
pub proof fn law_steps_come_last(
    input: RunPipelineInput,
    states: Seq<PipelineRun>,
    h: Seq<Exchange>,
    i: int,
    s: int,
    q: int,
    b: int,
)
    requires
        is_history(input, states, h),
        0 <= i < h.len(),
        h[i] is Sent,
        h[i]->command is Step,
        0 <= s < input.nodes@.len(),
        0 <= q < input.width(),
        0 <= b < each(input),
    ensures
        h[i]->command->step == input.step + 1,
        answered(h.take(i), s, q, WorkKind::Forward, b),
        answered(h.take(i), s, q, WorkKind::Backward, b),
{
    let run = states[i];
    assert(exchanged(run, h[i], states[i + 1]));
    lemma_history_told(input, states, h, i);
    lemma_settled(run);
    lemma_each(input, run);
    lemma_finished_is_told(input, h.take(i), run, s, q, b);
}

proof fn lemma_finished_is_told(
    input: RunPipelineInput,
    h: Seq<Exchange>,
    run: PipelineRun,
    s: int,
    q: int,
    b: int,
)
    requires
        run.holds(),
        run.finished(),
        as_planned(input, run),
        all_told(h, run),
        0 <= s < input.nodes@.len(),
        0 <= q < input.width(),
        0 <= b < each(input),
    ensures
        answered(h, s, q, WorkKind::Forward, b),
        answered(h, s, q, WorkKind::Backward, b),
        run.lanes@[q].activation(b, s) is Some,
        answered_with(h, s, q, WorkKind::Forward, b, run.lanes@[q].activation(b, s)->0),
        times_asked(h, s, q, WorkKind::Forward) == each(input),
        times_asked(h, s, q, WorkKind::Backward) == each(input),
{
    lemma_each(input, run);
    let lane = run.lanes@[q];
    assert(lane.finished());
    law_finished_lane_is_complete(lane, b, s);
    assert(told(h, lane, s, q));
    assert(lane.stage_holds(s));
    assert(lane.busy@[s] is None);
    assert(entry(lane, WorkKind::Forward, b, s) is Some);
    assert(entry(lane, WorkKind::Backward, b, s) is Some);
    assert(times_asked(h, s, q, WorkKind::Forward) == started_of(lane, WorkKind::Forward, s));
    assert(times_asked(h, s, q, WorkKind::Backward) == started_of(lane, WorkKind::Backward, s));
}

/// A completed step has asked every stage of every replica exactly once to
/// apply its gradients, stage by stage, and each has acknowledged where it was
/// asked to.
pub proof fn law_every_stage_steps_once(
    input: RunPipelineInput,
    states: Seq<PipelineRun>,
    h: Seq<Exchange>,
    s: int,
    q: int,
)
    requires
        is_history(input, states, h),
        states.last().point is Done,
        0 <= s < input.nodes@.len(),
        0 <= q < input.width(),
    ensures
        steps_requested(h).len() == input.nodes@.len() * input.width(),
        steps_acknowledged(h).len() == steps_requested(h).len(),
        0 <= s * input.width() + q < steps_requested(h).len(),
        ({
            let request = steps_requested(h)[s * input.width() + q];
            &&& request.stage == s
            &&& request.replica == q
            &&& request.step == input.step + 1
            &&& request.reply == steps_acknowledged(h)[s * input.width() + q]
        }),
{
    let run = states.last();
    assert(h.take(h.len() as int) =~= h);
    lemma_history_told(input, states, h, h.len() as int);
    lemma_step_told(input, states, h, h.len() as int);
    assert(run.holds());
    assert(run.lanes.len() == run.lanes@.len());
    law_slots_list_every_stage_and_replica(
        input.ports@,
        input.width(),
        input.nodes@.len(),
        s,
        q,
    );
}

/// A completed step hands out, for every micro-batch of every replica, what
/// the sink answered to it, in the order the micro-batches came in; and the
/// inbox of every port is the mailbox its stage was told last.
pub proof fn law_completed_step_hands_out_sink_answers(
    input: RunPipelineInput,
    states: Seq<PipelineRun>,
    h: Seq<Exchange>,
    q: int,
    b: int,
    s: int,
)
    requires
        is_history(input, states, h),
        ports_distinct(input),
        states.last().point is Done,
        input.micro_batches@.len() == each(input) * input.width(),
        0 <= q < input.width(),
        0 <= b < each(input),
        0 <= s < input.nodes@.len(),
    ensures
        ({
            let run = states.last();
            let outputs = outputs_below(run.lanes@, run.lanes@.len());
            let at = q * each(input) + b;
            let port = input.ports@[s]@[q];
            &&& outputs.len() == input.micro_batches@.len()
            &&& 0 <= at < outputs.len()
            &&& answered_with(h, input.nodes@.len() - 1, q, WorkKind::Forward, b, outputs[at])
            &&& times_asked(h, s, q, WorkKind::Forward) == each(input)
            &&& times_asked(h, s, q, WorkKind::Backward) == each(input)
            &&& input.inboxes@.contains_key(port) ==> run.inboxes@[port] == listens_at(
                h,
                s,
                q,
                input.inboxes@[port],
            )
        }),
{
    let run = states.last();
    assert(h.take(h.len() as int) =~= h);
    lemma_history_told(input, states, h, h.len() as int);
    lemma_mailboxes_told(input, states, h, h.len() as int);
    assert(run.holds());
    lemma_each(input, run);
    assert(run.lanes@[0].micro_batches() == each(input));
    law_every_micro_batch_has_its_output(run, q, b);
    lemma_finished_is_told(input, h, run, input.nodes@.len() - 1, q, b);
    lemma_finished_is_told(input, h, run, s, q, b);
    assert(run.lanes@.len() * run.micro_batches() == each(input) * input.width())
        by (nonlinear_arith)
        requires
            run.lanes@.len() == input.width(),
            run.micro_batches() == each(input),
    ;
}

} // verus!
