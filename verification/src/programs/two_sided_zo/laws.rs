//! What holds of the phases observers see and of every epoch.

use vstd::prelude::*;

use crate::collections::{ascending, lemma_ascending_lists};
use crate::counting::{lemma_total_bound, lemma_total_insert, lemma_total_zero, total};
use crate::error::AtomError;
use crate::failure::Failure;
use crate::programs::two_sided_zo::SunState;
use crate::programs::two_sided_zo::effect::NodeTransmission;
use crate::programs::two_sided_zo::phase::{
    clock, phase_distance, state_of, step_of_phase, steps_in, successor,
    with_optimization_sent, with_propagation_completed, with_propagation_sent, EpochClock,
    PhaseBook,
};
use crate::programs::two_sided_zo::pipeline::{
    completed_in, epoch_prepared, has_step_target, inputs_arrived,
    node_ready, ready_set, sent_in, step_mailboxes_fit, step_target_of, unprepared_reason,
    StepMailboxes,
};
use crate::programs::two_sided_zo::schedule::{
    counters_after, has_counter, lacks_partner, only_progress_changed, ready_addressable,
    roots_addressable, step_absorbed, step_taken, task_now, tasks_sent, unsent_task,
};
use crate::topology::SunNodeState;
use crate::topology::frontier::{count_at, roots};
use crate::topology::graph::{
    hits, lemma_hits_positive, lemma_least_ranked, lemma_occurrences_positive, list_at, lists,
    occurrences, ranks_edges,
};
use crate::topology::laws::{edges_owned, ports_owned, resolved};
use crate::topology::observe::sequence_at;
use crate::topology::targets::is_root;

verus! {

broadcast use vstd::std_specs::hash::group_hash_axioms;

/// The second pass of `node` is visible exactly from when it has been sent and
/// the first pass has completed, until the epoch ends.
pub open spec fn second_pass_honest_at(book: PhaseBook, node: u32) -> bool {
    state_of(book, node) == SunNodeState::Propagation2 <==> book.p1_completed.contains(node)
        && book.p2_sent.contains(node)
}

/// No second pass is visible early or hidden late.
pub open spec fn second_pass_honest(book: PhaseBook) -> bool {
    forall|node: u32| #[trigger] second_pass_honest_at(book, node)
}

/// `state` after `count` phases.
pub open spec fn phases_later(state: SunNodeState, count: nat) -> SunNodeState
    decreases count,
{
    if count == 0 {
        state
    } else {
        phases_later(successor(state), (count - 1) as nat)
    }
}

/// The phase distance is the number of phases entered on the way: that many
/// steps of the cycle lead there, and fewer do not.
pub proof fn law_distance_counts_phases(from: SunNodeState, to: SunNodeState)
    requires
        to != SunNodeState::Idle,
    ensures
        0 <= phase_distance(from, to) <= 3,
        phases_later(from, phase_distance(from, to) as nat) == to,
        forall|count: nat|
            count < phase_distance(from, to) ==> #[trigger] phases_later(from, count) != to,
{
    reveal_with_fuel(phases_later, 4);
    assert forall|count: nat| count < phase_distance(from, to) implies #[trigger] phases_later(
        from,
        count,
    ) != to by {
        assert(count == 0 || count == 1 || count == 2);
    }
}

/// The step shown for a node lies between one and the number of steps.
pub proof fn law_shown_step_in_range(clock: EpochClock, phase: SunNodeState)
    ensures
        1 <= step_of_phase(clock, phase) <= steps_in(clock),
{
}

/// Sending a propagation never lowers a phase position, and keeps the second
/// pass honest.
pub proof fn law_propagation_sent(
    book: PhaseBook,
    clock: EpochClock,
    node: u32,
    phase: SunNodeState,
    other: u32,
)
    requires
        second_pass_honest(book),
        phase == SunNodeState::Propagation1 || phase == SunNodeState::Propagation2,
        sequence_at(book.sequences, node) + 3 <= u64::MAX,
    ensures
        second_pass_honest(with_propagation_sent(book, clock, node, phase)),
        sequence_at(book.sequences, other) <= sequence_at(
            with_propagation_sent(book, clock, node, phase).sequences,
            other,
        ),
        other != node ==> state_of(with_propagation_sent(book, clock, node, phase), other)
            == state_of(book, other),
{
    let next = with_propagation_sent(book, clock, node, phase);
    assert forall|id: u32| #[trigger] second_pass_honest_at(next, id) by {
        assert(second_pass_honest_at(book, id));
    }
}

/// Completing a propagation never lowers a phase position, and keeps the
/// second pass honest.
pub proof fn law_propagation_completed(
    book: PhaseBook,
    clock: EpochClock,
    node: u32,
    phase: SunNodeState,
    other: u32,
)
    requires
        second_pass_honest(book),
        sequence_at(book.sequences, node) + 3 <= u64::MAX,
    ensures
        second_pass_honest(with_propagation_completed(book, clock, node, phase)),
        sequence_at(book.sequences, other) <= sequence_at(
            with_propagation_completed(book, clock, node, phase).sequences,
            other,
        ),
        other != node ==> state_of(with_propagation_completed(book, clock, node, phase), other)
            == state_of(book, other),
{
    let next = with_propagation_completed(book, clock, node, phase);
    assert forall|id: u32| #[trigger] second_pass_honest_at(next, id) by {
        assert(second_pass_honest_at(book, id));
    }
}

/// Ending an epoch never lowers a phase position, and a former epoch's
/// completion does not expose a second pass early.
pub proof fn law_optimization_sent(book: PhaseBook, clock: EpochClock, node: u32, other: u32)
    requires
        second_pass_honest(book),
        sequence_at(book.sequences, node) + 3 <= u64::MAX,
    ensures
        second_pass_honest(with_optimization_sent(book, clock, node)),
        state_of(with_optimization_sent(book, clock, node), node) == SunNodeState::Optimization,
        !with_optimization_sent(book, clock, node).p1_completed.contains(node),
        !with_optimization_sent(book, clock, node).p2_sent.contains(node),
        sequence_at(book.sequences, other) <= sequence_at(
            with_optimization_sent(book, clock, node).sequences,
            other,
        ),
{
    let next = with_optimization_sent(book, clock, node);
    assert forall|id: u32| #[trigger] second_pass_honest_at(next, id) by {
        assert(second_pass_honest_at(book, id));
    }
}

/// The mailboxes of a port form a chain through the epoch: after each step it
/// listens where the next one comes, after the first pass where the second
/// begins, and after the second where the potentiation comes.
pub proof fn law_mailboxes_chain<S>(state: SunState<S>, port: u32, step: int)
    requires
        1 <= step <= steps_in(clock(state.shared)),
    ensures
        step < steps_in(clock(state.shared)) ==> step_target_of(
            state,
            SunNodeState::Propagation1,
            step,
            port,
        ).next_input_id == step_target_of(
            state,
            SunNodeState::Propagation1,
            step + 1,
            port,
        ).input_id,
        step == steps_in(clock(state.shared)) ==> step_target_of(
            state,
            SunNodeState::Propagation1,
            step,
            port,
        ).next_input_id == step_target_of(
            state,
            SunNodeState::Propagation2,
            1,
            port,
        ).input_id,
        step < steps_in(clock(state.shared)) ==> step_target_of(
            state,
            SunNodeState::Propagation2,
            step,
            port,
        ).next_input_id == step_target_of(
            state,
            SunNodeState::Propagation2,
            step + 1,
            port,
        ).input_id,
        step == steps_in(clock(state.shared)) && state.shared.po_tx@.contains_key(port)
            ==> step_target_of(state, SunNodeState::Propagation2, step, port).next_input_id
            == state.shared.po_tx@[port],
{
}

/// An epoch in progress: no node is ahead of its predecessors in either pass,
/// the second pass of a node starts after its first has ended, a root has been
/// sent at most the step it takes next, and the completions are counted.
pub open spec fn epoch_holds<S>(state: SunState<S>) -> bool {
    let steps = steps_in(clock(state.shared));
    let vertices = state.topology.vertices();
    let first = state.node_p1_completed@;
    let second = state.node_p2_completed@;
    &&& resolved(state.topology)
    &&& first.dom() == vertices
    &&& second.dom() == vertices
    &&& state.root_p1_sent@.dom() == roots(state.topology)
    &&& state.root_p2_sent@.dom() == roots(state.topology)
    &&& forall|id: u32| #[trigger]
        vertices.contains(id) ==> first[id] <= steps && second[id] <= steps && (second[id] > 0
            ==> first[id] == steps)
    &&& forall|id: u32, i: int|
        #![trigger state.topology.incoming_edges()[id][i]]
        vertices.contains(id) && 0 <= i < state.topology.incoming_edges()[id].len() ==> count_at(
            first,
            id,
        ) <= count_at(first, state.topology.incoming_edges()[id][i]) && count_at(second, id)
            <= count_at(second, state.topology.incoming_edges()[id][i])
    &&& forall|id: u32| #[trigger]
        roots(state.topology).contains(id) ==> count_at(first, id) <= state.root_p1_sent@[id]
            <= count_at(first, id) + 1 && count_at(second, id) <= state.root_p2_sent@[id]
            <= count_at(second, id) + 1
    &&& state.pipeline_completions == total(first, ascending(vertices)) + total(
        second,
        ascending(vertices),
    )
    &&& state.pipeline_target_completions == vertices.len() * steps * 2
    &&& state.sink_id matches Some(sink) && vertices.contains(sink)
        && state.propagation_up_outputs@.len() == first[sink] && state.propagation_pairs@.len()
        == second[sink]
}

/// Preparing an epoch over a resolved graph starts a consistent epoch.
pub proof fn law_prepared_epoch_holds<S>(
    before: SunState<S>,
    after: SunState<S>,
    fresh: StepMailboxes,
)
    requires
        resolved(before.topology),
        epoch_prepared(before, after, fresh),
    ensures
        epoch_holds(after),
{
    lemma_total_zero(after.node_p1_completed@, ascending(after.topology.vertices()));
    lemma_total_zero(after.node_p2_completed@, ascending(after.topology.vertices()));
    assert forall|id: u32| #[trigger] after.topology.vertices().contains(id) implies
        after.node_p1_completed@[id] == 0 && after.node_p2_completed@[id] == 0 by {
        assert(after.node_p1_completed@.contains_key(id));
        assert(after.node_p2_completed@.contains_key(id));
    }
    assert forall|id: u32| #[trigger] roots(after.topology).contains(id) implies
        after.root_p1_sent@[id] == 0 && after.root_p2_sent@[id] == 0 by {
        assert(after.root_p1_sent@.contains_key(id));
        assert(after.root_p2_sent@.contains_key(id));
    }
}

/// Taking in the completion of a ready node keeps the epoch consistent and
/// counts one more completion.
pub proof fn law_step_keeps_epoch<S>(
    before: SunState<S>,
    after: SunState<S>,
    completion: NodeTransmission,
)
    requires
        epoch_holds(before),
        before.pipeline_completions < usize::MAX,
        ready_set(before).contains(completion.node_id),
        step_absorbed(
            before,
            after,
            completion,
            task_now(before, completion.node_id)->0,
        ),
    ensures
        epoch_holds(after),
        after.pipeline_completions == before.pipeline_completions + 1,
{
    let node = completion.node_id;
    let task = task_now(before, node)->0;
    let vertices = before.topology.vertices();
    let inc = before.topology.incoming_edges();
    let order = ascending(vertices);
    assert(node_ready(before, node));
    assert(vertices.contains(node));
    lemma_ascending_lists(vertices);
    assert(order.to_set().contains(node));
    lemma_total_insert(before.node_p1_completed@, order, node, task.step);
    lemma_total_insert(before.node_p2_completed@, order, node, task.step);
    assert(after.topology.outgoing == before.topology.outgoing);
    assert(after.topology.incoming == before.topology.incoming);
    assert(after.topology.journey_ids == before.topology.journey_ids);
    assert(roots(after.topology) =~= roots(before.topology));
    assert(after.node_p1_completed@.dom() =~= vertices);
    assert(after.node_p2_completed@.dom() =~= vertices);
    assert forall|id: u32, i: int|
        #![trigger after.topology.incoming_edges()[id][i]]
        vertices.contains(id) && 0 <= i
            < after.topology.incoming_edges()[id].len() implies count_at(
        after.node_p1_completed@,
        id,
    ) <= count_at(after.node_p1_completed@, after.topology.incoming_edges()[id][i]) && count_at(
        after.node_p2_completed@,
        id,
    ) <= count_at(after.node_p2_completed@, after.topology.incoming_edges()[id][i]) by {
        let source = inc[id][i];
        assert(count_at(before.node_p1_completed@, id) <= count_at(
            before.node_p1_completed@,
            source,
        ));
        assert(vertices.contains(id));
        if id == node {
            assert(!is_root(before.topology, node));
            assert(list_at(inc, node)[i] == source);
            assert(completed_in(before, task.phase, source) >= task.step);
        }
    }
    assert forall|id: u32| #[trigger] roots(after.topology).contains(id) implies count_at(
        after.node_p1_completed@,
        id,
    ) <= after.root_p1_sent@[id] <= count_at(after.node_p1_completed@, id) + 1 && count_at(
        after.node_p2_completed@,
        id,
    ) <= after.root_p2_sent@[id] <= count_at(after.node_p2_completed@, id) + 1 by {
        assert(roots(before.topology).contains(id));
        if id == node {
            assert(is_root(before.topology, node));
            assert(sent_in(before, task.phase, node) >= task.step);
            assert(before.root_p1_sent@.dom().contains(node));
            assert(before.root_p2_sent@.dom().contains(node));
        }
    }
    assert forall|id: u32| #[trigger] vertices.contains(id) implies after.node_p1_completed@[id]
        <= steps_in(clock(after.shared)) && after.node_p2_completed@[id] <= steps_in(
        clock(after.shared),
    ) && (after.node_p2_completed@[id] > 0 ==> after.node_p1_completed@[id] == steps_in(
        clock(after.shared),
    )) by {
        assert(vertices.contains(node));
    }
}

/// A sink output of the second pass always has its partner from the first.
pub proof fn law_partner_is_there<S>(state: SunState<S>, node: u32)
    requires
        epoch_holds(state),
        task_now(state, node) is Some,
    ensures
        !lacks_partner(state, node, task_now(state, node)->0),
{
}

/// The completions reach their target exactly when every node has taken every
/// step of both passes; the sink has then given one pair per step.
pub proof fn law_target_means_done<S>(state: SunState<S>)
    requires
        epoch_holds(state),
    ensures
        state.pipeline_completions <= state.pipeline_target_completions,
        state.pipeline_completions == state.pipeline_target_completions <==> forall|id: u32|
            #[trigger]
            state.topology.vertices().contains(id) ==> task_now(state, id) is None,
        state.pipeline_completions == state.pipeline_target_completions
            ==> state.propagation_pairs@.len() == steps_in(clock(state.shared)),
{
    let vertices = state.topology.vertices();
    let steps = steps_in(clock(state.shared)) as nat;
    let first = state.node_p1_completed@;
    let second = state.node_p2_completed@;
    lemma_ascending_lists(vertices);
    let order = ascending(vertices);
    assert forall|i: int| #![trigger order[i]] 0 <= i < order.len() implies count_at(
        first,
        order[i],
    ) <= steps && count_at(second, order[i]) <= steps by {
        assert(order.to_set().contains(order[i]));
        assert(vertices.contains(order[i]));
    }
    lemma_total_bound(first, order, steps);
    lemma_total_bound(second, order, steps);
    let len = vertices.len();
    assert(len * steps * 2 == len * steps + len * steps) by (nonlinear_arith);
    if state.pipeline_completions == state.pipeline_target_completions {
        assert forall|id: u32| #[trigger] vertices.contains(id) implies task_now(
            state,
            id,
        ) is None && count_at(second, id) == steps by {
            assert(order.to_set().contains(id));
            let i = choose|i: int| 0 <= i < order.len() && order[i] == id;
            assert(count_at(first, order[i]) == steps);
            assert(count_at(second, order[i]) == steps);
        }
        assert(vertices.contains(state.sink_id->0));
    }
    if forall|id: u32| #[trigger] vertices.contains(id) ==> task_now(state, id) is None {
        assert forall|i: int| #![trigger order[i]] 0 <= i < order.len() implies count_at(
            first,
            order[i],
        ) == steps && count_at(second, order[i]) == steps by {
            assert(order.to_set().contains(order[i]));
            assert(vertices.contains(order[i]));
            assert(task_now(state, order[i]) is None);
        }
    }
}

/// The counters of both passes cover the graph, none is past the last step,
/// and together they make up the completions; the target is every step of both
/// passes at every node.
pub open spec fn completions_tallied<S>(state: SunState<S>) -> bool {
    let steps = steps_in(clock(state.shared));
    let vertices = state.topology.vertices();
    let first = state.node_p1_completed@;
    let second = state.node_p2_completed@;
    &&& first.dom() == vertices
    &&& second.dom() == vertices
    &&& forall|id: u32| #[trigger]
        vertices.contains(id) ==> first[id] <= steps && second[id] <= steps
    &&& state.pipeline_completions == total(first, ascending(vertices)) + total(
        second,
        ascending(vertices),
    )
    &&& state.pipeline_target_completions == vertices.len() * steps * 2
}

/// A prepared epoch has an even tally.
pub proof fn law_prepared_epoch_is_tallied<S>(
    before: SunState<S>,
    after: SunState<S>,
    fresh: StepMailboxes,
)
    requires
        epoch_prepared(before, after, fresh),
    ensures
        completions_tallied(after),
{
    lemma_total_zero(after.node_p1_completed@, ascending(after.topology.vertices()));
    lemma_total_zero(after.node_p2_completed@, ascending(after.topology.vertices()));
    assert forall|id: u32| #[trigger] after.topology.vertices().contains(id) implies
        after.node_p1_completed@[id] == 0 && after.node_p2_completed@[id] == 0 by {
        assert(after.node_p1_completed@.contains_key(id));
        assert(after.node_p2_completed@.contains_key(id));
    }
}

/// The completions never pass their target, and once they have reached it no
/// node has a step left.
pub proof fn law_tally_is_bounded<S>(state: SunState<S>)
    requires
        completions_tallied(state),
    ensures
        state.pipeline_completions <= state.pipeline_target_completions,
        state.pipeline_completions == state.pipeline_target_completions ==> forall|id: u32|
            #[trigger]
            state.topology.vertices().contains(id) ==> task_now(state, id) is None,
{
    let vertices = state.topology.vertices();
    let steps = steps_in(clock(state.shared)) as nat;
    let first = state.node_p1_completed@;
    let second = state.node_p2_completed@;
    lemma_ascending_lists(vertices);
    let order = ascending(vertices);
    assert forall|i: int| #![trigger order[i]] 0 <= i < order.len() implies count_at(
        first,
        order[i],
    ) <= steps && count_at(second, order[i]) <= steps by {
        assert(order.to_set().contains(order[i]));
        assert(vertices.contains(order[i]));
    }
    lemma_total_bound(first, order, steps);
    lemma_total_bound(second, order, steps);
    let len = vertices.len();
    assert(len * steps * 2 == len * steps + len * steps) by (nonlinear_arith);
    if state.pipeline_completions == state.pipeline_target_completions {
        assert forall|id: u32| #[trigger] vertices.contains(id) implies task_now(
            state,
            id,
        ) is None by {
            assert(order.to_set().contains(id));
            let i = choose|i: int| 0 <= i < order.len() && order[i] == id;
            assert(count_at(first, order[i]) == steps);
            assert(count_at(second, order[i]) == steps);
        }
    }
}

/// Whatever a wait comes to, of a ready node or of any other, the tally stays
/// even and the target stays where it is. Once the target is reached every
/// further outcome is refused and moves no counter.
pub proof fn law_any_outcome_keeps_tally<S>(
    before: SunState<S>,
    output: Result<NodeTransmission, AtomError>,
    after: SunState<S>,
    result: Result<(), Failure>,
)
    requires
        completions_tallied(before),
        step_taken(before, output, after, result),
    ensures
        completions_tallied(after),
        after.pipeline_completions <= after.pipeline_target_completions,
        after.pipeline_target_completions == before.pipeline_target_completions,
        before.pipeline_completions == before.pipeline_target_completions ==> {
            &&& result is Err
            &&& after.node_p1_completed@ == before.node_p1_completed@
            &&& after.node_p2_completed@ == before.node_p2_completed@
            &&& after.pipeline_completions == before.pipeline_completions
        },
{
    law_tally_is_bounded(before);
    if output is Ok {
        let node = output->Ok_0.node_id;
        let task = task_now(before, node);
        if task is Some && has_counter(before, node, task->0.phase) {
            let task = task->0;
            let vertices = before.topology.vertices();
            let order = ascending(vertices);
            assert(before.node_p1_completed@.dom().contains(node)
                || before.node_p2_completed@.dom().contains(node));
            assert(vertices.contains(node));
            lemma_ascending_lists(vertices);
            assert(order.to_set().contains(node));
            lemma_total_insert(before.node_p1_completed@, order, node, task.step);
            lemma_total_insert(before.node_p2_completed@, order, node, task.step);
            assert(after.topology.journey_ids == before.topology.journey_ids);
            assert(after.node_p1_completed@.dom() =~= vertices);
            assert(after.node_p2_completed@.dom() =~= vertices);
            assert(before.pipeline_completions < usize::MAX);
        }
    }
    law_tally_is_bounded(after);
}

/// However many outcomes an epoch has taken in since it was prepared, of
/// whatever kind, the tally is even and the target of the beginning is not
/// passed.
pub proof fn law_every_run_is_tallied<S>(
    states: Seq<SunState<S>>,
    outputs: Seq<Result<NodeTransmission, AtomError>>,
    results: Seq<Result<(), Failure>>,
    unprepared: SunState<S>,
    fresh: StepMailboxes,
)
    requires
        states.len() == outputs.len() + 1,
        results.len() == outputs.len(),
        epoch_prepared(unprepared, states[0], fresh),
        forall|i: int|
            #![trigger outputs[i]]
            0 <= i < outputs.len() ==> step_taken(
                states[i],
                outputs[i],
                states[i + 1],
                results[i],
            ),
    ensures
        completions_tallied(states.last()),
        states.last().pipeline_completions <= states.last().pipeline_target_completions,
        states.last().pipeline_target_completions == states[0].pipeline_target_completions,
    decreases outputs.len(),
{
    if outputs.len() == 0 {
        law_prepared_epoch_is_tallied(unprepared, states[0], fresh);
        law_tally_is_bounded(states[0]);
    } else {
        let rest = outputs.drop_last();
        assert forall|i: int| #![trigger rest[i]] 0 <= i < rest.len() implies step_taken(
            states.drop_last()[i],
            rest[i],
            states.drop_last()[i + 1],
            results.drop_last()[i],
        ) by {
            assert(rest[i] == outputs[i]);
        }
        law_every_run_is_tallied(
            states.drop_last(),
            rest,
            results.drop_last(),
            unprepared,
            fresh,
        );
        let last = outputs.len() - 1;
        law_any_outcome_keeps_tally(states[last], outputs[last], states[last + 1], results[last]);
    }
}

/// How far a node is in the epoch: steps of the first pass, then of the
/// second.
spec fn progress_of<S>(state: SunState<S>, id: u32) -> nat {
    count_at(state.node_p1_completed@, id) + count_at(state.node_p2_completed@, id)
}

/// An epoch never gets stuck: while completions are missing and no root is due
/// a step, some node is ready.
pub proof fn law_epoch_progresses<S>(state: SunState<S>) -> (next: u32)
    requires
        epoch_holds(state),
        state.pipeline_completions < state.pipeline_target_completions,
        forall|id: u32| #[trigger]
            roots(state.topology).contains(id) ==> unsent_task(state, id) is None,
    ensures
        ready_set(state).contains(next),
{
    let vertices = state.topology.vertices();
    let steps = steps_in(clock(state.shared));
    let out = state.topology.outgoing_edges();
    let inc = state.topology.incoming_edges();
    law_target_means_done(state);
    assert(vertices.finite());
    let slow = choose|id: u32| #[trigger] vertices.contains(id) && task_now(state, id) is Some;
    assert(vertices.contains(slow));
    assert(vertices.len() > 0) by {
        if vertices.len() == 0 {
            assert(vertices =~= Set::empty());
        }
    }
    let progress = Map::new(|id: u32| vertices.contains(id), |id: u32| progress_of(state, id));
    let behind = lemma_least_ranked(vertices, progress);
    let least = progress_of(state, behind);
    assert(progress[slow] == progress_of(state, slow));
    assert(least < 2 * steps);
    let last = vertices.filter(|id: u32| progress_of(state, id) == least);
    assert(last.contains(behind));
    assert(last.finite());
    assert(last.len() > 0) by {
        if last.len() == 0 {
            assert(last =~= Set::empty());
        }
    }
    let rank = choose|rank: Map<u32, nat>| ranks_edges(out, rank);
    let next = lemma_least_ranked(last, rank);
    assert(vertices.contains(next));
    assert(task_now(state, next) is Some);
    let task = task_now(state, next)->0;
    if is_root(state.topology, next) {
        assert(inc.dom().contains(next));
        assert(state.topology.incoming@.dom().contains(next));
        assert(roots(state.topology).contains(next));
        assert(unsent_task(state, next) is None);
    } else {
        assert forall|i: int|
            #![trigger list_at(inc, next)[i]]
            0 <= i < list_at(inc, next).len() implies completed_in(
            state,
            task.phase,
            list_at(inc, next)[i],
        ) >= task.step by {
            let source = list_at(inc, next)[i];
            assert(inc[next][i] == source);
            lemma_occurrences_positive(list_at(inc, next), source);
            assert(list_at(inc, next).contains(source));
            assert(occurrences(list_at(inc, next), source) == hits(list_at(out, source), next));
            lemma_hits_positive(list_at(out, source), next);
            let j = choose|j: int|
                0 <= j < list_at(out, source).len() && #[trigger] list_at(out, source)[j].vertex_id
                    == next;
            assert(out.contains_key(source));
            assert(out[source][j].vertex_id == next);
            assert(rank[source] < rank[next]);
            assert(vertices.contains(source));
            if progress_of(state, source) == least {
                assert(last.contains(source));
            }
            assert(progress[source] == progress_of(state, source));
            assert(progress_of(state, source) > least);
        }
    }
    assert(inputs_arrived(state, next, task.phase, task.step));
    next
}

/// The mailboxes and propagations of the whole epoch are in place.
pub open spec fn epoch_equipped<S>(state: SunState<S>) -> bool {
    let steps = steps_in(clock(state.shared));
    let ports = state.topology.port_vertices@.dom();
    let vertices = state.topology.vertices();
    &&& state.topology.well_formed()
    &&& ports_owned(state.topology)
    &&& edges_owned(state.topology)
    &&& state.p1_step_tx@.len() == steps
    &&& state.p2_step_tx@.len() == steps
    &&& state.p1_step_rx@.len() == steps
    &&& state.p2_step_rx@.len() == steps
    &&& crate::mailbox::all_cover(state.p1_step_tx@, ports)
    &&& crate::mailbox::all_cover(state.p2_step_tx@, ports)
    &&& crate::mailbox::all_cover(state.p1_step_rx@, vertices)
    &&& crate::mailbox::all_cover(state.p2_step_rx@, vertices)
    &&& state.shared.po_tx@.dom() == ports
    &&& state.propagation_up_inputs@.len() == steps
    &&& state.propagation_down_inputs@.len() == steps
}

proof fn lemma_equipped_target<S>(state: SunState<S>, node: u32, port: u32)
    requires
        epoch_equipped(state),
        task_now(state, node) is Some,
        state.topology.port_vertices@.contains_key(port),
    ensures
        has_step_target(
            state,
            task_now(state, node)->0.phase,
            task_now(state, node)->0.step as int,
            port,
        ),
{
    let task = task_now(state, node)->0;
    let owner = state.topology.port_vertices@[port];
    let index = task.step - 1;
    assert(state.topology.vertices().contains(owner));
    assert(state.p1_step_tx@[index]@.dom().contains(port));
    assert(state.p2_step_tx@[index]@.dom().contains(port));
    assert(state.p2_step_tx@[0]@.dom().contains(port));
    assert(state.p1_step_rx@[index]@.dom().contains(owner));
    assert(state.p2_step_rx@[index]@.dom().contains(owner));
    assert(state.shared.po_tx@.dom().contains(port));
    if task.step < steps_in(clock(state.shared)) {
        assert(state.p1_step_tx@[task.step as int]@.dom().contains(port));
        assert(state.p2_step_tx@[task.step as int]@.dom().contains(port));
    }
}

/// In an equipped epoch no mailbox is ever missing: whatever is due to the
/// roots and whatever the ready nodes forward can be addressed.
pub proof fn law_equipped_epoch_is_addressable<S>(state: SunState<S>)
    requires
        epoch_equipped(state),
    ensures
        roots_addressable(state),
        ready_addressable(state),
{
    assert forall|root: u32, i: int|
        #![trigger list_at(lists(state.topology.vertex_ports@), root)[i]]
        roots(state.topology).contains(root) && unsent_task(state, root) is Some && 0 <= i
            < list_at(lists(state.topology.vertex_ports@), root).len() implies has_step_target(
        state,
        unsent_task(state, root)->0.phase,
        unsent_task(state, root)->0.step as int,
        list_at(lists(state.topology.vertex_ports@), root)[i],
    ) by {
        lemma_equipped_target(
            state,
            root,
            list_at(lists(state.topology.vertex_ports@), root)[i],
        );
    }
    assert forall|node: u32, i: int|
        #![trigger list_at(state.topology.outgoing_edges(), node)[i]]
        ready_set(state).contains(node) && 0 <= i < list_at(
            state.topology.outgoing_edges(),
            node,
        ).len() implies has_step_target(
        state,
        task_now(state, node)->0.phase,
        task_now(state, node)->0.step as int,
        list_at(state.topology.outgoing_edges(), node)[i].port_id,
    ) by {
        assert(node_ready(state, node));
        lemma_equipped_target(
            state,
            node,
            list_at(state.topology.outgoing_edges(), node)[i].port_id,
        );
    }
}

/// Preparing an epoch over a finalized graph equips it.
pub proof fn law_prepared_epoch_is_equipped<S>(
    before: SunState<S>,
    after: SunState<S>,
    expected: usize,
    fresh: StepMailboxes,
)
    requires
        before.topology.well_formed(),
        ports_owned(before.topology),
        edges_owned(before.topology),
        before.shared.po_tx@.dom() == before.topology.port_vertices@.dom(),
        unprepared_reason(before, expected) is None,
        step_mailboxes_fit(fresh, before.topology, expected),
        epoch_prepared(before, after, fresh),
    ensures
        epoch_equipped(after),
{
}

/// The counters of a pass after steps were sent, id by id.
proof fn lemma_counters_after<S>(
    state: SunState<S>,
    counters: Map<u32, usize>,
    sent: Seq<u32>,
    phase: SunNodeState,
    id: u32,
)
    ensures
        ({
            let after = counters_after(counters, tasks_sent(state, sent), phase);
            let moved = sent.contains(id) && task_now(state, id) is Some && task_now(
                state,
                id,
            )->0.phase == phase;
            &&& after.contains_key(id) <==> counters.contains_key(id) || moved
            &&& moved ==> after[id] == task_now(state, id)->0.step
            &&& !moved && counters.contains_key(id) ==> after[id] == counters[id]
        }),
    decreases sent.len(),
{
    let f = |node: u32|
        match task_now(state, node) {
            Some(task) => Some((node, task)),
            None => None,
        };
    if sent.len() > 0 {
        let rest = sent.drop_last();
        let last = sent.last();
        lemma_counters_after(state, counters, rest, phase, id);
        assert(sent.map_values(f).drop_last() =~= rest.map_values(f));
        assert(sent.map_values(f).last() == f(last));
        assert(sent.contains(id) <==> rest.contains(id) || id == last) by {
            assert(sent =~= rest.push(last));
            crate::collections::lemma_push_set(rest, last);
        }
        if task_now(state, last) is Some {
            let tasks = tasks_sent(state, rest);
            let entry = (last, task_now(state, last)->0);
            assert(tasks_sent(state, sent) == tasks.push(entry));
            assert(tasks.push(entry).drop_last() =~= tasks);
        }
    } else {
        assert(sent.map_values(f) =~= Seq::empty());
    }
}

/// Sending roots the steps they are due keeps the epoch consistent.
pub proof fn law_sends_keep_epoch<S>(before: SunState<S>, after: SunState<S>, sent: Seq<u32>)
    requires
        epoch_holds(before),
        forall|i: int|
            #![trigger sent[i]]
            0 <= i < sent.len() ==> roots(before.topology).contains(sent[i]) && unsent_task(
                before,
                sent[i],
            ) is Some,
        after.root_p1_sent@ == counters_after(
            before.root_p1_sent@,
            tasks_sent(before, sent),
            SunNodeState::Propagation1,
        ),
        after.root_p2_sent@ == counters_after(
            before.root_p2_sent@,
            tasks_sent(before, sent),
            SunNodeState::Propagation2,
        ),
        after == (SunState {
            topology: after.topology,
            shared: after.shared,
            root_p1_sent: after.root_p1_sent,
            root_p2_sent: after.root_p2_sent,
            ..before
        }),
        after.shared.grad_steps == before.shared.grad_steps,
        after.topology.outgoing == before.topology.outgoing,
        after.topology.incoming == before.topology.incoming,
        after.topology.journey_ids == before.topology.journey_ids,
    ensures
        epoch_holds(after),
{
    assert(roots(after.topology) =~= roots(before.topology));
    assert forall|id: u32|
        #![trigger roots(before.topology).contains(id)]
        (after.root_p1_sent@.contains_key(id) <==> roots(before.topology).contains(id)) && (
        after.root_p2_sent@.contains_key(id) <==> roots(before.topology).contains(id)) && (roots(
            before.topology,
        ).contains(id) ==> count_at(before.node_p1_completed@, id) <= after.root_p1_sent@[id]
            <= count_at(before.node_p1_completed@, id) + 1 && count_at(
            before.node_p2_completed@,
            id,
        ) <= after.root_p2_sent@[id] <= count_at(before.node_p2_completed@, id) + 1) by {
        lemma_counters_after(
            before,
            before.root_p1_sent@,
            sent,
            SunNodeState::Propagation1,
            id,
        );
        lemma_counters_after(
            before,
            before.root_p2_sent@,
            sent,
            SunNodeState::Propagation2,
            id,
        );
        assert(before.root_p1_sent@.dom().contains(id) <==> roots(before.topology).contains(id));
        assert(before.root_p2_sent@.dom().contains(id) <==> roots(before.topology).contains(id));
        if sent.contains(id) {
            let i = choose|i: int| 0 <= i < sent.len() && sent[i] == id;
            assert(roots(before.topology).contains(sent[i]));
            assert(unsent_task(before, sent[i]) is Some);
        }
    }
    assert(after.root_p1_sent@.dom() =~= roots(after.topology)) by {
        assert forall|id: u32| after.root_p1_sent@.dom().contains(id) <==> roots(
            after.topology,
        ).contains(id) by {
            assert(roots(before.topology).contains(id) || !roots(before.topology).contains(id));
        }
    }
    assert(after.root_p2_sent@.dom() =~= roots(after.topology)) by {
        assert forall|id: u32| after.root_p2_sent@.dom().contains(id) <==> roots(
            after.topology,
        ).contains(id) by {
            assert(roots(before.topology).contains(id) || !roots(before.topology).contains(id));
        }
    }
}

/// A completed step takes no mailbox away.
pub proof fn law_step_keeps_epoch_equipped<S>(
    before: SunState<S>,
    after: SunState<S>,
    completion: NodeTransmission,
)
    requires
        epoch_equipped(before),
        step_absorbed(
            before,
            after,
            completion,
            task_now(before, completion.node_id)->0,
        ),
    ensures
        epoch_equipped(after),
{
    assert(after.topology.outgoing_edges() == before.topology.outgoing_edges());
}

/// Sending roots their steps takes no mailbox away.
pub proof fn law_sends_keep_epoch_equipped<S>(before: SunState<S>, after: SunState<S>)
    requires
        epoch_equipped(before),
        after == (SunState {
            topology: after.topology,
            shared: after.shared,
            root_p1_sent: after.root_p1_sent,
            root_p2_sent: after.root_p2_sent,
            ..before
        }),
        only_progress_changed(before.shared, before.topology, after.shared, after.topology),
    ensures
        epoch_equipped(after),
{
    assert(after.topology.outgoing_edges() == before.topology.outgoing_edges());
}

} // verus!
