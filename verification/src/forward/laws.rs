//! What holds of every forward pass and of every pipeline window.

use vstd::prelude::*;

use crate::collections::{ascending, lemma_ascending_lists, strictly_increasing};
use crate::counting::{lemma_total_bound, lemma_total_insert, lemma_total_zero, total};
use crate::forward::effect::SchedulerDelivery;
use crate::forward::pass::{pass_prepared, started_recorded};
use crate::forward::pipeline::{
    has_target, mailboxes_fit, next_task, pipeline_advanced, pipeline_prepared, pipeline_ready,
    preparable, ready_addressable, roots_addressable, sends_counted, task_ready, unsent_task,
    PipelineMailboxes,
};
use crate::forward::{ForwardRuntime, ForwardSunState};
use crate::ids::ObjectId;
use crate::mailbox::all_cover;
use crate::topology::frontier::{count_at, roots};
use crate::topology::graph::{
    hits, lemma_hits_positive, lemma_least_ranked, lemma_occurrences_positive, list_at, lists, occurrences,
    ranks_edges,
};
use crate::topology::laws::{
    edges_owned, frontier_holds, law_frontier_starts, ports_owned, resolved,
};
use crate::topology::targets::is_root;

verus! {

broadcast use vstd::std_specs::hash::group_hash_axioms;

/// A window in progress: no node is ahead of its predecessors, a root has been
/// sent at most the artifact it works on next, and the completions are counted.
pub open spec fn pipeline_holds<S>(state: ForwardSunState<S>) -> bool {
    let runtime = state.runtime;
    let count = runtime.pipeline_inputs@.len();
    let vertices = state.topology.vertices();
    &&& resolved(state.topology)
    &&& count > 0
    &&& runtime.node_completed@.dom() == vertices
    &&& runtime.root_sent@.dom() == roots(state.topology)
    &&& forall|id: u32| #[trigger]
        runtime.node_completed@.contains_key(id) ==> runtime.node_completed@[id] <= count
    &&& forall|id: u32, i: int|
        #![trigger state.topology.incoming_edges()[id][i]]
        vertices.contains(id) && 0 <= i < state.topology.incoming_edges()[id].len() ==> count_at(
            runtime.node_completed@,
            id,
        ) <= count_at(runtime.node_completed@, state.topology.incoming_edges()[id][i])
    &&& forall|id: u32| #[trigger]
        runtime.root_sent@.contains_key(id) ==> count_at(runtime.node_completed@, id)
            <= runtime.root_sent@[id] <= count_at(runtime.node_completed@, id) + 1
    &&& runtime.pipeline_completions == total(runtime.node_completed@, ascending(vertices))
    &&& runtime.pipeline_target_completions == vertices.len() * count
}

/// Preparing a forward pass over a resolved graph starts a consistent pass.
pub proof fn law_prepared_pass_holds<S>(
    before: ForwardSunState<S>,
    after: ForwardSunState<S>,
    next_inputs: std::collections::HashMap<u32, ObjectId>,
    outputs: std::collections::HashMap<u32, ObjectId>,
)
    requires
        resolved(before.topology),
        pass_prepared(before, after, next_inputs, outputs),
    ensures
        frontier_holds(
            after.topology,
            Set::empty(),
            after.runtime.pending@,
            after.runtime.ready@,
        ),
{
    assert(after.topology.outgoing == before.topology.outgoing);
    assert(after.topology.incoming == before.topology.incoming);
    assert(after.topology.journey_ids == before.topology.journey_ids);
    law_frontier_starts(after.topology, after.runtime.pending@);
}

/// Preparing a window over a resolved graph starts a consistent window.
pub proof fn law_prepared_pipeline_holds<S>(
    before: ForwardSunState<S>,
    after: ForwardSunState<S>,
    fresh: PipelineMailboxes,
)
    requires
        resolved(before.topology),
        before.runtime.pipeline_inputs@.len() > 0,
        pipeline_prepared(before, after, fresh),
    ensures
        pipeline_holds(after),
{
    assert(after.topology.outgoing == before.topology.outgoing);
    assert(after.topology.incoming == before.topology.incoming);
    assert(after.topology.journey_ids == before.topology.journey_ids);
    lemma_total_zero(after.runtime.node_completed@, ascending(after.topology.vertices()));
    assert(roots(after.topology) =~= roots(before.topology));
}

/// Absorbing the completion of a ready node keeps the window consistent.
pub proof fn law_completion_keeps_pipeline<S>(
    before: ForwardSunState<S>,
    after: ForwardSunState<S>,
    completion: SchedulerDelivery,
)
    requires
        pipeline_holds(before),
        before.runtime.pipeline_completions < usize::MAX,
        pipeline_ready(before).contains(completion.node_id),
        pipeline_advanced(before, after, completion),
    ensures
        pipeline_holds(after),
        after.runtime.pipeline_completions == before.runtime.pipeline_completions + 1,
{
    let node = completion.node_id;
    let vertices = before.topology.vertices();
    let old_counts = before.runtime.node_completed@;
    let new_counts = after.runtime.node_completed@;
    let inc = before.topology.incoming_edges();
    assert(after.topology.outgoing == before.topology.outgoing);
    assert(after.topology.incoming == before.topology.incoming);
    assert(after.topology.journey_ids == before.topology.journey_ids);
    assert(roots(after.topology) =~= roots(before.topology));
    assert(task_ready(before, node));
    assert(old_counts.contains_key(node));
    assert(new_counts.dom() =~= vertices);
    lemma_ascending_lists(vertices);
    let order = ascending(vertices);
    assert(order.to_set().contains(node));
    lemma_total_insert(old_counts, order, node, (old_counts[node] + 1) as usize);
    assert forall|id: u32, i: int|
        #![trigger after.topology.incoming_edges()[id][i]]
        vertices.contains(id) && 0 <= i
            < after.topology.incoming_edges()[id].len() implies count_at(new_counts, id)
        <= count_at(new_counts, after.topology.incoming_edges()[id][i]) by {
        let source = inc[id][i];
        assert(count_at(old_counts, id) <= count_at(old_counts, source));
        if id == node {
            assert(!is_root(before.topology, node));
            assert(list_at(inc, node)[i] == source);
            assert(count_at(old_counts, source) > old_counts[node]);
        }
    }
    assert forall|id: u32| #[trigger] after.runtime.root_sent@.contains_key(id) implies count_at(
        new_counts,
        id,
    ) <= after.runtime.root_sent@[id] <= count_at(new_counts, id) + 1 by {
        assert(before.runtime.root_sent@.contains_key(id));
        if id == node {
            assert(roots(before.topology).contains(node));
            assert(is_root(before.topology, node));
        }
    }
}

/// Sending roots the artifacts they are due keeps the window consistent.
pub proof fn law_sends_keep_pipeline<S>(
    before: ForwardSunState<S>,
    after: ForwardSunState<S>,
    sent: Seq<u32>,
)
    requires
        pipeline_holds(before),
        strictly_increasing(sent),
        forall|i: int|
            #![trigger sent[i]]
            0 <= i < sent.len() ==> roots(before.topology).contains(sent[i]) && unsent_task(
                before.runtime,
                sent[i],
            ) is Some,
        sends_counted(before.runtime.root_sent@, after.runtime.root_sent@, sent),
        after.runtime == (ForwardRuntime {
            root_sent: after.runtime.root_sent,
            ..before.runtime
        }),
        after.topology.outgoing == before.topology.outgoing,
        after.topology.incoming == before.topology.incoming,
        after.topology.journey_ids == before.topology.journey_ids,
    ensures
        pipeline_holds(after),
{
    let old_sent = before.runtime.root_sent@;
    let new_sent = after.runtime.root_sent@;
    assert(roots(after.topology) =~= roots(before.topology));
    assert forall|id: u32| new_sent.contains_key(id) <==> roots(before.topology).contains(id) by {
        if sent.contains(id) {
            let i = choose|i: int| 0 <= i < sent.len() && sent[i] == id;
            assert(roots(before.topology).contains(sent[i]));
        }
        assert(old_sent.dom().contains(id) <==> roots(before.topology).contains(id));
        assert(new_sent.contains_key(id) <==> old_sent.contains_key(id) || sent.contains(id));
    }
    assert(new_sent.dom() =~= roots(after.topology));
    assert forall|id: u32| #[trigger] new_sent.contains_key(id) implies count_at(
        after.runtime.node_completed@,
        id,
    ) <= new_sent[id] <= count_at(after.runtime.node_completed@, id) + 1 by {
        assert(old_sent.contains_key(id));
        lemma_occurrences_positive(sent, id);
        assert(count_at(new_sent, id) == new_sent[id]);
        if sent.contains(id) {
            let i = choose|i: int| 0 <= i < sent.len() && sent[i] == id;
            assert(unsent_task(before.runtime, sent[i]) is Some);
            assert(old_sent[id] == count_at(before.runtime.node_completed@, id));
            lemma_occurs_once(sent, id);
            let completed = count_at(before.runtime.node_completed@, id);
            assert(completed < before.runtime.pipeline_inputs@.len());
            assert(before.runtime.pipeline_inputs.len() == before.runtime.pipeline_inputs@.len());
        }
    }
}

proof fn lemma_occurs_once(ids: Seq<u32>, id: u32)
    requires
        strictly_increasing(ids),
    ensures
        occurrences(ids, id) <= 1,
    decreases ids.len(),
{
    if ids.len() > 0 {
        let rest = ids.drop_last();
        lemma_occurs_once(rest, id);
        if ids.last() == id {
            lemma_occurrences_positive(rest, id);
            if rest.contains(id) {
                let i = choose|i: int| 0 <= i < rest.len() && rest[i] == id;
                assert(ids[i] < ids[ids.len() - 1]);
            }
        }
    }
}

/// The completions reach their target exactly when every node has completed
/// every artifact of the window.
pub proof fn law_target_means_done<S>(state: ForwardSunState<S>)
    requires
        pipeline_holds(state),
    ensures
        state.runtime.pipeline_completions <= state.runtime.pipeline_target_completions,
        state.runtime.pipeline_completions == state.runtime.pipeline_target_completions
            <==> forall|id: u32| #[trigger]
            state.topology.vertices().contains(id) ==> next_task(state.runtime, id) is None,
{
    let vertices = state.topology.vertices();
    let counts = state.runtime.node_completed@;
    let count = state.runtime.pipeline_inputs@.len();
    lemma_ascending_lists(vertices);
    let order = ascending(vertices);
    assert forall|i: int| #![trigger order[i]] 0 <= i < order.len() implies count_at(
        counts,
        order[i],
    ) <= count by {
        assert(order.to_set().contains(order[i]));
        assert(counts.contains_key(order[i]));
    }
    lemma_total_bound(counts, order, count);
    if state.runtime.pipeline_completions == state.runtime.pipeline_target_completions {
        assert forall|id: u32| #[trigger] vertices.contains(id) implies next_task(
            state.runtime,
            id,
        ) is None by {
            assert(order.to_set().contains(id));
            let i = choose|i: int| 0 <= i < order.len() && order[i] == id;
            assert(count_at(counts, order[i]) == count);
        }
    }
    if forall|id: u32| #[trigger] vertices.contains(id) ==> next_task(state.runtime, id) is None {
        assert forall|i: int| #![trigger order[i]] 0 <= i < order.len() implies count_at(
            counts,
            order[i],
        ) == count by {
            assert(order.to_set().contains(order[i]));
            assert(vertices.contains(order[i]));
        }
    }
}

/// A window never gets stuck: while completions are missing and no root is due
/// an artifact, some node is ready.
pub proof fn law_pipeline_progresses<S>(state: ForwardSunState<S>) -> (next: u32)
    requires
        pipeline_holds(state),
        state.runtime.pipeline_completions < state.runtime.pipeline_target_completions,
        forall|id: u32| #[trigger]
            roots(state.topology).contains(id) ==> unsent_task(state.runtime, id) is None,
    ensures
        pipeline_ready(state).contains(next),
{
    let vertices = state.topology.vertices();
    let counts = state.runtime.node_completed@;
    let count = state.runtime.pipeline_inputs@.len();
    let out = state.topology.outgoing_edges();
    let inc = state.topology.incoming_edges();
    law_target_means_done(state);
    assert(vertices.finite());
    let slow = choose|id: u32| #[trigger]
        vertices.contains(id) && next_task(state.runtime, id) is Some;
    assert(vertices.contains(slow));
    assert(vertices.len() > 0) by {
        if vertices.len() == 0 {
            assert(vertices =~= Set::empty());
        }
    }
    let progress = Map::new(|id: u32| vertices.contains(id), |id: u32| count_at(counts, id));
    let behind = lemma_least_ranked(vertices, progress);
    let least = count_at(counts, behind);
    assert(progress[slow] == count_at(counts, slow));
    assert(least < count);
    let last = vertices.filter(|id: u32| count_at(counts, id) == least);
    assert(last.contains(behind));
    assert(last.finite());
    assert(last.len() > 0) by {
        if last.len() == 0 {
            assert(last =~= Set::empty());
        }
    }
    let rank = choose|rank: Map<u32, nat>| ranks_edges(out, rank);
    let next = lemma_least_ranked(last, rank);
    assert(vertices.contains(next));
    assert(next_task(state.runtime, next) == Some(least as int));
    if is_root(state.topology, next) {
        assert(state.topology.incoming@.dom().contains(next)) by {
            assert(inc.dom().contains(next));
        }
        assert(roots(state.topology).contains(next));
        assert(unsent_task(state.runtime, next) is None);
    } else {
        assert forall|i: int|
            #![trigger list_at(inc, next)[i]]
            0 <= i < list_at(inc, next).len() implies count_at(counts, list_at(inc, next)[i])
            > least by {
            let source = list_at(inc, next)[i];
            assert(inc[next][i] == source);
            assert(count_at(counts, next) <= count_at(counts, source));
            if count_at(counts, source) == least {
                lemma_occurrences_positive(list_at(inc, next), source);
                assert(list_at(inc, next).contains(source));
                assert(occurrences(list_at(inc, next), source) == hits(
                    list_at(out, source),
                    next,
                ));
                lemma_hits_positive(list_at(out, source), next);
                let j = choose|j: int|
                    0 <= j < list_at(out, source).len() && #[trigger] list_at(
                        out,
                        source,
                    )[j].vertex_id == next;
                assert(out.contains_key(source));
                assert(out[source][j].vertex_id == next);
                assert(rank[source] < rank[next]);
                assert(vertices.contains(source));
                assert(last.contains(source));
            }
        }
    }
    assert(task_ready(state, next));
    next
}

/// The mailboxes of the whole window are in place.
pub open spec fn window_equipped<S>(state: ForwardSunState<S>) -> bool {
    let runtime = state.runtime;
    let count = runtime.pipeline_inputs@.len();
    let ports = state.topology.port_vertices@.dom();
    &&& state.topology.well_formed()
    &&& ports_owned(state.topology)
    &&& edges_owned(state.topology)
    &&& runtime.pipeline_input_ids@.len() == count
    &&& runtime.pipeline_output_ids@.len() == count
    &&& all_cover(runtime.pipeline_input_ids@, ports)
    &&& all_cover(runtime.pipeline_output_ids@, state.topology.vertices())
    &&& runtime.next_inputs@.dom() == ports
}

/// Preparing a window over a finalized graph equips it.
pub proof fn law_prepared_window_is_equipped<S>(
    before: ForwardSunState<S>,
    after: ForwardSunState<S>,
    fresh: PipelineMailboxes,
)
    requires
        before.topology.well_formed(),
        ports_owned(before.topology),
        edges_owned(before.topology),
        preparable(before),
        mailboxes_fit(
            fresh,
            before.topology.port_vertices@.dom(),
            before.topology.vertices(),
            before.runtime.pipeline_inputs@.len(),
        ),
        pipeline_prepared(before, after, fresh),
    ensures
        window_equipped(after),
{
    assert(after.topology.outgoing_edges() == before.topology.outgoing_edges());
}

proof fn lemma_equipped_target<S>(state: ForwardSunState<S>, index: int, port: u32)
    requires
        window_equipped(state),
        0 <= index < state.runtime.pipeline_inputs@.len(),
        state.topology.port_vertices@.contains_key(port),
    ensures
        has_target(state, index, port),
{
    let owner = state.topology.port_vertices@[port];
    assert(state.topology.vertices().contains(owner));
    assert(state.runtime.pipeline_input_ids@[index]@.dom().contains(port));
    assert(state.runtime.pipeline_output_ids@[index]@.dom().contains(owner));
    assert(state.runtime.next_inputs@.dom().contains(port));
}

/// In an equipped window no mailbox is ever missing: whatever is due to the
/// roots and whatever the ready nodes forward can be addressed.
pub proof fn law_equipped_window_is_addressable<S>(state: ForwardSunState<S>)
    requires
        window_equipped(state),
    ensures
        roots_addressable(state),
        ready_addressable(state),
{
    assert forall|root: u32, i: int|
        #![trigger list_at(lists(state.topology.vertex_ports@), root)[i]]
        roots(state.topology).contains(root) && unsent_task(state.runtime, root) is Some && 0 <= i
            < list_at(lists(state.topology.vertex_ports@), root).len() implies has_target(
        state,
        unsent_task(state.runtime, root)->0,
        list_at(lists(state.topology.vertex_ports@), root)[i],
    ) by {
        lemma_equipped_target(
            state,
            unsent_task(state.runtime, root)->0,
            list_at(lists(state.topology.vertex_ports@), root)[i],
        );
    }
    assert forall|node: u32, i: int|
        #![trigger list_at(state.topology.outgoing_edges(), node)[i]]
        pipeline_ready(state).contains(node) && 0 <= i < list_at(
            state.topology.outgoing_edges(),
            node,
        ).len() implies has_target(
        state,
        next_task(state.runtime, node)->0,
        list_at(state.topology.outgoing_edges(), node)[i].port_id,
    ) by {
        assert(task_ready(state, node));
        lemma_equipped_target(
            state,
            next_task(state.runtime, node)->0,
            list_at(state.topology.outgoing_edges(), node)[i].port_id,
        );
    }
}

/// A completion that leaves work in the window takes no mailbox away.
pub proof fn law_completion_keeps_window_equipped<S>(
    before: ForwardSunState<S>,
    after: ForwardSunState<S>,
    completion: SchedulerDelivery,
)
    requires
        window_equipped(before),
        pipeline_advanced(before, after, completion),
        after.runtime.pipeline_completions != after.runtime.pipeline_target_completions,
    ensures
        window_equipped(after),
{
    assert(after.topology.outgoing_edges() == before.topology.outgoing_edges());
}

/// The completion that ends a window moves every port on to the mailbox where
/// the next window begins.
pub proof fn law_window_end_rotates_inboxes<S>(
    before: ForwardSunState<S>,
    after: ForwardSunState<S>,
    completion: SchedulerDelivery,
)
    requires
        window_equipped(before),
        pipeline_advanced(before, after, completion),
        after.runtime.pipeline_completions == after.runtime.pipeline_target_completions,
    ensures
        after.runtime.inputs@ == before.runtime.next_inputs@,
        after.runtime.inputs@.dom() == after.topology.port_vertices@.dom(),
{
}

/// As many outputs are at hand as the sink has completed artifacts.
pub open spec fn outputs_in_step<S>(state: ForwardSunState<S>) -> bool {
    state.runtime.sink_id matches Some(sink) && state.runtime.completed_outputs@.len() == count_at(
        state.runtime.node_completed@,
        sink,
    )
}

/// A window that starts without outputs starts in step.
pub proof fn law_prepared_window_is_in_step<S>(
    before: ForwardSunState<S>,
    after: ForwardSunState<S>,
    fresh: PipelineMailboxes,
)
    requires
        preparable(before),
        before.runtime.completed_outputs@.len() == 0,
        pipeline_prepared(before, after, fresh),
    ensures
        outputs_in_step(after),
{
}

/// Every completion keeps the outputs in step: what the sink completed last is
/// the newest output, so outputs come in the order of the inputs.
pub proof fn law_outputs_come_in_order<S>(
    before: ForwardSunState<S>,
    after: ForwardSunState<S>,
    completion: SchedulerDelivery,
)
    requires
        pipeline_holds(before),
        outputs_in_step(before),
        pipeline_ready(before).contains(completion.node_id),
        pipeline_advanced(before, after, completion),
    ensures
        outputs_in_step(after),
        before.runtime.sink_id == Some(completion.node_id) ==> {
            let artifact = next_task(before.runtime, completion.node_id)->0;
            &&& after.runtime.completed_outputs@.len() == artifact + 1
            &&& after.runtime.completed_outputs@[artifact as int] == completion.delivery
        },
        before.runtime.sink_id != Some(completion.node_id) ==> after.runtime.completed_outputs@
            == before.runtime.completed_outputs@,
{
    assert(task_ready(before, completion.node_id));
    assert(before.runtime.node_completed@.contains_key(completion.node_id));
    assert(before.runtime.pipeline_inputs.len() == before.runtime.pipeline_inputs@.len());
}

/// A window with every completion counted has one output for every input.
pub proof fn law_finished_window_is_complete<S>(state: ForwardSunState<S>)
    requires
        pipeline_holds(state),
        outputs_in_step(state),
        state.topology.vertices().contains(state.runtime.sink_id->0),
        state.runtime.pipeline_completions == state.runtime.pipeline_target_completions,
    ensures
        state.runtime.completed_outputs@.len() == state.runtime.pipeline_inputs@.len(),
{
    let count = state.runtime.pipeline_inputs@.len();
    let vertices = state.topology.vertices();
    let sink = state.runtime.sink_id->0;
    lemma_ascending_lists(vertices);
    let order = ascending(vertices);
    assert(order.to_set().contains(sink));
    assert forall|i: int| #![trigger order[i]] 0 <= i < order.len() implies count_at(
        state.runtime.node_completed@,
        order[i],
    ) <= count by {
        assert(order.to_set().contains(order[i]));
        assert(state.runtime.node_completed@.contains_key(order[i]));
    }
    lemma_total_bound(state.runtime.node_completed@, order, count);
    let at = choose|i: int| 0 <= i < order.len() && order[i] == sink;
    assert(count_at(state.runtime.node_completed@, order[at]) == count);
}

/// Sending roots their artifacts takes no mailbox away.
pub proof fn law_sends_keep_window_equipped<S>(
    before: ForwardSunState<S>,
    after: ForwardSunState<S>,
    sent: Seq<u32>,
)
    requires
        window_equipped(before),
        after.runtime == (ForwardRuntime { root_sent: after.runtime.root_sent, ..before.runtime }),
        started_recorded(before.topology, after.topology, sent),
    ensures
        window_equipped(after),
{
    assert(after.topology.outgoing_edges() == before.topology.outgoing_edges());
}

} // verus!
