//! What the actions of a serving Sun do for an artifact on its way, from one
//! action to the next.

use std::collections::HashMap;

use vstd::prelude::*;

use crate::compile::action::{FinalizeForwardGraph, FinalizeNeutralGraph};
use crate::error::AtomError;
use crate::failure::Failure;
use crate::forward::effect::{
    AddressedDelivery, RootArtifactDeliverySend, SchedulerDelivery,
    SendReadyRootArtifactDeliveriesEffect, SendRootArtifactDeliveryEffect,
    SendRootArtifactDeliveryInput, WaitForNodeArtifactDeliveryEffect,
    WaitForNodeArtifactDeliveryInput,
};
use crate::forward::pass::{
    CompleteForwardPass, PrepareForwardPass, ProcessForwardNode, SendForwardRoots,
};
use crate::forward::pipeline::{
    pipeline_ready, ready_addressable, roots_addressable, BeginForwardPipeline,
    ProcessReadyForwardPipelineNode, SendReadyForwardRoots, StoreForwardPipelineInput,
    TakeForwardPipelineOutput,
};
use crate::forward::routing::{
    goes_to, law_completion_moves_one_node_on, law_every_edge_is_forwarded_along, law_every_root_port_is_sent_to,
    law_forwarded_deliveries_are_wired, law_root_deliveries_are_wired,
    law_scheduler_waits_where_nodes_publish, law_sent_artifacts_are_counted,
    law_window_outputs_follow_edges,
    law_window_roots_are_sent_nothing_else, law_window_roots_are_sent_what_is_due, reachable, wired,
    wired_in_window,
};
use crate::forward::{ForwardSunState, NeutralSunState};
use crate::ids::ObjectId;
use crate::message::ArtifactDelivery;
use crate::topology::frontier::{count_at, roots};
use crate::topology::graph::{list_at, lists};
use crate::topology::laws::{
    frontier_holds, law_advance_keeps_frontier, law_ready_may_advance, resolved,
};
use crate::topology::validity::{law_exactly_valid_graphs_are_accepted, valid};

verus! {

broadcast use vstd::std_specs::hash::group_hash_axioms;

/// A typed graph is finalized for serving exactly when it is valid.
pub proof fn law_only_valid_graphs_serve<S>(
    state: &mut ForwardSunState<S>,
    result: Result<(), Failure>,
    neutral: &mut NeutralSunState<S>,
    outcome: Result<(), Failure>,
)
    requires
        mut_ref_current(state).topology.well_formed(),
        mut_ref_current(neutral).topology.well_formed(),
        call_ensures(
            FinalizeForwardGraph::absorb::<S>,
            (state, Ok::<(), AtomError>(())),
            result,
        ),
        call_ensures(
            FinalizeNeutralGraph::absorb::<S>,
            (neutral, Ok::<(), AtomError>(())),
            outcome,
        ),
    ensures
        result is Ok <==> valid(mut_ref_current(state).topology, true),
        outcome is Ok <==> valid(mut_ref_current(neutral).topology, true),
        result is Ok <==> mut_ref_future(state).topology.finalized,
        outcome is Ok <==> mut_ref_future(neutral).topology.finalized,
{
    law_exactly_valid_graphs_are_accepted(mut_ref_current(state).topology, true);
    law_exactly_valid_graphs_are_accepted(mut_ref_current(neutral).topology, true);
}

/// The artifact of a pass goes to every port of every root, and to nothing
/// else, each time wired to the mailboxes of the pass.
pub proof fn law_artifact_goes_to_the_roots<S>(
    state: &ForwardSunState<S>,
    artifact: ArtifactDelivery,
    emitted: (SendRootArtifactDeliveryInput, ArtifactDelivery),
    input: &SendRootArtifactDeliveryInput,
    planned: (Vec<AddressedDelivery>, Vec<u32>),
    i: int,
    node: u32,
    port: u32,
)
    requires
        call_ensures(SendForwardRoots::emit::<S>, (state, artifact), emitted),
        *input == emitted.0,
        call_ensures(SendRootArtifactDeliveryEffect::plan, (input,), planned),
    ensures
        emitted.1 == artifact,
        0 <= i < planned.0@.len() ==> {
            let sent = planned.0@[i];
            &&& wired(state.runtime, sent, artifact)
            &&& list_at(state.topology.incoming_edges(), sent.node_id).len() == 0
            &&& list_at(lists(state.topology.vertex_ports@), sent.node_id).contains(sent.port_id)
        },
        state.topology.vertex_ports@.contains_key(node)
            && state.topology.vertex_ports@[node]@.contains(port) && list_at(
            state.topology.incoming_edges(),
            node,
        ).len() == 0 && reachable(state.runtime, node, port) ==> exists|k: int|
            0 <= k < planned.0@.len() && goes_to(#[trigger] planned.0@[k], node, port),
{
    if 0 <= i < planned.0@.len() {
        law_root_deliveries_are_wired(*state, input.targets@, artifact, i);
    }
    if state.topology.vertex_ports@.contains_key(node)
        && state.topology.vertex_ports@[node]@.contains(port) && list_at(
        state.topology.incoming_edges(),
        node,
    ).len() == 0 && reachable(state.runtime, node, port) {
        let k = law_every_root_port_is_sent_to(*state, input.targets@, artifact, node, port);
        assert(goes_to(planned.0@[k], node, port));
    }
}

/// What a ready node publishes goes along its edges, and to nothing else, each
/// time wired to the mailboxes of the pass; and a ready node is awaited where
/// its deliveries told it to publish.
pub proof fn law_outputs_go_along_the_edges<S>(
    state: &ForwardSunState<S>,
    input: &WaitForNodeArtifactDeliveryInput,
    node: u32,
    published: ArtifactDelivery,
    forwarded: (Vec<AddressedDelivery>, SchedulerDelivery),
    i: int,
    edge: int,
    sent: AddressedDelivery,
    artifact: ArtifactDelivery,
)
    requires
        call_ensures(ProcessForwardNode::emit::<S>, (state,), *input),
        state.runtime.ready@.contains(node),
        state.runtime.ready@.finite(),
        call_ensures(
            WaitForNodeArtifactDeliveryEffect::forward,
            (input, node, published),
            forwarded,
        ),
        wired(state.runtime, sent, artifact),
        sent.node_id == node,
    ensures
        input.rx_endpoints@.contains((node, sent.delivery.send)),
        forwarded.1.node_id == node,
        forwarded.1.delivery == published,
        0 <= i < forwarded.0@.len() ==> wired(state.runtime, forwarded.0@[i], published),
        ({
            let edges = list_at(state.topology.outgoing_edges(), node);
            0 <= edge < edges.len() && reachable(
                state.runtime,
                edges[edge].vertex_id,
                edges[edge].port_id,
            ) ==> exists|k: int|
                0 <= k < forwarded.0@.len() && goes_to(
                    #[trigger] forwarded.0@[k],
                    edges[edge].vertex_id,
                    edges[edge].port_id,
                )
        }),
{
    law_scheduler_waits_where_nodes_publish(state.runtime, state.runtime.ready@, sent, artifact);
    assert(input.downstream@.dom().contains(node));
    assert(input.downstream@.contains_key(node));
    assert(lists(input.downstream@)[node] == input.downstream@[node]@);
    let edges = list_at(state.topology.outgoing_edges(), node);
    if 0 <= i < forwarded.0@.len() {
        let at = law_forwarded_deliveries_are_wired(*state, node, published, i);
    }
    if 0 <= edge < edges.len() && reachable(
        state.runtime,
        edges[edge].vertex_id,
        edges[edge].port_id,
    ) {
        let k = law_every_edge_is_forwarded_along(*state, node, published, edge);
        assert(goes_to(forwarded.0@[k], edges[edge].vertex_id, edges[edge].port_id));
    }
}

/// A completed pass leaves every port listening where the deliveries of the
/// pass told it to, and hands the output on.
pub proof fn law_next_request_comes_where_told<S>(
    state: &mut ForwardSunState<S>,
    output: ArtifactDelivery,
    result: Result<ArtifactDelivery, Failure>,
    sent: AddressedDelivery,
    artifact: ArtifactDelivery,
)
    requires
        wired(mut_ref_current(state).runtime, sent, artifact),
        call_ensures(
            CompleteForwardPass::absorb::<S>,
            (state, Ok::<(), AtomError>(()), output),
            result,
        ),
    ensures
        result == Ok::<ArtifactDelivery, Failure>(output),
        mut_ref_future(state).runtime.inputs@.contains_key(sent.port_id),
        mut_ref_future(state).runtime.inputs@[sent.port_id] == sent.delivery.recv,
        mut_ref_future(state).topology == mut_ref_current(state).topology,
{
}

/// A pass takes the mailboxes it was given and hands its artifact on.
pub proof fn law_pass_carries_its_artifact<S>(
    state: &mut ForwardSunState<S>,
    artifact: ArtifactDelivery,
    next_inputs: HashMap<u32, ObjectId>,
    outputs: HashMap<u32, ObjectId>,
    prepared: Result<ArtifactDelivery, Failure>,
    sending: &mut ForwardSunState<S>,
    sent: Vec<u32>,
    carried: Result<ArtifactDelivery, Failure>,
)
    requires
        call_ensures(
            PrepareForwardPass::absorb_with::<S>,
            (state, Ok::<(), AtomError>(()), artifact, next_inputs, outputs),
            prepared,
        ),
        call_ensures(
            SendForwardRoots::absorb::<S>,
            (sending, Ok::<Vec<u32>, AtomError>(sent), artifact),
            carried,
        ),
    ensures
        prepared == Ok::<ArtifactDelivery, Failure>(artifact),
        mut_ref_future(state).runtime.inputs == mut_ref_current(state).runtime.inputs,
        mut_ref_future(state).runtime.next_inputs == next_inputs,
        mut_ref_future(state).runtime.outputs == outputs,
        carried == Ok::<ArtifactDelivery, Failure>(artifact),
        mut_ref_future(sending).runtime == mut_ref_current(sending).runtime,
{
}

/// A window holds the artifacts it was given in order, at most as many as it
/// may, and gives its outputs back oldest first.
pub proof fn law_window_is_first_in_first_out<S, const N: usize>(
    state: &mut ForwardSunState<S>,
    begun: Result<(), Failure>,
    storing: &mut ForwardSunState<S>,
    artifact: ArtifactDelivery,
    stored: Result<(), Failure>,
    taking: &mut ForwardSunState<S>,
    before: &ForwardSunState<S>,
    oldest: ArtifactDelivery,
    taken: Result<ArtifactDelivery, Failure>,
)
    requires
        call_ensures(
            BeginForwardPipeline::<N>::absorb::<S>,
            (state, Ok::<(), AtomError>(())),
            begun,
        ),
        call_ensures(
            StoreForwardPipelineInput::absorb::<S>,
            (storing, Ok::<(), AtomError>(()), artifact),
            stored,
        ),
        *before == mut_ref_current(taking),
        before.runtime.completed_outputs@.len() > 0,
        call_ensures(TakeForwardPipelineOutput::emit::<S>, (before,), oldest),
        call_ensures(
            TakeForwardPipelineOutput::absorb::<S>,
            (taking, Ok::<(), AtomError>(()), oldest),
            taken,
        ),
    ensures
        begun is Ok,
        mut_ref_future(state).runtime.pipeline_inputs@.len() == 0,
        mut_ref_future(state).runtime.completed_outputs@.len() == 0,
        mut_ref_future(state).runtime.pipeline_window == if N > 1 {
            N
        } else {
            1
        },
        mut_ref_future(state).runtime.inputs == mut_ref_current(state).runtime.inputs,
        stored is Ok,
        mut_ref_future(storing).runtime.pipeline_inputs@ == mut_ref_current(
            storing,
        ).runtime.pipeline_inputs@.push(artifact),
        mut_ref_future(storing).runtime.inputs == mut_ref_current(storing).runtime.inputs,
        oldest == before.runtime.completed_outputs@[0],
        taken == Ok::<ArtifactDelivery, Failure>(oldest),
        mut_ref_future(taking).runtime.completed_outputs@.len() + 1
            == before.runtime.completed_outputs@.len(),
        forall|k: int|
            0 <= k < before.runtime.completed_outputs@.len() - 1
                ==> (#[trigger] mut_ref_future(taking).runtime.completed_outputs@[k])
                == before.runtime.completed_outputs@[k + 1],
{
}

/// In a window every root is sent its next artifact at each port as soon as it
/// has completed what it was sent, and nothing else.
pub proof fn law_window_artifacts_go_to_the_roots<S>(
    state: &ForwardSunState<S>,
    sends: &Vec<RootArtifactDeliverySend>,
    planned: (Vec<AddressedDelivery>, Vec<u32>),
    root: u32,
    port: u32,
    i: int,
)
    requires
        roots_addressable(*state),
        roots(state.topology).finite(),
        call_ensures(SendReadyForwardRoots::emit::<S>, (state,), *sends),
        call_ensures(SendReadyRootArtifactDeliveriesEffect::plan, (sends,), planned),
    ensures
        ({
            let done = count_at(state.runtime.node_completed@, root);
            roots(state.topology).contains(root) && state.topology.vertex_ports@.contains_key(root)
                && state.topology.vertex_ports@[root]@.contains(port) && done
                < state.runtime.pipeline_inputs@.len() && count_at(state.runtime.root_sent@, root)
                <= done ==> exists|k: int| {
                &&& 0 <= k < planned.0@.len()
                &&& (#[trigger] planned.0@[k]).port_id == port
                &&& wired_in_window(
                    *state,
                    planned.0@[k],
                    done as int,
                    state.runtime.pipeline_inputs@[done as int],
                )
            }
        }),
        0 <= i < planned.0@.len() ==> exists|from: u32| {
            &&& #[trigger] roots(state.topology).contains(from)
            &&& wired_in_window(
                *state,
                planned.0@[i],
                count_at(state.runtime.node_completed@, from) as int,
                state.runtime.pipeline_inputs@[count_at(
                    state.runtime.node_completed@,
                    from,
                ) as int],
            )
        },
{
    let done = count_at(state.runtime.node_completed@, root);
    if roots(state.topology).contains(root) && state.topology.vertex_ports@.contains_key(root)
        && state.topology.vertex_ports@[root]@.contains(port) && done
        < state.runtime.pipeline_inputs@.len() && count_at(state.runtime.root_sent@, root) <= done {
        law_window_roots_are_sent_what_is_due(*state, root, port);
        let k = choose|k: int| {
            &&& 0 <= k < sends@.len()
            &&& goes_to(
                #[trigger] crate::forward::effect::send_deliveries(sends@)[k],
                state.topology.port_vertices@[port],
                port,
            )
            &&& wired_in_window(
                *state,
                crate::forward::effect::send_deliveries(sends@)[k],
                done as int,
                state.runtime.pipeline_inputs@[done as int],
            )
        };
        assert(planned.0@[k].port_id == port);
    }
    if 0 <= i < planned.0@.len() {
        let from = law_window_roots_are_sent_nothing_else(*state, i);
        assert(roots(state.topology).contains(from));
    }
}

/// In a window what a ready node publishes goes along each of its edges within
/// the artifact it was published for.
pub proof fn law_window_outputs_go_along_the_edges<S>(
    state: &ForwardSunState<S>,
    input: &WaitForNodeArtifactDeliveryInput,
    node: u32,
    published: ArtifactDelivery,
    forwarded: (Vec<AddressedDelivery>, SchedulerDelivery),
    edge: int,
)
    requires
        ready_addressable(*state),
        call_ensures(ProcessReadyForwardPipelineNode::emit::<S>, (state,), *input),
        pipeline_ready(*state).contains(node),
        call_ensures(
            WaitForNodeArtifactDeliveryEffect::forward,
            (input, node, published),
            forwarded,
        ),
        0 <= edge < list_at(state.topology.outgoing_edges(), node).len(),
    ensures
        forwarded.0@.len() == list_at(state.topology.outgoing_edges(), node).len(),
        forwarded.0@[edge].port_id == list_at(state.topology.outgoing_edges(), node)[edge].port_id,
        wired_in_window(
            *state,
            forwarded.0@[edge],
            count_at(state.runtime.node_completed@, node) as int,
            published,
        ),
        forwarded.1.node_id == node,
        forwarded.1.delivery == published,
{
    assert(input.downstream@.dom().contains(node));
    assert(input.downstream@.contains_key(node));
    assert(lists(input.downstream@)[node] == input.downstream@[node]@);
    law_window_outputs_follow_edges(*state, node, published, edge);
}

/// A completion of a ready node is accepted, handed on as it was published, and
/// keeps the pass in order.
pub proof fn law_passes_stay_in_order<S>(
    state: &mut ForwardSunState<S>,
    completion: SchedulerDelivery,
    result: Result<ArtifactDelivery, Failure>,
    done: Set<u32>,
)
    requires
        resolved(mut_ref_current(state).topology),
        frontier_holds(
            mut_ref_current(state).topology,
            done,
            mut_ref_current(state).runtime.pending@,
            mut_ref_current(state).runtime.ready@,
        ),
        mut_ref_current(state).runtime.ready@.contains(completion.node_id),
        call_ensures(
            ProcessForwardNode::absorb::<S>,
            (state, Ok::<SchedulerDelivery, AtomError>(completion)),
            result,
        ),
    ensures
        result == Ok::<ArtifactDelivery, Failure>(completion.delivery),
        frontier_holds(
            mut_ref_current(state).topology,
            done.insert(completion.node_id),
            mut_ref_future(state).runtime.pending@,
            mut_ref_future(state).runtime.ready@,
        ),
        mut_ref_future(state).runtime.inputs == mut_ref_current(state).runtime.inputs,
        mut_ref_future(state).runtime.next_inputs == mut_ref_current(state).runtime.next_inputs,
        mut_ref_future(state).runtime.outputs == mut_ref_current(state).runtime.outputs,
{
    let here = mut_ref_current(state).topology;
    let node = completion.node_id;
    let pending = mut_ref_current(state).runtime.pending@;
    let ready = mut_ref_current(state).runtime.ready@;
    law_ready_may_advance(here, done, pending, ready, node);
    assert(pending.dom().contains(node));
    assert(here.vertices().contains(node));
    assert(here.outgoing_edges().dom().contains(node));
    assert(here.outgoing_edges()[node] == list_at(here.outgoing_edges(), node));
    law_advance_keeps_frontier(
        here,
        done,
        pending,
        ready,
        node,
        mut_ref_future(state).runtime.pending@,
        mut_ref_future(state).runtime.ready@,
    );
}

/// In a window a completion is taken in exactly while its node has an artifact
/// left, moves that node on by one, and is kept if it comes from the sink; and a
/// root counts each artifact it is sent.
pub proof fn law_window_completions_are_taken_in<S>(
    state: &mut ForwardSunState<S>,
    completion: SchedulerDelivery,
    result: Result<(), Failure>,
    other: u32,
    sending: &mut ForwardSunState<S>,
    sent: Vec<u32>,
    counted: Result<(), Failure>,
    root: u32,
)
    requires
        call_ensures(
            ProcessReadyForwardPipelineNode::absorb::<S>,
            (state, Ok::<SchedulerDelivery, AtomError>(completion)),
            result,
        ),
        mut_ref_current(state).runtime.pipeline_completions < usize::MAX,
        other != completion.node_id,
        call_ensures(
            SendReadyForwardRoots::absorb::<S>,
            (sending, Ok::<Vec<u32>, AtomError>(sent)),
            counted,
        ),
        sent@.no_duplicates(),
        count_at(mut_ref_current(sending).runtime.root_sent@, root) < usize::MAX,
    ensures
        ({
            let before = mut_ref_current(state).runtime;
            let after = mut_ref_future(state).runtime;
            let node = completion.node_id;
            &&& result is Ok <==> before.node_completed@.contains_key(node)
                && before.node_completed@[node] < before.pipeline_inputs@.len()
            &&& result is Ok ==> after.node_completed@[node] == before.node_completed@[node] + 1
            &&& result is Ok ==> count_at(after.node_completed@, other) == count_at(
                before.node_completed@,
                other,
            )
            &&& result is Ok && before.sink_id == Some(node) ==> after.completed_outputs@
                == before.completed_outputs@.push(completion.delivery)
            &&& result is Err ==> mut_ref_future(state) == mut_ref_current(state)
        }),
        counted is Ok,
        count_at(mut_ref_future(sending).runtime.root_sent@, root) == count_at(
            mut_ref_current(sending).runtime.root_sent@,
            root,
        ) + if sent@.contains(root) {
            1int
        } else {
            0
        },
{
    let before = mut_ref_current(state);
    let after = mut_ref_future(state);
    assert(before.runtime.pipeline_inputs.len() == before.runtime.pipeline_inputs@.len());
    if result is Ok {
        law_completion_moves_one_node_on(before, after, completion, other);
    }
    law_sent_artifacts_are_counted(
        mut_ref_current(sending).runtime,
        mut_ref_future(sending).runtime,
        sent@,
        root,
    );
}

} // verus!
