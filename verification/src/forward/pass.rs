//! One dependency-aware pass of an artifact through the graph.

use std::collections::HashMap;

use vstd::prelude::*;

use crate::collections::{ascending, lemma_take_next};
use crate::error::AtomError;
use crate::failure::{refused, refused_by, says, Failure};
use crate::forward::effect::{
    SchedulerDelivery, SendRootArtifactDeliveryInput, WaitForNodeArtifactDeliveryInput,
};
use crate::forward::{ForwardRuntime, ForwardSunState};
use crate::ids::ObjectId;
use crate::mailbox::{all_random, fresh_mailboxes};
use crate::message::ArtifactDelivery;
use crate::topology::frontier::{
    advance_frontier, advanced, explains_refusal, initial_ready_nodes, may_advance,
    pending_dependency_counts, port_ids, ready_of, sorted_node_ids, vertex_ids,
};
use crate::topology::graph::list_at;
use crate::topology::observe::{
    all_annotated, all_set, completion_recorded, progress_reset, sequence_at, sequences_fit,
};
use crate::topology::targets::{
    collect_root_targets, lookup_target, root_targets_of, somes, sorted_targets, target_at,
    PassMailboxes,
};
use crate::topology::{PortTarget, PropagationTarget, SunOperationalState, SunTopology};

verus! {

broadcast use vstd::std_specs::hash::group_hash_axioms;

/// The mailboxes of the current forward pass.
pub open spec fn pass_mailboxes<S>(runtime: ForwardRuntime<S>) -> PassMailboxes {
    PassMailboxes {
        inputs: runtime.inputs@,
        next_inputs: runtime.next_inputs@,
        outputs: runtime.outputs@,
    }
}

/// Initializes one dependency-aware forward pass: a fresh frontier, fresh
/// mailboxes, and every node queued.
pub struct PrepareForwardPass;

/// A pass has been prepared with the given mailboxes.
pub open spec fn pass_prepared<S>(
    before: ForwardSunState<S>,
    after: ForwardSunState<S>,
    next_inputs: HashMap<u32, ObjectId>,
    outputs: HashMap<u32, ObjectId>,
) -> bool {
    &&& after.runtime == (ForwardRuntime {
        pending: after.runtime.pending,
        ready: after.runtime.ready,
        next_inputs,
        outputs,
        ..before.runtime
    })
    &&& after.runtime.pending@.dom() == before.topology.vertices()
    &&& forall|id: u32| #[trigger]
        after.runtime.pending@.contains_key(id) ==> after.runtime.pending@[id] == list_at(
            before.topology.incoming_edges(),
            id,
        ).len()
    &&& after.runtime.ready@ == ready_of(after.runtime.pending@)
    &&& progress_reset(before.topology, after.topology)
}

impl PrepareForwardPass {
    /// Prepares a pass with the given mailboxes.
    pub fn absorb_with<S>(
        state: &mut ForwardSunState<S>,
        output: Result<(), AtomError>,
        carry: ArtifactDelivery,
        next_inputs: HashMap<u32, ObjectId>,
        outputs: HashMap<u32, ObjectId>,
    ) -> (result: Result<ArtifactDelivery, Failure>)
        ensures
            result is Ok <==> output is Ok,
            result matches Ok(delivery) ==> {
                &&& delivery == carry
                &&& pass_prepared(*old(state), *final(state), next_inputs, outputs)
            },
            result matches Err(failure) ==> {
                &&& says(failure, "prepare forward pass failed"@)
                &&& *final(state) == *old(state)
            },
    {
        if output.is_err() {
            return Err(refused("prepare forward pass failed"));
        }
        let pending = pending_dependency_counts(&state.topology);
        let ready = initial_ready_nodes(&pending);
        state.runtime.next_inputs = next_inputs;
        state.runtime.outputs = outputs;
        state.topology.reset_progress();
        state.runtime.pending = pending;
        state.runtime.ready = ready;
        Ok(carry)
    }

    /// Prepares a pass with random mailboxes, one per port and one per node.
    pub fn absorb<S>(
        state: &mut ForwardSunState<S>,
        output: Result<(), AtomError>,
        carry: ArtifactDelivery,
    ) -> (result: Result<ArtifactDelivery, Failure>)
        ensures
            result is Ok <==> output is Ok,
            result matches Ok(delivery) ==> {
                &&& delivery == carry
                &&& pass_prepared(
                    *old(state),
                    *final(state),
                    final(state).runtime.next_inputs,
                    final(state).runtime.outputs,
                )
                &&& final(state).runtime.next_inputs@.dom() == old(
                    state,
                ).topology.port_vertices@.dom()
                &&& final(state).runtime.outputs@.dom() == old(state).topology.vertices()
                &&& all_random(final(state).runtime.next_inputs@)
                &&& all_random(final(state).runtime.outputs@)
            },
            result matches Err(failure) ==> {
                &&& says(failure, "prepare forward pass failed"@)
                &&& *final(state) == *old(state)
            },
    {
        let ports = port_ids(&state.topology);
        let nodes = vertex_ids(&state.topology);
        let next_inputs = fresh_mailboxes(&ports);
        let outputs = fresh_mailboxes(&nodes);
        PrepareForwardPass::absorb_with(state, output, carry, next_inputs, outputs)
    }
}

/// Sends the input artifact to every root of a forward pass.
pub struct SendForwardRoots;

impl SendForwardRoots {
    /// The artifact and the root ports it goes to.
    pub fn emit<S>(state: &ForwardSunState<S>, input: ArtifactDelivery) -> (emitted: (
        SendRootArtifactDeliveryInput,
        ArtifactDelivery,
    ))
        ensures
            emitted.0.delivery == input,
            emitted.1 == input,
            sorted_targets(
                root_targets_of(state.topology, pass_mailboxes(state.runtime), false),
                emitted.0.targets@,
            ),
    {
        let targets = collect_root_targets(
            &state.topology,
            &state.runtime.inputs,
            &state.runtime.next_inputs,
            &state.runtime.outputs,
            false,
        );
        (SendRootArtifactDeliveryInput { targets, delivery: input }, input)
    }

    /// Records the roots that were reached.
    pub fn absorb<S>(
        state: &mut ForwardSunState<S>,
        output: Result<Vec<u32>, AtomError>,
        carry: ArtifactDelivery,
    ) -> (result: Result<ArtifactDelivery, Failure>)
        requires
            output matches Ok(sent) ==> sequences_fit(
                old(state).topology.node_state_sequences@,
                sent@,
            ),
        ensures
            final(state).runtime == old(state).runtime,
            match output {
                Ok(sent) => {
                    &&& result matches Ok(delivery) && delivery == carry
                    &&& started_recorded(old(state).topology, final(state).topology, sent@)
                },
                Err(error) => {
                    &&& result matches Err(failure) && says(
                        failure,
                        "send forward roots failed: "@ + error.text(),
                    )
                    &&& final(state).topology == old(state).topology
                },
            },
    {
        match output {
            Ok(sent) => {
                state.topology.record_forward_started(&sent);
                Ok(carry)
            },
            Err(error) => Err(refused_by("send forward roots failed: ", &error)),
        }
    }
}

/// The nodes of `sent` were reached by a forward pass.
pub open spec fn started_recorded(before: SunTopology, after: SunTopology, sent: Seq<u32>) -> bool {
    &&& after == (SunTopology {
        node_operational_states: after.node_operational_states,
        node_phase_annotations: after.node_phase_annotations,
        node_state_sequences: after.node_state_sequences,
        ..before
    })
    &&& all_set(
        before.node_operational_states@,
        after.node_operational_states@,
        sent,
        SunOperationalState::Running,
    )
    &&& all_annotated(
        before.node_phase_annotations@,
        after.node_phase_annotations@,
        sent,
        "forward"@,
    )
    &&& forall|id: u32| #[trigger]
        after.node_state_sequences@.contains_key(id)
            <==> before.node_state_sequences@.contains_key(id) || sent.contains(id)
    &&& forall|id: u32|
        #![trigger sequence_at(after.node_state_sequences@, id)]
        sequence_at(after.node_state_sequences@, id) == sequence_at(
            before.node_state_sequences@,
            id,
        ) + crate::topology::graph::occurrences(sent, id)
}

/// The output mailbox of each listed node that has one.
pub open spec fn endpoints_of(outputs: Map<u32, ObjectId>, nodes: Seq<u32>) -> Seq<
    (u32, ObjectId),
> {
    somes(
        nodes.map_values(
            |node: u32|
                if outputs.contains_key(node) {
                    Some((node, outputs[node]))
                } else {
                    None
                },
        ),
    )
}

/// Collects the output mailbox of each listed node that has one.
pub fn collect_endpoints(outputs: &HashMap<u32, ObjectId>, nodes: &Vec<u32>) -> (endpoints: Vec<
    (u32, ObjectId),
>)
    ensures
        endpoints@ == endpoints_of(outputs@, nodes@),
{
    let ghost found = nodes@.map_values(
        |node: u32|
            if outputs@.contains_key(node) {
                Some((node, outputs@[node]))
            } else {
                None
            },
    );
    let mut endpoints: Vec<(u32, ObjectId)> = Vec::new();
    let mut i: usize = 0;
    assert(found.take(0) =~= Seq::empty());
    while i < nodes.len()
        invariant
            i <= nodes.len(),
            found == nodes@.map_values(
                |node: u32|
                    if outputs@.contains_key(node) {
                        Some((node, outputs@[node]))
                    } else {
                        None
                    },
            ),
            endpoints@ == somes(found.take(i as int)),
        decreases nodes.len() - i,
    {
        let node = nodes[i];
        proof {
            lemma_take_next(found, i as int);
        }
        match outputs.get(&node) {
            Some(output) => {
                endpoints.push((node, *output));
            },
            None => {},
        }
        i = i + 1;
    }
    assert(found.take(i as int) =~= found);
    endpoints
}

/// The targets of the resolved edges whose mailboxes are known.
pub open spec fn edge_targets(boxes: PassMailboxes, edges: Seq<PortTarget>) -> Seq<
    PropagationTarget,
> {
    somes(edges.map_values(|edge: PortTarget| target_at(boxes, edge.vertex_id, edge.port_id)))
}

fn collect_edge_targets<S>(state: &ForwardSunState<S>, node: u32) -> (targets: Vec<
    PropagationTarget,
>)
    ensures
        targets@ == edge_targets(
            pass_mailboxes(state.runtime),
            list_at(state.topology.outgoing_edges(), node),
        ),
{
    let ghost boxes = pass_mailboxes(state.runtime);
    let ghost edges = list_at(state.topology.outgoing_edges(), node);
    let ghost found = edges.map_values(
        |edge: PortTarget| target_at(boxes, edge.vertex_id, edge.port_id),
    );
    let mut targets: Vec<PropagationTarget> = Vec::new();
    assert(found.take(0) =~= Seq::empty());
    match state.topology.outgoing.get(&node) {
        Some(list) => {
            assert(edges == list@);
            let mut i: usize = 0;
            while i < list.len()
                invariant
                    i <= list.len(),
                    boxes == pass_mailboxes(state.runtime),
                    found == list@.map_values(
                        |edge: PortTarget| target_at(boxes, edge.vertex_id, edge.port_id),
                    ),
                    targets@ == somes(found.take(i as int)),
                decreases list.len() - i,
            {
                proof {
                    lemma_take_next(found, i as int);
                }
                match lookup_target(
                    &state.runtime.inputs,
                    &state.runtime.next_inputs,
                    &state.runtime.outputs,
                    list[i].vertex_id,
                    list[i].port_id,
                ) {
                    Some(target) => {
                        targets.push(target);
                    },
                    None => {},
                }
                i = i + 1;
            }
            assert(found.take(i as int) =~= found);
        },
        None => {
            assert(found =~= Seq::empty());
        },
    }
    targets
}

/// Waits for one ready node, forwards its output, and advances the frontier.
pub struct ProcessForwardNode;

impl ProcessForwardNode {
    /// Where the ready nodes publish, and where each forwards to.
    pub fn emit<S>(state: &ForwardSunState<S>) -> (input: WaitForNodeArtifactDeliveryInput)
        ensures
            input.rx_endpoints@ == endpoints_of(
                state.runtime.outputs@,
                ascending(state.runtime.ready@),
            ),
            input.downstream@.dom() == state.runtime.ready@,
            forall|node: u32| #[trigger]
                input.downstream@.contains_key(node) ==> input.downstream@[node]@ == edge_targets(
                    pass_mailboxes(state.runtime),
                    list_at(state.topology.outgoing_edges(), node),
                ),
    {
        let ready = sorted_node_ids(&state.runtime.ready);
        let rx_endpoints = collect_endpoints(&state.runtime.outputs, &ready);
        let mut downstream: HashMap<u32, Vec<PropagationTarget>> = HashMap::new();
        let mut i: usize = 0;
        assert(ready@.take(0).to_set() =~= Set::empty());
        while i < ready.len()
            invariant
                i <= ready.len(),
                downstream@.dom() == ready@.take(i as int).to_set(),
                forall|node: u32| #[trigger]
                    downstream@.contains_key(node) ==> downstream@[node]@ == edge_targets(
                        pass_mailboxes(state.runtime),
                        list_at(state.topology.outgoing_edges(), node),
                    ),
            decreases ready.len() - i,
        {
            proof {
                lemma_take_next(ready@, i as int);
            }
            downstream.insert(ready[i], collect_edge_targets(state, ready[i]));
            i = i + 1;
        }
        assert(ready@.take(i as int) =~= ready@);
        WaitForNodeArtifactDeliveryInput::new(rx_endpoints, downstream)
    }

    /// Advances the frontier past the node that completed. A completion that
    /// the frontier refuses leaves the pass as it was.
    pub fn absorb<S>(
        state: &mut ForwardSunState<S>,
        output: Result<SchedulerDelivery, AtomError>,
    ) -> (result: Result<ArtifactDelivery, Failure>)
        requires
            output matches Ok(completion) ==> sequences_fit(
                old(state).topology.node_state_sequences@,
                completion.sent_node_ids@,
            ),
        ensures
            final(state).runtime == (ForwardRuntime {
                pending: final(state).runtime.pending,
                ready: final(state).runtime.ready,
                ..old(state).runtime
            }),
            match output {
                Ok(completion) => {
                    let edges = list_at(
                        old(state).topology.outgoing_edges(),
                        completion.node_id,
                    );
                    &&& result is Ok <==> may_advance(
                        old(state).runtime.pending@,
                        old(state).runtime.ready@,
                        completion.node_id,
                        edges,
                    )
                    &&& result matches Ok(delivery) ==> {
                        &&& delivery == completion.delivery
                        &&& advanced(
                            old(state).runtime.pending@,
                            old(state).runtime.ready@,
                            completion.node_id,
                            edges,
                            final(state).runtime.pending@,
                            final(state).runtime.ready@,
                        )
                        &&& completion_recorded(
                            old(state).topology,
                            final(state).topology,
                            completion.node_id,
                            completion.sent_node_ids@,
                        )
                    }
                    &&& result matches Err(failure) ==> {
                        &&& explains_refusal(
                            old(state).runtime.pending@,
                            old(state).runtime.ready@,
                            completion.node_id,
                            edges,
                            failure,
                        )
                        &&& final(state).runtime.pending@ == old(state).runtime.pending@
                        &&& final(state).runtime.ready@ == old(state).runtime.ready@
                        &&& final(state).topology == old(state).topology
                    }
                },
                Err(error) => {
                    &&& result matches Err(failure) && says(
                        failure,
                        "process forward node failed: "@ + error.text(),
                    )
                    &&& *final(state) == *old(state)
                },
            },
    {
        let completion = match output {
            Ok(completion) => completion,
            Err(error) => {
                return Err(refused_by("process forward node failed: ", &error));
            },
        };
        let none: Vec<PortTarget> = Vec::new();
        let outgoing = match state.topology.outgoing.get(&completion.node_id) {
            Some(list) => list,
            None => &none,
        };
        assert(outgoing@ =~= list_at(old(state).topology.outgoing_edges(), completion.node_id));
        match advance_frontier(
            &mut state.runtime.pending,
            &mut state.runtime.ready,
            completion.node_id,
            outgoing,
        ) {
            Ok(()) => {},
            Err(failure) => {
                return Err(failure);
            },
        }
        state.topology.record_completion(completion.node_id, &completion.sent_node_ids);
        Ok(completion.delivery)
    }
}

/// Rotates each node to the inbox provisioned for the next serving request.
pub struct CompleteForwardPass;

impl CompleteForwardPass {
    pub fn absorb<S>(
        state: &mut ForwardSunState<S>,
        output: Result<(), AtomError>,
        carry: ArtifactDelivery,
    ) -> (result: Result<ArtifactDelivery, Failure>)
        ensures
            final(state).topology == old(state).topology,
            result is Ok <==> output is Ok,
            result matches Ok(delivery) ==> {
                &&& delivery == carry
                &&& final(state).runtime.inputs == old(state).runtime.next_inputs
                &&& final(state).runtime.next_inputs@ == Map::<u32, ObjectId>::empty()
                &&& final(state).runtime.outputs@ == Map::<u32, ObjectId>::empty()
                &&& final(state).runtime == (ForwardRuntime {
                    inputs: final(state).runtime.inputs,
                    next_inputs: final(state).runtime.next_inputs,
                    outputs: final(state).runtime.outputs,
                    ..old(state).runtime
                })
            },
            result matches Err(failure) ==> {
                &&& says(failure, "complete forward pass failed"@)
                &&& *final(state) == *old(state)
            },
    {
        if output.is_err() {
            return Err(refused("complete forward pass failed"));
        }
        let mut rotated: HashMap<u32, ObjectId> = HashMap::new();
        std::mem::swap(&mut rotated, &mut state.runtime.next_inputs);
        state.runtime.inputs = rotated;
        state.runtime.outputs.clear();
        Ok(carry)
    }
}

/// Serving sink for callers that only need the artifact of the last node.
pub struct DiscardForwardOutput;

impl DiscardForwardOutput {
    pub fn absorb(output: Result<(), AtomError>) -> (result: Result<(), Failure>)
        ensures
            result is Ok <==> output is Ok,
            result matches Err(failure) ==> says(failure, "discard forward output failed"@),
    {
        if output.is_err() {
            return Err(refused("discard forward output failed"));
        }
        Ok(())
    }
}

} // verus!
