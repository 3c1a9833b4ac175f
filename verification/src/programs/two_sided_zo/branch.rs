//! One propagation branch: a pass over the graph in frontier order.

use std::collections::{HashMap, HashSet};

use vstd::prelude::*;

use crate::collections::{ascending, lemma_take_next};
use crate::error::AtomError;
use crate::failure::{refused_by, says, Failure};
use crate::forward::pass::{collect_endpoints, endpoints_of};
use crate::ids::ObjectId;
use crate::message::Transmission;
use crate::programs::two_sided_zo::effect::{
    NodeTransmission, SendRootPropagationInput, WaitForNodeTransmissionInput,
};
use crate::programs::two_sided_zo::phase::{
    book, clock, only_phases_changed, positions_fit, steps_in, with_propagation_completed,
    with_propagations_sent,
};
use crate::programs::two_sided_zo::{PropA, PropB, TwoSidedZoInner};
use crate::topology::frontier::{
    advance_frontier, advanced, explains_refusal, initial_ready_nodes, may_advance,
    pending_dependency_counts, ready_of, sorted_node_ids,
};
use crate::topology::graph::list_at;
use crate::topology::observe::sequence_at;
use crate::topology::targets::{
    collect_root_targets, lookup_owned_target, owned_target, root_targets_of, somes,
    sorted_targets, PassMailboxes,
};
use crate::topology::{PortTarget, PropagationTarget, SunNodeState, SunTopology};

verus! {

broadcast use vstd::std_specs::hash::group_hash_axioms;

/// A propagation branch: its phase, its mailboxes and its frontier.
pub trait PropagationState: Sized {
    /// Phase that nodes are shown in during this branch.
    spec fn spec_phase() -> SunNodeState;

    /// This branch's current input, next input, and output mailboxes.
    spec fn spec_mailboxes(inner: TwoSidedZoInner) -> PassMailboxes;

    /// Unfinished nodes with their unresolved incoming-edge counts.
    spec fn spec_pending(self) -> Map<u32, usize>;

    /// Nodes that are eligible to be processed now.
    spec fn spec_ready(self) -> Set<u32>;

    fn propagation_state() -> (phase: SunNodeState)
        ensures
            phase == Self::spec_phase(),
            phase == SunNodeState::Propagation1 || phase == SunNodeState::Propagation2,
    ;

    fn transmission_maps(inner: &TwoSidedZoInner) -> (maps: (
        &HashMap<u32, ObjectId>,
        &HashMap<u32, ObjectId>,
        &HashMap<u32, ObjectId>,
    ))
        ensures
            Self::spec_mailboxes(*inner) == (PassMailboxes {
                inputs: maps.0@,
                next_inputs: maps.1@,
                outputs: maps.2@,
            }),
    ;

    fn pending(&self) -> (pending: &HashMap<u32, usize>)
        ensures
            pending@ == self.spec_pending(),
    ;

    fn ready(&self) -> (ready: &HashSet<u32>)
        ensures
            ready@ == self.spec_ready(),
    ;

    fn scheduler_mut(&mut self) -> (scheduler: (&mut HashMap<u32, usize>, &mut HashSet<u32>))
        ensures
            scheduler.0@ == old(self).spec_pending(),
            scheduler.1@ == old(self).spec_ready(),
            final(self).spec_pending() == final(scheduler.0)@,
            final(self).spec_ready() == final(scheduler.1)@,
    ;
}

impl PropagationState for PropA {
    open spec fn spec_phase() -> SunNodeState {
        SunNodeState::Propagation1
    }

    /// Between microsteps a port listens at its next first-pass inbox, after
    /// the last one at its second-pass inbox.
    open spec fn spec_mailboxes(inner: TwoSidedZoInner) -> PassMailboxes {
        PassMailboxes {
            inputs: inner.p1_tx@,
            next_inputs: if inner.active_micro_step + 1 < steps_in(clock(inner)) {
                inner.next_p1_tx@
            } else {
                inner.p2_tx@
            },
            outputs: inner.p1_rx@,
        }
    }

    open spec fn spec_pending(self) -> Map<u32, usize> {
        self.pending@
    }

    open spec fn spec_ready(self) -> Set<u32> {
        self.ready@
    }

    fn propagation_state() -> (phase: SunNodeState) {
        SunNodeState::Propagation1
    }

    fn transmission_maps(inner: &TwoSidedZoInner) -> (maps: (
        &HashMap<u32, ObjectId>,
        &HashMap<u32, ObjectId>,
        &HashMap<u32, ObjectId>,
    )) {
        let steps = inner.steps();
        if inner.active_micro_step < steps - 1 {
            (&inner.p1_tx, &inner.next_p1_tx, &inner.p1_rx)
        } else {
            (&inner.p1_tx, &inner.p2_tx, &inner.p1_rx)
        }
    }

    fn pending(&self) -> (pending: &HashMap<u32, usize>) {
        &self.pending
    }

    fn ready(&self) -> (ready: &HashSet<u32>) {
        &self.ready
    }

    fn scheduler_mut(&mut self) -> (scheduler: (&mut HashMap<u32, usize>, &mut HashSet<u32>)) {
        (&mut self.pending, &mut self.ready)
    }
}

impl PropagationState for PropB {
    open spec fn spec_phase() -> SunNodeState {
        SunNodeState::Propagation2
    }

    /// Between microsteps a port listens at its next second-pass inbox, after
    /// the last one at its potentiation inbox.
    open spec fn spec_mailboxes(inner: TwoSidedZoInner) -> PassMailboxes {
        PassMailboxes {
            inputs: inner.p2_tx@,
            next_inputs: if inner.active_micro_step + 1 < steps_in(clock(inner)) {
                inner.next_p2_tx@
            } else {
                inner.po_tx@
            },
            outputs: inner.p2_rx@,
        }
    }

    open spec fn spec_pending(self) -> Map<u32, usize> {
        self.pending@
    }

    open spec fn spec_ready(self) -> Set<u32> {
        self.ready@
    }

    fn propagation_state() -> (phase: SunNodeState) {
        SunNodeState::Propagation2
    }

    fn transmission_maps(inner: &TwoSidedZoInner) -> (maps: (
        &HashMap<u32, ObjectId>,
        &HashMap<u32, ObjectId>,
        &HashMap<u32, ObjectId>,
    )) {
        let steps = inner.steps();
        if inner.active_micro_step < steps - 1 {
            (&inner.p2_tx, &inner.next_p2_tx, &inner.p2_rx)
        } else {
            (&inner.p2_tx, &inner.po_tx, &inner.p2_rx)
        }
    }

    fn pending(&self) -> (pending: &HashMap<u32, usize>) {
        &self.pending
    }

    fn ready(&self) -> (ready: &HashSet<u32>) {
        &self.ready
    }

    fn scheduler_mut(&mut self) -> (scheduler: (&mut HashMap<u32, usize>, &mut HashSet<u32>)) {
        (&mut self.pending, &mut self.ready)
    }
}

/// Whether a propagation branch has unfinished nodes.
pub struct PendingNotEmpty;

impl PendingNotEmpty {
    pub fn eval<B: PropagationState>(branch: &B) -> (pending: bool)
        ensures
            pending == (branch.spec_pending().dom().len() > 0),
    {
        !branch.pending().is_empty()
    }
}

/// Initializes one propagation pass with every node's unresolved predecessor
/// count. Nodes whose count is zero form the initial ready frontier.
pub struct InitializePropagation;

impl InitializePropagation {
    pub fn absorb<B: PropagationState>(
        branch: &mut B,
        topology: &SunTopology,
        carry: Transmission,
    ) -> (result: Result<Transmission, Failure>)
        ensures
            result == Ok::<_, Failure>(carry),
            final(branch).spec_pending().dom() == topology.vertices(),
            forall|id: u32| #[trigger]
                final(branch).spec_pending().contains_key(id) ==> final(branch).spec_pending()[id]
                    == list_at(topology.incoming_edges(), id).len(),
            final(branch).spec_ready() == ready_of(final(branch).spec_pending()),
    {
        let pending = pending_dependency_counts(topology);
        let ready = initial_ready_nodes(&pending);
        let (state_pending, state_ready) = branch.scheduler_mut();
        *state_pending = pending;
        *state_ready = ready;
        Ok(carry)
    }
}

/// Seeds every root before waiting for output.
pub struct SendRootPropagation;

impl SendRootPropagation {
    /// The propagation and the root ports it goes to.
    pub fn emit<B: PropagationState>(
        topology: &SunTopology,
        inner: &TwoSidedZoInner,
        input: Transmission,
    ) -> (emitted: (SendRootPropagationInput, Transmission))
        ensures
            emitted.0.transmission == input,
            emitted.1 == input,
            sorted_targets(
                root_targets_of(*topology, B::spec_mailboxes(*inner), true),
                emitted.0.targets@,
            ),
    {
        let (inputs, next_inputs, outputs) = B::transmission_maps(inner);
        let targets = collect_root_targets(topology, inputs, next_inputs, outputs, true);
        (SendRootPropagationInput { targets, transmission: input }, input)
    }

    /// Records the roots that were reached.
    pub fn absorb<B: PropagationState>(
        topology: &mut SunTopology,
        inner: &mut TwoSidedZoInner,
        output: Result<Vec<u32>, AtomError>,
        carry: Transmission,
    ) -> (result: Result<Transmission, Failure>)
        requires
            output matches Ok(sent) ==> positions_fit(
                old(topology).node_state_sequences@,
                sent@.len(),
            ),
        ensures
            match output {
                Ok(sent) => {
                    &&& result == Ok::<_, Failure>(carry)
                    &&& book(*final(inner), *final(topology)) == with_propagations_sent(
                        book(*old(inner), *old(topology)),
                        clock(*old(inner)),
                        sent@,
                        B::spec_phase(),
                    )
                    &&& only_phases_changed(
                        *old(inner),
                        *old(topology),
                        *final(inner),
                        *final(topology),
                    )
                },
                Err(error) => {
                    &&& result matches Err(failure) && says(
                        failure,
                        "send root propagation failed: "@ + error.text(),
                    )
                    &&& *final(inner) == *old(inner)
                    &&& *final(topology) == *old(topology)
                },
            },
    {
        match output {
            Ok(sent) => {
                inner.record_propagation_sent(topology, &sent, B::propagation_state());
                Ok(carry)
            },
            Err(error) => Err(refused_by("send root propagation failed: ", &error)),
        }
    }
}

/// The targets of the resolved edges whose mailboxes are known, each on behalf
/// of the vertex that owns the port.
pub open spec fn owned_edge_targets(
    topology: SunTopology,
    boxes: PassMailboxes,
    edges: Seq<PortTarget>,
) -> Seq<PropagationTarget> {
    somes(edges.map_values(|edge: PortTarget| owned_target(topology, boxes, edge.port_id)))
}

fn collect_owned_targets(
    topology: &SunTopology,
    inputs: &HashMap<u32, ObjectId>,
    next_inputs: &HashMap<u32, ObjectId>,
    outputs: &HashMap<u32, ObjectId>,
    edges: &Vec<PortTarget>,
) -> (targets: Vec<PropagationTarget>)
    ensures
        targets@ == owned_edge_targets(
            *topology,
            PassMailboxes { inputs: inputs@, next_inputs: next_inputs@, outputs: outputs@ },
            edges@,
        ),
{
    let ghost boxes = PassMailboxes {
        inputs: inputs@,
        next_inputs: next_inputs@,
        outputs: outputs@,
    };
    let ghost found = edges@.map_values(
        |edge: PortTarget| owned_target(*topology, boxes, edge.port_id),
    );
    let mut targets: Vec<PropagationTarget> = Vec::new();
    let mut i: usize = 0;
    assert(found.take(0) =~= Seq::empty());
    while i < edges.len()
        invariant
            i <= edges.len(),
            boxes == (PassMailboxes {
                inputs: inputs@,
                next_inputs: next_inputs@,
                outputs: outputs@,
            }),
            found == edges@.map_values(
                |edge: PortTarget| owned_target(*topology, boxes, edge.port_id),
            ),
            targets@ == somes(found.take(i as int)),
        decreases edges.len() - i,
    {
        proof {
            lemma_take_next(found, i as int);
        }
        match lookup_owned_target(topology, inputs, next_inputs, outputs, edges[i].port_id) {
            Some(target) => {
                targets.push(target);
            },
            None => {},
        }
        i = i + 1;
    }
    assert(found.take(i as int) =~= found);
    targets
}

/// Processes whichever ready node completes first. The completed node is then
/// removed and its successors' unresolved predecessor counts are decremented,
/// making each successor eligible immediately when its count reaches zero.
pub struct ProcessNextNode;

impl ProcessNextNode {
    /// Where the ready nodes publish, and where each forwards to.
    pub fn emit<B: PropagationState>(
        branch: &B,
        topology: &SunTopology,
        inner: &TwoSidedZoInner,
    ) -> (input: WaitForNodeTransmissionInput)
        ensures
            input.rx_endpoints@ == endpoints_of(
                B::spec_mailboxes(*inner).outputs,
                ascending(branch.spec_ready()),
            ),
            input.downstream@.dom() == branch.spec_ready().intersect(topology.outgoing@.dom()),
            forall|node: u32| #[trigger]
                input.downstream@.contains_key(node) ==> input.downstream@[node]@
                    == owned_edge_targets(
                    *topology,
                    B::spec_mailboxes(*inner),
                    topology.outgoing@[node]@,
                ),
    {
        let ready = sorted_node_ids(branch.ready());
        let (inputs, next_inputs, outputs) = B::transmission_maps(inner);
        let rx_endpoints = collect_endpoints(outputs, &ready);
        let mut downstream: HashMap<u32, Vec<PropagationTarget>> = HashMap::new();
        let mut i: usize = 0;
        assert(ready@.take(0).to_set().intersect(topology.outgoing@.dom()) =~= Set::empty());
        assert(downstream@.dom() =~= Set::empty());
        while i < ready.len()
            invariant
                i <= ready.len(),
                B::spec_mailboxes(*inner) == (PassMailboxes {
                    inputs: inputs@,
                    next_inputs: next_inputs@,
                    outputs: outputs@,
                }),
                downstream@.dom() == ready@.take(i as int).to_set().intersect(
                    topology.outgoing@.dom(),
                ),
                forall|node: u32| #[trigger]
                    downstream@.contains_key(node) ==> downstream@[node]@ == owned_edge_targets(
                        *topology,
                        B::spec_mailboxes(*inner),
                        topology.outgoing@[node]@,
                    ),
            decreases ready.len() - i,
        {
            let node = ready[i];
            let ghost before = downstream@.dom();
            proof {
                lemma_take_next(ready@, i as int);
            }
            match topology.outgoing.get(&node) {
                Some(edges) => {
                    let targets = collect_owned_targets(
                        topology,
                        inputs,
                        next_inputs,
                        outputs,
                        edges,
                    );
                    downstream.insert(node, targets);
                },
                None => {},
            }
            assert(downstream@.dom() =~= ready@.take(i + 1).to_set().intersect(
                topology.outgoing@.dom(),
            ));
            i = i + 1;
        }
        assert(ready@.take(i as int) =~= ready@);
        WaitForNodeTransmissionInput { rx_endpoints, downstream }
    }

    /// Advances the frontier past the node that completed and records the
    /// phases that this reveals. A completion that the frontier refuses leaves
    /// everything as it was.
    pub fn absorb<B: PropagationState>(
        branch: &mut B,
        topology: &mut SunTopology,
        inner: &mut TwoSidedZoInner,
        output: Result<NodeTransmission, AtomError>,
    ) -> (result: Result<Transmission, Failure>)
        requires
            output matches Ok(completion) ==> positions_fit(
                old(topology).node_state_sequences@,
                completion.sent_node_ids@.len() + 1,
            ),
        ensures
            match output {
                Ok(completion) => {
                    let node = completion.node_id;
                    let edges = list_at(old(topology).outgoing_edges(), node);
                    let pending = old(branch).spec_pending();
                    let ready = old(branch).spec_ready();
                    &&& result is Ok <==> may_advance(pending, ready, node, edges)
                    &&& result matches Ok(transmission) ==> {
                        &&& transmission == completion.transmission
                        &&& advanced(
                            pending,
                            ready,
                            node,
                            edges,
                            final(branch).spec_pending(),
                            final(branch).spec_ready(),
                        )
                        &&& book(*final(inner), *final(topology)) == with_propagations_sent(
                            with_propagation_completed(
                                book(*old(inner), *old(topology)),
                                clock(*old(inner)),
                                node,
                                B::spec_phase(),
                            ),
                            clock(*old(inner)),
                            completion.sent_node_ids@,
                            B::spec_phase(),
                        )
                        &&& only_phases_changed(
                            *old(inner),
                            *old(topology),
                            *final(inner),
                            *final(topology),
                        )
                    }
                    &&& result matches Err(failure) ==> {
                        &&& explains_refusal(pending, ready, node, edges, failure)
                        &&& final(branch).spec_pending() == pending
                        &&& final(branch).spec_ready() == ready
                        &&& *final(inner) == *old(inner)
                        &&& *final(topology) == *old(topology)
                    }
                },
                Err(error) => {
                    &&& result matches Err(failure) && says(
                        failure,
                        "wait for node transmission failed: "@ + error.text(),
                    )
                    &&& *final(branch) == *old(branch)
                    &&& *final(inner) == *old(inner)
                    &&& *final(topology) == *old(topology)
                },
            },
    {
        let completion = match output {
            Ok(completion) => completion,
            Err(error) => {
                return Err(refused_by("wait for node transmission failed: ", &error));
            },
        };
        let node_id = completion.node_id;
        let none: Vec<PortTarget> = Vec::new();
        let outgoing = match topology.outgoing.get(&node_id) {
            Some(list) => list,
            None => &none,
        };
        assert(outgoing@ =~= list_at(old(topology).outgoing_edges(), node_id));
        let (pending, ready) = branch.scheduler_mut();
        match advance_frontier(pending, ready, node_id, outgoing) {
            Ok(()) => {},
            Err(failure) => {
                return Err(failure);
            },
        }
        let phase = B::propagation_state();
        proof {
            assert(sequence_at(old(topology).node_state_sequences@, node_id) + 3 * (
            completion.sent_node_ids@.len() + 1) <= u64::MAX);
        }
        inner.record_propagation_completed(topology, node_id, phase);
        proof {
            assert forall|id: u32|
                #![trigger sequence_at(topology.node_state_sequences@, id)]
                sequence_at(topology.node_state_sequences@, id) + 3
                    * completion.sent_node_ids@.len() <= u64::MAX by {
                assert(sequence_at(old(topology).node_state_sequences@, id) + 3 * (
                completion.sent_node_ids@.len() + 1) <= u64::MAX);
                assert(book(*inner, *topology).sequences == topology.node_state_sequences@);
            }
        }
        inner.record_propagation_sent(topology, &completion.sent_node_ids, phase);
        Ok(completion.transmission)
    }
}

} // verus!
