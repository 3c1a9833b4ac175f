//! What observers see of the nodes of a two-sided Sun, and how the mailboxes of
//! its serial passes follow each other.

use std::collections::HashMap;

use vstd::prelude::*;

use crate::collections::{ascending, lemma_ascending_lists};
use crate::ids::ObjectId;
use crate::programs::two_sided_zo::branch::PropagationState;
use crate::programs::two_sided_zo::finalize::{
    down_microstep_prepared, sun_finalized, up_microstep_prepared, EpochMailboxes,
};
use crate::programs::two_sided_zo::phase::{
    book, state_of, with_optimization_sent, with_optimizations_sent, with_propagation_completed,
    with_propagation_sent, with_propagations_sent, EpochClock, PhaseBook,
};
use crate::programs::two_sided_zo::{
    shows_sun, PropA, PropB, SunState, TwoSidedZoInner,
};
use crate::topology::{SunAppearance, SunNodeState, SunOperationalState, SunTopology};

verus! {

broadcast use vstd::std_specs::hash::group_hash_axioms;

/// The steps of an epoch, at least one.
pub open spec fn steps_of(clock: EpochClock) -> int {
    if clock.grad_steps > 1 {
        clock.grad_steps as int
    } else {
        1
    }
}

/// The step an epoch stands at, counted from one.
pub open spec fn step_of(clock: EpochClock) -> int {
    if clock.active_micro_step + 1 < steps_of(clock) {
        clock.active_micro_step + 1
    } else {
        steps_of(clock)
    }
}

/// `node` is shown to run in `phase` at `step`.
pub open spec fn runs_in(
    book: PhaseBook,
    node: u32,
    phase: SunNodeState,
    annotation: Seq<char>,
    step: int,
) -> bool {
    &&& book.states.contains_key(node)
    &&& book.states[node] == phase
    &&& book.statuses.contains_key(node)
    &&& book.statuses[node] == SunOperationalState::Running
    &&& book.annotations.contains_key(node)
    &&& book.annotations[node] == annotation
    &&& book.grad_steps.contains_key(node)
    &&& book.grad_steps[node] == step
}

/// Nothing that is shown of `node` differs.
pub open spec fn shown_alike(a: PhaseBook, b: PhaseBook, node: u32) -> bool {
    &&& a.states.contains_key(node) == b.states.contains_key(node)
    &&& a.states.contains_key(node) ==> a.states[node] == b.states[node]
    &&& a.grad_steps.contains_key(node) == b.grad_steps.contains_key(node)
    &&& a.grad_steps.contains_key(node) ==> a.grad_steps[node] == b.grad_steps[node]
    &&& a.statuses.contains_key(node) == b.statuses.contains_key(node)
    &&& a.statuses.contains_key(node) ==> a.statuses[node] == b.statuses[node]
    &&& a.annotations.contains_key(node) == b.annotations.contains_key(node)
    &&& a.annotations.contains_key(node) ==> a.annotations[node] == b.annotations[node]
    &&& a.sequences.contains_key(node) == b.sequences.contains_key(node)
    &&& a.sequences.contains_key(node) ==> a.sequences[node] == b.sequences[node]
    &&& a.p1_completed.contains(node) == b.p1_completed.contains(node)
    &&& a.p2_sent.contains(node) == b.p2_sent.contains(node)
}

/// A node that is sent a first propagation is shown to run its first pass,
/// unless it already runs its second; nothing else of it changes then.
pub proof fn law_first_pass_is_shown(book: PhaseBook, clock: EpochClock, node: u32)
    ensures
        ({
            let after = with_propagation_sent(book, clock, node, SunNodeState::Propagation1);
            if state_of(book, node) == SunNodeState::Propagation2 {
                after == book
            } else {
                runs_in(
                    after,
                    node,
                    SunNodeState::Propagation1,
                    "propagation 1"@,
                    step_of(clock),
                )
            }
        }),
{
}

/// A node that is sent a second propagation is shown to run its second pass
/// once its first has completed, and as before until then.
pub proof fn law_second_pass_is_shown_after_the_first(book: PhaseBook, clock: EpochClock, node: u32)
    ensures
        ({
            let after = with_propagation_sent(book, clock, node, SunNodeState::Propagation2);
            &&& after.p2_sent.contains(node)
            &&& after.p1_completed == book.p1_completed
            &&& if book.p1_completed.contains(node) {
                runs_in(
                    after,
                    node,
                    SunNodeState::Propagation2,
                    "propagation 2"@,
                    step_of(clock),
                )
            } else {
                after == (PhaseBook { p2_sent: after.p2_sent, ..book })
            }
        }),
{
}

/// A node that completes a pass is shown to have succeeded, unless that reveals
/// its second pass, which then is shown to run.
pub proof fn law_completion_is_shown(book: PhaseBook, clock: EpochClock, node: u32)
    ensures
        ({
            let first = with_propagation_completed(book, clock, node, SunNodeState::Propagation1);
            let second = with_propagation_completed(book, clock, node, SunNodeState::Propagation2);
            &&& first.p1_completed.contains(node)
            &&& if book.p2_sent.contains(node) {
                runs_in(
                    first,
                    node,
                    SunNodeState::Propagation2,
                    "propagation 2"@,
                    step_of(clock),
                )
            } else {
                &&& first.statuses.contains_key(node)
                &&& first.statuses[node] == SunOperationalState::Succeeded
                &&& state_of(first, node) == state_of(book, node)
            }
            &&& second.statuses.contains_key(node)
            &&& second.statuses[node] == SunOperationalState::Succeeded
            &&& state_of(second, node) == state_of(book, node)
            &&& second.p1_completed == book.p1_completed
            &&& second.p2_sent == book.p2_sent
        }),
{
}

/// A node that is told the outcome is shown to take it in, at the last step of
/// the epoch, and both of its passes are forgotten.
pub proof fn law_outcome_is_shown(book: PhaseBook, clock: EpochClock, node: u32)
    ensures
        ({
            let after = with_optimization_sent(book, clock, node);
            &&& runs_in(
                after,
                node,
                SunNodeState::Optimization,
                "potentiation"@,
                steps_of(clock),
            )
            &&& !after.p1_completed.contains(node)
            &&& !after.p2_sent.contains(node)
        }),
{
}

/// What is recorded of one node changes nothing that is shown of another.
pub proof fn law_other_nodes_are_shown_alike(
    book: PhaseBook,
    clock: EpochClock,
    node: u32,
    phase: SunNodeState,
    other: u32,
)
    requires
        other != node,
    ensures
        shown_alike(with_propagation_sent(book, clock, node, phase), book, other),
        shown_alike(with_propagation_completed(book, clock, node, phase), book, other),
        shown_alike(with_optimization_sent(book, clock, node), book, other),
{
}

proof fn lemma_unlisted(
    book: PhaseBook,
    clock: EpochClock,
    nodes: Seq<u32>,
    phase: SunNodeState,
    other: u32,
)
    requires
        !nodes.contains(other),
    ensures
        shown_alike(with_propagations_sent(book, clock, nodes, phase), book, other),
        shown_alike(with_optimizations_sent(book, clock, nodes), book, other),
    decreases nodes.len(),
{
    if nodes.len() > 0 {
        let rest = nodes.drop_last();
        assert(!rest.contains(other)) by {
            if rest.contains(other) {
                let i = choose|i: int| 0 <= i < rest.len() && rest[i] == other;
                assert(nodes[i] == other);
            }
        }
        assert(nodes[nodes.len() - 1] == nodes.last());
        assert(nodes.contains(nodes.last()));
        lemma_unlisted(book, clock, rest, phase, other);
        law_other_nodes_are_shown_alike(
            with_propagations_sent(book, clock, rest, phase),
            clock,
            nodes.last(),
            phase,
            other,
        );
        law_other_nodes_are_shown_alike(
            with_optimizations_sent(book, clock, rest),
            clock,
            nodes.last(),
            phase,
            other,
        );
    }
}

/// A pass that reaches some nodes, and an outcome that is told to some, are
/// shown at those nodes and at no other.
pub proof fn law_only_reached_nodes_change(
    book: PhaseBook,
    clock: EpochClock,
    nodes: Seq<u32>,
    phase: SunNodeState,
    other: u32,
)
    requires
        !nodes.contains(other),
    ensures
        shown_alike(with_propagations_sent(book, clock, nodes, phase), book, other),
        shown_alike(with_optimizations_sent(book, clock, nodes), book, other),
{
    lemma_unlisted(book, clock, nodes, phase, other);
}

/// Every node that is told the outcome is shown to take it in.
pub proof fn law_every_told_node_takes_the_outcome_in(
    book: PhaseBook,
    clock: EpochClock,
    nodes: Seq<u32>,
    node: u32,
)
    requires
        nodes.contains(node),
    ensures
        runs_in(
            with_optimizations_sent(book, clock, nodes),
            node,
            SunNodeState::Optimization,
            "potentiation"@,
            steps_of(clock),
        ),
        !with_optimizations_sent(book, clock, nodes).p1_completed.contains(node),
        !with_optimizations_sent(book, clock, nodes).p2_sent.contains(node),
    decreases nodes.len(),
{
    let rest = nodes.drop_last();
    let before = with_optimizations_sent(book, clock, rest);
    if nodes.last() == node {
        law_outcome_is_shown(before, clock, node);
    } else {
        let i = choose|i: int| 0 <= i < nodes.len() && nodes[i] == node;
        assert(rest[i] == node);
        law_every_told_node_takes_the_outcome_in(book, clock, rest, node);
        law_other_nodes_are_shown_alike(
            before,
            clock,
            nodes.last(),
            SunNodeState::Optimization,
            node,
        );
    }
}

/// Every node that a first pass reaches is shown to run it, where none runs its
/// second.
pub proof fn law_every_reached_node_runs_the_first_pass(
    book: PhaseBook,
    clock: EpochClock,
    nodes: Seq<u32>,
    node: u32,
)
    requires
        nodes.contains(node),
        state_of(book, node) != SunNodeState::Propagation2,
    ensures
        runs_in(
            with_propagations_sent(book, clock, nodes, SunNodeState::Propagation1),
            node,
            SunNodeState::Propagation1,
            "propagation 1"@,
            step_of(clock),
        ),
    decreases nodes.len(),
{
    let rest = nodes.drop_last();
    let before = with_propagations_sent(book, clock, rest, SunNodeState::Propagation1);
    if rest.contains(node) {
        law_every_reached_node_runs_the_first_pass(book, clock, rest, node);
    } else {
        lemma_unlisted(book, clock, rest, SunNodeState::Propagation1, node);
    }
    if nodes.last() == node {
        law_first_pass_is_shown(before, clock, node);
    } else {
        let i = choose|i: int| 0 <= i < nodes.len() && nodes[i] == node;
        assert(rest[i] == node);
        law_other_nodes_are_shown_alike(
            before,
            clock,
            nodes.last(),
            SunNodeState::Propagation1,
            node,
        );
    }
}

/// A two-sided Sun shows every vertex once, by ascending id, with what is
/// recorded of it.
pub proof fn law_every_vertex_is_shown(
    topology: SunTopology,
    inner: TwoSidedZoInner,
    shown: SunAppearance,
    vertex: u32,
) -> (i: int)
    requires
        shows_sun(topology, inner, shown),
        topology.vertices().contains(vertex),
        topology.vertices().finite(),
    ensures
        0 <= i < shown.nodes@.len(),
        shown.nodes@.len() == topology.vertices().len(),
        shown.nodes@[i].id == vertex,
        topology.journey_ids@.contains_key(vertex) ==> shown.nodes@[i].journey_id
            == topology.journey_ids@[vertex],
        topology.warp_journey_ids@.contains_key(vertex) ==> shown.nodes@[i].warp_journey_id
            == topology.warp_journey_ids@[vertex],
        topology.node_labels@.contains_key(vertex) ==> shown.nodes@[i].label@
            == topology.node_labels@[vertex]@,
        topology.vertex_ports@.contains_key(vertex) ==> shown.nodes@[i].input_ports@
            == topology.vertex_ports@[vertex]@,
        inner.node_states@.contains_key(vertex) ==> shown.nodes@[i].state
            == inner.node_states@[vertex],
        !inner.node_states@.contains_key(vertex) ==> shown.nodes@[i].state == SunNodeState::Idle,
        inner.node_grad_steps@.contains_key(vertex) ==> shown.nodes@[i].grad_step
            == inner.node_grad_steps@[vertex],
        topology.node_state_sequences@.contains_key(vertex) ==> shown.nodes@[i].state_sequence
            == topology.node_state_sequences@[vertex],
        topology.node_operational_states@.contains_key(vertex)
            ==> shown.nodes@[i].operational_state == topology.node_operational_states@[vertex],
        topology.node_phase_annotations@.contains_key(vertex)
            <==> shown.nodes@[i].phase_annotation is Some,
        topology.node_phase_annotations@.contains_key(vertex)
            ==> shown.nodes@[i].phase_annotation->0@ == topology.node_phase_annotations@[vertex]@,
        forall|a: int, b: int|
            #![trigger shown.nodes@[a], shown.nodes@[b]]
            0 <= a < b < shown.nodes@.len() ==> shown.nodes@[a].id < shown.nodes@[b].id,
        shown.finalized == topology.finalized,
        shown.grad_steps == if inner.grad_steps > 1 {
            inner.grad_steps
        } else {
            1
        },
{
    let order = ascending(topology.vertices());
    lemma_ascending_lists(topology.vertices());
    assert(order.to_set().contains(vertex));
    let i = choose|i: int| 0 <= i < order.len() && order[i] == vertex;
    assert(shown.nodes@[i].id == vertex);
    assert forall|a: int, b: int|
        #![trigger shown.nodes@[a], shown.nodes@[b]]
        0 <= a < b < shown.nodes@.len() implies shown.nodes@[a].id < shown.nodes@[b].id by {
        assert(shown.nodes@[a].id == order[a]);
        assert(shown.nodes@[b].id == order[b]);
    }
    i
}

/// The edges that are shown are the resolved edges.
pub proof fn law_every_edge_is_shown(
    topology: SunTopology,
    inner: TwoSidedZoInner,
    shown: SunAppearance,
    source: u32,
    target: u32,
    port: u32,
)
    requires
        shows_sun(topology, inner, shown),
    ensures
        (exists|i: int|
            0 <= i < shown.edges@.len() && (#[trigger] shown.edges@[i]).source == source
                && shown.edges@[i].target == target && shown.edges@[i].target_port == port)
            <==> topology.outgoing@.contains_key(source) && exists|k: int|
            0 <= k < topology.outgoing@[source]@.len() && (
            #[trigger] topology.outgoing@[source]@[k]).vertex_id == target
                && topology.outgoing@[source]@[k].port_id == port,
{
    crate::topology::display::lemma_edges_shown(topology, shown.edges@, source, target, port);
}

/// The microsteps of a serial first pass follow each other: a port listens in
/// one where the one before told it to, and after the last where the second
/// pass begins.
pub proof fn law_first_pass_microsteps_chain(
    before: TwoSidedZoInner,
    after: TwoSidedZoInner,
    completed: usize,
    rx: HashMap<u32, ObjectId>,
    next_tx: HashMap<u32, ObjectId>,
)
    requires
        up_microstep_prepared(before, after, completed, rx, next_tx),
        before.active_micro_step + 1 < before.grad_steps,
    ensures
        PropA::spec_mailboxes(after).inputs == PropA::spec_mailboxes(before).next_inputs,
        PropA::spec_mailboxes(before).inputs == before.p1_tx@,
        PropA::spec_mailboxes(after).outputs == rx@,
        after.active_micro_step == completed,
        completed + 1 >= after.grad_steps ==> PropA::spec_mailboxes(after).next_inputs
            == PropB::spec_mailboxes(TwoSidedZoInner { active_micro_step: 0, ..after }).inputs,
        after.p2_tx == before.p2_tx,
        after.p2_rx == before.p2_rx,
        after.next_p2_tx == before.next_p2_tx,
        after.po_tx == before.po_tx,
{
}

/// So do those of a serial second pass, and after the last a port listens where
/// the outcome comes.
pub proof fn law_second_pass_microsteps_chain(
    before: TwoSidedZoInner,
    after: TwoSidedZoInner,
    completed: usize,
    rx: HashMap<u32, ObjectId>,
    next_tx: HashMap<u32, ObjectId>,
)
    requires
        down_microstep_prepared(before, after, completed, rx, next_tx),
        before.active_micro_step + 1 < before.grad_steps,
    ensures
        PropB::spec_mailboxes(after).inputs == PropB::spec_mailboxes(before).next_inputs,
        PropB::spec_mailboxes(before).inputs == before.p2_tx@,
        PropB::spec_mailboxes(after).outputs == rx@,
        after.active_micro_step == completed,
        completed + 1 >= after.grad_steps ==> PropB::spec_mailboxes(after).next_inputs
            == after.po_tx@,
        after.p1_tx == before.p1_tx,
        after.p1_rx == before.p1_rx,
        after.next_p1_tx == before.next_p1_tx,
        after.po_tx == before.po_tx,
{
}

/// With a single step in each pass, the first leads to the second and the
/// second to the outcome.
pub proof fn law_single_steps_chain(inner: TwoSidedZoInner)
    requires
        inner.grad_steps <= 1,
        inner.active_micro_step == 0,
    ensures
        PropA::spec_mailboxes(inner).inputs == inner.p1_tx@,
        PropA::spec_mailboxes(inner).outputs == inner.p1_rx@,
        PropA::spec_mailboxes(inner).next_inputs == PropB::spec_mailboxes(inner).inputs,
        PropB::spec_mailboxes(inner).outputs == inner.p2_rx@,
        PropB::spec_mailboxes(inner).next_inputs == inner.po_tx@,
        PropA::spec_phase() == SunNodeState::Propagation1,
        PropB::spec_phase() == SunNodeState::Propagation2,
{
}

/// A finalized Sun has its first epoch set up: the ports still listen where
/// they were registered, each node is at its first step, and everything else
/// has the mailboxes it was given.
pub proof fn law_finalized_sun_is_set_up<S>(
    before: SunState<S>,
    after: SunState<S>,
    grad_steps: usize,
    po_tx: HashMap<u32, ObjectId>,
    fresh: EpochMailboxes,
    node: u32,
)
    requires
        sun_finalized(before, after, grad_steps, po_tx, fresh),
    ensures
        after.shared.p1_tx == before.shared.p1_tx,
        after.shared.p2_tx == fresh.p2_tx,
        after.shared.p1_rx == fresh.p1_rx,
        after.shared.p2_rx == fresh.p2_rx,
        after.shared.next_p1_tx == fresh.next_p1_tx,
        after.shared.next_p2_tx == fresh.next_p2_tx,
        after.shared.po_tx == po_tx,
        after.shared.grad_steps == grad_steps,
        after.shared.active_micro_step == 0,
        before.topology.vertices().contains(node) ==> after.shared.node_grad_steps@.contains_key(
            node,
        ) && after.shared.node_grad_steps@[node] == 1,
        after.propagation_pairs@.len() == 0,
        after.propagation_up_inputs@.len() == 0,
        after.propagation_down_inputs@.len() == 0,
        after.pipeline_completions == 0,
        after.pipeline_target_completions == 0,
        after.inner == before.inner,
{
    if before.topology.vertices().contains(node) {
        assert(after.shared.node_grad_steps@.dom().contains(node));
        assert(after.shared.node_grad_steps@.contains_key(node));
    }
}

} // verus!
