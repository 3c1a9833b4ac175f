//! The phase that observers see each node in.

use vstd::prelude::*;
use vstd::string::*;

use crate::collections::lemma_take_next;
use crate::programs::two_sided_zo::TwoSidedZoInner;
use crate::topology::observe::sequence_at;
use crate::topology::{SunNodeState, SunOperationalState, SunTopology};

verus! {

broadcast use vstd::std_specs::hash::group_hash_axioms;

/// What observers see of the nodes' phases, with what decides when the second
/// pass of a node becomes visible.
#[verifier::ext_equal]
pub ghost struct PhaseBook {
    /// Visible phase of each node.
    pub states: Map<u32, SunNodeState>,
    /// Accumulation step of each node.
    pub grad_steps: Map<u32, usize>,
    /// Nodes whose first pass has completed in this epoch.
    pub p1_completed: Set<u32>,
    /// Nodes whose second pass has been sent in this epoch.
    pub p2_sent: Set<u32>,
    /// Execution status of each node.
    pub statuses: Map<u32, SunOperationalState>,
    /// Annotation of each node.
    pub annotations: Map<u32, Seq<char>>,
    /// Phases each node has gone through.
    pub sequences: Map<u32, u64>,
}

/// The accumulation step of the epoch and the number of steps in it.
#[verifier::ext_equal]
pub ghost struct EpochClock {
    pub active_micro_step: usize,
    pub grad_steps: usize,
}

/// What is recorded of the nodes' phases.
pub open spec fn book(inner: TwoSidedZoInner, topology: SunTopology) -> PhaseBook {
    PhaseBook {
        states: inner.node_states@,
        grad_steps: inner.node_grad_steps@,
        p1_completed: inner.p1_completed@,
        p2_sent: inner.p2_sent@,
        statuses: topology.node_operational_states@,
        annotations: topology.node_phase_annotations@.map_values(|text: String| text@),
        sequences: topology.node_state_sequences@,
    }
}

/// The position of the epoch.
pub open spec fn clock(inner: TwoSidedZoInner) -> EpochClock {
    EpochClock { active_micro_step: inner.active_micro_step, grad_steps: inner.grad_steps }
}

/// Everything but the phase records is as it was.
pub open spec fn only_phases_changed(
    inner: TwoSidedZoInner,
    topology: SunTopology,
    next_inner: TwoSidedZoInner,
    next_topology: SunTopology,
) -> bool {
    &&& next_inner == (TwoSidedZoInner {
        node_states: next_inner.node_states,
        node_grad_steps: next_inner.node_grad_steps,
        p1_completed: next_inner.p1_completed,
        p2_sent: next_inner.p2_sent,
        ..inner
    })
    &&& next_topology == (SunTopology {
        node_operational_states: next_topology.node_operational_states,
        node_phase_annotations: next_topology.node_phase_annotations,
        node_state_sequences: next_topology.node_state_sequences,
        ..topology
    })
}

/// The number of steps in an epoch, at least one.
pub open spec fn steps_in(clock: EpochClock) -> usize {
    if clock.grad_steps > 1 {
        clock.grad_steps
    } else {
        1
    }
}

/// The current accumulation step, counted from one and at most the number of
/// steps.
pub open spec fn step_now(clock: EpochClock) -> usize {
    if clock.active_micro_step + 1 < steps_in(clock) {
        (clock.active_micro_step + 1) as usize
    } else {
        steps_in(clock)
    }
}

/// The accumulation step shown for a phase: optimization belongs to the last.
pub open spec fn step_of_phase(clock: EpochClock, phase: SunNodeState) -> usize {
    if phase == SunNodeState::Optimization {
        steps_in(clock)
    } else {
        step_now(clock)
    }
}

/// The visible phase of a node, idle when nothing was recorded.
pub open spec fn state_of(book: PhaseBook, node: u32) -> SunNodeState {
    if book.states.contains_key(node) {
        book.states[node]
    } else {
        SunNodeState::Idle
    }
}

/// The phase after `state` in the cycle of an epoch.
pub open spec fn successor(state: SunNodeState) -> SunNodeState {
    match state {
        SunNodeState::Idle | SunNodeState::Optimization => SunNodeState::Propagation1,
        SunNodeState::Propagation1 => SunNodeState::Propagation2,
        SunNodeState::Propagation2 => SunNodeState::Optimization,
    }
}

/// Place of a phase within an epoch.
pub open spec fn position(state: SunNodeState) -> int {
    match state {
        SunNodeState::Idle => 0,
        SunNodeState::Propagation1 => 1,
        SunNodeState::Propagation2 => 2,
        SunNodeState::Optimization => 3,
    }
}

/// Number of phases entered on the way from one phase to another.
pub open spec fn phase_distance(from: SunNodeState, to: SunNodeState) -> int {
    if position(from) <= position(to) {
        position(to) - position(from)
    } else {
        position(to) + 3 - position(from)
    }
}

/// The annotation of a phase.
pub open spec fn annotation_of(phase: SunNodeState) -> Seq<char> {
    match phase {
        SunNodeState::Idle => "idle"@,
        SunNodeState::Propagation1 => "propagation 1"@,
        SunNodeState::Propagation2 => "propagation 2"@,
        SunNodeState::Optimization => "potentiation"@,
    }
}

/// `node` was sent what puts it in `phase`: it runs, and its phase position
/// advances by the phases entered on the way.
pub open spec fn with_state_sent(
    book: PhaseBook,
    clock: EpochClock,
    node: u32,
    phase: SunNodeState,
) -> PhaseBook {
    let current = state_of(book, node);
    PhaseBook {
        states: if current == phase {
            book.states
        } else {
            book.states.insert(node, phase)
        },
        grad_steps: book.grad_steps.insert(node, step_of_phase(clock, phase)),
        statuses: book.statuses.insert(node, SunOperationalState::Running),
        annotations: book.annotations.insert(node, annotation_of(phase)),
        sequences: if current == phase {
            book.sequences
        } else {
            book.sequences.insert(
                node,
                (sequence_at(book.sequences, node) + phase_distance(current, phase)) as u64,
            )
        },
        ..book
    }
}

/// A propagation was sent to `node`. A first pass does not hide a second pass
/// in flight, and a second pass stays hidden until the first has completed.
pub open spec fn with_propagation_sent(
    book: PhaseBook,
    clock: EpochClock,
    node: u32,
    phase: SunNodeState,
) -> PhaseBook {
    if phase == SunNodeState::Propagation1 {
        if state_of(book, node) != SunNodeState::Propagation2 {
            with_state_sent(book, clock, node, phase)
        } else {
            book
        }
    } else {
        let noted = PhaseBook { p2_sent: book.p2_sent.insert(node), ..book };
        if book.p1_completed.contains(node) {
            with_state_sent(noted, clock, node, phase)
        } else {
            noted
        }
    }
}

/// A propagation was sent to each listed node.
pub open spec fn with_propagations_sent(
    book: PhaseBook,
    clock: EpochClock,
    nodes: Seq<u32>,
    phase: SunNodeState,
) -> PhaseBook
    decreases nodes.len(),
{
    if nodes.len() == 0 {
        book
    } else {
        with_propagation_sent(
            with_propagations_sent(book, clock, nodes.drop_last(), phase),
            clock,
            nodes.last(),
            phase,
        )
    }
}

/// `node` completed a propagation. Completing the first pass reveals a second
/// pass that was sent before.
pub open spec fn with_propagation_completed(
    book: PhaseBook,
    clock: EpochClock,
    node: u32,
    phase: SunNodeState,
) -> PhaseBook {
    let done = PhaseBook {
        statuses: book.statuses.insert(node, SunOperationalState::Succeeded),
        ..book
    };
    if phase == SunNodeState::Propagation1 {
        let noted = PhaseBook { p1_completed: book.p1_completed.insert(node), ..done };
        if book.p2_sent.contains(node) {
            with_state_sent(noted, clock, node, SunNodeState::Propagation2)
        } else {
            noted
        }
    } else {
        done
    }
}

/// The loss of a step was sent to `node`, which ends its epoch.
pub open spec fn with_optimization_sent(book: PhaseBook, clock: EpochClock, node: u32) -> PhaseBook {
    let sent = with_state_sent(book, clock, node, SunNodeState::Optimization);
    PhaseBook {
        p1_completed: sent.p1_completed.remove(node),
        p2_sent: sent.p2_sent.remove(node),
        ..sent
    }
}

/// The loss of a step was sent to each listed node.
pub open spec fn with_optimizations_sent(
    book: PhaseBook,
    clock: EpochClock,
    nodes: Seq<u32>,
) -> PhaseBook
    decreases nodes.len(),
{
    if nodes.len() == 0 {
        book
    } else {
        with_optimization_sent(
            with_optimizations_sent(book, clock, nodes.drop_last()),
            clock,
            nodes.last(),
        )
    }
}

/// No phase position comes within `entries` records of overflowing.
pub open spec fn positions_fit(sequences: Map<u32, u64>, entries: nat) -> bool {
    forall|id: u32|
        #![trigger sequence_at(sequences, id)]
        sequence_at(sequences, id) + 3 * entries <= u64::MAX
}

impl TwoSidedZoInner {
    /// The number of steps in an epoch, at least one.
    pub fn steps(&self) -> (steps: usize)
        ensures
            steps == steps_in(clock(*self)),
    {
        if self.grad_steps > 1 {
            self.grad_steps
        } else {
            1
        }
    }

    /// The current accumulation step, counted from one.
    pub fn current_grad_step(&self) -> (step: usize)
        ensures
            step == step_now(clock(*self)),
    {
        let steps = self.steps();
        if self.active_micro_step < steps - 1 {
            self.active_micro_step + 1
        } else {
            steps
        }
    }

    /// The accumulation step shown for a phase.
    pub fn grad_step_for_phase(&self, phase: SunNodeState) -> (step: usize)
        ensures
            step == step_of_phase(clock(*self), phase),
    {
        if phase == SunNodeState::Optimization {
            self.steps()
        } else {
            self.current_grad_step()
        }
    }

    /// Records that `node_id` was sent what puts it in `phase`.
    fn record_state_sent(&mut self, topology: &mut SunTopology, node_id: u32, phase: SunNodeState)
        requires
            phase != SunNodeState::Idle,
            sequence_at(old(topology).node_state_sequences@, node_id) + 3 <= u64::MAX,
        ensures
            book(*final(self), *final(topology)) == with_state_sent(
                book(*old(self), *old(topology)),
                clock(*old(self)),
                node_id,
                phase,
            ),
            only_phases_changed(*old(self), *old(topology), *final(self), *final(topology)),
            final(self).p1_completed == old(self).p1_completed,
            final(self).p2_sent == old(self).p2_sent,
    {
        let grad_step = self.grad_step_for_phase(phase);
        let current = match self.node_states.get(&node_id) {
            Some(state) => *state,
            None => SunNodeState::Idle,
        };
        topology.node_operational_states.insert(node_id, SunOperationalState::Running);
        let annotation = match phase {
            SunNodeState::Idle => "idle",
            SunNodeState::Propagation1 => "propagation 1",
            SunNodeState::Propagation2 => "propagation 2",
            SunNodeState::Optimization => "potentiation",
        };
        topology.node_phase_annotations.insert(node_id, annotation.to_owned());
        proof {
            assert(topology.node_phase_annotations@.map_values(|text: String| text@) =~= old(
                topology,
            ).node_phase_annotations@.map_values(|text: String| text@).insert(
                node_id,
                annotation_of(phase),
            ));
        }
        if current == phase {
            self.node_grad_steps.insert(node_id, grad_step);
            return;
        }
        let mut next = current;
        let mut distance: u64 = 0;
        while next != phase
            invariant
                phase != SunNodeState::Idle,
                0 <= distance <= 3,
                distance + phase_distance(next, phase) == phase_distance(current, phase),
            decreases phase_distance(next, phase),
        {
            next = match next {
                SunNodeState::Idle | SunNodeState::Optimization => SunNodeState::Propagation1,
                SunNodeState::Propagation1 => SunNodeState::Propagation2,
                SunNodeState::Propagation2 => SunNodeState::Optimization,
            };
            distance = distance + 1;
        }
        self.node_states.insert(node_id, phase);
        let sequence: u64 = match topology.node_state_sequences.get(&node_id) {
            Some(sequence) => *sequence,
            None => 0,
        };
        topology.node_state_sequences.insert(node_id, sequence + distance);
        self.node_grad_steps.insert(node_id, grad_step);
    }

    /// Records that a propagation was sent to one node.
    fn record_one_sent(&mut self, topology: &mut SunTopology, node_id: u32, phase: SunNodeState)
        requires
            phase == SunNodeState::Propagation1 || phase == SunNodeState::Propagation2,
            sequence_at(old(topology).node_state_sequences@, node_id) + 3 <= u64::MAX,
        ensures
            book(*final(self), *final(topology)) == with_propagation_sent(
                book(*old(self), *old(topology)),
                clock(*old(self)),
                node_id,
                phase,
            ),
            only_phases_changed(*old(self), *old(topology), *final(self), *final(topology)),
    {
        if phase == SunNodeState::Propagation1 {
            let hidden = match self.node_states.get(&node_id) {
                Some(state) => *state == SunNodeState::Propagation2,
                None => false,
            };
            if !hidden {
                self.record_state_sent(topology, node_id, phase);
            }
        } else {
            self.p2_sent.insert(node_id);
            if self.p1_completed.contains(&node_id) {
                self.record_state_sent(topology, node_id, phase);
            }
        }
    }

    /// Records that a propagation was sent to the listed nodes.
    pub fn record_propagation_sent(
        &mut self,
        topology: &mut SunTopology,
        node_ids: &Vec<u32>,
        phase: SunNodeState,
    )
        requires
            phase == SunNodeState::Propagation1 || phase == SunNodeState::Propagation2,
            positions_fit(old(topology).node_state_sequences@, node_ids@.len()),
        ensures
            book(*final(self), *final(topology)) == with_propagations_sent(
                book(*old(self), *old(topology)),
                clock(*old(self)),
                node_ids@,
                phase,
            ),
            only_phases_changed(*old(self), *old(topology), *final(self), *final(topology)),
    {
        let mut i: usize = 0;
        assert(node_ids@.take(0) =~= Seq::empty());
        while i < node_ids.len()
            invariant
                i <= node_ids.len(),
                phase == SunNodeState::Propagation1 || phase == SunNodeState::Propagation2,
                book(*self, *topology) == with_propagations_sent(
                    book(*old(self), *old(topology)),
                    clock(*old(self)),
                    node_ids@.take(i as int),
                    phase,
                ),
                only_phases_changed(*old(self), *old(topology), *self, *topology),
                positions_fit(topology.node_state_sequences@, (node_ids@.len() - i) as nat),
            decreases node_ids.len() - i,
        {
            let ghost before = topology.node_state_sequences@;
            proof {
                lemma_take_next(node_ids@, i as int);
                assert(sequence_at(before, node_ids@[i as int]) + 3 * (node_ids@.len() - i)
                    <= u64::MAX);
            }
            self.record_one_sent(topology, node_ids[i], phase);
            proof {
                assert forall|id: u32|
                    #![trigger sequence_at(topology.node_state_sequences@, id)]
                    sequence_at(topology.node_state_sequences@, id) + 3 * (node_ids@.len() - i - 1)
                        <= u64::MAX by {
                    assert(sequence_at(before, id) + 3 * (node_ids@.len() - i) <= u64::MAX);
                }
            }
            i = i + 1;
        }
        assert(node_ids@.take(i as int) =~= node_ids@);
    }

    /// Records that `node_id` completed a propagation.
    pub fn record_propagation_completed(
        &mut self,
        topology: &mut SunTopology,
        node_id: u32,
        phase: SunNodeState,
    )
        requires
            sequence_at(old(topology).node_state_sequences@, node_id) + 3 <= u64::MAX,
        ensures
            book(*final(self), *final(topology)) == with_propagation_completed(
                book(*old(self), *old(topology)),
                clock(*old(self)),
                node_id,
                phase,
            ),
            only_phases_changed(*old(self), *old(topology), *final(self), *final(topology)),
    {
        topology.node_operational_states.insert(node_id, SunOperationalState::Succeeded);
        if phase == SunNodeState::Propagation1 {
            self.p1_completed.insert(node_id);
            if self.p2_sent.contains(&node_id) {
                self.record_state_sent(topology, node_id, SunNodeState::Propagation2);
            }
        }
    }

    /// Records that the loss of a step was sent to the listed nodes.
    pub fn record_optimization_sent(&mut self, topology: &mut SunTopology, node_ids: &Vec<u32>)
        requires
            positions_fit(old(topology).node_state_sequences@, node_ids@.len()),
        ensures
            book(*final(self), *final(topology)) == with_optimizations_sent(
                book(*old(self), *old(topology)),
                clock(*old(self)),
                node_ids@,
            ),
            only_phases_changed(*old(self), *old(topology), *final(self), *final(topology)),
    {
        let mut i: usize = 0;
        assert(node_ids@.take(0) =~= Seq::empty());
        while i < node_ids.len()
            invariant
                i <= node_ids.len(),
                book(*self, *topology) == with_optimizations_sent(
                    book(*old(self), *old(topology)),
                    clock(*old(self)),
                    node_ids@.take(i as int),
                ),
                only_phases_changed(*old(self), *old(topology), *self, *topology),
                positions_fit(topology.node_state_sequences@, (node_ids@.len() - i) as nat),
            decreases node_ids.len() - i,
        {
            let node_id = node_ids[i];
            let ghost before = topology.node_state_sequences@;
            proof {
                lemma_take_next(node_ids@, i as int);
                assert(sequence_at(before, node_ids@[i as int]) + 3 * (node_ids@.len() - i)
                    <= u64::MAX);
            }
            self.record_state_sent(topology, node_id, SunNodeState::Optimization);
            self.p1_completed.remove(&node_id);
            self.p2_sent.remove(&node_id);
            proof {
                assert forall|id: u32|
                    #![trigger sequence_at(topology.node_state_sequences@, id)]
                    sequence_at(topology.node_state_sequences@, id) + 3 * (node_ids@.len() - i - 1)
                        <= u64::MAX by {
                    assert(sequence_at(before, id) + 3 * (node_ids@.len() - i) <= u64::MAX);
                }
            }
            i = i + 1;
        }
        assert(node_ids@.take(i as int) =~= node_ids@);
    }
}

} // verus!
