//! The order in which a node of a training graph takes its steps.
//!
//! A node starts, and from then on repeats one training iteration: a phase of
//! propagations under the upward perturbation, a phase under the downward one,
//! and the outcome of both.

use vstd::prelude::*;

use crate::counting::at_least_one;
use crate::nodes::cell::CellState;

verus! {

/// First delay before a failed step is tried again, in milliseconds.
pub const BACKOFF_INITIAL_DELAY_MS: u64 = 100;

/// Longest delay before a failed step is tried again, in milliseconds.
pub const BACKOFF_MAX_DELAY_MS: u64 = 10_000;

/// Growth of the delay from one try to the next.
pub const BACKOFF_MULTIPLIER: u8 = 2;

/// The kinds of nodes in a training graph.
#[derive(Clone, Copy, Debug, PartialEq, Eq, Structural)]
pub enum NodeKind {
    /// One input port and a model.
    Cell,
    /// Two input ports and no model.
    Fusion,
    /// Two input ports and a model.
    QuzoFusion,
    /// One input port, and a warp journey in place of a model.
    Boundary,
    /// One input port and neither; it keeps the seed of the outcome and does
    /// nothing else with it.
    PassiveBoundary,
}

impl NodeKind {
    /// Nodes that own a model perturb and optimize it.
    pub open spec fn owns_model(self) -> bool {
        self is Cell || self is QuzoFusion
    }

    /// Nodes that do something with the outcome of a step.
    pub open spec fn applies_outcome(self) -> bool {
        !(self is Fusion || self is PassiveBoundary)
    }
}

/// The two propagation phases of an iteration.
#[derive(Clone, Copy, Debug, PartialEq, Eq, Structural)]
pub enum Phase {
    Up,
    Down,
}

/// The steps of a node.
#[derive(Clone, Copy, Debug, PartialEq, Eq, Structural)]
pub enum NodeStep {
    /// Take the mailboxes from the seed and start what the node owns.
    Start,
    /// Start counting the microsteps of a phase.
    Begin(Phase),
    /// Perturb the weights for a phase.
    Perturb(Phase),
    /// Await a propagation at every port.
    Receive(Phase),
    /// Process what was received.
    Compute(Phase),
    /// Send the result on.
    Transmit(Phase),
    /// Count a completed microstep.
    Advance(Phase),
    /// Await the outcome of the iteration at every port.
    Outcome,
    /// Apply the outcome.
    Apply,
}

/// What follows the last microstep of a phase.
pub open spec fn after_phase(phase: Phase) -> NodeStep {
    match phase {
        Phase::Up => NodeStep::Begin(Phase::Down),
        Phase::Down => NodeStep::Outcome,
    }
}

/// The step that follows `step`, where `pending` says whether microsteps are
/// left in the current phase.
pub open spec fn step_after(kind: NodeKind, step: NodeStep, pending: bool) -> NodeStep {
    match step {
        NodeStep::Start => NodeStep::Begin(Phase::Up),
        NodeStep::Begin(phase) => if kind.owns_model() {
            NodeStep::Perturb(phase)
        } else if pending {
            NodeStep::Receive(phase)
        } else {
            after_phase(phase)
        },
        NodeStep::Perturb(phase) => if pending {
            NodeStep::Receive(phase)
        } else {
            after_phase(phase)
        },
        NodeStep::Receive(phase) => NodeStep::Compute(phase),
        NodeStep::Compute(phase) => NodeStep::Transmit(phase),
        NodeStep::Transmit(phase) => NodeStep::Advance(phase),
        NodeStep::Advance(phase) => if pending {
            NodeStep::Receive(phase)
        } else {
            after_phase(phase)
        },
        NodeStep::Outcome => if kind.applies_outcome() {
            NodeStep::Apply
        } else {
            NodeStep::Begin(Phase::Up)
        },
        NodeStep::Apply => NodeStep::Begin(Phase::Up),
    }
}

fn phase_or_next(phase: Phase, pending: bool) -> (step: NodeStep)
    ensures
        step == if pending {
            NodeStep::Receive(phase)
        } else {
            after_phase(phase)
        },
{
    if pending {
        NodeStep::Receive(phase)
    } else {
        match phase {
            Phase::Up => NodeStep::Begin(Phase::Down),
            Phase::Down => NodeStep::Outcome,
        }
    }
}

/// The step that follows `step`.
pub fn next_step(kind: NodeKind, step: NodeStep, pending: bool) -> (next: NodeStep)
    ensures
        next == step_after(kind, step, pending),
{
    match step {
        NodeStep::Start => NodeStep::Begin(Phase::Up),
        NodeStep::Begin(phase) => match kind {
            NodeKind::Cell | NodeKind::QuzoFusion => NodeStep::Perturb(phase),
            NodeKind::Fusion | NodeKind::Boundary | NodeKind::PassiveBoundary => phase_or_next(phase, pending),
        },
        NodeStep::Perturb(phase) => phase_or_next(phase, pending),
        NodeStep::Receive(phase) => NodeStep::Compute(phase),
        NodeStep::Compute(phase) => NodeStep::Transmit(phase),
        NodeStep::Transmit(phase) => NodeStep::Advance(phase),
        NodeStep::Advance(phase) => phase_or_next(phase, pending),
        NodeStep::Outcome => match kind {
            NodeKind::Fusion | NodeKind::PassiveBoundary => NodeStep::Begin(Phase::Up),
            _ => NodeStep::Apply,
        },
        NodeStep::Apply => NodeStep::Begin(Phase::Up),
    }
}

/// How many microsteps of the phase are done after `step`.
pub open spec fn done_after(step: NodeStep, done: nat) -> nat {
    match step {
        NodeStep::Begin(_) => 0,
        NodeStep::Advance(_) => done + 1,
        _ => done,
    }
}

/// The first `count` steps a node takes from `step` on, with `done` of its
/// `steps` microsteps done.
pub open spec fn walk(kind: NodeKind, step: NodeStep, done: nat, steps: nat, count: nat) -> Seq<
    NodeStep,
>
    decreases count,
{
    if count == 0 {
        Seq::empty()
    } else {
        let after = done_after(step, done);
        seq![step] + walk(
            kind,
            step_after(kind, step, after < steps),
            after,
            steps,
            (count - 1) as nat,
        )
    }
}

/// `count` microsteps of a phase.
pub open spec fn microsteps(phase: Phase, count: nat) -> Seq<NodeStep>
    decreases count,
{
    if count == 0 {
        Seq::empty()
    } else {
        seq![
            NodeStep::Receive(phase),
            NodeStep::Compute(phase),
            NodeStep::Transmit(phase),
            NodeStep::Advance(phase),
        ] + microsteps(phase, (count - 1) as nat)
    }
}

/// One phase of an iteration.
pub open spec fn phase_steps(kind: NodeKind, phase: Phase, steps: nat) -> Seq<NodeStep> {
    (if kind.owns_model() {
        seq![NodeStep::Begin(phase), NodeStep::Perturb(phase)]
    } else {
        seq![NodeStep::Begin(phase)]
    }) + microsteps(phase, steps)
}

/// One iteration: `steps` propagations upward, `steps` downward, the outcome.
pub open spec fn iteration(kind: NodeKind, steps: nat) -> Seq<NodeStep> {
    phase_steps(kind, Phase::Up, steps) + phase_steps(kind, Phase::Down, steps) + (
    if kind.applies_outcome() {
        seq![NodeStep::Outcome, NodeStep::Apply]
    } else {
        seq![NodeStep::Outcome]
    })
}

proof fn lemma_walk_microsteps(kind: NodeKind, phase: Phase, done: nat, steps: nat, more: nat)
    requires
        done < steps,
    ensures
        walk(
            kind,
            NodeStep::Receive(phase),
            done,
            steps,
            (4 * (steps - done) + more) as nat,
        ) == microsteps(phase, (steps - done) as nat) + walk(
            kind,
            after_phase(phase),
            steps,
            steps,
            more,
        ),
    decreases steps - done,
{
    reveal_with_fuel(walk, 5);
    let left = (steps - done) as nat;
    let count = (4 * left + more) as nat;
    let next = step_after(kind, NodeStep::Advance(phase), done + 1 < steps);
    let rest = walk(kind, next, done + 1, steps, (count - 4) as nat);
    let four = seq![
        NodeStep::Receive(phase),
        NodeStep::Compute(phase),
        NodeStep::Transmit(phase),
        NodeStep::Advance(phase),
    ];
    assert(walk(kind, NodeStep::Receive(phase), done, steps, count) =~= four + rest);
    if left > 1 {
        lemma_walk_microsteps(kind, phase, done + 1, steps, more);
        assert(4 * (steps - (done + 1)) + more == count - 4);
    } else {
        assert(microsteps(phase, 0) =~= Seq::empty());
        assert(rest == walk(kind, after_phase(phase), steps, steps, more));
    }
    assert(microsteps(phase, left) =~= four + microsteps(phase, (left - 1) as nat));
    assert(four + rest =~= microsteps(phase, left) + walk(
        kind,
        after_phase(phase),
        steps,
        steps,
        more,
    ));
}

proof fn lemma_walk_phase(kind: NodeKind, phase: Phase, done: nat, steps: nat, more: nat)
    requires
        steps > 0,
    ensures
        walk(
            kind,
            NodeStep::Begin(phase),
            done,
            steps,
            phase_steps(kind, phase, steps).len() + more,
        ) == phase_steps(kind, phase, steps) + walk(
            kind,
            after_phase(phase),
            steps,
            steps,
            more,
        ),
{
    reveal_with_fuel(walk, 3);
    lemma_microsteps_len(phase, steps);
    lemma_walk_microsteps(kind, phase, 0, steps, more);
    let count = phase_steps(kind, phase, steps).len() + more;
    let rest = walk(kind, NodeStep::Receive(phase), 0, steps, (4 * steps + more) as nat);
    if kind.owns_model() {
        assert(walk(kind, NodeStep::Begin(phase), done, steps, count) =~= seq![
            NodeStep::Begin(phase),
            NodeStep::Perturb(phase),
        ] + rest);
    } else {
        assert(walk(kind, NodeStep::Begin(phase), done, steps, count) =~= seq![
            NodeStep::Begin(phase),
        ] + rest);
    }
    assert(walk(kind, NodeStep::Begin(phase), done, steps, count) =~= phase_steps(
        kind,
        phase,
        steps,
    ) + walk(kind, after_phase(phase), steps, steps, more));
}

proof fn lemma_microsteps_len(phase: Phase, count: nat)
    ensures
        microsteps(phase, count).len() == 4 * count,
    decreases count,
{
    if count > 0 {
        lemma_microsteps_len(phase, (count - 1) as nat);
    }
}

/// Whatever went before, a node that begins an iteration perturbs its weights
/// upward, runs all its microsteps, perturbs them downward, runs all its
/// microsteps again, takes the outcome, and begins the next iteration.
pub proof fn law_iterations_repeat(kind: NodeKind, done: nat, steps: nat, more: nat)
    requires
        steps > 0,
    ensures
        walk(
            kind,
            NodeStep::Begin(Phase::Up),
            done,
            steps,
            iteration(kind, steps).len() + more,
        ) == iteration(kind, steps) + walk(
            kind,
            NodeStep::Begin(Phase::Up),
            steps,
            steps,
            more,
        ),
{
    let up = phase_steps(kind, Phase::Up, steps);
    let down = phase_steps(kind, Phase::Down, steps);
    let tail = if kind.applies_outcome() {
        seq![NodeStep::Outcome, NodeStep::Apply]
    } else {
        seq![NodeStep::Outcome]
    };
    let again = walk(kind, NodeStep::Begin(Phase::Up), steps, steps, more);
    lemma_walk_phase(kind, Phase::Up, done, steps, down.len() + tail.len() + more);
    lemma_walk_phase(kind, Phase::Down, steps, steps, tail.len() + more);
    reveal_with_fuel(walk, 3);
    assert(walk(kind, NodeStep::Outcome, steps, steps, tail.len() + more) =~= tail + again);
    assert(iteration(kind, steps).len() + more == up.len() + (down.len() + tail.len() + more));
    assert(up + (down + (tail + again)) =~= iteration(kind, steps) + again);
}

/// A cell moves through its iteration by its own count of microsteps.
pub fn next_cell_step<S>(state: &CellState<S>, step: NodeStep) -> (next: NodeStep)
    ensures
        next == step_after(NodeKind::Cell, step, state.microsteps_left() > 0),
{
    next_step(NodeKind::Cell, step, state.grad_step < at_least_one(state.grad_steps))
}

} // verus!
