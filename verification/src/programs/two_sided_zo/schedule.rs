//! One tick of an epoch's schedule: seed the roots that are due a step, then
//! take in one completed step.

use std::collections::HashMap;

use vstd::prelude::*;

use crate::collections::{ascending, lemma_take_next};
use crate::error::AtomError;
use crate::failure::{one_number, refused_at, refused_by, says, Failure};
use crate::ids::ObjectId;
use crate::message::Transmission;
use crate::programs::two_sided_zo::effect::{
    NodeTransmission, RootPropagationSend, WaitForNodeTransmissionInput,
};
use crate::programs::two_sided_zo::phase::{
    book, clock, only_phases_changed, positions_fit, steps_in, with_propagation_completed,
    with_propagation_sent, with_propagations_sent, EpochClock, PhaseBook,
};
use crate::programs::two_sided_zo::pipeline::{
    has_step_target, next_task, output_box, ready_nodes, ready_set, sent_in, step_target,
    step_target_of, task_for_node, task_output_id, Task,
};
use crate::programs::two_sided_zo::{SunState, TwoSidedZoInner};
use crate::topology::frontier::{root_vertex_ids, roots};
use crate::topology::graph::{list_at, lists};
use crate::topology::observe::sequence_at;
use crate::topology::targets::somes;
use crate::topology::{PortTarget, PropagationTarget, SunNodeState, SunTopology};

verus! {

broadcast use vstd::std_specs::hash::group_hash_axioms;

/// The step that a node takes next in the configured epoch.
pub open spec fn task_now<S>(state: SunState<S>, node: u32) -> Option<Task> {
    next_task(state, node, steps_in(clock(state.shared)))
}

/// The step that a root is due to be sent, if it has not been yet.
pub open spec fn unsent_task<S>(state: SunState<S>, root: u32) -> Option<Task> {
    match task_now(state, root) {
        Some(task) => if sent_in(state, task.phase, root) >= task.step {
            None
        } else {
            Some(task)
        },
        None => None,
    }
}

/// The generated propagations of a pass.
pub open spec fn generated<S>(state: SunState<S>, phase: SunNodeState) -> Seq<Transmission> {
    if phase == SunNodeState::Propagation1 {
        state.propagation_up_inputs@
    } else {
        state.propagation_down_inputs@
    }
}

/// The sends due to one root: its next step, to each of its ports.
pub open spec fn sends_to<S>(state: SunState<S>, root: u32) -> Seq<RootPropagationSend> {
    match unsent_task(state, root) {
        Some(task) => list_at(lists(state.topology.vertex_ports@), root).map_values(
            |port: u32|
                RootPropagationSend {
                    target: step_target_of(state, task.phase, task.step as int, port),
                    transmission: generated(state, task.phase)[task.step - 1],
                },
        ),
        None => Seq::empty(),
    }
}

/// The sends due to the listed roots, root by root.
pub open spec fn sends_to_all<S>(state: SunState<S>, root_ids: Seq<u32>) -> Seq<RootPropagationSend>
    decreases root_ids.len(),
{
    if root_ids.len() == 0 {
        Seq::empty()
    } else {
        sends_to_all(state, root_ids.drop_last()) + sends_to(state, root_ids.last())
    }
}

/// The propagations and mailboxes of everything due to the roots are known.
pub open spec fn roots_addressable<S>(state: SunState<S>) -> bool {
    &&& forall|root: u32| #[trigger]
        roots(state.topology).contains(root) ==> (unsent_task(state, root) matches Some(task)
            ==> task.step <= generated(state, task.phase).len())
    &&& forall|root: u32, i: int|
        #![trigger list_at(lists(state.topology.vertex_ports@), root)[i]]
        roots(state.topology).contains(root) && unsent_task(state, root) is Some && 0 <= i
            < list_at(lists(state.topology.vertex_ports@), root).len() ==> has_step_target(
            state,
            unsent_task(state, root)->0.phase,
            unsent_task(state, root)->0.step as int,
            list_at(lists(state.topology.vertex_ports@), root)[i],
        )
}

/// Each node that was sent a step, with that step.
pub open spec fn tasks_sent<S>(state: SunState<S>, sent: Seq<u32>) -> Seq<(u32, Task)> {
    somes(
        sent.map_values(
            |node: u32|
                match task_now(state, node) {
                    Some(task) => Some((node, task)),
                    None => None,
                },
        ),
    )
}

/// The counters of a pass after steps of it were sent.
pub open spec fn counters_after(
    counters: Map<u32, usize>,
    tasks: Seq<(u32, Task)>,
    phase: SunNodeState,
) -> Map<u32, usize>
    decreases tasks.len(),
{
    if tasks.len() == 0 {
        counters
    } else {
        let before = counters_after(counters, tasks.drop_last(), phase);
        if tasks.last().1.phase == phase {
            before.insert(tasks.last().0, tasks.last().1.step)
        } else {
            before
        }
    }
}

/// The epoch stands at the step that was sent last.
pub open spec fn clock_after(clock: EpochClock, tasks: Seq<(u32, Task)>) -> EpochClock {
    if tasks.len() == 0 {
        clock
    } else {
        EpochClock { active_micro_step: (tasks.last().1.step - 1) as usize, ..clock }
    }
}

/// The phases after steps were sent, each recorded at its own step.
pub open spec fn book_after(book: PhaseBook, clock: EpochClock, tasks: Seq<(u32, Task)>) -> PhaseBook
    decreases tasks.len(),
{
    if tasks.len() == 0 {
        book
    } else {
        with_propagation_sent(
            book_after(book, clock, tasks.drop_last()),
            clock_after(clock, tasks),
            tasks.last().0,
            tasks.last().1.phase,
        )
    }
}

/// Only the phase records and the current step changed.
pub open spec fn only_progress_changed(
    inner: TwoSidedZoInner,
    topology: SunTopology,
    next_inner: TwoSidedZoInner,
    next_topology: SunTopology,
) -> bool {
    only_phases_changed(
        TwoSidedZoInner { active_micro_step: next_inner.active_micro_step, ..inner },
        topology,
        next_inner,
        next_topology,
    )
}

/// Seeds any root steps that are due and have not been sent yet.
pub struct SendReadyRootTasks;

impl SendReadyRootTasks {
    /// The propagations due to the roots, with their mailboxes.
    pub fn emit<S>(state: &SunState<S>) -> (sends: Vec<RootPropagationSend>)
        requires
            roots_addressable(*state),
        ensures
            sends@ == sends_to_all(*state, ascending(roots(state.topology))),
    {
        let grad_steps = state.shared.steps();
        let root_ids = root_vertex_ids(&state.topology);
        let mut sends: Vec<RootPropagationSend> = Vec::new();
        let mut i: usize = 0;
        assert(root_ids@.take(0) =~= Seq::empty());
        while i < root_ids.len()
            invariant
                i <= root_ids.len(),
                grad_steps == steps_in(clock(state.shared)),
                roots_addressable(*state),
                root_ids@.to_set() == roots(state.topology),
                sends@ == sends_to_all(*state, root_ids@.take(i as int)),
            decreases root_ids.len() - i,
        {
            let root = root_ids[i];
            let ghost before = sends@;
            let ghost due = sends_to(*state, root);
            proof {
                lemma_take_next(root_ids@, i as int);
                assert(root_ids@.contains(root));
                assert(root_ids@.to_set().contains(root));
                assert(before + due.take(0) =~= before);
            }
            match task_for_node(state, root, grad_steps) {
                Some(task) => {
                    let already: usize = if task.phase == SunNodeState::Propagation1 {
                        match state.root_p1_sent.get(&root) {
                            Some(count) => *count,
                            None => 0,
                        }
                    } else {
                        match state.root_p2_sent.get(&root) {
                            Some(count) => *count,
                            None => 0,
                        }
                    };
                    assert(already == sent_in(*state, task.phase, root));
                    if already < task.step {
                        assert(unsent_task(*state, root) == Some(task));
                        let transmission = if task.phase == SunNodeState::Propagation1 {
                            state.propagation_up_inputs[task.step - 1]
                        } else {
                            state.propagation_down_inputs[task.step - 1]
                        };
                        match state.topology.vertex_ports.get(&root) {
                            Some(ports) => {
                                let mut j: usize = 0;
                                while j < ports.len()
                                    invariant
                                        j <= ports.len(),
                                        roots_addressable(*state),
                                        roots(state.topology).contains(root),
                                        unsent_task(*state, root) == Some(task),
                                        task.step > 0,
                                        list_at(lists(state.topology.vertex_ports@), root)
                                            == ports@,
                                        due == sends_to(*state, root),
                                        due.len() == ports@.len(),
                                        transmission == generated(*state, task.phase)[task.step
                                            - 1],
                                        sends@ == before + due.take(j as int),
                                    decreases ports.len() - j,
                                {
                                    proof {
                                        lemma_take_next(due, j as int);
                                        assert(list_at(
                                            lists(state.topology.vertex_ports@),
                                            root,
                                        )[j as int] == ports@[j as int]);
                                    }
                                    sends.push(
                                        RootPropagationSend {
                                            target: step_target(
                                                state,
                                                task.phase,
                                                task.step,
                                                ports[j],
                                            ),
                                            transmission,
                                        },
                                    );
                                    assert(sends@ =~= before + due.take(j + 1));
                                    j = j + 1;
                                }
                                assert(due.take(j as int) =~= due);
                            },
                            None => {
                                assert(due =~= Seq::empty());
                                assert(before + due =~= before);
                            },
                        }
                    } else {
                        assert(before + due =~= before);
                    }
                },
                None => {
                    assert(before + due =~= before);
                },
            }
            i = i + 1;
        }
        assert(root_ids@.take(i as int) =~= root_ids@);
        sends
    }

    /// Counts the steps that were sent and records the phases they reveal.
    pub fn absorb<S>(state: &mut SunState<S>, output: Result<Vec<u32>, AtomError>) -> (result:
        Result<(), Failure>)
        requires
            output matches Ok(sent) ==> positions_fit(
                old(state).topology.node_state_sequences@,
                sent@.len(),
            ),
        ensures
            match output {
                Ok(sent) => {
                    let tasks = tasks_sent(*old(state), sent@);
                    &&& result is Ok
                    &&& *final(state) == (SunState {
                        topology: final(state).topology,
                        shared: final(state).shared,
                        root_p1_sent: final(state).root_p1_sent,
                        root_p2_sent: final(state).root_p2_sent,
                        ..*old(state)
                    })
                    &&& final(state).root_p1_sent@ == counters_after(
                        old(state).root_p1_sent@,
                        tasks,
                        SunNodeState::Propagation1,
                    )
                    &&& final(state).root_p2_sent@ == counters_after(
                        old(state).root_p2_sent@,
                        tasks,
                        SunNodeState::Propagation2,
                    )
                    &&& clock(final(state).shared) == clock_after(clock(old(state).shared), tasks)
                    &&& book(final(state).shared, final(state).topology) == book_after(
                        book(old(state).shared, old(state).topology),
                        clock(old(state).shared),
                        tasks,
                    )
                    &&& only_progress_changed(
                        old(state).shared,
                        old(state).topology,
                        final(state).shared,
                        final(state).topology,
                    )
                },
                Err(error) => {
                    &&& result matches Err(failure) && says(
                        failure,
                        "send ready roots failed: "@ + error.text(),
                    )
                    &&& *final(state) == *old(state)
                },
            },
    {
        let sent = match output {
            Ok(sent) => sent,
            Err(error) => {
                return Err(refused_by("send ready roots failed: ", &error));
            },
        };
        let ghost due = sent@.map_values(
            |node: u32|
                match task_now(*old(state), node) {
                    Some(task) => Some((node, task)),
                    None => None,
                },
        );
        let ghost clock0 = clock(old(state).shared);
        let ghost book0 = book(old(state).shared, old(state).topology);
        let grad_steps = state.shared.steps();
        let mut i: usize = 0;
        assert(due.take(0) =~= Seq::empty());
        while i < sent.len()
            invariant
                i <= sent.len(),
                due == sent@.map_values(
                    |node: u32|
                        match task_now(*old(state), node) {
                            Some(task) => Some((node, task)),
                            None => None,
                        },
                ),
                grad_steps == steps_in(clock(old(state).shared)),
                clock0 == clock(old(state).shared),
                book0 == book(old(state).shared, old(state).topology),
                *state == (SunState {
                    topology: state.topology,
                    shared: state.shared,
                    root_p1_sent: state.root_p1_sent,
                    root_p2_sent: state.root_p2_sent,
                    ..*old(state)
                }),
                state.root_p1_sent@ == counters_after(
                    old(state).root_p1_sent@,
                    somes(due.take(i as int)),
                    SunNodeState::Propagation1,
                ),
                state.root_p2_sent@ == counters_after(
                    old(state).root_p2_sent@,
                    somes(due.take(i as int)),
                    SunNodeState::Propagation2,
                ),
                clock(state.shared) == clock_after(clock0, somes(due.take(i as int))),
                book(state.shared, state.topology) == book_after(
                    book0,
                    clock0,
                    somes(due.take(i as int)),
                ),
                only_progress_changed(
                    old(state).shared,
                    old(state).topology,
                    state.shared,
                    state.topology,
                ),
                positions_fit(state.topology.node_state_sequences@, (sent@.len() - i) as nat),
            decreases sent.len() - i,
        {
            let node = sent[i];
            let ghost before = state.topology.node_state_sequences@;
            let ghost tasks = somes(due.take(i as int));
            proof {
                lemma_take_next(due, i as int);
                assert(sequence_at(before, node) + 3 * (sent@.len() - i) <= u64::MAX);
                assert(task_now(*state, node) == task_now(*old(state), node));
            }
            match task_for_node(state, node, grad_steps) {
                Some(task) => {
                    proof {
                        assert(somes(due.take(i + 1)) == tasks.push((node, task)));
                        assert(tasks.push((node, task)).drop_last() =~= tasks);
                    }
                    if task.phase == SunNodeState::Propagation1 {
                        state.root_p1_sent.insert(node, task.step);
                    } else {
                        state.root_p2_sent.insert(node, task.step);
                    }
                    state.shared.active_micro_step = task.step - 1;
                    let mut one: Vec<u32> = Vec::new();
                    one.push(node);
                    proof {
                        assert forall|id: u32|
                            #![trigger sequence_at(state.topology.node_state_sequences@, id)]
                            sequence_at(state.topology.node_state_sequences@, id) + 3 * one@.len()
                                <= u64::MAX by {
                            assert(sequence_at(before, id) + 3 * (sent@.len() - i) <= u64::MAX);
                        }
                    }
                    state.shared.record_propagation_sent(&mut state.topology, &one, task.phase);
                    proof {
                        assert(one@.drop_last() =~= Seq::empty());
                        reveal_with_fuel(with_propagations_sent, 2);
                    }
                },
                None => {},
            }
            proof {
                assert forall|id: u32|
                    #![trigger sequence_at(state.topology.node_state_sequences@, id)]
                    sequence_at(state.topology.node_state_sequences@, id) + 3 * (sent@.len() - i
                        - 1) <= u64::MAX by {
                    assert(sequence_at(before, id) + 3 * (sent@.len() - i) <= u64::MAX);
                    assert(book(state.shared, state.topology).sequences
                        == state.topology.node_state_sequences@);
                }
            }
            i = i + 1;
        }
        assert(due.take(i as int) =~= due);
        Ok(())
    }
}

/// The mailboxes of everything the ready nodes can forward are known.
pub open spec fn ready_addressable<S>(state: SunState<S>) -> bool {
    forall|node: u32, i: int|
        #![trigger list_at(state.topology.outgoing_edges(), node)[i]]
        ready_set(state).contains(node) && 0 <= i < list_at(
            state.topology.outgoing_edges(),
            node,
        ).len() ==> has_step_target(
            state,
            task_now(state, node)->0.phase,
            task_now(state, node)->0.step as int,
            list_at(state.topology.outgoing_edges(), node)[i].port_id,
        )
}

/// Where `node` publishes its next step, if that is known.
pub open spec fn task_endpoint<S>(state: SunState<S>, node: u32) -> Option<(u32, ObjectId)> {
    match task_now(state, node) {
        Some(task) => match output_box(state, task.phase, task.step as int, node) {
            Some(output) => Some((node, output)),
            None => None,
        },
        None => None,
    }
}

/// Where `node` forwards its next step.
pub open spec fn task_targets<S>(state: SunState<S>, node: u32) -> Seq<PropagationTarget> {
    list_at(state.topology.outgoing_edges(), node).map_values(
        |edge: PortTarget|
            step_target_of(
                state,
                task_now(state, node)->0.phase,
                task_now(state, node)->0.step as int,
                edge.port_id,
            ),
    )
}

fn collect_task_targets<S>(state: &SunState<S>, node: u32, task: Task) -> (targets: Vec<
    PropagationTarget,
>)
    requires
        ready_addressable(*state),
        ready_set(*state).contains(node),
        task_now(*state, node) == Some(task),
    ensures
        targets@ == task_targets(*state, node),
{
    let ghost wanted = task_targets(*state, node);
    let mut targets: Vec<PropagationTarget> = Vec::new();
    match state.topology.outgoing.get(&node) {
        Some(edges) => {
            let mut i: usize = 0;
            while i < edges.len()
                invariant
                    i <= edges.len(),
                    ready_addressable(*state),
                    ready_set(*state).contains(node),
                    task_now(*state, node) == Some(task),
                    task.step > 0,
                    list_at(state.topology.outgoing_edges(), node) == edges@,
                    wanted == task_targets(*state, node),
                    targets@ == wanted.take(i as int),
                decreases edges.len() - i,
            {
                proof {
                    lemma_take_next(wanted, i as int);
                    assert(list_at(state.topology.outgoing_edges(), node)[i as int]
                        == edges@[i as int]);
                }
                targets.push(step_target(state, task.phase, task.step, edges[i].port_id));
                i = i + 1;
            }
        },
        None => {},
    }
    assert(targets@ =~= wanted);
    targets
}

/// The counter of the completed pass moves on; nothing else of the counters
/// changes.
pub open spec fn step_counted<S>(before: SunState<S>, after: SunState<S>, node: u32, task: Task) -> bool {
    &&& after.node_p1_completed@ == if task.phase == SunNodeState::Propagation1 {
        before.node_p1_completed@.insert(node, task.step)
    } else {
        before.node_p1_completed@
    }
    &&& after.node_p2_completed@ == if task.phase == SunNodeState::Propagation2 {
        before.node_p2_completed@.insert(node, task.step)
    } else {
        before.node_p2_completed@
    }
    &&& after.pipeline_completions == if before.pipeline_completions < usize::MAX {
        (before.pipeline_completions + 1) as usize
    } else {
        usize::MAX
    }
}

/// The counter that the next step of `node` moves exists.
pub open spec fn has_counter<S>(state: SunState<S>, node: u32, phase: SunNodeState) -> bool {
    if phase == SunNodeState::Propagation1 {
        state.node_p1_completed@.contains_key(node)
    } else {
        state.node_p2_completed@.contains_key(node)
    }
}

/// A second-pass output of the sink comes without its first-pass partner.
pub open spec fn lacks_partner<S>(state: SunState<S>, node: u32, task: Task) -> bool {
    state.sink_id == Some(node) && task.phase == SunNodeState::Propagation2 && task.step
        > state.propagation_up_outputs@.len()
}

/// The state after `node` completed `task` with `transmission`.
pub open spec fn step_absorbed<S>(
    before: SunState<S>,
    after: SunState<S>,
    completion: NodeTransmission,
    task: Task,
) -> bool {
    let node = completion.node_id;
    let at_sink = before.sink_id == Some(node);
    let now = EpochClock {
        active_micro_step: (task.step - 1) as usize,
        ..clock(before.shared)
    };
    &&& after == (SunState {
        topology: after.topology,
        shared: after.shared,
        node_p1_completed: after.node_p1_completed,
        node_p2_completed: after.node_p2_completed,
        pipeline_completions: after.pipeline_completions,
        propagation_up_outputs: after.propagation_up_outputs,
        propagation_pairs: after.propagation_pairs,
        ..before
    })
    &&& step_counted(before, after, node, task)
    &&& after.propagation_up_outputs@ == if at_sink && task.phase == SunNodeState::Propagation1 {
        before.propagation_up_outputs@.push(completion.transmission)
    } else {
        before.propagation_up_outputs@
    }
    &&& after.propagation_pairs@ == if at_sink && task.phase == SunNodeState::Propagation2 {
        before.propagation_pairs@.push(
            (before.propagation_up_outputs@[task.step - 1], completion.transmission),
        )
    } else {
        before.propagation_pairs@
    }
    &&& clock(after.shared) == now
    &&& book(after.shared, after.topology) == with_propagations_sent(
        with_propagation_completed(
            book(before.shared, before.topology),
            now,
            node,
            task.phase,
        ),
        now,
        completion.sent_node_ids@,
        task.phase,
    )
    &&& only_progress_changed(before.shared, before.topology, after.shared, after.topology)
}

/// Why a completion was refused.
pub open spec fn explains_refused_step<S>(state: SunState<S>, node: u32, failure: Failure) -> bool {
    match task_now(state, node) {
        None => says(
            failure,
            one_number("completed node "@, node as nat, " has no active pipeline task"@),
        ),
        Some(task) => if !has_counter(state, node, task.phase) {
            says(
                failure,
                if task.phase == SunNodeState::Propagation1 {
                    one_number("missing p1 counter for node "@, node as nat, ""@)
                } else {
                    one_number("missing p2 counter for node "@, node as nat, ""@)
                },
            )
        } else {
            says(
                failure,
                one_number(
                    "missing first-pass sink output for step "@,
                    task.step as nat,
                    " before second-pass output"@,
                ),
            )
        },
    }
}

/// What comes of one outcome of a wait: the step is taken in, or it is refused
/// and says why. Only a missing first-pass partner is noticed after the step
/// was counted.
pub open spec fn step_taken<S>(
    before: SunState<S>,
    output: Result<NodeTransmission, AtomError>,
    after: SunState<S>,
    result: Result<(), Failure>,
) -> bool {
    match output {
        Ok(completion) => {
            let node = completion.node_id;
            let task = task_now(before, node);
            &&& result is Ok <==> task is Some && has_counter(before, node, task->0.phase)
                && !lacks_partner(before, node, task->0)
            &&& result is Ok ==> step_absorbed(before, after, completion, task->0)
            &&& result matches Err(failure) ==> {
                &&& explains_refused_step(before, node, failure)
                &&& if task is None || !has_counter(before, node, task->0.phase) {
                    after == before
                } else {
                    &&& after == (SunState {
                        node_p2_completed: after.node_p2_completed,
                        pipeline_completions: after.pipeline_completions,
                        ..before
                    })
                    &&& step_counted(before, after, node, task->0)
                }
            }
        },
        Err(error) => {
            &&& result matches Err(failure) && says(
                failure,
                "wait for ready pipeline node failed: "@ + error.text(),
            )
            &&& after == before
        },
    }
}

/// Waits for the next ready step to complete and advances the epoch.
pub struct ProcessReadyPipelineNode;

impl ProcessReadyPipelineNode {
    /// Where the ready nodes publish, and where each forwards to.
    pub fn emit<S>(state: &SunState<S>) -> (input: WaitForNodeTransmissionInput)
        requires
            ready_addressable(*state),
        ensures
            input.rx_endpoints@ == somes(
                ascending(ready_set(*state)).map_values(|node: u32| task_endpoint(*state, node)),
            ),
            forall|node: u32| #[trigger]
                input.downstream@.contains_key(node) <==> ready_set(*state).contains(node)
                    && list_at(state.topology.outgoing_edges(), node).len() > 0,
            forall|node: u32| #[trigger]
                input.downstream@.contains_key(node) ==> input.downstream@[node]@ == task_targets(
                    *state,
                    node,
                ),
    {
        let grad_steps = state.shared.steps();
        let ready = ready_nodes(state);
        let ghost found = ready@.map_values(|node: u32| task_endpoint(*state, node));
        let mut rx_endpoints: Vec<(u32, ObjectId)> = Vec::new();
        let mut downstream: HashMap<u32, Vec<PropagationTarget>> = HashMap::new();
        let mut i: usize = 0;
        assert(found.take(0) =~= Seq::empty());
        while i < ready.len()
            invariant
                i <= ready.len(),
                grad_steps == steps_in(clock(state.shared)),
                ready_addressable(*state),
                ready@.to_set() == ready_set(*state),
                found == ready@.map_values(|node: u32| task_endpoint(*state, node)),
                rx_endpoints@ == somes(found.take(i as int)),
                forall|node: u32| #[trigger]
                    downstream@.contains_key(node) <==> ready@.take(i as int).contains(node)
                        && list_at(state.topology.outgoing_edges(), node).len() > 0,
                forall|node: u32| #[trigger]
                    downstream@.contains_key(node) ==> downstream@[node]@ == task_targets(
                        *state,
                        node,
                    ),
            decreases ready.len() - i,
        {
            let node = ready[i];
            proof {
                lemma_take_next(ready@, i as int);
                lemma_take_next(found, i as int);
                assert(ready@.contains(node));
                assert(ready@.to_set().contains(node));
            }
            let task = task_for_node(state, node, grad_steps).unwrap();
            match task_output_id(state, node, task.phase, task.step) {
                Some(output) => {
                    rx_endpoints.push((node, output));
                },
                None => {},
            }
            let targets = collect_task_targets(state, node, task);
            if targets.len() > 0 {
                downstream.insert(node, targets);
            }
            i = i + 1;
        }
        proof {
            assert(ready@.take(i as int) =~= ready@);
            assert(found.take(i as int) =~= found);
            assert forall|node: u32| ready@.contains(node) <==> ready_set(*state).contains(
                node,
            ) by {
                assert(ready@.to_set().contains(node) <==> ready_set(*state).contains(node));
            }
        }
        WaitForNodeTransmissionInput { rx_endpoints, downstream }
    }

    /// Takes in one completed step. At the sink a first-pass output is kept,
    /// and a second-pass output is paired with the first-pass output of its
    /// step.
    pub fn absorb<S>(state: &mut SunState<S>, output: Result<NodeTransmission, AtomError>) -> (result:
        Result<(), Failure>)
        requires
            output matches Ok(completion) ==> positions_fit(
                old(state).topology.node_state_sequences@,
                completion.sent_node_ids@.len() + 1,
            ),
        ensures
            step_taken(*old(state), output, *final(state), result),
    {
        let completion = match output {
            Ok(completion) => completion,
            Err(error) => {
                return Err(refused_by("wait for ready pipeline node failed: ", &error));
            },
        };
        let node_id = completion.node_id;
        let grad_steps = state.shared.steps();
        let task = match task_for_node(state, node_id, grad_steps) {
            Some(task) => task,
            None => {
                return Err(
                    refused_at(
                        "completed node ",
                        node_id as u64,
                        " has no active pipeline task",
                    ),
                );
            },
        };
        let first = task.phase == SunNodeState::Propagation1;
        if first {
            if !state.node_p1_completed.contains_key(&node_id) {
                return Err(refused_at("missing p1 counter for node ", node_id as u64, ""));
            }
            state.node_p1_completed.insert(node_id, task.step);
        } else {
            if !state.node_p2_completed.contains_key(&node_id) {
                return Err(refused_at("missing p2 counter for node ", node_id as u64, ""));
            }
            state.node_p2_completed.insert(node_id, task.step);
        }
        if state.pipeline_completions < usize::MAX {
            state.pipeline_completions = state.pipeline_completions + 1;
        }
        let at_sink: bool = match state.sink_id {
            Some(sink) => sink == node_id,
            None => false,
        };
        if at_sink {
            if first {
                state.propagation_up_outputs.push(completion.transmission);
            } else {
                if task.step > state.propagation_up_outputs.len() {
                    return Err(
                        refused_at(
                            "missing first-pass sink output for step ",
                            task.step as u64,
                            " before second-pass output",
                        ),
                    );
                }
                let up = state.propagation_up_outputs[task.step - 1];
                state.propagation_pairs.push((up, completion.transmission));
            }
        }
        state.shared.active_micro_step = task.step - 1;
        proof {
            assert(sequence_at(old(state).topology.node_state_sequences@, node_id) + 3 * (
            completion.sent_node_ids@.len() + 1) <= u64::MAX);
        }
        state.shared.record_propagation_completed(&mut state.topology, node_id, task.phase);
        proof {
            assert forall|id: u32|
                #![trigger sequence_at(state.topology.node_state_sequences@, id)]
                sequence_at(state.topology.node_state_sequences@, id) + 3
                    * completion.sent_node_ids@.len() <= u64::MAX by {
                assert(sequence_at(old(state).topology.node_state_sequences@, id) + 3 * (
                completion.sent_node_ids@.len() + 1) <= u64::MAX);
                assert(book(state.shared, state.topology).sequences
                    == state.topology.node_state_sequences@);
            }
        }
        state.shared.record_propagation_sent(
            &mut state.topology,
            &completion.sent_node_ids,
            task.phase,
        );
        Ok(())
    }
}

} // verus!
