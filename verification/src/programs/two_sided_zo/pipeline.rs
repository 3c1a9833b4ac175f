//! The per-node schedule of an epoch: every node takes all of its first-pass
//! steps, then all of its second-pass steps, each as soon as its inputs are
//! there.

use std::collections::HashMap;

use vstd::prelude::*;

use crate::collections::{
    ascending, lemma_ascending, lemma_push_set, lemma_take_next, strictly_increasing,
};
use crate::counting::{at_least_one, spec_at_least_one};
use crate::error::AtomError;
use crate::failure::{one_number, refused, refused_at, refused_between, says, two_numbers, Failure};
use crate::ids::ObjectId;
use crate::mailbox::{
    all_cover, all_random, all_zero, allocate_inputs, draw_maps, empty_maps, first_missing,
    ids_below, inputs_allocated, keep_below, zero_counts,
};
use crate::message::Transmission;

use crate::programs::two_sided_zo::phase::{clock, steps_in};
use crate::programs::two_sided_zo::{SunState, TwoSidedZoInner};
use crate::topology::frontier::{count_at, port_ids, root_vertex_ids, roots, vertex_ids};
use crate::topology::graph::list_at;
use crate::topology::targets::is_root;
use crate::topology::{PropagationTarget, SunNodeState, SunTopology};

verus! {

broadcast use vstd::std_specs::hash::group_hash_axioms;

/// One step of one pass of a node; steps are counted from one.
#[derive(Clone, Copy, Debug, PartialEq, Eq, Structural)]
pub struct Task {
    pub phase: SunNodeState,
    pub step: usize,
}

/// How many steps of a pass `node` has completed.
pub open spec fn completed_in<S>(state: SunState<S>, phase: SunNodeState, node: u32) -> nat {
    if phase == SunNodeState::Propagation1 {
        count_at(state.node_p1_completed@, node)
    } else {
        count_at(state.node_p2_completed@, node)
    }
}

/// How many steps of a pass were sent to the root `node`.
pub open spec fn sent_in<S>(state: SunState<S>, phase: SunNodeState, node: u32) -> nat {
    if phase == SunNodeState::Propagation1 {
        count_at(state.root_p1_sent@, node)
    } else {
        count_at(state.root_p2_sent@, node)
    }
}

/// The step that `node` takes next: the first pass to its end, then the
/// second.
pub open spec fn next_task<S>(state: SunState<S>, node: u32, grad_steps: usize) -> Option<Task> {
    let first = completed_in(state, SunNodeState::Propagation1, node);
    let second = completed_in(state, SunNodeState::Propagation2, node);
    if first < grad_steps {
        Some(Task { phase: SunNodeState::Propagation1, step: (first + 1) as usize })
    } else if second < grad_steps {
        Some(Task { phase: SunNodeState::Propagation2, step: (second + 1) as usize })
    } else {
        None
    }
}

/// Everything that `node` needs for a step has arrived: a root has been sent
/// it, another node has it from all of its predecessors.
pub open spec fn inputs_arrived<S>(
    state: SunState<S>,
    node: u32,
    phase: SunNodeState,
    step: usize,
) -> bool {
    if phase != SunNodeState::Propagation1 && phase != SunNodeState::Propagation2 {
        false
    } else if is_root(state.topology, node) {
        sent_in(state, phase, node) >= step
    } else {
        forall|i: int|
            #![trigger list_at(state.topology.incoming_edges(), node)[i]]
            0 <= i < list_at(state.topology.incoming_edges(), node).len() ==> completed_in(
                state,
                phase,
                list_at(state.topology.incoming_edges(), node)[i],
            ) >= step
    }
}

/// `node` can complete its next step.
pub open spec fn node_ready<S>(state: SunState<S>, node: u32) -> bool {
    next_task(state, node, steps_in(clock(state.shared))) matches Some(task) && inputs_arrived(
        state,
        node,
        task.phase,
        task.step,
    )
}

/// The nodes that can complete their next step.
pub open spec fn ready_set<S>(state: SunState<S>) -> Set<u32> {
    state.topology.vertices().filter(|id: u32| node_ready(state, id))
}

fn count_or_zero(counts: &HashMap<u32, usize>, id: u32) -> (count: usize)
    ensures
        count == count_at(counts@, id),
{
    match counts.get(&id) {
        Some(count) => *count,
        None => 0,
    }
}

fn completed<S>(state: &SunState<S>, phase: SunNodeState, node: u32) -> (count: usize)
    ensures
        count == completed_in(*state, phase, node),
{
    if phase == SunNodeState::Propagation1 {
        count_or_zero(&state.node_p1_completed, node)
    } else {
        count_or_zero(&state.node_p2_completed, node)
    }
}

fn sent<S>(state: &SunState<S>, phase: SunNodeState, node: u32) -> (count: usize)
    ensures
        count == sent_in(*state, phase, node),
{
    if phase == SunNodeState::Propagation1 {
        count_or_zero(&state.root_p1_sent, node)
    } else {
        count_or_zero(&state.root_p2_sent, node)
    }
}

/// The step that a node takes next.
pub fn task_for_node<S>(state: &SunState<S>, node_id: u32, grad_steps: usize) -> (task: Option<
    Task,
>)
    ensures
        task == next_task(*state, node_id, grad_steps),
{
    let first = completed(state, SunNodeState::Propagation1, node_id);
    if first < grad_steps {
        return Some(Task { phase: SunNodeState::Propagation1, step: first + 1 });
    }
    let second = completed(state, SunNodeState::Propagation2, node_id);
    if second < grad_steps {
        return Some(Task { phase: SunNodeState::Propagation2, step: second + 1 });
    }
    None
}

/// Whether everything that a node needs for a step has arrived.
pub fn task_deps_satisfied<S>(
    state: &SunState<S>,
    node_id: u32,
    phase: SunNodeState,
    step: usize,
) -> (satisfied: bool)
    ensures
        satisfied == inputs_arrived(*state, node_id, phase, step),
{
    if phase != SunNodeState::Propagation1 && phase != SunNodeState::Propagation2 {
        return false;
    }
    match state.topology.incoming.get(&node_id) {
        Some(sources) => {
            assert(list_at(state.topology.incoming_edges(), node_id) == sources@);
            if sources.len() == 0 {
                return sent(state, phase, node_id) >= step;
            }
            let mut i: usize = 0;
            while i < sources.len()
                invariant
                    i <= sources.len(),
                    sources@.len() > 0,
                    phase == SunNodeState::Propagation1 || phase == SunNodeState::Propagation2,
                    list_at(state.topology.incoming_edges(), node_id) == sources@,
                    forall|j: int|
                        #![trigger sources@[j]]
                        0 <= j < i ==> completed_in(*state, phase, sources@[j]) >= step,
                decreases sources.len() - i,
            {
                if completed(state, phase, sources[i]) < step {
                    assert(!(completed_in(
                        *state,
                        phase,
                        list_at(state.topology.incoming_edges(), node_id)[i as int],
                    ) >= step));
                    return false;
                }
                i = i + 1;
            }
            true
        },
        None => sent(state, phase, node_id) >= step,
    }
}

/// The nodes that can complete their next step, in ascending order.
pub fn ready_nodes<S>(state: &SunState<S>) -> (ready: Vec<u32>)
    ensures
        ready@ == ascending(ready_set(*state)),
        ready@.to_set() == ready_set(*state),
        strictly_increasing(ready@),
{
    let grad_steps = state.shared.steps();
    let ids = vertex_ids(&state.topology);
    let mut ready: Vec<u32> = Vec::new();
    let mut i: usize = 0;
    while i < ids.len()
        invariant
            i <= ids.len(),
            grad_steps == steps_in(clock(state.shared)),
            strictly_increasing(ids@),
            ids@.to_set() == state.topology.vertices(),
            strictly_increasing(ready@),
            forall|j: int|
                #![trigger ready@[j]]
                0 <= j < ready@.len() ==> i > 0 && ready@[j] <= ids@[i - 1],
            forall|id: u32| #[trigger]
                ready@.contains(id) <==> ids@.take(i as int).contains(id) && node_ready(*state, id),
        decreases ids.len() - i,
    {
        let id = ids[i];
        proof {
            lemma_take_next(ids@, i as int);
            lemma_push_set(ready@, id);
        }
        match task_for_node(state, id, grad_steps) {
            Some(task) => {
                if task_deps_satisfied(state, id, task.phase, task.step) {
                    ready.push(id);
                }
            },
            None => {},
        }
        i = i + 1;
    }
    proof {
        assert(ids@.take(i as int) =~= ids@);
        assert forall|id: u32| ready@.to_set().contains(id) <==> ready_set(*state).contains(id) by {
            assert(ids@.to_set().contains(id) <==> state.topology.vertices().contains(id));
        }
        assert(ready@.to_set() =~= ready_set(*state));
        lemma_ascending(ready@, ready_set(*state));
    }
    ready
}

/// The mailbox stored for `id` at one step.
pub open spec fn mailbox_at(maps: Seq<HashMap<u32, ObjectId>>, index: int, id: u32) -> Option<
    ObjectId,
> {
    if 0 <= index < maps.len() && maps[index]@.contains_key(id) {
        Some(maps[index]@[id])
    } else {
        None
    }
}

/// Where `port` listens for a step of a pass.
pub open spec fn input_box<S>(state: SunState<S>, phase: SunNodeState, step: int, port: u32) -> Option<
    ObjectId,
> {
    if phase == SunNodeState::Propagation1 {
        mailbox_at(state.p1_step_tx@, step - 1, port)
    } else if phase == SunNodeState::Propagation2 {
        mailbox_at(state.p2_step_tx@, step - 1, port)
    } else {
        None
    }
}

/// Where `port` listens after a step: at the next step of the pass, after the
/// first pass at the second, after the second at its potentiation inbox.
pub open spec fn next_box<S>(state: SunState<S>, phase: SunNodeState, step: int, port: u32) -> Option<
    ObjectId,
> {
    if phase != SunNodeState::Propagation1 && phase != SunNodeState::Propagation2 {
        None
    } else if step < steps_in(clock(state.shared)) {
        input_box(state, phase, step + 1, port)
    } else if phase == SunNodeState::Propagation1 {
        input_box(state, SunNodeState::Propagation2, 1, port)
    } else if state.shared.po_tx@.contains_key(port) {
        Some(state.shared.po_tx@[port])
    } else {
        None
    }
}

/// Where `node` publishes a step of a pass.
pub open spec fn output_box<S>(state: SunState<S>, phase: SunNodeState, step: int, node: u32) -> Option<
    ObjectId,
> {
    if phase == SunNodeState::Propagation1 {
        mailbox_at(state.p1_step_rx@, step - 1, node)
    } else if phase == SunNodeState::Propagation2 {
        mailbox_at(state.p2_step_rx@, step - 1, node)
    } else {
        None
    }
}

/// All mailboxes for sending a step to `port` are known.
pub open spec fn has_step_target<S>(
    state: SunState<S>,
    phase: SunNodeState,
    step: int,
    port: u32,
) -> bool {
    &&& state.topology.port_vertices@.contains_key(port)
    &&& input_box(state, phase, step, port) is Some
    &&& next_box(state, phase, step, port) is Some
    &&& output_box(state, phase, step, state.topology.port_vertices@[port]) is Some
}

/// The mailboxes for sending a step to `port`.
pub open spec fn step_target_of<S>(
    state: SunState<S>,
    phase: SunNodeState,
    step: int,
    port: u32,
) -> PropagationTarget {
    let node = state.topology.port_vertices@[port];
    PropagationTarget {
        node_id: node,
        port_id: port,
        input_id: input_box(state, phase, step, port)->0,
        next_input_id: next_box(state, phase, step, port)->0,
        output_id: output_box(state, phase, step, node)->0,
    }
}

fn lookup_box(maps: &Vec<HashMap<u32, ObjectId>>, index: usize, id: u32) -> (found: Option<ObjectId>)
    ensures
        found == mailbox_at(maps@, index as int, id),
{
    if index < maps.len() {
        match maps[index].get(&id) {
            Some(mailbox) => Some(*mailbox),
            None => None,
        }
    } else {
        None
    }
}

/// The mailboxes for sending a step to one port.
pub fn step_target<S>(
    state: &SunState<S>,
    phase: SunNodeState,
    step: usize,
    port_id: u32,
) -> (target: PropagationTarget)
    requires
        step > 0,
        has_step_target(*state, phase, step as int, port_id),
    ensures
        target == step_target_of(*state, phase, step as int, port_id),
{
    let node_id = *state.topology.port_vertices.get(&port_id).unwrap();
    let index: usize = step - 1;
    let grad_steps = state.shared.steps();
    let first = phase == SunNodeState::Propagation1;
    let input_id = if first {
        lookup_box(&state.p1_step_tx, index, port_id).unwrap()
    } else {
        lookup_box(&state.p2_step_tx, index, port_id).unwrap()
    };
    let next_input_id = if step < grad_steps {
        if first {
            lookup_box(&state.p1_step_tx, step, port_id).unwrap()
        } else {
            lookup_box(&state.p2_step_tx, step, port_id).unwrap()
        }
    } else if first {
        lookup_box(&state.p2_step_tx, 0, port_id).unwrap()
    } else {
        *state.shared.po_tx.get(&port_id).unwrap()
    };
    let output_id = if first {
        lookup_box(&state.p1_step_rx, index, node_id).unwrap()
    } else {
        lookup_box(&state.p2_step_rx, index, node_id).unwrap()
    };
    PropagationTarget { node_id, port_id, input_id, next_input_id, output_id }
}

/// Where a node publishes a step of a pass, if that is known.
pub fn task_output_id<S>(
    state: &SunState<S>,
    node_id: u32,
    phase: SunNodeState,
    step: usize,
) -> (output: Option<ObjectId>)
    ensures
        output == output_box(*state, phase, step as int, node_id),
{
    if step == 0 {
        return None;
    }
    if phase == SunNodeState::Propagation1 {
        lookup_box(&state.p1_step_rx, step - 1, node_id)
    } else if phase == SunNodeState::Propagation2 {
        lookup_box(&state.p2_step_rx, step - 1, node_id)
    } else {
        None
    }
}

/// Mailboxes for the steps of one epoch: first-pass inputs for every step but
/// the first, second-pass inputs, and the outputs of both passes.
pub struct StepMailboxes {
    pub later_p1_tx: Vec<HashMap<u32, ObjectId>>,
    pub p2_tx: Vec<HashMap<u32, ObjectId>>,
    pub p1_rx: Vec<HashMap<u32, ObjectId>>,
    pub p2_rx: Vec<HashMap<u32, ObjectId>>,
}

/// The mailboxes suffice for an epoch of `steps` steps.
pub open spec fn step_mailboxes_fit(
    fresh: StepMailboxes,
    topology: SunTopology,
    steps: usize,
) -> bool {
    let ports = topology.port_vertices@.dom();
    let nodes = topology.vertices();
    &&& fresh.later_p1_tx@.len() + 1 == steps
    &&& fresh.p2_tx@.len() == steps
    &&& fresh.p1_rx@.len() == steps
    &&& fresh.p2_rx@.len() == steps
    &&& all_cover(fresh.later_p1_tx@, ports)
    &&& all_cover(fresh.p2_tx@, ports)
    &&& all_cover(fresh.p1_rx@, nodes)
    &&& all_cover(fresh.p2_rx@, nodes)
}

/// Every mailbox of a list of maps is a random identifier.
pub open spec fn maps_random(maps: Seq<HashMap<u32, ObjectId>>) -> bool {
    forall|i: int| #![trigger maps[i]] 0 <= i < maps.len() ==> all_random(maps[i]@)
}

/// Every mailbox is a random identifier.
pub open spec fn step_mailboxes_random(fresh: StepMailboxes) -> bool {
    &&& maps_random(fresh.later_p1_tx@)
    &&& maps_random(fresh.p2_tx@)
    &&& maps_random(fresh.p1_rx@)
    &&& maps_random(fresh.p2_rx@)
}

/// Allocates random mailboxes for an epoch of `steps` steps.
pub fn draw_step_mailboxes(topology: &SunTopology, steps: usize) -> (fresh: StepMailboxes)
    requires
        steps > 0,
    ensures
        step_mailboxes_fit(fresh, *topology, steps),
        step_mailboxes_random(fresh),
{
    let ports = port_ids(topology);
    let nodes = vertex_ids(topology);
    StepMailboxes {
        later_p1_tx: draw_maps(&ports, steps - 1),
        p2_tx: draw_maps(&ports, steps),
        p1_rx: draw_maps(&nodes, steps),
        p2_rx: draw_maps(&nodes, steps),
    }
}

/// The vertices without resolved outgoing edges.
pub open spec fn resolved_sinks(topology: SunTopology) -> Set<u32> {
    topology.vertices().filter(|id: u32| list_at(topology.outgoing_edges(), id).len() == 0)
}

/// The smallest vertex without resolved outgoing edges.
fn first_sink(topology: &SunTopology) -> (sink: Option<u32>)
    ensures
        sink is Some <==> exists|id: u32| #[trigger] resolved_sinks(*topology).contains(id),
        sink matches Some(id) ==> {
            &&& resolved_sinks(*topology).contains(id)
            &&& forall|other: u32| #[trigger]
                resolved_sinks(*topology).contains(other) ==> id <= other
        },
{
    let ids = vertex_ids(topology);
    let mut i: usize = 0;
    while i < ids.len()
        invariant
            i <= ids.len(),
            strictly_increasing(ids@),
            ids@.to_set() == topology.vertices(),
            forall|j: int|
                #![trigger ids@[j]]
                0 <= j < i ==> !resolved_sinks(*topology).contains(ids@[j]),
        decreases ids.len() - i,
    {
        let id = ids[i];
        proof {
            assert(ids@.contains(id));
            assert(ids@.to_set().contains(id));
        }
        let edges: usize = match topology.outgoing.get(&id) {
            Some(list) => list.len(),
            None => 0,
        };
        assert(edges == list_at(topology.outgoing_edges(), id).len());
        if edges == 0 {
            proof {
                assert(resolved_sinks(*topology).contains(id));
                assert forall|other: u32| #[trigger]
                    resolved_sinks(*topology).contains(other) implies id <= other by {
                    assert(ids@.to_set().contains(other));
                    let k = choose|k: int| 0 <= k < ids@.len() && ids@[k] == other;
                    if k < i {
                        assert(!resolved_sinks(*topology).contains(ids@[k]));
                    } else if k > i {
                        assert(ids@[i as int] < ids@[k]);
                    }
                }
            }
            return Some(id);
        }
        i = i + 1;
    }
    proof {
        assert forall|id: u32| !#[trigger] resolved_sinks(*topology).contains(id) by {
            if resolved_sinks(*topology).contains(id) {
                assert(ids@.to_set().contains(id));
                let k = choose|k: int| 0 <= k < ids@.len() && ids@[k] == id;
                assert(!resolved_sinks(*topology).contains(ids@[k]));
            }
        }
    }
    None
}

/// The first check that an epoch fails, with its text.
pub open spec fn unprepared_reason<S>(state: SunState<S>, expected: usize) -> Option<Seq<char>> {
    let up = state.propagation_up_inputs@.len();
    let down = state.propagation_down_inputs@.len();
    let configured = steps_in(clock(state.shared));
    if up != expected {
        Some(
            two_numbers(
                "expected "@,
                expected as nat,
                " generated up propagations, got "@,
                up,
                ""@,
            ),
        )
    } else if down != expected {
        Some(
            two_numbers(
                "expected "@,
                expected as nat,
                " generated down propagations, got "@,
                down,
                ""@,
            ),
        )
    } else if forall|id: u32| !#[trigger] resolved_sinks(state.topology).contains(id) {
        Some("sun graph has no sink after finalization"@)
    } else if configured != expected {
        Some(
            two_numbers(
                "Sun configured for "@,
                configured as nat,
                " grad steps but flow expects "@,
                expected as nat,
                ""@,
            ),
        )
    } else {
        None
    }
}

/// Every port has a mailbox for its first propagation.
pub open spec fn first_boxes_known<S>(state: SunState<S>) -> bool {
    forall|port: u32| #[trigger]
        state.topology.port_vertices@.contains_key(port)
            ==> state.shared.p1_tx@.contains_key(port)
}

/// `failure` is the reason why the epoch cannot be prepared.
pub open spec fn explains_unprepared<S>(
    state: SunState<S>,
    expected: usize,
    failure: Failure,
) -> bool {
    match unprepared_reason(state, expected) {
        Some(text) => says(failure, text),
        None => exists|port: u32| #[trigger]
            first_missing(state.topology.port_vertices@.dom(), state.shared.p1_tx@, port) && says(
                failure,
                one_number("missing initial p1 mailbox for port "@, port as nat, ""@),
            ),
    }
}

/// The epoch is ready to run: no node has taken a step, and every mailbox is
/// in place.
pub open spec fn epoch_prepared<S>(
    before: SunState<S>,
    after: SunState<S>,
    fresh: StepMailboxes,
) -> bool {
    let ports = before.topology.port_vertices@.dom();
    let nodes = before.topology.vertices();
    let steps = steps_in(clock(before.shared));
    &&& after == (SunState {
        shared: TwoSidedZoInner { active_micro_step: 0, ..before.shared },
        propagation_up_outputs: after.propagation_up_outputs,
        propagation_pairs: after.propagation_pairs,
        p1_step_tx: after.p1_step_tx,
        p2_step_tx: fresh.p2_tx,
        p1_step_rx: fresh.p1_rx,
        p2_step_rx: fresh.p2_rx,
        node_p1_completed: after.node_p1_completed,
        node_p2_completed: after.node_p2_completed,
        root_p1_sent: after.root_p1_sent,
        root_p2_sent: after.root_p2_sent,
        pipeline_completions: 0,
        pipeline_target_completions: after.pipeline_target_completions,
        sink_id: after.sink_id,
        ..before
    })
    &&& after.propagation_up_outputs@ == Seq::<Transmission>::empty()
    &&& after.propagation_pairs@ == Seq::<(Transmission, Transmission)>::empty()
    &&& after.p1_step_tx@.len() == steps
    &&& inputs_allocated(ports, before.shared.p1_tx@, fresh.later_p1_tx@, after.p1_step_tx@)
    &&& all_zero(after.node_p1_completed@, nodes)
    &&& all_zero(after.node_p2_completed@, nodes)
    &&& all_zero(after.root_p1_sent@, roots(before.topology))
    &&& all_zero(after.root_p2_sent@, roots(before.topology))
    &&& after.pipeline_target_completions == nodes.len() * steps * 2
    &&& after.sink_id matches Some(sink) && resolved_sinks(before.topology).contains(sink) && (
    forall|other: u32| #[trigger]
        resolved_sinks(before.topology).contains(other) ==> sink <= other)
}

/// What a refused preparation leaves behind: nothing when the propagations
/// are not all there, else the outputs of the former epoch are forgotten, and
/// a port without a mailbox stops the allocation at that port.
pub open spec fn epoch_preparation_stopped<S>(
    before: SunState<S>,
    after: SunState<S>,
    expected: usize,
    fresh: StepMailboxes,
) -> bool {
    let ports = before.topology.port_vertices@.dom();
    let counted = before.propagation_up_inputs@.len() == expected
        && before.propagation_down_inputs@.len() == expected;
    if !counted {
        after == before
    } else {
        &&& after == (SunState {
            propagation_up_outputs: after.propagation_up_outputs,
            propagation_pairs: after.propagation_pairs,
            p1_step_tx: after.p1_step_tx,
            p2_step_tx: after.p2_step_tx,
            p1_step_rx: after.p1_step_rx,
            p2_step_rx: after.p2_step_rx,
            ..before
        })
        &&& after.propagation_up_outputs@ == Seq::<Transmission>::empty()
        &&& after.propagation_pairs@ == Seq::<(Transmission, Transmission)>::empty()
        &&& if unprepared_reason(before, expected) is Some {
            &&& after.p1_step_tx == before.p1_step_tx
            &&& after.p2_step_tx == before.p2_step_tx
            &&& after.p1_step_rx == before.p1_step_rx
            &&& after.p2_step_rx == before.p2_step_rx
        } else {
            &&& after.p1_step_rx@.len() == expected
            &&& all_cover(after.p1_step_rx@, Set::empty())
            &&& after.p2_step_rx@.len() == expected
            &&& all_cover(after.p2_step_rx@, Set::empty())
            &&& after.p1_step_tx@.len() == expected
            &&& after.p2_step_tx@.len() == expected
            &&& exists|port: u32| #[trigger]
                first_missing(ports, before.shared.p1_tx@, port) && inputs_allocated(
                    ids_below(ports, port),
                    before.shared.p1_tx@,
                    fresh.later_p1_tx@,
                    after.p1_step_tx@,
                ) && kept_below(fresh.p2_tx@, after.p2_step_tx@, ports, port)
        }
    }
}

/// Every map keeps its entries below `limit`.
pub open spec fn kept_below(
    maps: Seq<HashMap<u32, ObjectId>>,
    kept: Seq<HashMap<u32, ObjectId>>,
    ids: Set<u32>,
    limit: u32,
) -> bool {
    forall|i: int|
        #![trigger kept[i]]
        0 <= i < kept.len() ==> kept[i]@ == maps[i]@.restrict(ids_below(ids, limit))
}

fn keep_all_below(
    maps: &Vec<HashMap<u32, ObjectId>>,
    limit: u32,
    Ghost(ids): Ghost<Set<u32>>,
) -> (kept: Vec<HashMap<u32, ObjectId>>)
    requires
        all_cover(maps@, ids),
    ensures
        kept@.len() == maps@.len(),
        kept_below(maps@, kept@, ids, limit),
{
    let mut kept: Vec<HashMap<u32, ObjectId>> = Vec::new();
    let mut i: usize = 0;
    while i < maps.len()
        invariant
            i <= maps.len(),
            all_cover(maps@, ids),
            kept@.len() == i,
            kept_below(maps@, kept@, ids, limit),
        decreases maps.len() - i,
    {
        assert(maps@[i as int]@.dom() == ids);
        kept.push(keep_below(&maps[i], limit));
        i = i + 1;
    }
    kept
}

/// Allocates per-step mailboxes and resets per-node progress.
pub struct PreparePropagationPipeline<const GRADIENT_ACCUMULATION_STEPS: usize>;

impl<const GRADIENT_ACCUMULATION_STEPS: usize> PreparePropagationPipeline<
    GRADIENT_ACCUMULATION_STEPS,
> {
    /// Prepares an epoch with the given mailboxes.
    pub fn absorb_with<S>(
        state: &mut SunState<S>,
        output: Result<(), AtomError>,
        fresh: StepMailboxes,
    ) -> (result: Result<(), Failure>)
        requires
            step_mailboxes_fit(
                fresh,
                old(state).topology,
                spec_at_least_one(GRADIENT_ACCUMULATION_STEPS),
            ),
            old(state).topology.vertices().len() * spec_at_least_one(GRADIENT_ACCUMULATION_STEPS)
                * 2 <= usize::MAX,
        ensures
            result is Ok <==> output is Ok && unprepared_reason(
                *old(state),
                spec_at_least_one(GRADIENT_ACCUMULATION_STEPS),
            ) is None && first_boxes_known(*old(state)),
            result is Ok ==> epoch_prepared(*old(state), *final(state), fresh),
            result matches Err(failure) ==> if output is Err {
                &&& says(failure, "prepare propagation pipeline failed"@)
                &&& *final(state) == *old(state)
            } else {
                &&& explains_unprepared(
                    *old(state),
                    spec_at_least_one(GRADIENT_ACCUMULATION_STEPS),
                    failure,
                )
                &&& epoch_preparation_stopped(
                    *old(state),
                    *final(state),
                    spec_at_least_one(GRADIENT_ACCUMULATION_STEPS),
                    fresh,
                )
            },
    {
        if output.is_err() {
            return Err(refused("prepare propagation pipeline failed"));
        }
        let expected = at_least_one(GRADIENT_ACCUMULATION_STEPS);
        let up = state.propagation_up_inputs.len();
        if up != expected {
            return Err(
                refused_between(
                    "expected ",
                    expected as u64,
                    " generated up propagations, got ",
                    up as u64,
                    "",
                ),
            );
        }
        let down = state.propagation_down_inputs.len();
        if down != expected {
            return Err(
                refused_between(
                    "expected ",
                    expected as u64,
                    " generated down propagations, got ",
                    down as u64,
                    "",
                ),
            );
        }
        state.propagation_up_outputs.clear();
        state.propagation_pairs.clear();
        let grad_steps = state.shared.steps();
        let sink = match first_sink(&state.topology) {
            Some(sink) => sink,
            None => {
                return Err(refused("sun graph has no sink after finalization"));
            },
        };
        assert(resolved_sinks(old(state).topology).contains(sink));
        if grad_steps != expected {
            return Err(
                refused_between(
                    "Sun configured for ",
                    grad_steps as u64,
                    " grad steps but flow expects ",
                    expected as u64,
                    "",
                ),
            );
        }
        let ports = port_ids(&state.topology);
        let nodes = vertex_ids(&state.topology);
        let root_ids = root_vertex_ids(&state.topology);
        let (p1_step_tx, missing) = allocate_inputs(
            &ports,
            &state.shared.p1_tx,
            &fresh.later_p1_tx,
        );
        state.p1_step_tx = p1_step_tx;
        proof {
            assert forall|port: u32| ports@.contains(port)
                <==> old(state).topology.port_vertices@.contains_key(port) by {
                assert(ports@.to_set().contains(port)
                    <==> old(state).topology.port_vertices@.dom().contains(port));
            }
        }
        match missing {
            Some(port) => {
                state.p2_step_tx = keep_all_below(
                    &fresh.p2_tx,
                    port,
                    Ghost(old(state).topology.port_vertices@.dom()),
                );
                state.p1_step_rx = empty_maps(expected);
                state.p2_step_rx = empty_maps(expected);
                return Err(
                    refused_at("missing initial p1 mailbox for port ", port as u64, ""),
                );
            },
            None => {},
        }
        state.p2_step_tx = fresh.p2_tx;
        state.p1_step_rx = fresh.p1_rx;
        state.p2_step_rx = fresh.p2_rx;
        state.node_p1_completed = zero_counts(&nodes);
        state.node_p2_completed = zero_counts(&nodes);
        state.root_p1_sent = zero_counts(&root_ids);
        state.root_p2_sent = zero_counts(&root_ids);
        state.pipeline_completions = 0;
        proof {
            let count = nodes@.len();
            assert(count * grad_steps <= count * grad_steps * 2) by (nonlinear_arith)
                requires
                    count * grad_steps >= 0,
            ;
            assert(count * grad_steps >= 0) by (nonlinear_arith);
        }
        state.pipeline_target_completions = nodes.len() * grad_steps * 2;
        state.sink_id = Some(sink);
        state.shared.active_micro_step = 0;
        Ok(())
    }

    /// Prepares an epoch with random mailboxes.
    pub fn absorb<S>(state: &mut SunState<S>, output: Result<(), AtomError>) -> (result: Result<
        (),
        Failure,
    >)
        requires
            old(state).topology.vertices().len() * spec_at_least_one(GRADIENT_ACCUMULATION_STEPS)
                * 2 <= usize::MAX,
        ensures
            result is Ok <==> output is Ok && unprepared_reason(
                *old(state),
                spec_at_least_one(GRADIENT_ACCUMULATION_STEPS),
            ) is None && first_boxes_known(*old(state)),
            result is Ok ==> exists|fresh: StepMailboxes| #[trigger]
                step_mailboxes_fit(
                    fresh,
                    old(state).topology,
                    spec_at_least_one(GRADIENT_ACCUMULATION_STEPS),
                ) && step_mailboxes_random(fresh) && epoch_prepared(
                    *old(state),
                    *final(state),
                    fresh,
                ),
            result matches Err(failure) ==> if output is Err {
                &&& says(failure, "prepare propagation pipeline failed"@)
                &&& *final(state) == *old(state)
            } else {
                &&& explains_unprepared(
                    *old(state),
                    spec_at_least_one(GRADIENT_ACCUMULATION_STEPS),
                    failure,
                )
                &&& exists|fresh: StepMailboxes| #[trigger]
                    epoch_preparation_stopped(
                        *old(state),
                        *final(state),
                        spec_at_least_one(GRADIENT_ACCUMULATION_STEPS),
                        fresh,
                    )
            },
    {
        let steps = at_least_one(GRADIENT_ACCUMULATION_STEPS);
        let fresh = draw_step_mailboxes(&state.topology, steps);
        Self::absorb_with(state, output, fresh)
    }
}

} // verus!
