//! A bounded window of artifacts in flight through the graph.

use std::collections::HashMap;

use vstd::prelude::*;
use vstd::string::*;

use crate::collections::{
    ascending, lemma_ascending, lemma_push_set, lemma_take_next, strictly_increasing,
};
use crate::error::AtomError;
use crate::failure::{one_number, refused, refused_at, refused_by, says, Failure};
use crate::forward::effect::{
    RootArtifactDeliverySend, SchedulerDelivery, WaitForNodeArtifactDeliveryInput,
};
use crate::forward::pass::started_recorded;
use crate::forward::{ForwardRuntime, ForwardSunState};
use crate::ids::ObjectId;
use crate::mailbox::{
    all_cover, all_random, all_zero, allocate_inputs, draw_maps, empty_maps, first_missing,
    fresh_mailboxes, ids_below, inputs_allocated, keep_below, zero_counts,
};
use crate::message::ArtifactDelivery;
use crate::text::{decimal, decimal_string};
use crate::topology::frontier::{count_at, port_ids, root_vertex_ids, roots, vertex_ids};
use crate::topology::graph::{lemma_occurrences_push, list_at, lists, occurrences};
use crate::topology::observe::{completion_recorded, progress_reset, sequences_fit};
use crate::topology::targets::{is_root, somes};
use crate::topology::{PortTarget, PropagationTarget, SunTopology};

verus! {

broadcast use vstd::std_specs::hash::group_hash_axioms;

/// The artifact of the window that `node_id` works on next, unless it is done
/// with all of them.
pub open spec fn next_task<S>(runtime: ForwardRuntime<S>, node_id: u32) -> Option<int> {
    let completed = count_at(runtime.node_completed@, node_id);
    if completed < runtime.pipeline_inputs@.len() {
        Some(completed as int)
    } else {
        None
    }
}

/// Everything `node_id` needs for its next artifact has arrived: a root has
/// been sent it, another node has it from all of its predecessors.
pub open spec fn task_ready<S>(state: ForwardSunState<S>, node_id: u32) -> bool {
    next_task(state.runtime, node_id) matches Some(index) && if is_root(state.topology, node_id) {
        count_at(state.runtime.root_sent@, node_id) > index
    } else {
        forall|i: int|
            #![trigger list_at(state.topology.incoming_edges(), node_id)[i]]
            0 <= i < list_at(state.topology.incoming_edges(), node_id).len() ==> count_at(
                state.runtime.node_completed@,
                list_at(state.topology.incoming_edges(), node_id)[i],
            ) > index
    }
}

/// The nodes that can complete their next artifact.
pub open spec fn pipeline_ready<S>(state: ForwardSunState<S>) -> Set<u32> {
    state.topology.vertices().filter(|id: u32| task_ready(state, id))
}

/// All mailboxes for sending artifact `index` to `port` are known.
pub open spec fn has_target<S>(state: ForwardSunState<S>, index: int, port: u32) -> bool {
    let runtime = state.runtime;
    let node = state.topology.port_vertices@[port];
    &&& state.topology.port_vertices@.contains_key(port)
    &&& 0 <= index < runtime.pipeline_input_ids@.len()
    &&& runtime.pipeline_input_ids@[index]@.contains_key(port)
    &&& (index + 1 < runtime.pipeline_input_ids@.len() && runtime.pipeline_input_ids@[index
        + 1]@.contains_key(port)) || runtime.next_inputs@.contains_key(port)
    &&& index < runtime.pipeline_output_ids@.len()
    &&& runtime.pipeline_output_ids@[index]@.contains_key(node)
}

/// The mailboxes for sending artifact `index` to `port`. The port listens next
/// where artifact `index + 1` will come, and after the last artifact where the
/// next window begins.
pub open spec fn target_of<S>(state: ForwardSunState<S>, index: int, port: u32) -> PropagationTarget {
    let runtime = state.runtime;
    let node = state.topology.port_vertices@[port];
    PropagationTarget {
        node_id: node,
        port_id: port,
        input_id: runtime.pipeline_input_ids@[index]@[port],
        next_input_id: if index + 1 < runtime.pipeline_input_ids@.len()
            && runtime.pipeline_input_ids@[index + 1]@.contains_key(port) {
            runtime.pipeline_input_ids@[index + 1]@[port]
        } else {
            runtime.next_inputs@[port]
        },
        output_id: runtime.pipeline_output_ids@[index]@[node],
    }
}

fn count_or_zero(counts: &HashMap<u32, usize>, id: u32) -> (count: usize)
    ensures
        count == count_at(counts@, id),
{
    match counts.get(&id) {
        Some(count) => *count,
        None => 0,
    }
}

/// The artifact that `node_id` works on next.
pub fn pipeline_task_for_node<S>(state: &ForwardSunState<S>, node_id: u32) -> (task: Option<usize>)
    ensures
        task is Some <==> next_task(state.runtime, node_id) is Some,
        task matches Some(index) ==> next_task(state.runtime, node_id) == Some(index as int),
{
    let completed = count_or_zero(&state.runtime.node_completed, node_id);
    if completed < state.runtime.pipeline_inputs.len() {
        Some(completed)
    } else {
        None
    }
}

/// Whether everything `node_id` needs for its next artifact has arrived.
fn is_task_ready<S>(state: &ForwardSunState<S>, node_id: u32) -> (ready: bool)
    ensures
        ready == task_ready(*state, node_id),
{
    let index = match pipeline_task_for_node(state, node_id) {
        Some(index) => index,
        None => {
            return false;
        },
    };
    match state.topology.incoming.get(&node_id) {
        Some(sources) => {
            assert(list_at(state.topology.incoming_edges(), node_id) == sources@);
            if sources.len() == 0 {
                return count_or_zero(&state.runtime.root_sent, node_id) > index;
            }
            let mut i: usize = 0;
            while i < sources.len()
                invariant
                    i <= sources.len(),
                    sources@.len() > 0,
                    list_at(state.topology.incoming_edges(), node_id) == sources@,
                    next_task(state.runtime, node_id) == Some(index as int),
                    forall|j: int|
                        #![trigger sources@[j]]
                        0 <= j < i ==> count_at(state.runtime.node_completed@, sources@[j])
                            > index,
                decreases sources.len() - i,
            {
                if count_or_zero(&state.runtime.node_completed, sources[i]) <= index {
                    assert(!(count_at(
                        state.runtime.node_completed@,
                        list_at(state.topology.incoming_edges(), node_id)[i as int],
                    ) > index));
                    return false;
                }
                i = i + 1;
            }
            true
        },
        None => count_or_zero(&state.runtime.root_sent, node_id) > index,
    }
}

/// The nodes that can complete their next artifact, in ascending order.
pub fn pipeline_ready_nodes<S>(state: &ForwardSunState<S>) -> (ready: Vec<u32>)
    ensures
        ready@ == ascending(pipeline_ready(*state)),
        ready@.to_set() == pipeline_ready(*state),
        strictly_increasing(ready@),
{
    let ids = vertex_ids(&state.topology);
    let mut ready: Vec<u32> = Vec::new();
    let mut i: usize = 0;
    while i < ids.len()
        invariant
            i <= ids.len(),
            strictly_increasing(ids@),
            ids@.to_set() == state.topology.vertices(),
            strictly_increasing(ready@),
            forall|j: int|
                #![trigger ready@[j]]
                0 <= j < ready@.len() ==> i > 0 && ready@[j] <= ids@[i - 1],
            forall|id: u32| #[trigger]
                ready@.contains(id) <==> ids@.take(i as int).contains(id) && task_ready(*state, id),
        decreases ids.len() - i,
    {
        let id = ids[i];
        proof {
            lemma_take_next(ids@, i as int);
            lemma_push_set(ready@, id);
        }
        if is_task_ready(state, id) {
            ready.push(id);
        }
        i = i + 1;
    }
    proof {
        assert(ids@.take(i as int) =~= ids@);
        assert forall|id: u32| ready@.to_set().contains(id) <==> pipeline_ready(*state).contains(
            id,
        ) by {
            assert(ids@.to_set().contains(id) <==> state.topology.vertices().contains(id));
        }
        assert(ready@.to_set() =~= pipeline_ready(*state));
        lemma_ascending(ready@, pipeline_ready(*state));
    }
    ready
}

impl<S> ForwardSunState<S> {
    /// The mailbox of `port_id` for one artifact of the window.
    pub fn pipeline_input_id(&self, input_index: usize, port_id: u32) -> (id: ObjectId)
        requires
            input_index < self.runtime.pipeline_input_ids@.len(),
            self.runtime.pipeline_input_ids@[input_index as int]@.contains_key(port_id),
        ensures
            id == self.runtime.pipeline_input_ids@[input_index as int]@[port_id],
    {
        *self.runtime.pipeline_input_ids[input_index].get(&port_id).unwrap()
    }
}

/// The mailboxes for sending one artifact to one port.
pub fn pipeline_target<S>(state: &ForwardSunState<S>, input_index: usize, port_id: u32) -> (target:
    PropagationTarget)
    requires
        has_target(*state, input_index as int, port_id),
    ensures
        target == target_of(*state, input_index as int, port_id),
{
    let node_id = *state.topology.port_vertices.get(&port_id).unwrap();
    let input_id = state.pipeline_input_id(input_index, port_id);
    let following: Option<ObjectId> = if input_index < state.runtime.pipeline_input_ids.len() - 1 {
        match state.runtime.pipeline_input_ids[input_index + 1].get(&port_id) {
            Some(id) => Some(*id),
            None => None,
        }
    } else {
        None
    };
    let next_input_id = match following {
        Some(id) => id,
        None => *state.runtime.next_inputs.get(&port_id).unwrap(),
    };
    let output_id = *state.runtime.pipeline_output_ids[input_index].get(&node_id).unwrap();
    PropagationTarget { node_id, port_id, input_id, next_input_id, output_id }
}

/// Starts a bounded pipeline window using the limit selected by the forward
/// strategy. The source is not invoked again until every artifact of the
/// window has reached the sink.
pub struct BeginForwardPipeline<const MAX_IN_FLIGHT: usize>;

impl<const MAX_IN_FLIGHT: usize> BeginForwardPipeline<MAX_IN_FLIGHT> {
    pub fn absorb<S>(state: &mut ForwardSunState<S>, output: Result<(), AtomError>) -> (result:
        Result<(), Failure>)
        ensures
            final(state).topology == old(state).topology,
            result is Ok <==> output is Ok,
            result is Ok ==> {
                &&& final(state).runtime.pipeline_inputs@ == Seq::<ArtifactDelivery>::empty()
                &&& final(state).runtime.completed_outputs@ == Seq::<ArtifactDelivery>::empty()
                &&& final(state).runtime.pipeline_window == if MAX_IN_FLIGHT > 1 {
                    MAX_IN_FLIGHT
                } else {
                    1
                }
                &&& final(state).runtime == (ForwardRuntime {
                    pipeline_inputs: final(state).runtime.pipeline_inputs,
                    completed_outputs: final(state).runtime.completed_outputs,
                    pipeline_window: final(state).runtime.pipeline_window,
                    ..old(state).runtime
                })
            },
            result matches Err(failure) ==> {
                &&& says(failure, "begin forward pipeline failed"@)
                &&& *final(state) == *old(state)
            },
    {
        if output.is_err() {
            return Err(refused("begin forward pipeline failed"));
        }
        state.runtime.pipeline_inputs.clear();
        state.runtime.completed_outputs.clear();
        state.runtime.pipeline_window = if MAX_IN_FLIGHT > 1 {
            MAX_IN_FLIGHT
        } else {
            1
        };
        Ok(())
    }
}

/// Stores one generated artifact in the current pipeline window.
pub struct StoreForwardPipelineInput;

impl StoreForwardPipelineInput {
    pub fn absorb<S>(
        state: &mut ForwardSunState<S>,
        output: Result<(), AtomError>,
        carry: ArtifactDelivery,
    ) -> (result: Result<(), Failure>)
        ensures
            final(state).topology == old(state).topology,
            result is Ok <==> output is Ok,
            result is Ok ==> {
                &&& final(state).runtime.pipeline_inputs@ == old(
                    state,
                ).runtime.pipeline_inputs@.push(carry)
                &&& final(state).runtime == (ForwardRuntime {
                    pipeline_inputs: final(state).runtime.pipeline_inputs,
                    ..old(state).runtime
                })
            },
            result matches Err(failure) ==> {
                &&& says(failure, "store forward pipeline input failed"@)
                &&& *final(state) == *old(state)
            },
    {
        if output.is_err() {
            return Err(refused("store forward pipeline input failed"));
        }
        state.runtime.pipeline_inputs.push(carry);
        Ok(())
    }
}

/// Mailboxes for one pipeline window: those of the ports for every artifact
/// but the first, those of the ports for the next window, and those of the
/// nodes for every artifact.
pub struct PipelineMailboxes {
    pub later_inputs: Vec<HashMap<u32, ObjectId>>,
    pub next_inputs: HashMap<u32, ObjectId>,
    pub outputs: Vec<HashMap<u32, ObjectId>>,
}

/// The mailboxes suffice for a window of `count` artifacts.
pub open spec fn mailboxes_fit(
    fresh: PipelineMailboxes,
    ports: Set<u32>,
    nodes: Set<u32>,
    count: nat,
) -> bool {
    &&& count > 0 ==> fresh.later_inputs@.len() + 1 == count
    &&& all_cover(fresh.later_inputs@, ports)
    &&& fresh.next_inputs@.dom() == ports
    &&& fresh.outputs@.len() == count
    &&& all_cover(fresh.outputs@, nodes)
}

/// Every mailbox is a random identifier.
pub open spec fn mailboxes_random(fresh: PipelineMailboxes) -> bool {
    &&& forall|i: int|
        #![trigger fresh.later_inputs@[i]]
        0 <= i < fresh.later_inputs@.len() ==> all_random(fresh.later_inputs@[i]@)
    &&& all_random(fresh.next_inputs@)
    &&& forall|i: int|
        #![trigger fresh.outputs@[i]]
        0 <= i < fresh.outputs@.len() ==> all_random(fresh.outputs@[i]@)
}

/// Allocates random mailboxes for a window of `count` artifacts.
pub fn draw_pipeline_mailboxes(topology: &SunTopology, count: usize) -> (fresh: PipelineMailboxes)
    ensures
        mailboxes_fit(
            fresh,
            topology.port_vertices@.dom(),
            topology.vertices(),
            count as nat,
        ),
        mailboxes_random(fresh),
{
    let ports = port_ids(topology);
    let nodes = vertex_ids(topology);
    let later_count: usize = if count > 0 {
        count - 1
    } else {
        0
    };
    PipelineMailboxes {
        later_inputs: draw_maps(&ports, later_count),
        next_inputs: fresh_mailboxes(&ports),
        outputs: draw_maps(&nodes, count),
    }
}

/// The window is ready to run: no node has worked on any artifact yet, and
/// every mailbox is in place.
pub open spec fn pipeline_prepared<S>(
    before: ForwardSunState<S>,
    after: ForwardSunState<S>,
    fresh: PipelineMailboxes,
) -> bool {
    let ports = before.topology.port_vertices@.dom();
    let nodes = before.topology.vertices();
    let count = before.runtime.pipeline_inputs@.len();
    &&& after.runtime == (ForwardRuntime {
        next_inputs: after.runtime.next_inputs,
        pipeline_input_ids: after.runtime.pipeline_input_ids,
        pipeline_output_ids: after.runtime.pipeline_output_ids,
        node_completed: after.runtime.node_completed,
        root_sent: after.runtime.root_sent,
        pipeline_completions: 0,
        pipeline_target_completions: after.runtime.pipeline_target_completions,
        ..before.runtime
    })
    &&& after.runtime.pipeline_input_ids@.len() == count
    &&& inputs_allocated(
        ports,
        before.runtime.inputs@,
        fresh.later_inputs@,
        after.runtime.pipeline_input_ids@,
    )
    &&& after.runtime.next_inputs@ == fresh.next_inputs@
    &&& after.runtime.pipeline_output_ids@ == fresh.outputs@
    &&& all_zero(after.runtime.node_completed@, nodes)
    &&& all_zero(after.runtime.root_sent@, roots(before.topology))
    &&& after.runtime.pipeline_target_completions == nodes.len() * count
    &&& progress_reset(before.topology, after.topology)
}

/// `failure` is the reason why the window cannot be prepared.
pub open spec fn explains_unprepared<S>(state: ForwardSunState<S>, failure: Failure) -> bool {
    if state.runtime.pipeline_inputs@.len() == 0 {
        says(failure, "forward pipeline requires at least one input"@)
    } else if state.runtime.sink_id is None {
        says(failure, "forward graph has no sink after finalization"@)
    } else {
        exists|port: u32| #[trigger]
            first_missing(state.topology.port_vertices@.dom(), state.runtime.inputs@, port)
                && says(
                failure,
                one_number("missing initial forward mailbox for port "@, port as nat, ""@),
            )
    }
}

/// What a preparation that found a port without a mailbox leaves behind: the
/// mailboxes of the ports before it. Any other refusal changes nothing.
pub open spec fn preparation_stopped<S>(
    before: ForwardSunState<S>,
    after: ForwardSunState<S>,
    fresh: PipelineMailboxes,
) -> bool {
    &&& after.topology == before.topology
    &&& if before.runtime.pipeline_inputs@.len() == 0 || before.runtime.sink_id is None {
        after.runtime == before.runtime
    } else {
        let ports = before.topology.port_vertices@.dom();
        &&& after.runtime == (ForwardRuntime {
            next_inputs: after.runtime.next_inputs,
            pipeline_input_ids: after.runtime.pipeline_input_ids,
            pipeline_output_ids: after.runtime.pipeline_output_ids,
            ..before.runtime
        })
        &&& after.runtime.pipeline_output_ids@.len() == before.runtime.pipeline_inputs@.len()
        &&& all_cover(after.runtime.pipeline_output_ids@, Set::empty())
        &&& after.runtime.pipeline_input_ids@.len() == before.runtime.pipeline_inputs@.len()
        &&& exists|port: u32| #[trigger]
            first_missing(ports, before.runtime.inputs@, port) && inputs_allocated(
                ids_below(ports, port),
                before.runtime.inputs@,
                fresh.later_inputs@,
                after.runtime.pipeline_input_ids@,
            ) && after.runtime.next_inputs@ == fresh.next_inputs@.restrict(ids_below(ports, port))
    }
}

/// The window can be prepared.
pub open spec fn preparable<S>(state: ForwardSunState<S>) -> bool {
    &&& state.runtime.pipeline_inputs@.len() > 0
    &&& state.runtime.sink_id is Some
    &&& forall|port: u32| #[trigger]
        state.topology.port_vertices@.contains_key(port)
            ==> state.runtime.inputs@.contains_key(port)
}

/// Allocates request-specific mailboxes and resets per-node progress.
pub struct PrepareForwardPipeline;

impl PrepareForwardPipeline {
    /// Prepares the window with the given mailboxes. A port without a current
    /// mailbox stops the allocation at that port.
    pub fn absorb_with<S>(
        state: &mut ForwardSunState<S>,
        output: Result<(), AtomError>,
        fresh: PipelineMailboxes,
    ) -> (result: Result<(), Failure>)
        requires
            mailboxes_fit(
                fresh,
                old(state).topology.port_vertices@.dom(),
                old(state).topology.vertices(),
                old(state).runtime.pipeline_inputs@.len(),
            ),
            old(state).topology.vertices().len() * old(state).runtime.pipeline_inputs@.len()
                <= usize::MAX,
        ensures
            result is Ok <==> output is Ok && preparable(*old(state)),
            result is Ok ==> pipeline_prepared(*old(state), *final(state), fresh),
            result matches Err(failure) ==> if output is Err {
                &&& says(failure, "prepare forward pipeline failed"@)
                &&& *final(state) == *old(state)
            } else {
                &&& explains_unprepared(*old(state), failure)
                &&& preparation_stopped(*old(state), *final(state), fresh)
            },
    {
        if output.is_err() {
            return Err(refused("prepare forward pipeline failed"));
        }
        let input_count = state.runtime.pipeline_inputs.len();
        if input_count == 0 {
            return Err(refused("forward pipeline requires at least one input"));
        }
        if state.runtime.sink_id.is_none() {
            return Err(refused("forward graph has no sink after finalization"));
        }
        let ports = port_ids(&state.topology);
        let nodes = vertex_ids(&state.topology);
        let root_ids = root_vertex_ids(&state.topology);
        let (input_ids, missing) = allocate_inputs(
            &ports,
            &state.runtime.inputs,
            &fresh.later_inputs,
        );
        state.runtime.pipeline_input_ids = input_ids;
        match missing {
            Some(port) => {
                state.runtime.pipeline_output_ids = empty_maps(input_count);
                state.runtime.next_inputs = keep_below(&fresh.next_inputs, port);
                return Err(
                    refused_at("missing initial forward mailbox for port ", port as u64, ""),
                );
            },
            None => {},
        }
        state.runtime.next_inputs = fresh.next_inputs;
        state.runtime.pipeline_output_ids = fresh.outputs;
        state.runtime.node_completed = zero_counts(&nodes);
        state.runtime.root_sent = zero_counts(&root_ids);
        state.runtime.pipeline_completions = 0;
        state.runtime.pipeline_target_completions = nodes.len() * input_count;
        state.topology.reset_progress();
        Ok(())
    }

    /// Prepares the window with random mailboxes.
    pub fn absorb<S>(state: &mut ForwardSunState<S>, output: Result<(), AtomError>) -> (result:
        Result<(), Failure>)
        requires
            old(state).topology.vertices().len() * old(state).runtime.pipeline_inputs@.len()
                <= usize::MAX,
        ensures
            result is Ok <==> output is Ok && preparable(*old(state)),
            result is Ok ==> exists|fresh: PipelineMailboxes| #[trigger]
                pipeline_prepared(*old(state), *final(state), fresh) && mailboxes_random(fresh)
                    && mailboxes_fit(
                    fresh,
                    old(state).topology.port_vertices@.dom(),
                    old(state).topology.vertices(),
                    old(state).runtime.pipeline_inputs@.len(),
                ),
            result matches Err(failure) ==> if output is Err {
                &&& says(failure, "prepare forward pipeline failed"@)
                &&& *final(state) == *old(state)
            } else {
                &&& explains_unprepared(*old(state), failure)
                &&& exists|fresh: PipelineMailboxes| #[trigger]
                    preparation_stopped(*old(state), *final(state), fresh)
            },
    {
        let fresh = draw_pipeline_mailboxes(&state.topology, state.runtime.pipeline_inputs.len());
        PrepareForwardPipeline::absorb_with(state, output, fresh)
    }
}

/// The artifact that `root_id` is due to be sent, if it has not been yet.
pub open spec fn unsent_task<S>(runtime: ForwardRuntime<S>, root_id: u32) -> Option<int> {
    match next_task(runtime, root_id) {
        Some(index) => if count_at(runtime.root_sent@, root_id) > index {
            None
        } else {
            Some(index)
        },
        None => None,
    }
}

/// The sends due to one root: its next artifact, to each of its ports.
pub open spec fn sends_to<S>(state: ForwardSunState<S>, root_id: u32) -> Seq<
    RootArtifactDeliverySend,
> {
    match unsent_task(state.runtime, root_id) {
        Some(index) => list_at(lists(state.topology.vertex_ports@), root_id).map_values(
            |port: u32|
                RootArtifactDeliverySend {
                    target: target_of(state, index, port),
                    delivery: state.runtime.pipeline_inputs@[index],
                },
        ),
        None => Seq::empty(),
    }
}

/// The sends due to the listed roots, root by root.
pub open spec fn sends_to_all<S>(state: ForwardSunState<S>, root_ids: Seq<u32>) -> Seq<
    RootArtifactDeliverySend,
>
    decreases root_ids.len(),
{
    if root_ids.len() == 0 {
        Seq::empty()
    } else {
        sends_to_all(state, root_ids.drop_last()) + sends_to(state, root_ids.last())
    }
}

/// The mailboxes of everything due to the roots are known.
pub open spec fn roots_addressable<S>(state: ForwardSunState<S>) -> bool {
    forall|root_id: u32, i: int|
        #![trigger list_at(lists(state.topology.vertex_ports@), root_id)[i]]
        roots(state.topology).contains(root_id) && unsent_task(state.runtime, root_id) is Some && 0
            <= i < list_at(lists(state.topology.vertex_ports@), root_id).len() ==> has_target(
            state,
            unsent_task(state.runtime, root_id)->0,
            list_at(lists(state.topology.vertex_ports@), root_id)[i],
        )
}

/// One more artifact was sent to each occurrence of a root in `sent`.
pub open spec fn sends_counted(
    before: Map<u32, usize>,
    after: Map<u32, usize>,
    sent: Seq<u32>,
) -> bool {
    &&& forall|id: u32| #[trigger]
        after.contains_key(id) <==> before.contains_key(id) || sent.contains(id)
    &&& forall|id: u32|
        #![trigger count_at(after, id)]
        count_at(after, id) == if count_at(before, id) + occurrences(sent, id) <= usize::MAX {
            count_at(before, id) + occurrences(sent, id)
        } else {
            usize::MAX as nat
        }
}

/// Seeds the next artifact for every root whose previous one has completed.
pub struct SendReadyForwardRoots;

impl SendReadyForwardRoots {
    /// The artifacts due to the roots, with their mailboxes.
    pub fn emit<S>(state: &ForwardSunState<S>) -> (sends: Vec<RootArtifactDeliverySend>)
        requires
            roots_addressable(*state),
        ensures
            sends@ == sends_to_all(*state, ascending(roots(state.topology))),
    {
        let root_ids = root_vertex_ids(&state.topology);
        let mut sends: Vec<RootArtifactDeliverySend> = Vec::new();
        let mut i: usize = 0;
        assert(root_ids@.take(0) =~= Seq::empty());
        while i < root_ids.len()
            invariant
                i <= root_ids.len(),
                roots_addressable(*state),
                root_ids@.to_set() == roots(state.topology),
                sends@ == sends_to_all(*state, root_ids@.take(i as int)),
            decreases root_ids.len() - i,
        {
            let root_id = root_ids[i];
            let ghost before = sends@;
            let ghost due = sends_to(*state, root_id);
            proof {
                lemma_take_next(root_ids@, i as int);
                assert(root_ids@.contains(root_id));
                assert(root_ids@.to_set().contains(root_id));
                assert(before + due.take(0) =~= before);
            }
            match pipeline_task_for_node(state, root_id) {
                Some(index) => {
                    if count_or_zero(&state.runtime.root_sent, root_id) <= index {
                        let delivery = state.runtime.pipeline_inputs[index];
                        match state.topology.vertex_ports.get(&root_id) {
                            Some(ports) => {
                                let mut j: usize = 0;
                                while j < ports.len()
                                    invariant
                                        j <= ports.len(),
                                        roots_addressable(*state),
                                        roots(state.topology).contains(root_id),
                                        unsent_task(state.runtime, root_id) == Some(index as int),
                                        list_at(lists(state.topology.vertex_ports@), root_id)
                                            == ports@,
                                        due == sends_to(*state, root_id),
                                        due.len() == ports@.len(),
                                        delivery == state.runtime.pipeline_inputs@[index as int],
                                        sends@ == before + due.take(j as int),
                                    decreases ports.len() - j,
                                {
                                    proof {
                                        lemma_take_next(due, j as int);
                                        assert(list_at(
                                            lists(state.topology.vertex_ports@),
                                            root_id,
                                        )[j as int] == ports@[j as int]);
                                    }
                                    sends.push(
                                        RootArtifactDeliverySend {
                                            target: pipeline_target(state, index, ports[j]),
                                            delivery,
                                        },
                                    );
                                    assert(sends@ =~= before + due.take(j + 1));
                                    j = j + 1;
                                }
                                assert(due.take(j as int) =~= due);
                            },
                            None => {
                                assert(due =~= Seq::empty());
                                assert(before + due =~= before);
                            },
                        }
                    } else {
                        assert(before + due =~= before);
                    }
                },
                None => {
                    assert(before + due =~= before);
                },
            }
            i = i + 1;
        }
        assert(root_ids@.take(i as int) =~= root_ids@);
        sends
    }

    /// Counts the artifacts that were sent and records the roots they reached.
    pub fn absorb<S>(state: &mut ForwardSunState<S>, output: Result<Vec<u32>, AtomError>) -> (result:
        Result<(), Failure>)
        requires
            output matches Ok(sent) ==> sequences_fit(
                old(state).topology.node_state_sequences@,
                sent@,
            ),
        ensures
            final(state).runtime == (ForwardRuntime {
                root_sent: final(state).runtime.root_sent,
                ..old(state).runtime
            }),
            match output {
                Ok(sent) => {
                    &&& result is Ok
                    &&& sends_counted(
                        old(state).runtime.root_sent@,
                        final(state).runtime.root_sent@,
                        sent@,
                    )
                    &&& started_recorded(old(state).topology, final(state).topology, sent@)
                },
                Err(error) => {
                    &&& result matches Err(failure) && says(
                        failure,
                        "send ready forward roots failed: "@ + error.text(),
                    )
                    &&& *final(state) == *old(state)
                },
            },
    {
        let sent = match output {
            Ok(sent) => sent,
            Err(error) => {
                return Err(refused_by("send ready forward roots failed: ", &error));
            },
        };
        let mut i: usize = 0;
        assert(sent@.take(0) =~= Seq::empty());
        while i < sent.len()
            invariant
                i <= sent.len(),
                state.topology == old(state).topology,
                state.runtime == (ForwardRuntime {
                    root_sent: state.runtime.root_sent,
                    ..old(state).runtime
                }),
                sends_counted(
                    old(state).runtime.root_sent@,
                    state.runtime.root_sent@,
                    sent@.take(i as int),
                ),
            decreases sent.len() - i,
        {
            let id = sent[i];
            let ghost before = state.runtime.root_sent@;
            let count = count_or_zero(&state.runtime.root_sent, id);
            let next: usize = if count < usize::MAX {
                count + 1
            } else {
                usize::MAX
            };
            state.runtime.root_sent.insert(id, next);
            proof {
                lemma_take_next(sent@, i as int);
                assert forall|x: u32|
                    #![trigger count_at(state.runtime.root_sent@, x)]
                    count_at(state.runtime.root_sent@, x) == if count_at(
                        old(state).runtime.root_sent@,
                        x,
                    ) + occurrences(sent@.take(i + 1), x) <= usize::MAX {
                        count_at(old(state).runtime.root_sent@, x) + occurrences(
                            sent@.take(i + 1),
                            x,
                        )
                    } else {
                        usize::MAX as nat
                    } by {
                    lemma_occurrences_push(sent@.take(i as int), id, x);
                    assert(count_at(before, x) >= 0);
                }
            }
            i = i + 1;
        }
        assert(sent@.take(i as int) =~= sent@);
        state.topology.record_forward_started(&sent);
        Ok(())
    }
}

/// The mailboxes of everything the ready nodes can forward are known.
pub open spec fn ready_addressable<S>(state: ForwardSunState<S>) -> bool {
    forall|node: u32, i: int|
        #![trigger list_at(state.topology.outgoing_edges(), node)[i]]
        pipeline_ready(state).contains(node) && 0 <= i < list_at(
            state.topology.outgoing_edges(),
            node,
        ).len() ==> has_target(
            state,
            next_task(state.runtime, node)->0,
            list_at(state.topology.outgoing_edges(), node)[i].port_id,
        )
}

/// Where `node` publishes its next artifact, if that is known.
pub open spec fn task_endpoint<S>(runtime: ForwardRuntime<S>, node: u32) -> Option<
    (u32, ObjectId),
> {
    match next_task(runtime, node) {
        Some(index) => if index < runtime.pipeline_output_ids@.len()
            && runtime.pipeline_output_ids@[index]@.contains_key(node) {
            Some((node, runtime.pipeline_output_ids@[index]@[node]))
        } else {
            None
        },
        None => None,
    }
}

/// Where `node` forwards its next artifact.
pub open spec fn task_targets<S>(state: ForwardSunState<S>, node: u32) -> Seq<PropagationTarget> {
    list_at(state.topology.outgoing_edges(), node).map_values(
        |edge: PortTarget| target_of(state, next_task(state.runtime, node)->0, edge.port_id),
    )
}

fn collect_task_targets<S>(state: &ForwardSunState<S>, node: u32, index: usize) -> (targets: Vec<
    PropagationTarget,
>)
    requires
        ready_addressable(*state),
        pipeline_ready(*state).contains(node),
        next_task(state.runtime, node) == Some(index as int),
    ensures
        targets@ == task_targets(*state, node),
{
    let ghost wanted = task_targets(*state, node);
    let mut targets: Vec<PropagationTarget> = Vec::new();
    match state.topology.outgoing.get(&node) {
        Some(edges) => {
            let mut i: usize = 0;
            while i < edges.len()
                invariant
                    i <= edges.len(),
                    ready_addressable(*state),
                    pipeline_ready(*state).contains(node),
                    next_task(state.runtime, node) == Some(index as int),
                    list_at(state.topology.outgoing_edges(), node) == edges@,
                    wanted == task_targets(*state, node),
                    targets@ == wanted.take(i as int),
                decreases edges.len() - i,
            {
                proof {
                    lemma_take_next(wanted, i as int);
                    assert(list_at(state.topology.outgoing_edges(), node)[i as int]
                        == edges@[i as int]);
                }
                targets.push(pipeline_target(state, index, edges[i].port_id));
                i = i + 1;
            }
        },
        None => {},
    }
    assert(targets@ =~= wanted);
    targets
}

/// The state after `completion` was absorbed.
pub open spec fn pipeline_advanced<S>(
    before: ForwardSunState<S>,
    after: ForwardSunState<S>,
    completion: SchedulerDelivery,
) -> bool {
    let node = completion.node_id;
    let completions: nat = if before.runtime.pipeline_completions < usize::MAX {
        (before.runtime.pipeline_completions + 1) as nat
    } else {
        usize::MAX as nat
    };
    let finished = completions == before.runtime.pipeline_target_completions;
    &&& after.runtime == (ForwardRuntime {
        inputs: after.runtime.inputs,
        next_inputs: after.runtime.next_inputs,
        completed_outputs: after.runtime.completed_outputs,
        node_completed: after.runtime.node_completed,
        pipeline_completions: after.runtime.pipeline_completions,
        ..before.runtime
    })
    &&& after.runtime.pipeline_completions == completions
    &&& after.runtime.node_completed@ == before.runtime.node_completed@.insert(
        node,
        (before.runtime.node_completed@[node] + 1) as usize,
    )
    &&& after.runtime.completed_outputs@ == if before.runtime.sink_id == Some(node) {
        before.runtime.completed_outputs@.push(completion.delivery)
    } else {
        before.runtime.completed_outputs@
    }
    &&& if finished {
        &&& after.runtime.inputs@ == before.runtime.next_inputs@
        &&& after.runtime.next_inputs@ == Map::<u32, ObjectId>::empty()
    } else {
        &&& after.runtime.inputs@ == before.runtime.inputs@
        &&& after.runtime.next_inputs@ == before.runtime.next_inputs@
    }
    &&& exists|recorded: SunTopology| #[trigger]
        completion_recorded(before.topology, recorded, node, completion.sent_node_ids@)
            && annotated_with(
            recorded,
            after.topology,
            node,
            "pipeline input "@ + decimal((before.runtime.node_completed@[node] + 1) as nat),
        )
}

/// `node` carries the annotation `text`; nothing else changed.
pub open spec fn annotated_with(
    before: SunTopology,
    after: SunTopology,
    node: u32,
    text: Seq<char>,
) -> bool {
    &&& after == (SunTopology {
        node_phase_annotations: after.node_phase_annotations,
        ..before
    })
    &&& after.node_phase_annotations@.contains_key(node)
    &&& after.node_phase_annotations@[node]@ == text
    &&& after.node_phase_annotations@ == before.node_phase_annotations@.insert(
        node,
        after.node_phase_annotations@[node],
    )
}

/// Waits for the next ready completion of a node on an artifact, forwards it
/// within that artifact's pass, and releases the node for the following one.
pub struct ProcessReadyForwardPipelineNode;

impl ProcessReadyForwardPipelineNode {
    /// Where the ready nodes publish, and where each forwards to.
    pub fn emit<S>(state: &ForwardSunState<S>) -> (input: WaitForNodeArtifactDeliveryInput)
        requires
            ready_addressable(*state),
        ensures
            input.rx_endpoints@ == somes(
                ascending(pipeline_ready(*state)).map_values(
                    |node: u32| task_endpoint(state.runtime, node),
                ),
            ),
            input.downstream@.dom() == pipeline_ready(*state),
            forall|node: u32| #[trigger]
                input.downstream@.contains_key(node) ==> input.downstream@[node]@ == task_targets(
                    *state,
                    node,
                ),
    {
        let ready = pipeline_ready_nodes(state);
        let ghost found = ready@.map_values(|node: u32| task_endpoint(state.runtime, node));
        let mut rx_endpoints: Vec<(u32, ObjectId)> = Vec::new();
        let mut downstream: HashMap<u32, Vec<PropagationTarget>> = HashMap::new();
        let mut i: usize = 0;
        assert(ready@.take(0).to_set() =~= Set::empty());
        assert(found.take(0) =~= Seq::empty());
        while i < ready.len()
            invariant
                i <= ready.len(),
                ready_addressable(*state),
                ready@.to_set() == pipeline_ready(*state),
                found == ready@.map_values(|node: u32| task_endpoint(state.runtime, node)),
                rx_endpoints@ == somes(found.take(i as int)),
                downstream@.dom() == ready@.take(i as int).to_set(),
                forall|node: u32| #[trigger]
                    downstream@.contains_key(node) ==> downstream@[node]@ == task_targets(
                        *state,
                        node,
                    ),
            decreases ready.len() - i,
        {
            let node = ready[i];
            proof {
                lemma_take_next(ready@, i as int);
                lemma_take_next(found, i as int);
                assert(ready@.contains(node));
                assert(ready@.to_set().contains(node));
                assert(task_ready(*state, node));
            }
            let index = pipeline_task_for_node(state, node).unwrap();
            if index < state.runtime.pipeline_output_ids.len() {
                match state.runtime.pipeline_output_ids[index].get(&node) {
                    Some(output_id) => {
                        rx_endpoints.push((node, *output_id));
                    },
                    None => {},
                }
            }
            let targets = collect_task_targets(state, node, index);
            downstream.insert(node, targets);
            i = i + 1;
        }
        assert(ready@.take(i as int) =~= ready@);
        assert(found.take(i as int) =~= found);
        WaitForNodeArtifactDeliveryInput::new(rx_endpoints, downstream)
    }

    /// Counts the completion and, at the sink, keeps the output. The last
    /// completion of the window rotates every port to its next mailbox.
    pub fn absorb<S>(
        state: &mut ForwardSunState<S>,
        output: Result<SchedulerDelivery, AtomError>,
    ) -> (result: Result<(), Failure>)
        requires
            output matches Ok(completion) ==> sequences_fit(
                old(state).topology.node_state_sequences@,
                completion.sent_node_ids@,
            ),
        ensures
            match output {
                Ok(completion) => {
                    let node = completion.node_id;
                    let active = next_task(old(state).runtime, node) is Some;
                    let counted = old(state).runtime.node_completed@.contains_key(node);
                    &&& result is Ok <==> active && counted
                    &&& result is Ok ==> pipeline_advanced(*old(state), *final(state), completion)
                    &&& result matches Err(failure) ==> {
                        &&& *final(state) == *old(state)
                        &&& says(
                            failure,
                            if !active {
                                one_number(
                                    "completed node "@,
                                    node as nat,
                                    " has no active forward pipeline input"@,
                                )
                            } else {
                                one_number(
                                    "missing forward pipeline counter for node "@,
                                    node as nat,
                                    ""@,
                                )
                            },
                        )
                    }
                },
                Err(error) => {
                    &&& result matches Err(failure) && says(
                        failure,
                        "process ready forward pipeline node failed: "@ + error.text(),
                    )
                    &&& *final(state) == *old(state)
                },
            },
    {
        let completion = match output {
            Ok(completion) => completion,
            Err(error) => {
                return Err(
                    refused_by("process ready forward pipeline node failed: ", &error),
                );
            },
        };
        let node_id = completion.node_id;
        let input_index = match pipeline_task_for_node(state, node_id) {
            Some(index) => index,
            None => {
                return Err(
                    refused_at(
                        "completed node ",
                        node_id as u64,
                        " has no active forward pipeline input",
                    ),
                );
            },
        };
        if !state.runtime.node_completed.contains_key(&node_id) {
            return Err(
                refused_at("missing forward pipeline counter for node ", node_id as u64, ""),
            );
        }
        assert(input_index < state.runtime.pipeline_inputs.len());
        state.runtime.node_completed.insert(node_id, input_index + 1);
        if state.runtime.pipeline_completions < usize::MAX {
            state.runtime.pipeline_completions = state.runtime.pipeline_completions + 1;
        }
        let at_sink: bool = match state.runtime.sink_id {
            Some(sink) => sink == node_id,
            None => false,
        };
        if at_sink {
            state.runtime.completed_outputs.push_back(completion.delivery);
        }
        if state.runtime.pipeline_completions == state.runtime.pipeline_target_completions {
            let mut rotated: HashMap<u32, ObjectId> = HashMap::new();
            std::mem::swap(&mut rotated, &mut state.runtime.next_inputs);
            state.runtime.inputs = rotated;
        }
        state.topology.record_completion(node_id, &completion.sent_node_ids);
        let ghost recorded = state.topology;
        let mut text = "pipeline input ".to_owned();
        text.append(decimal_string(input_index as u64 + 1).as_str());
        state.topology.node_phase_annotations.insert(node_id, text);
        proof {
            assert(annotated_with(
                recorded,
                state.topology,
                node_id,
                "pipeline input "@ + decimal((input_index + 1) as nat),
            ));
        }
        Ok(())
    }
}

/// Returns the oldest completed sink output.
pub struct TakeForwardPipelineOutput;

impl TakeForwardPipelineOutput {
    /// The oldest completed output.
    pub fn emit<S>(state: &ForwardSunState<S>) -> (delivery: ArtifactDelivery)
        requires
            state.runtime.completed_outputs@.len() > 0,
        ensures
            delivery == state.runtime.completed_outputs@[0],
    {
        state.runtime.completed_outputs[0]
    }

    /// Takes the oldest completed output out of the window.
    pub fn absorb<S>(
        state: &mut ForwardSunState<S>,
        output: Result<(), AtomError>,
        carry: ArtifactDelivery,
    ) -> (result: Result<ArtifactDelivery, Failure>)
        ensures
            final(state).topology == old(state).topology,
            final(state).runtime == (ForwardRuntime {
                completed_outputs: final(state).runtime.completed_outputs,
                ..old(state).runtime
            }),
            result is Ok <==> output is Ok && old(state).runtime.completed_outputs@.len() > 0,
            result matches Ok(delivery) ==> {
                &&& delivery == carry
                &&& final(state).runtime.completed_outputs@ == old(
                    state,
                ).runtime.completed_outputs@.drop_first()
            },
            result matches Err(failure) ==> {
                &&& final(state).runtime.completed_outputs@ == old(
                    state,
                ).runtime.completed_outputs@
                &&& says(
                    failure,
                    if output is Err {
                        "take forward pipeline output failed"@
                    } else {
                        "completed forward output disappeared"@
                    },
                )
            },
    {
        if output.is_err() {
            return Err(refused("take forward pipeline output failed"));
        }
        match state.runtime.completed_outputs.pop_front() {
            Some(_) => Ok(carry),
            None => Err(refused("completed forward output disappeared")),
        }
    }
}

} // verus!
