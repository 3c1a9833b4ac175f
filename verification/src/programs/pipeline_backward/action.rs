//! The actions of a pipeline-parallel Sun.

use std::marker::PhantomData;

use vstd::prelude::*;
use vstd::string::*;

use crate::collections::{ascending, lemma_ascending_lists};
use crate::counting::{at_least_one, spec_at_least_one};
use crate::error::AtomError;
use crate::failure::{refused, refused_with, says, Failure};
use crate::ids::{ObjectId, Uuid};
use crate::mailbox::copy_mailboxes;
use crate::message::{ArtifactDelivery, EmissionId};
use crate::programs::pipeline_backward::{
    PipelineBackwardState, PipelineStepResult, RunPipelineInput, RunPipelineOutput,
};
use crate::topology::SunTopology;
use crate::topology::frontier::vertex_ids;
use crate::topology::graph::{list_at, lists};
use crate::topology::resolve::{
    explains_unresolvable, finalized_as, resolvable, resolve_neutral_topology,
};
use crate::topology::targets::{lemma_somes_push, somes};

verus! {

broadcast use vstd::std_specs::hash::group_hash_axioms;

/// Whether one replica still lacks micro-batches.
pub struct NeedsMicroBatches<S, const M: usize>(pub PhantomData<S>);

impl<S, const M: usize> NeedsMicroBatches<S, M> {
    pub fn eval(state: &PipelineBackwardState<S>) -> (needed: bool)
        ensures
            needed == (state.micro_batches@.len() < spec_at_least_one(M)),
    {
        state.micro_batches.len() < at_least_one(M)
    }
}

/// Whether two replicas still lack micro-batches.
pub struct NeedsDataParallelMicroBatches<S, const M: usize>(pub PhantomData<S>);

impl<S, const M: usize> NeedsDataParallelMicroBatches<S, M> {
    pub fn eval(state: &PipelineBackwardState<S>) -> (needed: bool)
        requires
            2 * M <= usize::MAX,
        ensures
            needed == (state.micro_batches@.len() < 2 * spec_at_least_one(M)),
    {
        state.micro_batches.len() < 2 * at_least_one(M)
    }
}

/// Forgets the micro-batches of the step before.
pub struct BeginStep<S>(pub PhantomData<S>);

impl<S> BeginStep<S> {
    pub fn absorb(
        state: &mut PipelineBackwardState<S>,
        output: Result<(), AtomError>,
    ) -> (result: Result<(), Failure>)
        ensures
            result is Ok <==> output is Ok,
            result matches Err(failure) ==> says(failure, "begin pipeline step failed"@)
                && *final(state) == *old(state),
            result is Ok ==> final(state).micro_batches@.len() == 0 && *final(state) == (
            PipelineBackwardState { micro_batches: final(state).micro_batches, ..*old(state) }),
    {
        match output {
            Err(_) => Err(refused("begin pipeline step failed")),
            Ok(()) => {
                state.micro_batches = Vec::new();
                Ok(())
            },
        }
    }
}

/// Keeps one source delivery for the step.
pub struct StoreMicroBatch<S>(pub PhantomData<S>);

impl<S> StoreMicroBatch<S> {
    pub fn absorb(
        state: &mut PipelineBackwardState<S>,
        output: Result<(), AtomError>,
        delivery: ArtifactDelivery,
    ) -> (result: Result<(), Failure>)
        ensures
            result is Ok <==> output is Ok,
            result matches Err(failure) ==> says(failure, "store pipeline micro-batch failed"@)
                && *final(state) == *old(state),
            result is Ok ==> final(state).micro_batches@ == old(state).micro_batches@.push(delivery)
                && *final(state) == (PipelineBackwardState {
                micro_batches: final(state).micro_batches,
                ..*old(state)
            }),
    {
        match output {
            Err(_) => Err(refused("store pipeline micro-batch failed")),
            Ok(()) => {
                state.micro_batches.push(delivery);
                Ok(())
            },
        }
    }
}

/// The first input port of a vertex.
pub open spec fn first_port(topology: SunTopology, vertex: u32) -> Option<u32> {
    let ports = list_at(lists(topology.vertex_ports@), vertex);
    if ports.len() > 0 {
        Some(ports[0])
    } else {
        None
    }
}

/// The input ports of a vertex.
pub open spec fn ports_at(topology: SunTopology, vertex: u32) -> Option<Seq<u32>> {
    if topology.vertex_ports@.contains_key(vertex) {
        Some(topology.vertex_ports@[vertex]@)
    } else {
        None
    }
}

/// The ports of each stage, as plain lists.
pub open spec fn stage_ports(ports: Seq<Vec<u32>>) -> Seq<Seq<u32>> {
    ports.map_values(|stage: Vec<u32>| stage@)
}

/// The only edge of `vertex` leads to `next`.
pub open spec fn chained(topology: SunTopology, vertex: u32, next: u32) -> bool {
    let outgoing = list_at(topology.outgoing_edges(), vertex);
    outgoing.len() == 1 && outgoing[0].vertex_id == next
}

/// Both edges of `vertex` lead to `next`, one to each of its ports, and the
/// ports of `next` are in ascending order.
pub open spec fn chained_twice(topology: SunTopology, vertex: u32, next: u32) -> bool {
    let outgoing = list_at(topology.outgoing_edges(), vertex);
    let ports = list_at(lists(topology.vertex_ports@), next);
    &&& outgoing.len() == 2
    &&& outgoing[0].vertex_id == next
    &&& outgoing[1].vertex_id == next
    &&& ports == if outgoing[0].port_id <= outgoing[1].port_id {
        seq![outgoing[0].port_id, outgoing[1].port_id]
    } else {
        seq![outgoing[1].port_id, outgoing[0].port_id]
    }
}

/// Each vertex but the last is chained to the one after it.
pub open spec fn all_chained(topology: SunTopology, nodes: Seq<u32>, twice: bool) -> bool {
    forall|i: int|
        #![trigger nodes[i]]
        0 <= i < nodes.len() - 1 ==> if twice {
            chained_twice(topology, nodes[i], nodes[i + 1])
        } else {
            chained(topology, nodes[i], nodes[i + 1])
        }
}

fn is_chained(topology: &SunTopology, vertex: u32, next: u32) -> (is: bool)
    ensures
        is == chained(*topology, vertex, next),
{
    match topology.outgoing.get(&vertex) {
        Some(outgoing) => outgoing.len() == 1 && outgoing[0].vertex_id == next,
        None => false,
    }
}

fn is_chained_twice(topology: &SunTopology, vertex: u32, next: u32) -> (is: bool)
    ensures
        is == chained_twice(*topology, vertex, next),
{
    let ghost there = list_at(lists(topology.vertex_ports@), next);
    let outgoing = match topology.outgoing.get(&vertex) {
        Some(outgoing) => outgoing,
        None => {
            return false;
        },
    };
    if outgoing.len() != 2 || outgoing[0].vertex_id != next || outgoing[1].vertex_id != next {
        return false;
    }
    let (low, high) = if outgoing[0].port_id <= outgoing[1].port_id {
        (outgoing[0].port_id, outgoing[1].port_id)
    } else {
        (outgoing[1].port_id, outgoing[0].port_id)
    };
    let is = match topology.vertex_ports.get(&next) {
        Some(ports) => ports.len() == 2 && ports[0] == low && ports[1] == high,
        None => false,
    };
    assert(is ==> there =~= seq![low, high]);
    assert(there == seq![low, high] ==> there.len() == 2 && there[0] == low && there[1] == high);
    is
}

fn are_all_chained(topology: &SunTopology, nodes: &Vec<u32>, twice: bool) -> (are: bool)
    ensures
        are == all_chained(*topology, nodes@, twice),
{
    let mut i: usize = 1;
    while i < nodes.len()
        invariant
            1 <= i,
            nodes@.len() >= 1 ==> i <= nodes@.len(),
            forall|j: int|
                #![trigger nodes@[j]]
                0 <= j < i - 1 ==> if twice {
                    chained_twice(*topology, nodes@[j], nodes@[j + 1])
                } else {
                    chained(*topology, nodes@[j], nodes@[j + 1])
                },
        decreases nodes.len() - i,
    {
        let linked = if twice {
            is_chained_twice(topology, nodes[i - 1], nodes[i])
        } else {
            is_chained(topology, nodes[i - 1], nodes[i])
        };
        if !linked {
            assert(nodes@[i - 1] == nodes@[i - 1]);
            return false;
        }
        i = i + 1;
    }
    true
}

/// What a step of one replica is given: the vertices in order, one port for
/// each, and whether they form one chain.
pub open spec fn single_input<S>(state: PipelineBackwardState<S>, input: RunPipelineInput) -> bool {
    let nodes = ascending(state.topology.vertices());
    let ports = somes(nodes.map_values(|node: u32| first_port(state.topology, node)));
    &&& input.nodes@ == nodes
    &&& stage_ports(input.ports@) == ports.map_values(|port: u32| seq![port])
    &&& input.replicas == 1
    &&& input.linear == (ports.len() == nodes.len() && all_chained(state.topology, nodes, false))
    &&& input.inboxes@ == state.inboxes@
    &&& input.micro_batches@ == state.micro_batches@
    &&& input.step == state.step
}

/// What a step of two replicas is given: the vertices in order, both ports of
/// each, and whether they form one chain of two-port stages.
pub open spec fn double_input<S>(state: PipelineBackwardState<S>, input: RunPipelineInput) -> bool {
    let nodes = ascending(state.topology.vertices());
    let ports = somes(nodes.map_values(|node: u32| ports_at(state.topology, node)));
    &&& input.nodes@ == nodes
    &&& stage_ports(input.ports@) == ports
    &&& input.replicas == 2
    &&& input.linear == (ports.len() == nodes.len() && (forall|i: int|
        0 <= i < ports.len() ==> (#[trigger] ports[i]).len() == 2) && all_chained(
        state.topology,
        nodes,
        true,
    ))
    &&& input.inboxes@ == state.inboxes@
    &&& input.micro_batches@ == state.micro_batches@
    &&& input.step == state.step
}

fn first_ports(topology: &SunTopology, nodes: &Vec<u32>) -> (ports: Vec<Vec<u32>>)
    ensures
        stage_ports(ports@) == somes(
            nodes@.map_values(|node: u32| first_port(*topology, node)),
        ).map_values(|port: u32| seq![port]),
{
    let ghost first = |node: u32| first_port(*topology, node);
    let ghost single = |port: u32| seq![port];
    let mut ports: Vec<Vec<u32>> = Vec::new();
    let mut i: usize = 0;
    assert(nodes@.take(0).map_values(first) =~= Seq::empty());
    assert(stage_ports(ports@) =~= Seq::<Option<u32>>::empty().map_values(
        |x: Option<u32>| Seq::<u32>::empty(),
    ));
    assert(somes(nodes@.take(0).map_values(first)).map_values(single) =~= stage_ports(ports@));
    while i < nodes.len()
        invariant
            i <= nodes@.len(),
            first == (|node: u32| first_port(*topology, node)),
            single == (|port: u32| seq![port]),
            stage_ports(ports@) == somes(nodes@.take(i as int).map_values(first)).map_values(
                single,
            ),
        decreases nodes.len() - i,
    {
        let ghost done = nodes@.take(i as int).map_values(first);
        proof {
            lemma_somes_push(done, first(nodes@[i as int]));
            assert(nodes@.take(i + 1).map_values(first) =~= done.push(first(nodes@[i as int])));
        }
        if let Some(list) = topology.vertex_ports.get(&nodes[i]) {
            if list.len() > 0 {
                let ghost before = ports@;
                let mut stage: Vec<u32> = Vec::new();
                stage.push(list[0]);
                ports.push(stage);
                proof {
                    assert(stage@ =~= seq![list@[0]]);
                    assert(stage_ports(ports@) =~= stage_ports(before).push(stage@));
                    assert(somes(done).push(list@[0]).map_values(single) =~= somes(
                        done,
                    ).map_values(single).push(seq![list@[0]]));
                }
            }
        }
        i = i + 1;
    }
    assert(nodes@.take(i as int) =~= nodes@);
    ports
}

fn copy_ids(ids: &Vec<u32>) -> (copy: Vec<u32>)
    ensures
        copy@ == ids@,
{
    let mut copy: Vec<u32> = Vec::new();
    let mut i: usize = 0;
    while i < ids.len()
        invariant
            i <= ids@.len(),
            copy@ == ids@.take(i as int),
        decreases ids.len() - i,
    {
        copy.push(ids[i]);
        i = i + 1;
        assert(copy@ =~= ids@.take(i as int));
    }
    assert(ids@.take(i as int) =~= ids@);
    copy
}

fn all_ports(topology: &SunTopology, nodes: &Vec<u32>) -> (ports: Vec<Vec<u32>>)
    ensures
        stage_ports(ports@) == somes(nodes@.map_values(|node: u32| ports_at(*topology, node))),
{
    let ghost at = |node: u32| ports_at(*topology, node);
    let mut ports: Vec<Vec<u32>> = Vec::new();
    let mut i: usize = 0;
    assert(nodes@.take(0).map_values(at) =~= Seq::empty());
    assert(stage_ports(ports@) =~= Seq::<Seq<u32>>::empty());
    while i < nodes.len()
        invariant
            i <= nodes@.len(),
            at == (|node: u32| ports_at(*topology, node)),
            stage_ports(ports@) == somes(nodes@.take(i as int).map_values(at)),
        decreases nodes.len() - i,
    {
        let ghost done = nodes@.take(i as int).map_values(at);
        proof {
            lemma_somes_push(done, at(nodes@[i as int]));
            assert(nodes@.take(i + 1).map_values(at) =~= done.push(at(nodes@[i as int])));
        }
        if let Some(list) = topology.vertex_ports.get(&nodes[i]) {
            let ghost before = ports@;
            let stage = copy_ids(list);
            ports.push(stage);
            assert(stage_ports(ports@) =~= stage_ports(before).push(stage@));
        }
        i = i + 1;
    }
    assert(nodes@.take(i as int) =~= nodes@);
    ports
}

fn all_of_width_two(ports: &Vec<Vec<u32>>) -> (all: bool)
    ensures
        all == forall|i: int|
            0 <= i < ports@.len() ==> (#[trigger] stage_ports(ports@)[i]).len() == 2,
{
    let mut i: usize = 0;
    while i < ports.len()
        invariant
            i <= ports@.len(),
            forall|j: int| 0 <= j < i ==> (#[trigger] stage_ports(ports@)[j]).len() == 2,
        decreases ports.len() - i,
    {
        assert(stage_ports(ports@)[i as int] == ports@[i as int]@);
        if ports[i].len() != 2 {
            return false;
        }
        i = i + 1;
    }
    true
}

fn copy_deliveries(deliveries: &Vec<ArtifactDelivery>) -> (copy: Vec<ArtifactDelivery>)
    ensures
        copy@ == deliveries@,
{
    let mut copy: Vec<ArtifactDelivery> = Vec::new();
    let mut i: usize = 0;
    while i < deliveries.len()
        invariant
            i <= deliveries@.len(),
            copy@ == deliveries@.take(i as int),
        decreases deliveries.len() - i,
    {
        copy.push(deliveries[i]);
        i = i + 1;
        assert(copy@ =~= deliveries@.take(i as int));
    }
    assert(deliveries@.take(i as int) =~= deliveries@);
    copy
}

/// The outputs of a step, as deliveries without mailboxes.
pub open spec fn unaddressed(outputs: Seq<ObjectId>) -> Seq<ArtifactDelivery> {
    outputs.map_values(
        |id: ObjectId|
            ArtifactDelivery {
                emission_id: EmissionId { object: id },
                recv: Uuid::spec_nil(),
                send: Uuid::spec_nil(),
            },
    )
}

fn deliver_unaddressed(outputs: &Vec<ObjectId>) -> (deliveries: Vec<ArtifactDelivery>)
    ensures
        deliveries@ == unaddressed(outputs@),
{
    let mut deliveries: Vec<ArtifactDelivery> = Vec::new();
    let mut i: usize = 0;
    assert(deliveries@ =~= unaddressed(outputs@.take(0)));
    while i < outputs.len()
        invariant
            i <= outputs@.len(),
            deliveries@ == unaddressed(outputs@.take(i as int)),
        decreases outputs.len() - i,
    {
        deliveries.push(
            ArtifactDelivery {
                emission_id: EmissionId::new(outputs[i]),
                recv: Uuid::nil(),
                send: Uuid::nil(),
            },
        );
        i = i + 1;
        assert(deliveries@ =~= unaddressed(outputs@.take(i as int)));
    }
    assert(outputs@.take(i as int) =~= outputs@);
    deliveries
}

/// A completed step moved the mailboxes and the step count on.
pub open spec fn step_taken<S>(
    before: PipelineBackwardState<S>,
    after: PipelineBackwardState<S>,
    output: RunPipelineOutput,
    outcome: PipelineStepResult,
) -> bool {
    &&& after == (PipelineBackwardState {
        inboxes: output.inboxes,
        step: (before.step + 1) as usize,
        ..before
    })
    &&& outcome.step == output.step
    &&& outcome.outputs@ == unaddressed(output.outputs@)
}

fn take_step<S>(
    state: &mut PipelineBackwardState<S>,
    output: RunPipelineOutput,
) -> (outcome: PipelineStepResult)
    requires
        old(state).step < usize::MAX,
    ensures
        step_taken(*old(state), *final(state), output, outcome),
{
    let outputs = deliver_unaddressed(&output.outputs);
    state.inboxes = output.inboxes;
    state.step = state.step + 1;
    PipelineStepResult { step: output.step, outputs }
}

/// Runs one training step through a chain of single-port stages.
pub struct RunPipeline<S>(pub PhantomData<S>);

impl<S> RunPipeline<S> {
    pub fn emit(state: &PipelineBackwardState<S>) -> (input: RunPipelineInput)
        ensures
            single_input(*state, input),
            input.well_formed(),
    {
        let nodes = vertex_ids(&state.topology);
        let ports = first_ports(&state.topology, &nodes);
        proof {
            let found = somes(nodes@.map_values(|node: u32| first_port(state.topology, node)));
            assert(stage_ports(ports@).len() == found.len());
            assert forall|s: int| 0 <= s < ports@.len() implies (#[trigger] ports@[s])@.len()
                == 1 by {
                assert(stage_ports(ports@)[s] == seq![found[s]]);
            }
        }
        let linear = ports.len() == nodes.len() && are_all_chained(&state.topology, &nodes, false);
        RunPipelineInput {
            nodes,
            ports,
            replicas: 1,
            linear,
            inboxes: copy_mailboxes(&state.inboxes),
            micro_batches: copy_deliveries(&state.micro_batches),
            step: state.step,
        }
    }

    pub fn absorb(
        state: &mut PipelineBackwardState<S>,
        output: Result<RunPipelineOutput, String>,
    ) -> (result: Result<PipelineStepResult, Failure>)
        requires
            old(state).step < usize::MAX,
        ensures
            result is Ok <==> output is Ok,
            result matches Err(failure) ==> says(
                failure,
                "pipeline step failed: "@ + output->Err_0@,
            ) && *final(state) == *old(state),
            result matches Ok(outcome) ==> step_taken(
                *old(state),
                *final(state),
                output->Ok_0,
                outcome,
            ),
    {
        match output {
            Err(error) => Err(refused_with("pipeline step failed: ", error.as_str())),
            Ok(output) => Ok(take_step(state, output)),
        }
    }
}

/// Runs one training step of two replicas through a chain of two-port stages.
pub struct RunDataParallelPipeline<S>(pub PhantomData<S>);

impl<S> RunDataParallelPipeline<S> {
    pub fn emit(state: &PipelineBackwardState<S>) -> (input: RunPipelineInput)
        ensures
            double_input(*state, input),
            input.well_formed(),
    {
        let nodes = vertex_ids(&state.topology);
        let ports = all_ports(&state.topology, &nodes);
        let even = all_of_width_two(&ports);
        proof {
            assert(stage_ports(ports@).len() == ports@.len());
            assert(even ==> forall|s: int|
                0 <= s < ports@.len() ==> (#[trigger] ports@[s])@.len() == 2) by {
                assert forall|s: int| even && 0 <= s < ports@.len() implies (
                #[trigger] ports@[s])@.len() == 2 by {
                    assert(stage_ports(ports@)[s].len() == 2);
                }
            }
        }
        let linear = ports.len() == nodes.len() && even && are_all_chained(
            &state.topology,
            &nodes,
            true,
        );
        RunPipelineInput {
            nodes,
            ports,
            replicas: 2,
            linear,
            inboxes: copy_mailboxes(&state.inboxes),
            micro_batches: copy_deliveries(&state.micro_batches),
            step: state.step,
        }
    }

    pub fn absorb(
        state: &mut PipelineBackwardState<S>,
        output: Result<RunPipelineOutput, String>,
    ) -> (result: Result<PipelineStepResult, Failure>)
        requires
            old(state).step < usize::MAX,
        ensures
            result is Ok <==> output is Ok,
            result matches Err(failure) ==> says(
                failure,
                "data-parallel pipeline step failed: "@ + output->Err_0@,
            ) && *final(state) == *old(state),
            result matches Ok(outcome) ==> step_taken(
                *old(state),
                *final(state),
                output->Ok_0,
                outcome,
            ),
    {
        match output {
            Err(error) => Err(refused_with("data-parallel pipeline step failed: ", error.as_str())),
            Ok(output) => Ok(take_step(state, output)),
        }
    }
}

/// Validates the compiled graph and records its edges.
pub struct FinalizePipelineGraph<S>(pub PhantomData<S>);

impl<S> FinalizePipelineGraph<S> {
    pub fn absorb(
        state: &mut PipelineBackwardState<S>,
        output: Result<(), AtomError>,
    ) -> (result: Result<(), Failure>)
        requires
            old(state).topology.well_formed(),
        ensures
            result is Ok <==> output is Ok && resolvable(old(state).topology, true),
            result is Ok ==> finalized_as(old(state).topology, final(state).topology),
            result matches Err(failure) ==> if output is Err {
                says(failure, "finalize pipeline graph failed"@) && *final(state) == *old(state)
            } else {
                explains_unresolvable(old(state).topology, true, failure)
                    && final(state).topology == (SunTopology {
                    finalized: false,
                    ..old(state).topology
                })
            },
            *final(state) == (PipelineBackwardState {
                topology: final(state).topology,
                ..*old(state)
            }),
    {
        match output {
            Err(_) => Err(refused("finalize pipeline graph failed")),
            Ok(()) => match resolve_neutral_topology(&mut state.topology) {
                Ok(_) => Ok(()),
                Err(failure) => Err(failure),
            },
        }
    }
}

/// A list without gaps is its items.
proof fn lemma_no_gaps<A>(items: Seq<Option<A>>)
    ensures
        somes(items).len() <= items.len(),
        somes(items).len() == items.len() ==> forall|i: int|
            #![trigger items[i]]
            0 <= i < items.len() ==> items[i] == Some(somes(items)[i]),
    decreases items.len(),
{
    if items.len() > 0 {
        let rest = items.drop_last();
        lemma_no_gaps(rest);
        if somes(items).len() == items.len() {
            assert forall|i: int| #![trigger items[i]] 0 <= i < items.len() implies items[i] == Some(
                somes(items)[i],
            ) by {
                if i < rest.len() {
                    assert(rest[i] == items[i]);
                } else {
                    assert(items[i] == items.last());
                }
            }
        }
    }
}

/// A step of one replica runs a chain: its stages are the vertices by ascending
/// id, each is asked at its own first port, and each but the last leads to the
/// next and nowhere else. It starts from the inboxes, the micro-batches and the
/// step count of the state.
pub proof fn law_single_lane_is_the_chain<S>(
    state: PipelineBackwardState<S>,
    input: RunPipelineInput,
    s: int,
)
    requires
        single_input(state, input),
        input.linear,
        state.topology.vertices().finite(),
        0 <= s < input.nodes@.len(),
    ensures
        input.nodes@.len() == state.topology.vertices().len(),
        state.topology.vertices().contains(input.nodes@[s]),
        s + 1 < input.nodes@.len() ==> input.nodes@[s] < input.nodes@[s + 1],
        state.topology.vertex_ports@.contains_key(input.nodes@[s]),
        input.ports@.len() == input.nodes@.len(),
        input.ports@[s]@.len() == 1,
        input.ports@[s]@[0] == state.topology.vertex_ports@[input.nodes@[s]]@[0],
        s + 1 < input.nodes@.len() ==> {
            let edges = state.topology.outgoing@[input.nodes@[s]]@;
            &&& state.topology.outgoing@.contains_key(input.nodes@[s])
            &&& edges.len() == 1
            &&& edges[0].vertex_id == input.nodes@[s + 1]
        },
        input.replicas == 1,
        input.inboxes@ == state.inboxes@,
        input.micro_batches@ == state.micro_batches@,
        input.step == state.step,
{
    let nodes = ascending(state.topology.vertices());
    let firsts = nodes.map_values(|node: u32| first_port(state.topology, node));
    let ports = somes(firsts);
    lemma_ascending_lists(state.topology.vertices());
    assert(nodes.to_set().contains(nodes[s]));
    lemma_no_gaps(firsts);
    assert(firsts[s] == Some(ports[s]));
    let single = |port: u32| seq![port];
    assert(stage_ports(input.ports@).len() == input.ports@.len());
    assert(stage_ports(input.ports@) == ports.map_values(single));
    assert(ports.map_values(single).len() == ports.len());
    assert(ports.map_values(single)[s] == seq![ports[s]]);
    assert(stage_ports(input.ports@)[s] == input.ports@[s]@);
    if s + 1 < nodes.len() {
        assert(chained(state.topology, nodes[s], nodes[s + 1]));
    }
}

/// A step of two replicas runs a chain of stages with two ports each: both
/// edges of each stage but the last lead to the two ports of the next. Replica
/// `q` of a stage is asked at its port `q`.
pub proof fn law_double_lane_is_the_chain<S>(
    state: PipelineBackwardState<S>,
    input: RunPipelineInput,
    s: int,
    q: int,
)
    requires
        double_input(state, input),
        input.linear,
        state.topology.vertices().finite(),
        0 <= s < input.nodes@.len(),
        0 <= q < 2,
    ensures
        input.nodes@.len() == state.topology.vertices().len(),
        state.topology.vertices().contains(input.nodes@[s]),
        s + 1 < input.nodes@.len() ==> input.nodes@[s] < input.nodes@[s + 1],
        state.topology.vertex_ports@.contains_key(input.nodes@[s]),
        input.ports@.len() == input.nodes@.len(),
        input.ports@[s]@.len() == 2,
        input.ports@[s]@[q] == state.topology.vertex_ports@[input.nodes@[s]]@[q],
        s + 1 < input.nodes@.len() ==> {
            let edges = state.topology.outgoing@[input.nodes@[s]]@;
            let there = state.topology.vertex_ports@[input.nodes@[s + 1]]@;
            &&& state.topology.outgoing@.contains_key(input.nodes@[s])
            &&& edges.len() == 2
            &&& edges[0].vertex_id == input.nodes@[s + 1]
            &&& edges[1].vertex_id == input.nodes@[s + 1]
            &&& there.contains(edges[0].port_id)
            &&& there.contains(edges[1].port_id)
            &&& there[0] <= there[1]
        },
        input.replicas == 2,
        input.inboxes@ == state.inboxes@,
        input.micro_batches@ == state.micro_batches@,
        input.step == state.step,
{
    let nodes = ascending(state.topology.vertices());
    let all = nodes.map_values(|node: u32| ports_at(state.topology, node));
    let ports = somes(all);
    lemma_ascending_lists(state.topology.vertices());
    assert(nodes.to_set().contains(nodes[s]));
    lemma_no_gaps(all);
    assert(all[s] == Some(ports[s]));
    assert(stage_ports(input.ports@)[s] == input.ports@[s]@);
    assert(stage_ports(input.ports@).len() == input.ports@.len());
    assert(ports[s].len() == 2);
    if s + 1 < nodes.len() {
        assert(chained_twice(state.topology, nodes[s], nodes[s + 1]));
        assert(all[s + 1] == Some(ports[s + 1]));
        let there = state.topology.vertex_ports@[nodes[s + 1]]@;
        assert(there == list_at(lists(state.topology.vertex_ports@), nodes[s + 1]));
        assert(there[0] <= there[1]);
        assert(there.contains(there[0]) && there.contains(there[1]));
    }
}

/// A graph that is no such chain is not run.
pub proof fn law_only_chains_are_run<S>(
    state: PipelineBackwardState<S>,
    input: RunPipelineInput,
    s: int,
)
    requires
        single_input(state, input),
        0 <= s < input.nodes@.len() - 1,
        ({
            let edges = list_at(state.topology.outgoing_edges(), input.nodes@[s]);
            edges.len() != 1 || edges[0].vertex_id != input.nodes@[s + 1]
        }),
    ensures
        !input.linear,
{
    assert(!chained(state.topology, input.nodes@[s], input.nodes@[s + 1]));
}

/// A completed step counts once, leaves the mailboxes it ended with to the
/// next, and hands each output on under its own emission; the graph and the
/// micro-batches stay.
pub proof fn law_completed_step_moves_on<S>(
    before: PipelineBackwardState<S>,
    after: PipelineBackwardState<S>,
    output: RunPipelineOutput,
    outcome: PipelineStepResult,
    i: int,
)
    requires
        before.step < usize::MAX,
        step_taken(before, after, output, outcome),
        0 <= i < output.outputs@.len(),
    ensures
        after.step == before.step + 1,
        after.inboxes == output.inboxes,
        after.topology == before.topology,
        after.micro_batches == before.micro_batches,
        after.inner == before.inner,
        outcome.step == output.step,
        outcome.outputs@.len() == output.outputs@.len(),
        outcome.outputs@[i].emission_id.object == output.outputs@[i],
        outcome.outputs@[i].recv.bits == 0,
        outcome.outputs@[i].send.bits == 0,
{
}

} // verus!
