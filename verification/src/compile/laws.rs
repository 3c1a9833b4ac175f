//! What registering a vertex records, and what it leaves alone.

use vstd::prelude::*;

use crate::compile::action::{is_short_label, is_warp_label, spawned, VertexDescriptor};
use crate::compile::label::{cut_paths, law_trimming_is_unique};
use crate::compile::register::{claims, edge_ports, ports_of, vertex_registered};
use crate::compile::{SunProgram, SunTopologyState};
use crate::contract::ContractDescriptor;
use crate::ids::{ObjectId, Uuid};
use crate::topology::graph::{lemma_occurrences_positive, occurrences};
use crate::topology::{DeclaredEdge, SunOperationalState, SunTopology};

verus! {

broadcast use vstd::std_specs::hash::group_hash_axioms;

/// Nothing has been recorded of `vertex`.
pub open spec fn unknown(topology: SunTopology, vertex: u32) -> bool {
    &&& !topology.journey_ids@.contains_key(vertex)
    &&& !topology.node_labels@.contains_key(vertex)
    &&& !topology.node_operational_states@.contains_key(vertex)
    &&& !topology.node_state_sequences@.contains_key(vertex)
    &&& !topology.vertex_ports@.contains_key(vertex)
    &&& !topology.node_contracts@.contains_key(vertex)
    &&& !topology.declared_outputs@.contains_key(vertex)
    &&& !topology.declared_edges@.contains_key(vertex)
}

/// A vertex that is registered for the first time is recorded as it was given:
/// its journey, its label, its contract, its ports and its edges in order,
/// waiting in the queue.
pub proof fn law_new_vertex_is_recorded_as_given(
    before: SunTopology,
    after: SunTopology,
    vertex: u32,
    label: String,
    ports: Seq<(u32, ObjectId)>,
    contract: ContractDescriptor,
    edges: Vec<DeclaredEdge>,
    journey_id: Uuid,
    warp: Option<Uuid>,
)
    requires
        unknown(before, vertex),
        vertex_registered(
            before,
            after,
            vertex,
            label,
            ports,
            contract,
            edges,
            journey_id,
            warp,
        ),
    ensures
        after.journey_ids@.contains_key(vertex) && after.journey_ids@[vertex] == journey_id,
        after.node_labels@.contains_key(vertex) && after.node_labels@[vertex] == label,
        after.node_contracts@.contains_key(vertex) && after.node_contracts@[vertex] == contract,
        after.declared_edges@.contains_key(vertex) && after.declared_edges@[vertex] == edges,
        after.node_operational_states@.contains_key(vertex)
            && after.node_operational_states@[vertex] == SunOperationalState::Queued,
        after.node_state_sequences@.contains_key(vertex) && after.node_state_sequences@[vertex] == 0,
        after.vertex_ports@.contains_key(vertex) && after.vertex_ports@[vertex]@.len()
            == ports.len(),
        forall|i: int|
            #![trigger ports[i]]
            0 <= i < ports.len() ==> after.vertex_ports@[vertex]@[i] == ports[i].0,
        after.declared_outputs@.contains_key(vertex) && after.declared_outputs@[vertex]@.len()
            == edges@.len(),
        forall|i: int|
            #![trigger edges@[i]]
            0 <= i < edges@.len() ==> after.declared_outputs@[vertex]@[i] == edges@[i].port_id,
        warp matches Some(journey) ==> after.warp_journey_ids@.contains_key(vertex)
            && after.warp_journey_ids@[vertex] == journey,
        after.finalized == before.finalized,
{
    assert forall|i: int| #![trigger ports[i]] 0 <= i < ports.len() implies after.vertex_ports@[vertex]@[i]
        == ports[i].0 by {
        assert(ports_of(ports)[i] == ports[i].0);
    }
    assert forall|i: int|
        #![trigger edges@[i]]
        0 <= i < edges@.len() implies after.declared_outputs@[vertex]@[i] == edges@[i].port_id by {
        assert(edge_ports(edges@)[i] == edges@[i].port_id);
    }
}

/// Registering one vertex changes nothing that is recorded of another.
pub proof fn law_other_vertices_are_left_alone(
    before: SunTopology,
    after: SunTopology,
    vertex: u32,
    label: String,
    ports: Seq<(u32, ObjectId)>,
    contract: ContractDescriptor,
    edges: Vec<DeclaredEdge>,
    journey_id: Uuid,
    warp: Option<Uuid>,
    other: u32,
)
    requires
        other != vertex,
        vertex_registered(
            before,
            after,
            vertex,
            label,
            ports,
            contract,
            edges,
            journey_id,
            warp,
        ),
    ensures
        after.journey_ids@.contains_key(other) == before.journey_ids@.contains_key(other),
        before.journey_ids@.contains_key(other) ==> after.journey_ids@[other]
            == before.journey_ids@[other],
        after.warp_journey_ids@.contains_key(other) == before.warp_journey_ids@.contains_key(other),
        before.warp_journey_ids@.contains_key(other) ==> after.warp_journey_ids@[other]
            == before.warp_journey_ids@[other],
        before.node_labels@.contains_key(other) ==> after.node_labels@[other]
            == before.node_labels@[other],
        before.node_contracts@.contains_key(other) ==> after.node_contracts@[other]
            == before.node_contracts@[other],
        after.vertex_ports@.contains_key(other) == before.vertex_ports@.contains_key(other),
        before.vertex_ports@.contains_key(other) ==> after.vertex_ports@[other]
            == before.vertex_ports@[other],
        after.declared_outputs@.contains_key(other) == before.declared_outputs@.contains_key(other),
        before.declared_outputs@.contains_key(other) ==> after.declared_outputs@[other]
            == before.declared_outputs@[other],
        before.declared_edges@.contains_key(other) ==> after.declared_edges@[other]
            == before.declared_edges@[other],
        before.node_operational_states@.contains_key(other)
            ==> after.node_operational_states@[other] == before.node_operational_states@[other],
        before.node_state_sequences@.contains_key(other) ==> after.node_state_sequences@[other]
            == before.node_state_sequences@[other],
{
}

/// A second registration of a vertex changes neither its ports nor its edges.
pub proof fn law_ports_and_edges_stay(
    before: SunTopology,
    after: SunTopology,
    vertex: u32,
    label: String,
    ports: Seq<(u32, ObjectId)>,
    contract: ContractDescriptor,
    edges: Vec<DeclaredEdge>,
    journey_id: Uuid,
    warp: Option<Uuid>,
)
    requires
        vertex_registered(
            before,
            after,
            vertex,
            label,
            ports,
            contract,
            edges,
            journey_id,
            warp,
        ),
    ensures
        before.vertex_ports@.contains_key(vertex) ==> after.vertex_ports@ == before.vertex_ports@,
        before.declared_outputs@.contains_key(vertex) ==> after.declared_outputs@
            == before.declared_outputs@,
        before.declared_edges@.contains_key(vertex) ==> after.declared_edges@
            == before.declared_edges@,
        before.node_operational_states@.contains_key(vertex)
            ==> after.node_operational_states@ == before.node_operational_states@,
        before.node_state_sequences@.contains_key(vertex) ==> after.node_state_sequences@
            == before.node_state_sequences@,
{
}

/// Two places in a list count at least twice.
proof fn lemma_two_places(ids: Seq<u32>, i: int, j: int)
    requires
        0 <= i < j < ids.len(),
        ids[i] == ids[j],
    ensures
        occurrences(ids, ids[i]) >= 2,
    decreases ids.len(),
{
    let rest = ids.drop_last();
    if j < rest.len() {
        lemma_two_places(rest, i, j);
    } else {
        assert(rest[i] == ids[i]);
        assert(rest.contains(ids[i]));
        lemma_occurrences_positive(rest, ids[i]);
    }
}

proof fn lemma_counted_twice(ids: Seq<u32>, id: u32) -> (places: (int, int))
    requires
        occurrences(ids, id) >= 2,
    ensures
        0 <= places.0 < places.1 < ids.len(),
        ids[places.0] == id,
        ids[places.1] == id,
    decreases ids.len(),
{
    let rest = ids.drop_last();
    if ids.last() == id {
        lemma_occurrences_positive(rest, id);
        let i = choose|i: int| 0 <= i < rest.len() && rest[i] == id;
        (i, ids.len() - 1)
    } else {
        lemma_counted_twice(rest, id)
    }
}

/// A port belongs to the first vertex that claims it. It is a duplicate from
/// then on exactly if it was one before, is claimed while it has an owner, or
/// is listed twice.
pub proof fn law_first_claim_owns_the_port(
    before: SunTopology,
    after: SunTopology,
    vertex: u32,
    label: String,
    ports: Seq<(u32, ObjectId)>,
    contract: ContractDescriptor,
    edges: Vec<DeclaredEdge>,
    journey_id: Uuid,
    warp: Option<Uuid>,
    port: u32,
)
    requires
        vertex_registered(
            before,
            after,
            vertex,
            label,
            ports,
            contract,
            edges,
            journey_id,
            warp,
        ),
    ensures
        ({
            let listed = exists|i: int| 0 <= i < ports.len() && (#[trigger] ports[i]).0 == port;
            let twice = exists|i: int, j: int|
                0 <= i < j < ports.len() && (#[trigger] ports[i]).0 == port && (
                #[trigger] ports[j]).0 == port;
            let owned = before.port_vertices@.contains_key(port);
            &&& after.port_vertices@.contains_key(port) <==> owned || listed
            &&& owned ==> after.port_vertices@[port] == before.port_vertices@[port]
            &&& !owned && listed ==> after.port_vertices@[port] == vertex
            &&& after.duplicate_ports@.contains(port) <==> before.duplicate_ports@.contains(port)
                || (owned && listed) || twice
        }),
{
    let ids = ports_of(ports);
    let owned = before.port_vertices@.contains_key(port);
    lemma_occurrences_positive(ids, port);
    assert(ids.contains(port) <==> exists|i: int|
        0 <= i < ports.len() && (#[trigger] ports[i]).0 == port) by {
        if ids.contains(port) {
            let i = choose|i: int| 0 <= i < ids.len() && ids[i] == port;
            assert(ports[i].0 == port);
        }
        if exists|i: int| 0 <= i < ports.len() && (#[trigger] ports[i]).0 == port {
            let i = choose|i: int| 0 <= i < ports.len() && (#[trigger] ports[i]).0 == port;
            assert(ids[i] == port);
        }
    }
    if occurrences(ids, port) >= 2 {
        let (i, j) = lemma_counted_twice(ids, port);
        assert(ports[i].0 == port && ports[j].0 == port);
    }
    if exists|i: int, j: int|
        0 <= i < j < ports.len() && (#[trigger] ports[i]).0 == port && (#[trigger] ports[j]).0
            == port {
        let (i, j) = choose|i: int, j: int|
            0 <= i < j < ports.len() && (#[trigger] ports[i]).0 == port && (
            #[trigger] ports[j]).0 == port;
        assert(ids[i] == port && ids[j] == port);
        lemma_two_places(ids, i, j);
    }
    assert(after.port_vertices@.contains_key(port) <==> owned || ids.contains(port));
    assert(after.duplicate_ports@.contains(port) <==> before.duplicate_ports@.contains(port) || (
    ids.contains(port) && claims(before.port_vertices@, ids, port) >= 2));
}

/// A vertex spawned for the first time, whatever the program, is in the graph as
/// its descriptor says: under its own journey and label, with its contract, its
/// ports and its edges in order.
pub proof fn law_spawned_vertex_is_placed<Program: SunProgram>(
    before: Program::State,
    after: Program::State,
    vertex: u32,
    label: String,
    ports: Seq<(u32, ObjectId)>,
    descriptor: VertexDescriptor,
    journey_id: Uuid,
    warp: Option<Uuid>,
    i: int,
    k: int,
)
    requires
        unknown(before.topology_view(), vertex),
        spawned::<Program>(
            before,
            after,
            vertex,
            label,
            ports,
            descriptor,
            journey_id,
            warp,
        ),
        0 <= i < ports.len(),
        0 <= k < descriptor.edges@.len(),
    ensures
        ({
            let topology = after.topology_view();
            &&& topology.journey_ids@.contains_key(vertex)
            &&& topology.journey_ids@[vertex] == journey_id
            &&& topology.node_labels@.contains_key(vertex)
            &&& topology.node_labels@[vertex] == label
            &&& topology.node_contracts@.contains_key(vertex)
            &&& topology.node_contracts@[vertex] == descriptor.contract
            &&& topology.vertex_ports@.contains_key(vertex)
            &&& topology.vertex_ports@[vertex]@.len() == ports.len()
            &&& topology.vertex_ports@[vertex]@[i] == ports[i].0
            &&& topology.port_vertices@.contains_key(ports[i].0)
            &&& topology.declared_edges@.contains_key(vertex)
            &&& topology.declared_edges@[vertex] == descriptor.edges
            &&& topology.declared_outputs@.contains_key(vertex)
            &&& topology.declared_outputs@[vertex]@.len() == descriptor.edges@.len()
            &&& topology.declared_outputs@[vertex]@[k] == descriptor.edges@[k].port_id
            &&& warp matches Some(journey) ==> topology.warp_journey_ids@.contains_key(vertex)
                && topology.warp_journey_ids@[vertex] == journey
        }),
{
    law_new_vertex_is_recorded_as_given(
        before.topology_view(),
        after.topology_view(),
        vertex,
        label,
        ports,
        descriptor.contract,
        descriptor.edges,
        journey_id,
        warp,
    );
    law_first_claim_owns_the_port(
        before.topology_view(),
        after.topology_view(),
        vertex,
        label,
        ports,
        descriptor.contract,
        descriptor.edges,
        journey_id,
        warp,
        ports[i].0,
    );
}

/// The label of a warp vertex names its nested animal first and its boundary
/// second, each by its short label.
pub proof fn law_warp_labels_name_both_animals(
    warp: Seq<char>,
    boundary: Seq<char>,
    nested: Seq<char>,
    outer: Seq<char>,
    label: Seq<char>,
)
    requires
        is_warp_label(warp, boundary, label),
        is_short_label(warp, nested),
        is_short_label(boundary, outer),
    ensures
        label == "Warp<"@ + nested + ", "@ + outer + ">"@,
{
    let (a, b) = choose|a: Seq<char>, b: Seq<char>| #[trigger]
        is_short_label(warp, a) && #[trigger] is_short_label(boundary, b) && label == "Warp<"@ + a
            + ", "@ + b + ">"@;
    law_trimming_is_unique(cut_paths(Seq::empty(), warp), a, nested);
    law_trimming_is_unique(cut_paths(Seq::empty(), boundary), b, outer);
}

} // verus!
