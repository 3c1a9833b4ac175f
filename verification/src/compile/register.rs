//! Registration of one vertex.

use std::collections::HashMap;

use vstd::prelude::*;

use crate::collections::lemma_take_next;
use crate::compile::{SunProgram, SunTopologyState};
use crate::contract::ContractDescriptor;
use crate::ids::{ObjectId, Uuid};
use crate::topology::graph::{
    lemma_occurrences_positive, lemma_occurrences_push, list_at, lists, occurrences,
};
use crate::topology::laws::ports_owned;
use crate::topology::{DeclaredEdge, SunOperationalState, SunTopology};

verus! {

broadcast use vstd::std_specs::hash::group_hash_axioms;

/// The port ids of a list of ports with their mailboxes.
pub open spec fn ports_of(ports: Seq<(u32, ObjectId)>) -> Seq<u32> {
    ports.map_values(|entry: (u32, ObjectId)| entry.0)
}

/// The port ids of a list of edges.
pub open spec fn edge_ports(edges: Seq<DeclaredEdge>) -> Seq<u32> {
    edges.map_values(|edge: DeclaredEdge| edge.port_id)
}

/// The value under `key` was set to `value` unless there was one.
pub open spec fn set_once<V>(before: Map<u32, V>, after: Map<u32, V>, key: u32, value: V) -> bool {
    after == if before.contains_key(key) {
        before
    } else {
        before.insert(key, value)
    }
}

/// The list under `key` was set to `list` unless there was one.
pub open spec fn list_set_once(
    before: Map<u32, Vec<u32>>,
    after: Map<u32, Vec<u32>>,
    key: u32,
    list: Seq<u32>,
) -> bool {
    if before.contains_key(key) {
        after == before
    } else {
        after.contains_key(key) && after[key]@ == list && after == before.insert(key, after[key])
    }
}

/// How often a port is claimed, by a vertex registered before or by the list.
pub open spec fn claims(owned: Map<u32, u32>, ports: Seq<u32>, port: u32) -> nat {
    occurrences(ports, port) + if owned.contains_key(port) {
        1nat
    } else {
        0nat
    }
}

/// The first to claim a port owns it; a port claimed again is a duplicate.
pub open spec fn ports_claimed(
    before: SunTopology,
    after: SunTopology,
    vertex_id: u32,
    ports: Seq<u32>,
) -> bool {
    &&& forall|port: u32| #[trigger]
        after.port_vertices@.contains_key(port) <==> before.port_vertices@.contains_key(port)
            || ports.contains(port)
    &&& forall|port: u32| #[trigger]
        after.port_vertices@.contains_key(port) ==> after.port_vertices@[port]
            == if before.port_vertices@.contains_key(port) {
            before.port_vertices@[port]
        } else {
            vertex_id
        }
    &&& forall|port: u32| #[trigger]
        after.duplicate_ports@.contains(port) <==> before.duplicate_ports@.contains(port) || (
        ports.contains(port) && claims(before.port_vertices@, ports, port) >= 2)
}

/// Everything that registering a vertex records on the topology. What an
/// earlier registration of the same vertex recorded stays.
pub open spec fn vertex_registered(
    before: SunTopology,
    after: SunTopology,
    vertex_id: u32,
    node_label: String,
    ports: Seq<(u32, ObjectId)>,
    contract: ContractDescriptor,
    declared_edges: Vec<DeclaredEdge>,
    journey_id: Uuid,
    warp_journey_id: Option<Uuid>,
) -> bool {
    &&& set_once(before.journey_ids@, after.journey_ids@, vertex_id, journey_id)
    &&& after.warp_journey_ids@ == match warp_journey_id {
        Some(warp) => before.warp_journey_ids@.insert(vertex_id, warp),
        None => before.warp_journey_ids@,
    }
    &&& set_once(before.node_labels@, after.node_labels@, vertex_id, node_label)
    &&& set_once(
        before.node_operational_states@,
        after.node_operational_states@,
        vertex_id,
        SunOperationalState::Queued,
    )
    &&& set_once(before.node_state_sequences@, after.node_state_sequences@, vertex_id, 0)
    &&& list_set_once(
        before.vertex_ports@,
        after.vertex_ports@,
        vertex_id,
        ports_of(ports),
    )
    &&& set_once(before.node_contracts@, after.node_contracts@, vertex_id, contract)
    &&& list_set_once(
        before.declared_outputs@,
        after.declared_outputs@,
        vertex_id,
        edge_ports(declared_edges@),
    )
    &&& set_once(before.declared_edges@, after.declared_edges@, vertex_id, declared_edges)
    &&& ports_claimed(before, after, vertex_id, ports_of(ports))
    &&& after.finalized == before.finalized
    &&& after.node_phase_annotations@ == before.node_phase_annotations@
    &&& after.incoming@ == before.incoming@
    &&& after.outgoing@ == before.outgoing@
}

pub(crate) fn set_if_absent<V>(map: &mut HashMap<u32, V>, key: u32, value: V)
    ensures
        set_once(old(map)@, final(map)@, key, value),
{
    if !map.contains_key(&key) {
        map.insert(key, value);
    }
}

pub(crate) fn collect_ports(ports: &Vec<(u32, ObjectId)>) -> (ids: Vec<u32>)
    ensures
        ids@ == ports_of(ports@),
{
    let mut ids: Vec<u32> = Vec::new();
    let mut i: usize = 0;
    while i < ports.len()
        invariant
            i <= ports.len(),
            ids@ == ports_of(ports@).take(i as int),
        decreases ports.len() - i,
    {
        ids.push(ports[i].0);
        proof {
            lemma_take_next(ports_of(ports@), i as int);
        }
        i = i + 1;
    }
    assert(ids@ =~= ports_of(ports@));
    ids
}

fn collect_edge_ports(edges: &Vec<DeclaredEdge>) -> (ids: Vec<u32>)
    ensures
        ids@ == edge_ports(edges@),
{
    let mut ids: Vec<u32> = Vec::new();
    let mut i: usize = 0;
    while i < edges.len()
        invariant
            i <= edges.len(),
            ids@ == edge_ports(edges@).take(i as int),
        decreases edges.len() - i,
    {
        ids.push(edges[i].port_id);
        proof {
            lemma_take_next(edge_ports(edges@), i as int);
        }
        i = i + 1;
    }
    assert(ids@ =~= edge_ports(edges@));
    ids
}

/// Gives every unowned port to `vertex_id` and notes the ports claimed twice.
pub(crate) fn claim_ports(topology: &mut SunTopology, vertex_id: u32, ports: &Vec<(u32, ObjectId)>)
    ensures
        ports_claimed(*old(topology), *final(topology), vertex_id, ports_of(ports@)),
        *final(topology) == (SunTopology {
            port_vertices: final(topology).port_vertices,
            duplicate_ports: final(topology).duplicate_ports,
            ..*old(topology)
        }),
{
    let ghost ids = ports_of(ports@);
    let mut i: usize = 0;
    assert(ids.take(0) =~= Seq::empty());
    while i < ports.len()
        invariant
            i <= ports.len(),
            ids == ports_of(ports@),
            *topology == (SunTopology {
                port_vertices: topology.port_vertices,
                duplicate_ports: topology.duplicate_ports,
                ..*old(topology)
            }),
            ports_claimed(*old(topology), *topology, vertex_id, ids.take(i as int)),
        decreases ports.len() - i,
    {
        let port = ports[i].0;
        let ghost before = *topology;
        let ghost seen = ids.take(i as int);
        proof {
            lemma_take_next(ids, i as int);
            assert(ids[i as int] == port);
            assert forall|p: u32| #[trigger] occurrences(ids.take(i + 1), p) == occurrences(seen, p)
                + if port == p {
                1nat
            } else {
                0nat
            } by {
                lemma_occurrences_push(seen, port, p);
            }
            lemma_occurrences_positive(seen, port);
            assert(before.port_vertices@.contains_key(port) <==> old(
                topology,
            ).port_vertices@.contains_key(port) || seen.contains(port));
        }
        if topology.port_vertices.contains_key(&port) {
            topology.duplicate_ports.insert(port);
        } else {
            topology.port_vertices.insert(port, vertex_id);
        }
        proof {
            assert forall|p: u32| #[trigger] topology.duplicate_ports@.contains(p) <==> old(
                topology,
            ).duplicate_ports@.contains(p) || (ids.take(i + 1).contains(p) && claims(
                old(topology).port_vertices@,
                ids.take(i + 1),
                p,
            ) >= 2) by {
                assert(before.duplicate_ports@.contains(p) <==> old(
                    topology,
                ).duplicate_ports@.contains(p) || (seen.contains(p) && claims(
                    old(topology).port_vertices@,
                    seen,
                    p,
                ) >= 2));
                lemma_occurrences_positive(seen, p);
            }
        }
        i = i + 1;
    }
    assert(ids.take(i as int) =~= ids);
}

/// Registers a vertex on a topology.
pub fn register_on_topology(
    topology: &mut SunTopology,
    vertex_id: u32,
    node_label: String,
    ports: &Vec<(u32, ObjectId)>,
    contract: ContractDescriptor,
    declared_edges: Vec<DeclaredEdge>,
    journey_id: Uuid,
    warp_journey_id: Option<Uuid>,
)
    ensures
        vertex_registered(
            *old(topology),
            *final(topology),
            vertex_id,
            node_label,
            ports@,
            contract,
            declared_edges,
            journey_id,
            warp_journey_id,
        ),
        old(topology).well_formed() ==> final(topology).well_formed(),
{
    set_if_absent(&mut topology.journey_ids, vertex_id, journey_id);
    match warp_journey_id {
        Some(warp) => {
            topology.warp_journey_ids.insert(vertex_id, warp);
        },
        None => {},
    }
    set_if_absent(&mut topology.node_labels, vertex_id, node_label);
    set_if_absent(
        &mut topology.node_operational_states,
        vertex_id,
        SunOperationalState::Queued,
    );
    set_if_absent(&mut topology.node_state_sequences, vertex_id, 0);
    set_if_absent(&mut topology.vertex_ports, vertex_id, collect_ports(ports));
    set_if_absent(&mut topology.node_contracts, vertex_id, contract);
    set_if_absent(
        &mut topology.declared_outputs,
        vertex_id,
        collect_edge_ports(&declared_edges),
    );
    set_if_absent(&mut topology.declared_edges, vertex_id, declared_edges);
    claim_ports(topology, vertex_id, ports);
}

/// Registers a vertex and the initial mailboxes of its ports on the state of
/// a program.
pub fn register_vertex<Program: SunProgram>(
    state: &mut Program::State,
    vertex_id: u32,
    node_label: String,
    ports: &Vec<(u32, ObjectId)>,
    contract: ContractDescriptor,
    declared_edges: Vec<DeclaredEdge>,
    journey_id: Uuid,
    warp_journey_id: Option<Uuid>,
)
    ensures
        vertex_registered(
            old(state).topology_view(),
            final(state).topology_view(),
            vertex_id,
            node_label,
            ports@,
            contract,
            declared_edges,
            journey_id,
            warp_journey_id,
        ),
        old(state).topology_view().well_formed() ==> final(state).topology_view().well_formed(),
        Program::inboxes_registered(*old(state), *final(state), ports@),
{
    let ghost start = *state;
    let topology = state.topology_mut();
    register_on_topology(
        topology,
        vertex_id,
        node_label,
        ports,
        contract,
        declared_edges,
        journey_id,
        warp_journey_id,
    );
    let ghost registered = *state;
    Program::register_inboxes(state, ports);
    proof {
        Program::law_inboxes_ignore_topology(registered, start, *state, ports@);
    }
}

/// Registering a vertex keeps every port of every vertex owned.
pub proof fn law_registration_keeps_ports_owned(
    before: SunTopology,
    after: SunTopology,
    vertex_id: u32,
    node_label: String,
    ports: Seq<(u32, ObjectId)>,
    contract: ContractDescriptor,
    declared_edges: Vec<DeclaredEdge>,
    journey_id: Uuid,
    warp_journey_id: Option<Uuid>,
)
    requires
        ports_owned(before),
        vertex_registered(
            before,
            after,
            vertex_id,
            node_label,
            ports,
            contract,
            declared_edges,
            journey_id,
            warp_journey_id,
        ),
    ensures
        ports_owned(after),
{
    assert forall|vertex: u32, i: int|
        #![trigger list_at(lists(after.vertex_ports@), vertex)[i]]
        0 <= i < list_at(
            lists(after.vertex_ports@),
            vertex,
        ).len() implies after.port_vertices@.contains_key(
        list_at(lists(after.vertex_ports@), vertex)[i],
    ) by {
        let port = list_at(lists(after.vertex_ports@), vertex)[i];
        if before.vertex_ports@.contains_key(vertex) {
            assert(list_at(lists(before.vertex_ports@), vertex)[i] == port);
            assert(before.port_vertices@.contains_key(port));
        } else {
            assert(vertex == vertex_id);
            assert(ports_of(ports)[i] == port);
            assert(ports_of(ports).contains(port));
        }
    }
}

/// What an earlier registration recorded of a vertex, a later one keeps.
pub proof fn law_first_registration_stays(
    before: SunTopology,
    after: SunTopology,
    vertex_id: u32,
    node_label: String,
    ports: Seq<(u32, ObjectId)>,
    contract: ContractDescriptor,
    declared_edges: Vec<DeclaredEdge>,
    journey_id: Uuid,
    warp_journey_id: Option<Uuid>,
    vertex: u32,
    port: u32,
)
    requires
        vertex_registered(
            before,
            after,
            vertex_id,
            node_label,
            ports,
            contract,
            declared_edges,
            journey_id,
            warp_journey_id,
        ),
    ensures
        before.journey_ids@.contains_key(vertex) ==> after.journey_ids@.contains_key(vertex)
            && after.journey_ids@[vertex] == before.journey_ids@[vertex],
        before.node_labels@.contains_key(vertex) ==> after.node_labels@.contains_key(vertex)
            && after.node_labels@[vertex] == before.node_labels@[vertex],
        before.node_contracts@.contains_key(vertex) ==> after.node_contracts@.contains_key(vertex)
            && after.node_contracts@[vertex] == before.node_contracts@[vertex],
        before.port_vertices@.contains_key(port) ==> after.port_vertices@.contains_key(port)
            && after.port_vertices@[port] == before.port_vertices@[port],
        before.duplicate_ports@.contains(port) ==> after.duplicate_ports@.contains(port),
{
    if before.port_vertices@.contains_key(port) {
        assert(after.port_vertices@.contains_key(port));
    }
    if before.duplicate_ports@.contains(port) {
        assert(after.duplicate_ports@.contains(port));
    }
}

/// A registered vertex is in the graph, and so is every vertex before it.
pub proof fn law_registration_adds_vertex(
    before: SunTopology,
    after: SunTopology,
    vertex_id: u32,
    node_label: String,
    ports: Seq<(u32, ObjectId)>,
    contract: ContractDescriptor,
    declared_edges: Vec<DeclaredEdge>,
    journey_id: Uuid,
    warp_journey_id: Option<Uuid>,
)
    requires
        vertex_registered(
            before,
            after,
            vertex_id,
            node_label,
            ports,
            contract,
            declared_edges,
            journey_id,
            warp_journey_id,
        ),
    ensures
        after.vertices() == before.vertices().insert(vertex_id),
{
    assert(after.vertices() =~= before.vertices().insert(vertex_id));
}

} // verus!
