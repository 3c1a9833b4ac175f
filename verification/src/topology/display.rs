//! What observers see of a topology, and what is recorded of its progress.

use vstd::prelude::*;

use crate::collections::{ascending, lemma_ascending_lists};
use crate::forward::pass::started_recorded;
use crate::topology::appearance::{is_edge, shows_edges, shows_topology};
use crate::topology::observe::{completion_recorded, progress_reset};
use crate::topology::{
    PortTarget, SunAppearance, SunEdgeAppearance, SunNodeState, SunOperationalState, SunTopology,
};

verus! {

broadcast use vstd::std_specs::hash::group_hash_axioms;

pub(crate) proof fn lemma_edges_shown(
    topology: SunTopology,
    edges: Seq<SunEdgeAppearance>,
    source: u32,
    target: u32,
    port: u32,
)
    requires
        shows_edges(topology.outgoing_edges(), edges),
    ensures
        (exists|i: int|
            0 <= i < edges.len() && (#[trigger] edges[i]).source == source && edges[i].target
                == target && edges[i].target_port == port) <==> topology.outgoing@.contains_key(
            source,
        ) && exists|k: int|
            0 <= k < topology.outgoing@[source]@.len() && (
            #[trigger] topology.outgoing@[source]@[k]).vertex_id == target
                && topology.outgoing@[source]@[k].port_id == port,
{
    let edge = SunEdgeAppearance { source, target, target_port: port };
    let outgoing = topology.outgoing_edges();
    assert(edges.contains(edge) <==> is_edge(outgoing, edge));
    if exists|i: int|
        0 <= i < edges.len() && (#[trigger] edges[i]).source == source && edges[i].target == target
            && edges[i].target_port == port {
        let i = choose|i: int|
            0 <= i < edges.len() && (#[trigger] edges[i]).source == source && edges[i].target
                == target && edges[i].target_port == port;
        assert(edges[i] == edge);
        assert(edges.contains(edge));
        let targets = outgoing[source];
        let k = choose|k: int|
            0 <= k < targets.len() && targets[k] == (PortTarget { port_id: port, vertex_id: target });
        assert(topology.outgoing@[source]@[k].vertex_id == target);
    }
    if topology.outgoing@.contains_key(source) && exists|k: int|
        0 <= k < topology.outgoing@[source]@.len() && (
        #[trigger] topology.outgoing@[source]@[k]).vertex_id == target
            && topology.outgoing@[source]@[k].port_id == port {
        let k = choose|k: int|
            0 <= k < topology.outgoing@[source]@.len() && (
            #[trigger] topology.outgoing@[source]@[k]).vertex_id == target
                && topology.outgoing@[source]@[k].port_id == port;
        assert(outgoing[source][k] == (PortTarget { port_id: port, vertex_id: target }));
        assert(outgoing[source].contains(PortTarget { port_id: port, vertex_id: target }));
        let i = choose|i: int| 0 <= i < edges.len() && edges[i] == edge;
        assert(edges[i].source == source);
    }
}

/// A topology shows every vertex once, by ascending id, with what is recorded
/// of it; without a strategy it is idle and at its first step.
pub proof fn law_every_vertex_is_shown(topology: SunTopology, shown: SunAppearance, vertex: u32) -> (i:
    int)
    requires
        shows_topology(topology, shown),
        topology.vertices().contains(vertex),
        topology.vertices().finite(),
    ensures
        0 <= i < shown.nodes@.len(),
        shown.nodes@.len() == topology.vertices().len(),
        shown.nodes@[i].id == vertex,
        topology.journey_ids@.contains_key(vertex) ==> shown.nodes@[i].journey_id
            == topology.journey_ids@[vertex],
        topology.warp_journey_ids@.contains_key(vertex) ==> shown.nodes@[i].warp_journey_id
            == topology.warp_journey_ids@[vertex],
        topology.node_labels@.contains_key(vertex) ==> shown.nodes@[i].label@
            == topology.node_labels@[vertex]@,
        topology.vertex_ports@.contains_key(vertex) ==> shown.nodes@[i].input_ports@
            == topology.vertex_ports@[vertex]@,
        shown.nodes@[i].state == SunNodeState::Idle,
        shown.nodes@[i].grad_step == 1,
        topology.node_state_sequences@.contains_key(vertex) ==> shown.nodes@[i].state_sequence
            == topology.node_state_sequences@[vertex],
        topology.node_operational_states@.contains_key(vertex)
            ==> shown.nodes@[i].operational_state == topology.node_operational_states@[vertex],
        topology.node_phase_annotations@.contains_key(vertex)
            <==> shown.nodes@[i].phase_annotation is Some,
        topology.node_phase_annotations@.contains_key(vertex)
            ==> shown.nodes@[i].phase_annotation->0@ == topology.node_phase_annotations@[vertex]@,
        forall|a: int, b: int|
            #![trigger shown.nodes@[a], shown.nodes@[b]]
            0 <= a < b < shown.nodes@.len() ==> shown.nodes@[a].id < shown.nodes@[b].id,
        shown.finalized == topology.finalized,
        shown.grad_steps == 1,
{
    let order = ascending(topology.vertices());
    lemma_ascending_lists(topology.vertices());
    assert(order.to_set().contains(vertex));
    let i = choose|i: int| 0 <= i < order.len() && order[i] == vertex;
    assert(shown.nodes@[i].id == vertex);
    assert forall|a: int, b: int|
        #![trigger shown.nodes@[a], shown.nodes@[b]]
        0 <= a < b < shown.nodes@.len() implies shown.nodes@[a].id < shown.nodes@[b].id by {
        assert(shown.nodes@[a].id == order[a]);
        assert(shown.nodes@[b].id == order[b]);
    }
    i
}

/// The edges that are shown are the resolved edges.
pub proof fn law_every_edge_is_shown(
    topology: SunTopology,
    shown: SunAppearance,
    source: u32,
    target: u32,
    port: u32,
)
    requires
        shows_topology(topology, shown),
    ensures
        (exists|i: int|
            0 <= i < shown.edges@.len() && (#[trigger] shown.edges@[i]).source == source
                && shown.edges@[i].target == target && shown.edges@[i].target_port == port)
            <==> topology.outgoing@.contains_key(source) && exists|k: int|
            0 <= k < topology.outgoing@[source]@.len() && (
            #[trigger] topology.outgoing@[source]@[k]).vertex_id == target
                && topology.outgoing@[source]@[k].port_id == port,
{
    lemma_edges_shown(topology, shown.edges@, source, target, port);
}

/// Nothing that is recorded of the progress of `node` differs.
pub open spec fn progress_alike(a: SunTopology, b: SunTopology, node: u32) -> bool {
    &&& a.node_operational_states@.contains_key(node)
        == b.node_operational_states@.contains_key(node)
    &&& a.node_operational_states@.contains_key(node) ==> a.node_operational_states@[node]
        == b.node_operational_states@[node]
    &&& a.node_phase_annotations@.contains_key(node) == b.node_phase_annotations@.contains_key(node)
    &&& a.node_phase_annotations@.contains_key(node) ==> a.node_phase_annotations@[node]@
        == b.node_phase_annotations@[node]@
}

/// A node that a forward pass reaches runs, and is annotated so; no other node
/// changes.
pub proof fn law_reached_nodes_run(
    before: SunTopology,
    after: SunTopology,
    sent: Seq<u32>,
    node: u32,
)
    requires
        started_recorded(before, after, sent),
    ensures
        sent.contains(node) ==> {
            &&& after.node_operational_states@.contains_key(node)
            &&& after.node_operational_states@[node] == SunOperationalState::Running
            &&& after.node_phase_annotations@.contains_key(node)
            &&& after.node_phase_annotations@[node]@ == "forward"@
        },
        !sent.contains(node) ==> progress_alike(after, before, node),
        after.outgoing == before.outgoing,
        after.incoming == before.incoming,
        after.port_vertices == before.port_vertices,
        after.vertex_ports == before.vertex_ports,
        after.journey_ids == before.journey_ids,
{
    assert(after.node_operational_states@.contains_key(node)
        <==> before.node_operational_states@.contains_key(node) || sent.contains(node));
    assert(after.node_phase_annotations@.contains_key(node)
        <==> before.node_phase_annotations@.contains_key(node) || sent.contains(node));
}

/// A node that completes has succeeded, the nodes it reaches run, and no other
/// node changes.
pub proof fn law_completed_node_has_succeeded(
    before: SunTopology,
    after: SunTopology,
    done: u32,
    sent: Seq<u32>,
    node: u32,
)
    requires
        completion_recorded(before, after, done, sent),
    ensures
        !sent.contains(done) ==> after.node_operational_states@.contains_key(done)
            && after.node_operational_states@[done] == SunOperationalState::Succeeded,
        sent.contains(node) ==> {
            &&& after.node_operational_states@.contains_key(node)
            &&& after.node_operational_states@[node] == SunOperationalState::Running
            &&& after.node_phase_annotations@.contains_key(node)
            &&& after.node_phase_annotations@[node]@ == "forward"@
        },
        !sent.contains(node) && node != done ==> progress_alike(after, before, node),
        after.outgoing == before.outgoing,
        after.incoming == before.incoming,
        after.port_vertices == before.port_vertices,
        after.vertex_ports == before.vertex_ports,
        after.journey_ids == before.journey_ids,
{
    let noted = before.node_operational_states@.insert(done, SunOperationalState::Succeeded);
    assert(after.node_operational_states@.contains_key(node) <==> noted.contains_key(node)
        || sent.contains(node));
    assert(after.node_operational_states@.contains_key(done) <==> noted.contains_key(done)
        || sent.contains(done));
    assert(after.node_phase_annotations@.contains_key(node)
        <==> before.node_phase_annotations@.contains_key(node) || sent.contains(node));
}

/// A pass begins with every vertex in the queue and without annotation.
pub proof fn law_passes_begin_in_the_queue(before: SunTopology, after: SunTopology, vertex: u32)
    requires
        progress_reset(before, after),
        before.vertices().contains(vertex),
    ensures
        after.node_operational_states@.contains_key(vertex),
        after.node_operational_states@[vertex] == SunOperationalState::Queued,
        !after.node_phase_annotations@.contains_key(vertex),
        after.node_state_sequences == before.node_state_sequences,
        after.outgoing == before.outgoing,
        after.incoming == before.incoming,
        after.port_vertices == before.port_vertices,
        after.vertex_ports == before.vertex_ports,
        after.journey_ids == before.journey_ids,
{
    assert(after.node_operational_states@.contains_key(vertex));
}

} // verus!
