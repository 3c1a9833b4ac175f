//! What holds of a resolved graph and of every pass over it.

use vstd::prelude::*;

use crate::topology::SunTopology;
use crate::topology::frontier::{advanced, may_advance, ready_of, resolves_targets};
use crate::topology::graph::{
    hits, is_acyclic, lemma_acyclic_has_frontier, lemma_hits_positive, lemma_occurrences_positive,
    lemma_unresolved_insert, lemma_unresolved_positive, list_at, lists, mirrored, occurrences,
    unresolved,
};
use crate::topology::resolve::{
    edge_defect, finalized_as, resolvable, resolved_outgoing, vertex_sound,
};

verus! {

broadcast use vstd::std_specs::hash::group_hash_axioms;

/// The edges of a finalized graph: recorded at both ends, between registered
/// vertices, without a cycle.
pub open spec fn resolved(topology: SunTopology) -> bool {
    &&& topology.outgoing_edges().dom() == topology.vertices()
    &&& topology.incoming_edges().dom() == topology.vertices()
    &&& mirrored(topology.outgoing_edges(), topology.incoming_edges())
    &&& is_acyclic(topology.outgoing_edges())
}

/// A pass over the graph in which the vertices of `done` have completed, each
/// after all of its sources: the others are pending, each awaits exactly its
/// uncompleted sources, and those that await none are ready.
pub open spec fn frontier_holds(
    topology: SunTopology,
    done: Set<u32>,
    pending: Map<u32, usize>,
    ready: Set<u32>,
) -> bool {
    &&& done.subset_of(topology.vertices())
    &&& forall|id: u32| #[trigger]
        done.contains(id) ==> unresolved(list_at(topology.incoming_edges(), id), done) == 0
    &&& pending.dom() == topology.vertices().difference(done)
    &&& forall|id: u32| #[trigger]
        pending.contains_key(id) ==> pending[id] == unresolved(
            list_at(topology.incoming_edges(), id),
            done,
        )
    &&& ready == ready_of(pending)
}

/// Finalizing a resolvable graph resolves it.
pub proof fn law_finalized_is_resolved(before: SunTopology, after: SunTopology, typed: bool)
    requires
        resolvable(before, typed),
        finalized_as(before, after),
    ensures
        resolved(after),
        after.finalized,
        after.vertices() == before.vertices(),
{
    assert(after.outgoing_edges().dom() =~= after.vertices());
    assert(after.incoming_edges().dom() =~= after.vertices());
    assert(after.outgoing_edges() == resolved_outgoing(before));
}

/// In a resolved graph every edge joins two registered vertices.
pub proof fn law_edges_join_vertices(topology: SunTopology, source: u32, i: int)
    requires
        resolved(topology),
        topology.vertices().contains(source),
        0 <= i < topology.outgoing_edges()[source].len(),
    ensures
        topology.vertices().contains(topology.outgoing_edges()[source][i].vertex_id),
        topology.incoming_edges()[topology.outgoing_edges()[source][i].vertex_id].contains(source),
{
    let targets = topology.outgoing_edges()[source];
    let target = targets[i].vertex_id;
    lemma_hits_positive(targets, target);
    assert(hits(list_at(topology.outgoing_edges(), source), target) > 0);
    assert(occurrences(list_at(topology.incoming_edges(), target), source) > 0);
    lemma_occurrences_positive(list_at(topology.incoming_edges(), target), source);
}

/// A pass starts with nothing done and the roots ready.
pub proof fn law_frontier_starts(topology: SunTopology, pending: Map<u32, usize>)
    requires
        resolved(topology),
        pending.dom() == topology.vertices(),
        forall|id: u32| #[trigger]
            pending.contains_key(id) ==> pending[id] == list_at(
                topology.incoming_edges(),
                id,
            ).len(),
    ensures
        frontier_holds(topology, Set::empty(), pending, ready_of(pending)),
{
    assert(topology.vertices().difference(Set::empty()) =~= topology.vertices());
    assert forall|id: u32| #[trigger] pending.contains_key(id) implies pending[id] == unresolved(
        list_at(topology.incoming_edges(), id),
        Set::empty(),
    ) by {
        lemma_unresolved_positive(list_at(topology.incoming_edges(), id), Set::empty());
    }
}

/// Completing a ready vertex along its resolved edges is always accepted.
pub proof fn law_ready_may_advance(
    topology: SunTopology,
    done: Set<u32>,
    pending: Map<u32, usize>,
    ready: Set<u32>,
    node_id: u32,
)
    requires
        resolved(topology),
        frontier_holds(topology, done, pending, ready),
        ready.contains(node_id),
    ensures
        may_advance(pending, ready, node_id, topology.outgoing_edges()[node_id]),
{
    let targets = topology.outgoing_edges()[node_id];
    assert(topology.vertices().contains(node_id));
    assert(targets == list_at(topology.outgoing_edges(), node_id));
    assert(forall|id: u32|
        #![trigger pending.dom().contains(id)]
        pending.dom().contains(id) <==> topology.vertices().contains(id) && !done.contains(id));
    assert forall|i: int|
        #![trigger targets[i]]
        0 <= i < targets.len() implies pending.contains_key(targets[i].vertex_id) && hits(
        targets,
        targets[i].vertex_id,
    ) <= pending[targets[i].vertex_id] by {
        let target = targets[i].vertex_id;
        law_edges_join_vertices(topology, node_id, i);
        lemma_unresolved_insert(list_at(topology.incoming_edges(), target), done, node_id);
        assert(occurrences(list_at(topology.incoming_edges(), target), node_id) == hits(
            list_at(topology.outgoing_edges(), node_id),
            target,
        ));
        lemma_hits_positive(targets, target);
        assert(!done.contains(target)) by {
            if done.contains(target) {
                lemma_unresolved_positive(list_at(topology.incoming_edges(), target), done);
            }
        }
        assert(pending.dom().contains(target));
    }
    assert(resolves_targets(pending, targets));
}

/// Completing a ready vertex keeps the pass consistent, with that vertex done.
pub proof fn law_advance_keeps_frontier(
    topology: SunTopology,
    done: Set<u32>,
    pending: Map<u32, usize>,
    ready: Set<u32>,
    node_id: u32,
    next_pending: Map<u32, usize>,
    next_ready: Set<u32>,
)
    requires
        resolved(topology),
        frontier_holds(topology, done, pending, ready),
        ready.contains(node_id),
        advanced(
            pending,
            ready,
            node_id,
            topology.outgoing_edges()[node_id],
            next_pending,
            next_ready,
        ),
    ensures
        frontier_holds(topology, done.insert(node_id), next_pending, next_ready),
{
    let inc = topology.incoming_edges();
    let targets = topology.outgoing_edges()[node_id];
    let next_done = done.insert(node_id);
    assert(pending.dom().contains(node_id));
    assert(targets == list_at(topology.outgoing_edges(), node_id));
    assert(next_pending.dom() =~= topology.vertices().difference(next_done));
    assert forall|id: u32| #[trigger] unresolved(list_at(inc, id), done) == unresolved(
        list_at(inc, id),
        next_done,
    ) + hits(targets, id) by {
        lemma_unresolved_insert(list_at(inc, id), done, node_id);
        assert(occurrences(list_at(inc, id), node_id) == hits(
            list_at(topology.outgoing_edges(), node_id),
            id,
        ));
    }
    assert forall|id: u32| #[trigger] next_done.contains(id) implies unresolved(
        list_at(inc, id),
        next_done,
    ) == 0 by {
        assert(unresolved(list_at(inc, id), done) == unresolved(list_at(inc, id), next_done) + hits(
            targets,
            id,
        ));
    }
    assert forall|id: u32| #[trigger] next_pending.contains_key(id) implies next_pending[id]
        == unresolved(list_at(inc, id), next_done) by {
        assert(pending.dom().contains(id));
        assert(unresolved(list_at(inc, id), done) == unresolved(list_at(inc, id), next_done) + hits(
            targets,
            id,
        ));
    }
    assert forall|id: u32| next_ready.contains(id) <==> ready_of(next_pending).contains(id) by {
        if ready.contains(id) && id != node_id {
            assert(pending.dom().contains(id));
            assert(next_pending.dom().contains(id));
            assert(next_pending[id] == pending[id] - hits(targets, id));
        }
        if ready_of(next_pending).contains(id) {
            assert(pending.dom().contains(id));
            if hits(targets, id) == 0 {
                assert(pending[id] == 0);
                assert(ready_of(pending).contains(id));
            }
        }
    }
    assert(next_ready =~= ready_of(next_pending));
}

/// A pass over a resolved graph never gets stuck: while a vertex is pending,
/// some vertex is ready.
pub proof fn law_frontier_progresses(
    topology: SunTopology,
    done: Set<u32>,
    pending: Map<u32, usize>,
    ready: Set<u32>,
) -> (next: u32)
    requires
        resolved(topology),
        frontier_holds(topology, done, pending, ready),
        pending.dom().len() > 0,
    ensures
        ready.contains(next),
{
    assert(topology.vertices().finite());
    assert(pending.dom().finite());
    assert forall|id: u32| topology.outgoing_edges().contains_key(id) implies pending.dom().contains(
        id,
    ) || done.contains(id) by {
        assert(topology.vertices().contains(id));
    }
    let next = lemma_acyclic_has_frontier(
        topology.outgoing_edges(),
        topology.incoming_edges(),
        pending.dom(),
        done,
    );
    assert(pending.contains_key(next));
    next
}

/// A pass ends exactly when every vertex has completed.
pub proof fn law_frontier_ends_complete(
    topology: SunTopology,
    done: Set<u32>,
    pending: Map<u32, usize>,
    ready: Set<u32>,
)
    requires
        resolved(topology),
        frontier_holds(topology, done, pending, ready),
    ensures
        pending.dom() == Set::<u32>::empty() <==> done == topology.vertices(),
{
    if pending.dom() == Set::<u32>::empty() {
        assert forall|id: u32| topology.vertices().contains(id) implies done.contains(id) by {
            assert(!pending.dom().contains(id));
        }
        assert(done =~= topology.vertices());
    }
    if done == topology.vertices() {
        assert(pending.dom() =~= Set::<u32>::empty());
    }
}

/// Every port of a vertex is owned by some vertex.
pub open spec fn ports_owned(topology: SunTopology) -> bool {
    forall|vertex: u32, i: int|
        #![trigger list_at(lists(topology.vertex_ports@), vertex)[i]]
        0 <= i < list_at(lists(topology.vertex_ports@), vertex).len()
            ==> topology.port_vertices@.contains_key(
            list_at(lists(topology.vertex_ports@), vertex)[i],
        )
}

/// Every resolved edge leads to a port that some vertex owns.
pub open spec fn edges_owned(topology: SunTopology) -> bool {
    forall|vertex: u32, i: int|
        #![trigger list_at(topology.outgoing_edges(), vertex)[i]]
        0 <= i < list_at(topology.outgoing_edges(), vertex).len()
            ==> topology.port_vertices@.contains_key(
            list_at(topology.outgoing_edges(), vertex)[i].port_id,
        )
}

/// Every edge of a finalized graph leads to a port that some vertex owns.
pub proof fn law_finalized_edges_are_owned(before: SunTopology, after: SunTopology, typed: bool)
    requires
        resolvable(before, typed),
        finalized_as(before, after),
    ensures
        edges_owned(after),
{
    assert forall|vertex: u32, i: int|
        #![trigger list_at(after.outgoing_edges(), vertex)[i]]
        0 <= i < list_at(
            after.outgoing_edges(),
            vertex,
        ).len() implies after.port_vertices@.contains_key(
        list_at(after.outgoing_edges(), vertex)[i].port_id,
    ) by {
        assert(resolved_outgoing(before).contains_key(vertex));
        assert(before.declared_outputs@.contains_key(vertex));
        assert(vertex_sound(before, typed, vertex));
        let port = before.declared_outputs@[vertex]@[i];
        assert(edge_defect(before, typed, vertex, port) is None);
    }
}

} // verus!
