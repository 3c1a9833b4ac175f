//! The ready frontier: which vertices may run next.

use std::collections::{HashMap, HashSet};

use vstd::prelude::*;

use crate::collections::{
    ascending, lemma_ascending, lemma_take_next, sorted_keys, sorted_members, strictly_increasing,
};
use crate::failure::Failure;
use crate::topology::graph::{hits, lemma_hits_positive, lemma_hits_prefix, list_at};
use crate::topology::{PortTarget, SunTopology};

verus! {

broadcast use vstd::std_specs::hash::group_hash_axioms;

/// How many entries `map` holds for `id`, zero when it holds none.
pub open spec fn count_at(map: Map<u32, usize>, id: u32) -> nat {
    if map.contains_key(id) {
        map[id] as nat
    } else {
        0
    }
}

/// Number of unresolved predecessors of every vertex before a pass starts.
pub fn pending_dependency_counts(topology: &SunTopology) -> (pending: HashMap<u32, usize>)
    ensures
        pending@.dom() == topology.vertices(),
        forall|id: u32| #[trigger]
            pending@.contains_key(id) ==> pending@[id] == list_at(
                topology.incoming_edges(),
                id,
            ).len(),
{
    let ids = sorted_keys(&topology.journey_ids);
    let mut pending: HashMap<u32, usize> = HashMap::new();
    let mut i: usize = 0;
    while i < ids.len()
        invariant
            i <= ids.len(),
            pending@.dom() == ids@.take(i as int).to_set(),
            forall|id: u32| #[trigger]
                pending@.contains_key(id) ==> pending@[id] == list_at(
                    topology.incoming_edges(),
                    id,
                ).len(),
        decreases ids.len() - i,
    {
        let id = ids[i];
        let unresolved: usize = match topology.incoming.get(&id) {
            Some(sources) => sources.len(),
            None => 0,
        };
        pending.insert(id, unresolved);
        proof {
            assert(ids@.take(i + 1) =~= ids@.take(i as int).push(id));
            crate::collections::lemma_push_set(ids@.take(i as int), id);
        }
        i = i + 1;
    }
    assert(ids@.take(i as int) =~= ids@);
    pending
}

/// The vertices of `pending` without unresolved predecessors.
pub open spec fn ready_of(pending: Map<u32, usize>) -> Set<u32> {
    Set::new(|id: u32| pending.contains_key(id) && pending[id] == 0)
}

/// The vertices that may run before any other has completed.
pub fn initial_ready_nodes(pending: &HashMap<u32, usize>) -> (ready: HashSet<u32>)
    ensures
        ready@ == ready_of(pending@),
{
    let ids = sorted_keys(pending);
    let mut ready: HashSet<u32> = HashSet::new();
    let mut i: usize = 0;
    while i < ids.len()
        invariant
            i <= ids.len(),
            ids@.to_set() == pending@.dom(),
            forall|id: u32| #[trigger]
                ready@.contains(id) <==> ids@.take(i as int).contains(id) && pending@[id] == 0,
        decreases ids.len() - i,
    {
        let id = ids[i];
        proof {
            assert(ids@.contains(id));
            assert(ids@.to_set().contains(id));
            assert(ids@.take(i + 1) =~= ids@.take(i as int).push(id));
            crate::collections::lemma_push_set(ids@.take(i as int), id);
            assert forall|x: u32|
                ids@.take(i + 1).contains(x) <==> ids@.take(i as int).contains(x) || x == id by {
                assert(ids@.take(i + 1).to_set().contains(x) <==> ids@.take(
                    i as int,
                ).to_set().contains(x) || x == id);
            }
        }
        match pending.get(&id) {
            Some(unresolved) => {
                if *unresolved == 0 {
                    ready.insert(id);
                }
            },
            None => {},
        }
        i = i + 1;
    }
    proof {
        assert(ids@.take(i as int) =~= ids@);
        assert forall|id: u32| ids@.contains(id) <==> pending@.contains_key(id) by {
            assert(ids@.to_set().contains(id) <==> pending@.dom().contains(id));
        }
        assert(ready@ =~= ready_of(pending@));
    }
    ready
}

/// A set of vertices in ascending order.
pub fn sorted_node_ids(nodes: &HashSet<u32>) -> (ids: Vec<u32>)
    ensures
        ids@ == ascending(nodes@),
        ids@.to_set() == nodes@,
        crate::collections::strictly_increasing(ids@),
{
    sorted_members(nodes)
}

/// A completed node can resolve its targets: each awaits as many predecessors
/// as the node has edges to it.
pub open spec fn resolves_targets(pending: Map<u32, usize>, outgoing: Seq<PortTarget>) -> bool {
    forall|i: int|
        #![trigger outgoing[i]]
        0 <= i < outgoing.len() ==> pending.contains_key(outgoing[i].vertex_id) && hits(
            outgoing,
            outgoing[i].vertex_id,
        ) <= pending[outgoing[i].vertex_id]
}

/// The inputs on which completing `node_id` is accepted.
pub open spec fn may_advance(
    pending: Map<u32, usize>,
    ready: Set<u32>,
    node_id: u32,
    outgoing: Seq<PortTarget>,
) -> bool {
    &&& pending.contains_key(node_id)
    &&& pending[node_id] == 0
    &&& ready.contains(node_id)
    &&& resolves_targets(pending, outgoing)
}

/// What `failure` says of a refused completion is the case.
pub open spec fn explains_refusal(
    pending: Map<u32, usize>,
    ready: Set<u32>,
    node_id: u32,
    outgoing: Seq<PortTarget>,
    failure: Failure,
) -> bool {
    if !pending.contains_key(node_id) {
        failure == (Failure::NotPending { node: node_id })
    } else if pending[node_id] != 0 {
        failure == (Failure::UnresolvedPredecessors {
            node: node_id,
            unresolved: pending[node_id],
        })
    } else if !ready.contains(node_id) {
        failure == (Failure::NotReady { node: node_id })
    } else {
        match failure {
            Failure::DownstreamNotPending { node } => {
                &&& hits(outgoing, node) > 0
                &&& !pending.contains_key(node)
            },
            Failure::DownstreamOverResolved { node, unresolved, decrement } => {
                &&& hits(outgoing, node) > 0
                &&& pending.contains_key(node)
                &&& pending[node] == unresolved
                &&& hits(outgoing, node) == decrement
                &&& unresolved < decrement
            },
            _ => false,
        }
    }
}

/// The frontier after `node_id` completed: it is gone, and every other pending
/// vertex awaits one predecessor less per edge from it.
pub open spec fn advanced(
    pending: Map<u32, usize>,
    ready: Set<u32>,
    node_id: u32,
    outgoing: Seq<PortTarget>,
    next_pending: Map<u32, usize>,
    next_ready: Set<u32>,
) -> bool {
    &&& next_pending.dom() == pending.dom().remove(node_id)
    &&& forall|id: u32| #[trigger]
        next_pending.contains_key(id) ==> next_pending[id] == pending[id] - hits(outgoing, id)
    &&& forall|id: u32| #[trigger]
        next_ready.contains(id) <==> id != node_id && (ready.contains(id) || (hits(outgoing, id)
            > 0 && next_pending.contains_key(id) && next_pending[id] == 0))
}

/// Completes `node_id`: removes it from the frontier and makes ready every
/// target whose last unresolved predecessor it was.
///
/// A refused completion leaves the frontier as it was.
pub fn advance_frontier(
    pending: &mut HashMap<u32, usize>,
    ready: &mut HashSet<u32>,
    node_id: u32,
    outgoing: &Vec<PortTarget>,
) -> (result: Result<(), Failure>)
    ensures
        result is Ok <==> may_advance(old(pending)@, old(ready)@, node_id, outgoing@),
        result is Ok ==> advanced(
            old(pending)@,
            old(ready)@,
            node_id,
            outgoing@,
            final(pending)@,
            final(ready)@,
        ),
        result matches Err(failure) ==> {
            &&& explains_refusal(old(pending)@, old(ready)@, node_id, outgoing@, failure)
            &&& final(pending)@ == old(pending)@
            &&& final(ready)@ == old(ready)@
        },
{
    let unresolved: usize = match pending.get(&node_id) {
        Some(unresolved) => *unresolved,
        None => {
            return Err(Failure::NotPending { node: node_id });
        },
    };
    if unresolved != 0 {
        return Err(Failure::UnresolvedPredecessors { node: node_id, unresolved });
    }
    if !ready.contains(&node_id) {
        return Err(Failure::NotReady { node: node_id });
    }
    let decrements = count_hits(outgoing);
    let targets = sorted_keys(&decrements);
    proof {
        assert forall|id: u32| targets@.contains(id) <==> hits(outgoing@, id) > 0 by {
            assert(targets@.to_set().contains(id) <==> decrements@.dom().contains(id));
        }
    }
    let mut i: usize = 0;
    while i < targets.len()
        invariant
            i <= targets.len(),
            pending@ == old(pending)@,
            ready@ == old(ready)@,
            pending@.contains_key(node_id),
            pending@[node_id] == 0,
            ready@.contains(node_id),
            forall|id: u32| targets@.contains(id) <==> hits(outgoing@, id) > 0,
            targets@.to_set() == decrements@.dom(),
            forall|id: u32| #[trigger]
                decrements@.contains_key(id) ==> decrements@[id] == hits(outgoing@, id),
            forall|j: int|
                #![trigger targets@[j]]
                0 <= j < i ==> pending@.contains_key(targets@[j]) && hits(outgoing@, targets@[j])
                    <= pending@[targets@[j]],
        decreases targets.len() - i,
    {
        let target = targets[i];
        proof {
            assert(targets@.contains(target));
            assert(targets@.to_set().contains(target));
            lemma_hits_positive(outgoing@, target);
        }
        let decrement: usize = match decrements.get(&target) {
            Some(decrement) => *decrement,
            None => 0,
        };
        match pending.get(&target) {
            Some(unresolved) => {
                if *unresolved < decrement {
                    return Err(
                        Failure::DownstreamOverResolved {
                            node: target,
                            unresolved: *unresolved,
                            decrement,
                        },
                    );
                }
            },
            None => {
                return Err(Failure::DownstreamNotPending { node: target });
            },
        }
        i = i + 1;
    }
    proof {
        assert forall|k: int|
            #![trigger outgoing@[k]]
            0 <= k < outgoing@.len() implies pending@.contains_key(outgoing@[k].vertex_id) && hits(
            outgoing@,
            outgoing@[k].vertex_id,
        ) <= pending@[outgoing@[k].vertex_id] by {
            lemma_hits_positive(outgoing@, outgoing@[k].vertex_id);
            assert(hits(outgoing@, outgoing@[k].vertex_id) > 0);
            assert(targets@.contains(outgoing@[k].vertex_id));
            let j = choose|j: int| 0 <= j < targets@.len() && targets@[j] == outgoing@[k].vertex_id;
            assert(targets@[j] == outgoing@[k].vertex_id);
        }
        if targets@.contains(node_id) {
            let j = choose|j: int| 0 <= j < targets@.len() && targets@[j] == node_id;
            assert(hits(outgoing@, targets@[j]) <= 0);
        }
    }
    pending.remove(&node_id);
    ready.remove(&node_id);
    let mut j: usize = 0;
    while j < targets.len()
        invariant
            j <= targets.len(),
            crate::collections::strictly_increasing(targets@),
            targets@.to_set() == decrements@.dom(),
            !targets@.contains(node_id),
            forall|id: u32| targets@.contains(id) <==> hits(outgoing@, id) > 0,
            forall|id: u32| #[trigger]
                decrements@.contains_key(id) ==> decrements@[id] == hits(outgoing@, id),
            forall|k: int|
                #![trigger targets@[k]]
                0 <= k < targets@.len() ==> old(pending)@.contains_key(targets@[k]) && hits(
                    outgoing@,
                    targets@[k],
                ) <= old(pending)@[targets@[k]],
            pending@.dom() == old(pending)@.dom().remove(node_id),
            forall|id: u32| #[trigger]
                pending@.contains_key(id) ==> pending@[id] == old(pending)@[id] - if targets@.take(
                    j as int,
                ).contains(id) {
                    hits(outgoing@, id) as int
                } else {
                    0int
                },
            forall|id: u32| #[trigger]
                ready@.contains(id) <==> id != node_id && (old(ready)@.contains(id) || (
                targets@.take(j as int).contains(id) && pending@.contains_key(id) && pending@[id]
                    == 0)),
        decreases targets.len() - j,
    {
        let target = targets[j];
        let ghost before = targets@.take(j as int);
        proof {
            assert(targets@.contains(target));
            assert(targets@.to_set().contains(target));
            assert(targets@.take(j + 1) =~= before.push(target));
            crate::collections::lemma_push_set(before, target);
            assert forall|x: u32|
                #![trigger targets@.take(j + 1).contains(x)]
                targets@.take(j + 1).contains(x) <==> before.contains(x) || x == target by {
                assert(targets@.take(j + 1).to_set().contains(x) <==> before.to_set().contains(x)
                    || x == target);
            }
            assert(!before.contains(target)) by {
                if before.contains(target) {
                    let k = choose|k: int| 0 <= k < before.len() && before[k] == target;
                    assert(targets@[k] < targets@[j as int]);
                }
            }
            assert(old(pending)@.contains_key(targets@[j as int]));
        }
        let decrement: usize = match decrements.get(&target) {
            Some(decrement) => *decrement,
            None => 0,
        };
        let unresolved: usize = match pending.get(&target) {
            Some(unresolved) => *unresolved,
            None => 0,
        };
        assert(decrement <= unresolved);
        let left: usize = unresolved - decrement;
        pending.insert(target, left);
        if left == 0 {
            ready.insert(target);
        }
        j = j + 1;
    }
    proof {
        assert(targets@.take(j as int) =~= targets@);
        assert forall|id: u32| #[trigger] pending@.contains_key(id) implies pending@[id] == old(
            pending,
        )@[id] - hits(outgoing@, id) by {}
        assert forall|id: u32| #[trigger] ready@.contains(id) <==> id != node_id && (old(
            ready,
        )@.contains(id) || (hits(outgoing@, id) > 0 && pending@.contains_key(id) && pending@[id]
            == 0)) by {}
    }
    Ok(())
}

/// How many of the targets lead to each vertex.
fn count_hits(outgoing: &Vec<PortTarget>) -> (counts: HashMap<u32, usize>)
    ensures
        forall|id: u32| #[trigger] counts@.contains_key(id) <==> hits(outgoing@, id) > 0,
        forall|id: u32| #[trigger]
            counts@.contains_key(id) ==> counts@[id] == hits(outgoing@, id),
{
    let mut counts: HashMap<u32, usize> = HashMap::new();
    let mut i: usize = 0;
    while i < outgoing.len()
        invariant
            i <= outgoing.len(),
            forall|id: u32|
                #![trigger counts@.contains_key(id)]
                (counts@.contains_key(id) <==> hits(outgoing@.take(i as int), id) > 0) && (
                counts@.contains_key(id) ==> counts@[id] == hits(outgoing@.take(i as int), id)),
        decreases outgoing.len() - i,
    {
        let vertex = outgoing[i].vertex_id;
        let ghost before = counts@;
        proof {
            lemma_hits_positive(outgoing@.take(i as int), vertex);
            assert forall|id: u32| #[trigger] hits(outgoing@.take(i + 1), id) == hits(
                outgoing@.take(i as int),
                id,
            ) + if vertex == id {
                1nat
            } else {
                0nat
            } by {
                lemma_hits_prefix(outgoing@, i as int, id);
            }
        }
        let count: usize = match counts.get(&vertex) {
            Some(count) => *count,
            None => 0,
        };
        counts.insert(vertex, count + 1);
        proof {
            assert forall|id: u32|
                #![trigger counts@.contains_key(id)]
                (counts@.contains_key(id) <==> hits(outgoing@.take(i + 1), id) > 0) && (
                counts@.contains_key(id) ==> counts@[id] == hits(outgoing@.take(i + 1), id)) by {
                assert(before.contains_key(id) <==> hits(outgoing@.take(i as int), id) > 0);
            }
        }
        i = i + 1;
    }
    assert(outgoing@.take(i as int) =~= outgoing@);
    counts
}

/// All input ports, in ascending order.
pub fn port_ids(topology: &SunTopology) -> (ids: Vec<u32>)
    ensures
        ids@ == ascending(topology.port_vertices@.dom()),
        ids@.to_set() == topology.port_vertices@.dom(),
        strictly_increasing(ids@),
{
    sorted_keys(&topology.port_vertices)
}

/// All vertices, in ascending order.
pub fn vertex_ids(topology: &SunTopology) -> (ids: Vec<u32>)
    ensures
        ids@ == ascending(topology.vertices()),
        ids@.to_set() == topology.vertices(),
        ids@.len() == topology.vertices().len(),
        strictly_increasing(ids@),
{
    sorted_keys(&topology.journey_ids)
}

/// The vertices whose recorded sources are none.
pub open spec fn roots(topology: SunTopology) -> Set<u32> {
    topology.incoming@.dom().filter(|id: u32| topology.incoming@[id]@.len() == 0)
}

/// The vertices without sources, in ascending order.
pub fn root_vertex_ids(topology: &SunTopology) -> (ids: Vec<u32>)
    ensures
        ids@ == ascending(roots(*topology)),
        ids@.to_set() == roots(*topology),
        strictly_increasing(ids@),
{
    let vertices = sorted_keys(&topology.incoming);
    let mut found: Vec<u32> = Vec::new();
    let mut i: usize = 0;
    while i < vertices.len()
        invariant
            i <= vertices.len(),
            strictly_increasing(vertices@),
            vertices@.to_set() == topology.incoming@.dom(),
            strictly_increasing(found@),
            forall|j: int|
                #![trigger found@[j]]
                0 <= j < found@.len() ==> i > 0 && found@[j] <= vertices@[i - 1],
            forall|id: u32| #[trigger]
                found@.contains(id) <==> vertices@.take(i as int).contains(id)
                    && topology.incoming@[id]@.len() == 0,
        decreases vertices.len() - i,
    {
        let id = vertices[i];
        let ghost before = found@;
        proof {
            assert(vertices@.contains(id));
            assert(vertices@.to_set().contains(id));
            lemma_take_next(vertices@, i as int);
            crate::collections::lemma_push_set(before, id);
        }
        let sources = topology.incoming.get(&id).unwrap();
        if sources.len() == 0 {
            found.push(id);
        }
        i = i + 1;
    }
    proof {
        assert(vertices@.take(i as int) =~= vertices@);
        assert forall|id: u32| found@.to_set().contains(id) <==> roots(*topology).contains(id) by {
            assert(vertices@.to_set().contains(id) <==> topology.incoming@.dom().contains(id));
        }
        assert(found@.to_set() =~= roots(*topology));
        lemma_ascending(found@, roots(*topology));
    }
    found
}

} // verus!
