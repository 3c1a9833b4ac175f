//! Counting and ordering facts about port-aware directed graphs.

use vstd::prelude::*;

use crate::topology::PortTarget;

verus! {

/// Outgoing edges of every vertex, in declaration order.
pub type OutgoingEdges = Map<u32, Seq<PortTarget>>;

/// Sources of every vertex, one entry per edge.
pub type IncomingEdges = Map<u32, Seq<u32>>;

/// What the lists of an executable adjacency map hold.
pub open spec fn lists<T>(map: Map<u32, Vec<T>>) -> Map<u32, Seq<T>> {
    map.map_values(|list: Vec<T>| list@)
}

/// The list stored under `id`, or the empty list.
pub open spec fn list_at<T>(map: Map<u32, Seq<T>>, id: u32) -> Seq<T> {
    if map.contains_key(id) {
        map[id]
    } else {
        Seq::empty()
    }
}

/// How many of the targets lead to `vertex`.
pub open spec fn hits(targets: Seq<PortTarget>, vertex: u32) -> nat
    decreases targets.len(),
{
    if targets.len() == 0 {
        0
    } else {
        hits(targets.drop_last(), vertex) + if targets.last().vertex_id == vertex {
            1nat
        } else {
            0nat
        }
    }
}

/// How often `id` occurs in `ids`.
pub open spec fn occurrences(ids: Seq<u32>, id: u32) -> nat
    decreases ids.len(),
{
    if ids.len() == 0 {
        0
    } else {
        occurrences(ids.drop_last(), id) + if ids.last() == id {
            1nat
        } else {
            0nat
        }
    }
}

/// How many entries of `sources` are not yet done.
pub open spec fn unresolved(sources: Seq<u32>, done: Set<u32>) -> nat
    decreases sources.len(),
{
    if sources.len() == 0 {
        0
    } else {
        unresolved(sources.drop_last(), done) + if done.contains(sources.last()) {
            0nat
        } else {
            1nat
        }
    }
}

/// Every edge is recorded at both of its ends, equally often.
pub open spec fn mirrored(outgoing: OutgoingEdges, incoming: IncomingEdges) -> bool {
    forall|source: u32, target: u32|
        #![trigger occurrences(list_at(incoming, target), source)]
        #![trigger hits(list_at(outgoing, source), target)]
        occurrences(list_at(incoming, target), source) == hits(list_at(outgoing, source), target)
}

/// `rank` grows along every edge.
pub open spec fn ranks_edges(outgoing: OutgoingEdges, rank: Map<u32, nat>) -> bool {
    forall|source: u32, i: int|
        #![trigger outgoing[source][i]]
        outgoing.contains_key(source) && 0 <= i < outgoing[source].len() ==> rank[source]
            < rank[outgoing[source][i].vertex_id]
}

/// No directed cycle: the vertices can be ranked so that every edge ascends.
pub open spec fn is_acyclic(outgoing: OutgoingEdges) -> bool {
    exists|rank: Map<u32, nat>| ranks_edges(outgoing, rank)
}

pub proof fn lemma_hits_push(targets: Seq<PortTarget>, target: PortTarget, vertex: u32)
    ensures
        hits(targets.push(target), vertex) == hits(targets, vertex) + if target.vertex_id == vertex {
            1nat
        } else {
            0nat
        },
{
    assert(targets.push(target).drop_last() =~= targets);
}

pub proof fn lemma_occurrences_push(ids: Seq<u32>, last: u32, id: u32)
    ensures
        occurrences(ids.push(last), id) == occurrences(ids, id) + if last == id {
            1nat
        } else {
            0nat
        },
{
    assert(ids.push(last).drop_last() =~= ids);
}

/// A vertex is hit exactly when some target names it.
pub proof fn lemma_hits_positive(targets: Seq<PortTarget>, vertex: u32)
    ensures
        hits(targets, vertex) <= targets.len(),
        hits(targets, vertex) > 0 <==> exists|i: int|
            0 <= i < targets.len() && #[trigger] targets[i].vertex_id == vertex,
    decreases targets.len(),
{
    if targets.len() > 0 {
        let rest = targets.drop_last();
        lemma_hits_positive(rest, vertex);
        if hits(rest, vertex) > 0 {
            let i = choose|i: int| 0 <= i < rest.len() && #[trigger] rest[i].vertex_id == vertex;
            assert(targets[i].vertex_id == vertex);
        }
        if exists|i: int| 0 <= i < targets.len() && #[trigger] targets[i].vertex_id == vertex {
            let i = choose|i: int|
                0 <= i < targets.len() && #[trigger] targets[i].vertex_id == vertex;
            if i < rest.len() {
                assert(rest[i].vertex_id == vertex);
            }
        }
    }
}

/// Extending a prefix never lowers its hits, and one more target adds its own.
pub proof fn lemma_hits_prefix(targets: Seq<PortTarget>, at: int, vertex: u32)
    requires
        0 <= at <= targets.len(),
    ensures
        hits(targets.take(at), vertex) <= hits(targets, vertex),
        at < targets.len() ==> hits(targets.take(at + 1), vertex) == hits(
            targets.take(at),
            vertex,
        ) + if targets[at].vertex_id == vertex {
            1nat
        } else {
            0nat
        },
    decreases targets.len() - at,
{
    if at < targets.len() {
        assert(targets.take(at + 1) =~= targets.take(at).push(targets[at]));
        lemma_hits_push(targets.take(at), targets[at], vertex);
        lemma_hits_prefix(targets, at + 1, vertex);
    } else {
        assert(targets.take(at) =~= targets);
    }
}

/// An id occurs exactly when it is a member.
pub proof fn lemma_occurrences_positive(ids: Seq<u32>, id: u32)
    ensures
        occurrences(ids, id) <= ids.len(),
        occurrences(ids, id) > 0 <==> ids.contains(id),
    decreases ids.len(),
{
    if ids.len() > 0 {
        let rest = ids.drop_last();
        lemma_occurrences_positive(rest, id);
        if rest.contains(id) {
            let i = choose|i: int| 0 <= i < rest.len() && rest[i] == id;
            assert(ids[i] == id);
        }
        if ids.contains(id) {
            let i = choose|i: int| 0 <= i < ids.len() && ids[i] == id;
            if i < rest.len() {
                assert(rest[i] == id);
            }
        }
    }
}

/// Nothing done leaves every entry unresolved; some entry outside `done` keeps
/// the count positive.
pub proof fn lemma_unresolved_positive(sources: Seq<u32>, done: Set<u32>)
    ensures
        unresolved(sources, done) <= sources.len(),
        unresolved(sources, done) > 0 <==> exists|i: int|
            0 <= i < sources.len() && !done.contains(#[trigger] sources[i]),
        done == Set::<u32>::empty() ==> unresolved(sources, done) == sources.len(),
    decreases sources.len(),
{
    if sources.len() > 0 {
        let rest = sources.drop_last();
        lemma_unresolved_positive(rest, done);
        if unresolved(rest, done) > 0 {
            let i = choose|i: int| 0 <= i < rest.len() && !done.contains(#[trigger] rest[i]);
            assert(!done.contains(sources[i]));
        }
        if exists|i: int| 0 <= i < sources.len() && !done.contains(#[trigger] sources[i]) {
            let i = choose|i: int|
                0 <= i < sources.len() && !done.contains(#[trigger] sources[i]);
            if i < rest.len() {
                assert(!done.contains(rest[i]));
            }
        }
    }
}

/// Finishing a source resolves exactly its own entries.
pub proof fn lemma_unresolved_insert(sources: Seq<u32>, done: Set<u32>, source: u32)
    requires
        !done.contains(source),
    ensures
        unresolved(sources, done) == unresolved(sources, done.insert(source)) + occurrences(
            sources,
            source,
        ),
    decreases sources.len(),
{
    if sources.len() > 0 {
        lemma_unresolved_insert(sources.drop_last(), done, source);
    }
}

/// A non-empty finite set has a member of least rank.
pub proof fn lemma_least_ranked(ids: Set<u32>, rank: Map<u32, nat>) -> (least: u32)
    requires
        ids.finite(),
        ids.len() > 0,
    ensures
        ids.contains(least),
        forall|id: u32| ids.contains(id) ==> rank[least] <= rank[id],
    decreases ids.len(),
{
    let id = ids.choose();
    let rest = ids.remove(id);
    if rest.len() == 0 {
        assert forall|other: u32| ids.contains(other) implies rank[id] <= rank[other] by {
            if other != id {
                assert(rest.contains(other));
            }
        }
        id
    } else {
        let least = lemma_least_ranked(rest, rank);
        if rank[id] <= rank[least] {
            assert forall|other: u32| ids.contains(other) implies rank[id] <= rank[other] by {
                if other != id {
                    assert(rest.contains(other));
                }
            }
            id
        } else {
            assert forall|other: u32| ids.contains(other) implies rank[least] <= rank[other] by {
                if other != id {
                    assert(rest.contains(other));
                }
            }
            least
        }
    }
}

/// In an acyclic graph every non-empty finite set of vertices has a member
/// without a source inside the set.
pub proof fn lemma_acyclic_has_frontier(
    outgoing: OutgoingEdges,
    incoming: IncomingEdges,
    ids: Set<u32>,
    done: Set<u32>,
) -> (free: u32)
    requires
        is_acyclic(outgoing),
        mirrored(outgoing, incoming),
        ids.finite(),
        ids.len() > 0,
        forall|id: u32| outgoing.contains_key(id) ==> ids.contains(id) || done.contains(id),
    ensures
        ids.contains(free),
        unresolved(list_at(incoming, free), done) == 0,
{
    let rank = choose|rank: Map<u32, nat>| ranks_edges(outgoing, rank);
    let free = lemma_least_ranked(ids, rank);
    let sources = list_at(incoming, free);
    lemma_unresolved_positive(sources, done);
    if unresolved(sources, done) > 0 {
        let i = choose|i: int| 0 <= i < sources.len() && !done.contains(#[trigger] sources[i]);
        let source = sources[i];
        lemma_occurrences_positive(sources, source);
        assert(sources.contains(source));
        let targets = list_at(outgoing, source);
        assert(hits(targets, free) > 0);
        lemma_hits_positive(targets, free);
        let j = choose|j: int| 0 <= j < targets.len() && #[trigger] targets[j].vertex_id == free;
        assert(outgoing.contains_key(source));
        assert(outgoing[source][j].vertex_id == free);
        assert(rank[source] < rank[free]);
        assert(ids.contains(source));
    }
    free
}

} // verus!
