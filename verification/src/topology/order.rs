//! Topological ordering of a resolved graph.

use std::collections::{HashMap, VecDeque};

use vstd::prelude::*;

use crate::collections::{lemma_push_set, sorted_keys, strictly_increasing};
use crate::topology::PortTarget;
use crate::topology::graph::{
    hits, is_acyclic, lemma_acyclic_has_frontier, lemma_hits_positive, lemma_hits_prefix,
    lemma_occurrences_positive, lemma_unresolved_insert, lemma_unresolved_positive, list_at, lists,
    mirrored, occurrences, ranks_edges, unresolved, IncomingEdges,
};

verus! {

broadcast use vstd::std_specs::hash::group_hash_axioms;

/// Degrees once the vertices of `done` have been visited.
spec fn degrees_match(degrees: Map<u32, usize>, incoming: IncomingEdges, done: Set<u32>) -> bool {
    &&& degrees.dom() == incoming.dom()
    &&& forall|id: u32| #[trigger]
        degrees.contains_key(id) ==> degrees[id] == unresolved(incoming[id], done)
}

/// The queue holds, once each, the unvisited vertices of degree zero.
spec fn queue_matches(queue: Seq<u32>, degrees: Map<u32, usize>, done: Set<u32>) -> bool {
    &&& queue.no_duplicates()
    &&& forall|id: u32| #[trigger]
        queue.contains(id) <==> degrees.contains_key(id) && degrees[id] == 0 && !done.contains(id)
}

/// Every visited vertex was preceded by all of its sources.
spec fn visited_in_order(
    incoming: IncomingEdges,
    done: Set<u32>,
    rank: Map<u32, nat>,
    visited: nat,
) -> bool {
    &&& forall|id: u32| #[trigger] done.contains(id) ==> incoming.contains_key(id) && rank[id]
        < visited
    &&& forall|id: u32, i: int|
        #![trigger incoming[id][i]]
        done.contains(id) && 0 <= i < incoming[id].len() ==> done.contains(incoming[id][i])
            && rank[incoming[id][i]] < rank[id]
}

/// Number of edges into each vertex.
fn in_degrees(incoming: &HashMap<u32, Vec<u32>>) -> (degrees: HashMap<u32, usize>)
    ensures
        degrees_match(degrees@, lists(incoming@), Set::empty()),
{
    let ids = sorted_keys(incoming);
    let mut degrees: HashMap<u32, usize> = HashMap::new();
    let mut i: usize = 0;
    while i < ids.len()
        invariant
            i <= ids.len(),
            ids@.to_set() == incoming@.dom(),
            degrees@.dom() == ids@.take(i as int).to_set(),
            forall|id: u32| #[trigger]
                degrees@.contains_key(id) ==> incoming@.contains_key(id) && degrees@[id]
                    == incoming@[id]@.len(),
        decreases ids.len() - i,
    {
        let id = ids[i];
        proof {
            assert(ids@.contains(id));
            assert(ids@.to_set().contains(id));
            assert(ids@.take(i + 1) =~= ids@.take(i as int).push(id));
            lemma_push_set(ids@.take(i as int), id);
        }
        let degree: usize = match incoming.get(&id) {
            Some(sources) => sources.len(),
            None => 0,
        };
        degrees.insert(id, degree);
        i = i + 1;
    }
    proof {
        assert(ids@.take(i as int) =~= ids@);
        assert forall|id: u32| #[trigger] degrees@.contains_key(id) implies degrees@[id]
            == unresolved(lists(incoming@)[id], Set::empty()) by {
            lemma_unresolved_positive(incoming@[id]@, Set::empty());
        }
        assert(lists(incoming@).dom() =~= incoming@.dom());
    }
    degrees
}

/// The vertices of degree zero, in ascending order.
fn zero_degree(degrees: &HashMap<u32, usize>) -> (roots: Vec<u32>)
    ensures
        strictly_increasing(roots@),
        forall|id: u32| #[trigger]
            roots@.contains(id) <==> degrees@.contains_key(id) && degrees@[id] == 0,
{
    let ids = sorted_keys(degrees);
    let mut roots: Vec<u32> = Vec::new();
    let mut i: usize = 0;
    while i < ids.len()
        invariant
            i <= ids.len(),
            strictly_increasing(ids@),
            ids@.to_set() == degrees@.dom(),
            strictly_increasing(roots@),
            forall|j: int|
                #![trigger roots@[j]]
                0 <= j < roots@.len() ==> i > 0 && roots@[j] <= ids@[i - 1],
            forall|id: u32| #[trigger]
                roots@.contains(id) <==> ids@.take(i as int).contains(id) && degrees@[id] == 0,
        decreases ids.len() - i,
    {
        let id = ids[i];
        let ghost before = roots@;
        proof {
            assert(ids@.contains(id));
            assert(ids@.to_set().contains(id));
            assert(ids@.take(i + 1) =~= ids@.take(i as int).push(id));
            lemma_push_set(ids@.take(i as int), id);
            lemma_push_set(before, id);
            assert forall|x: u32|
                #![trigger ids@.take(i + 1).contains(x)]
                ids@.take(i + 1).contains(x) <==> ids@.take(i as int).contains(x) || x == id by {
                assert(ids@.take(i + 1).to_set().contains(x) <==> ids@.take(
                    i as int,
                ).to_set().contains(x) || x == id);
            }
            assert forall|x: u32|
                #![trigger before.push(id).contains(x)]
                before.push(id).contains(x) <==> before.contains(x) || x == id by {
                assert(before.push(id).to_set().contains(x) <==> before.to_set().contains(x) || x
                    == id);
            }
        }
        let degree: usize = match degrees.get(&id) {
            Some(degree) => *degree,
            None => 1,
        };
        if degree == 0 {
            roots.push(id);
        }
        i = i + 1;
    }
    proof {
        assert(ids@.take(i as int) =~= ids@);
        assert forall|id: u32| ids@.contains(id) <==> degrees@.contains_key(id) by {
            assert(ids@.to_set().contains(id) <==> degrees@.dom().contains(id));
        }
    }
    roots
}

/// Takes the sources in topological order and says whether that reaches every
/// vertex, which is the case exactly when the graph has no cycle.
pub fn visits_every_vertex(
    outgoing: &HashMap<u32, Vec<PortTarget>>,
    incoming: &HashMap<u32, Vec<u32>>,
) -> (complete: bool)
    requires
        outgoing@.dom() == incoming@.dom(),
        mirrored(lists(outgoing@), lists(incoming@)),
    ensures
        complete == is_acyclic(lists(outgoing@)),
{
    let ghost out = lists(outgoing@);
    let ghost inc = lists(incoming@);
    let mut degrees = in_degrees(incoming);
    let roots = zero_degree(&degrees);
    let mut queue: VecDeque<u32> = VecDeque::new();
    let mut i: usize = 0;
    while i < roots.len()
        invariant
            i <= roots.len(),
            queue@ == roots@.take(i as int),
        decreases roots.len() - i,
    {
        queue.push_back(roots[i]);
        assert(roots@.take(i + 1) =~= roots@.take(i as int).push(roots@[i as int]));
        i = i + 1;
    }
    assert(roots@.take(i as int) =~= roots@);
    let ghost mut done = Set::<u32>::empty();
    let ghost mut rank = Map::<u32, nat>::empty();
    let mut visited: usize = 0;
    let total: usize = incoming.len();
    proof {
        assert(out.dom() =~= outgoing@.dom());
        assert(inc.dom() =~= incoming@.dom());
        assert(queue_matches(queue@, degrees@, done));
        assert(incoming@.dom().finite());
    }
    loop
        invariant
            out == lists(outgoing@),
            inc == lists(incoming@),
            out.dom() == outgoing@.dom(),
            inc.dom() == incoming@.dom(),
            out.dom() == inc.dom(),
            mirrored(out, inc),
            incoming@.dom().finite(),
            total == incoming@.dom().len(),
            done.finite(),
            done.len() == visited,
            done.subset_of(inc.dom()),
            degrees_match(degrees@, inc, done),
            queue_matches(queue@, degrees@, done),
            visited_in_order(inc, done, rank, visited as nat),
        ensures
            queue@.len() == 0,
        decreases total - visited,
    {
        proof {
            vstd::set_lib::lemma_len_subset(done, inc.dom());
        }
        let ghost whole = queue@;
        let id = match queue.pop_front() {
            Some(id) => id,
            None => {
                break;
            },
        };
        let ghost rest = queue@;
        let ghost popped = seq![id] + rest;
        proof {
            assert(whole =~= popped);
            assert(popped.contains(id)) by {
                assert(popped[0] == id);
            }
            assert forall|x: u32| #[trigger] popped.contains(x) <==> rest.contains(x) || x == id by {
                if rest.contains(x) {
                    let k = choose|k: int| 0 <= k < rest.len() && rest[k] == x;
                    assert(popped[k + 1] == x);
                }
                if popped.contains(x) && x != id {
                    let k = choose|k: int| 0 <= k < popped.len() && popped[k] == x;
                    assert(rest[k - 1] == x);
                }
            }
            assert(!rest.contains(id)) by {
                if rest.contains(id) {
                    let k = choose|k: int| 0 <= k < rest.len() && rest[k] == id;
                    assert(popped[k + 1] == popped[0]);
                }
            }
            assert(rest.no_duplicates()) by {
                assert forall|a: int, b: int|
                    0 <= a < rest.len() && 0 <= b < rest.len() && a != b implies rest[a]
                    != rest[b] by {
                    assert(popped[a + 1] != popped[b + 1]);
                }
            }
            assert(whole.contains(id));
            assert(degrees@.contains_key(id) && degrees@[id] == 0 && !done.contains(id));
            assert forall|v: u32| #[trigger] rest.contains(v) <==> degrees@.contains_key(v)
                && degrees@[v] == 0 && !done.contains(v) && v != id by {
                assert(popped.contains(v) <==> rest.contains(v) || v == id);
                assert(whole.contains(v) <==> degrees@.contains_key(v) && degrees@[v] == 0
                    && !done.contains(v));
            }
            vstd::set_lib::lemma_len_subset(done.insert(id), inc.dom());
        }
        let ghost before = done;
        visited = visited + 1;
        let targets = outgoing.get(&id).unwrap();
        assert(out[id] == targets@);
        let mut k: usize = 0;
        proof {
            assert forall|v: u32| inc.contains_key(v) implies #[trigger] unresolved(inc[v], before)
                == unresolved(inc[v], before.insert(id)) + hits(targets@, v) by {
                lemma_unresolved_insert(inc[v], before, id);
                assert(occurrences(list_at(inc, v), id) == hits(list_at(out, id), v));
            }
            assert(targets@.take(0) =~= Seq::empty());
            assert forall|v: u32| #[trigger] before.contains(v) implies unresolved(inc[v], before)
                == 0 by {
                lemma_unresolved_positive(inc[v], before);
            }
            let sources = inc[id];
            lemma_unresolved_positive(sources, before);
            assert forall|j: int| 0 <= j < sources.len() implies before.contains(
                #[trigger] sources[j],
            ) by {}
            assert(hits(targets@, id) == 0) by {
                lemma_occurrences_positive(sources, id);
                assert(occurrences(list_at(inc, id), id) == hits(list_at(out, id), id));
                if sources.contains(id) {
                    let j = choose|j: int| 0 <= j < sources.len() && sources[j] == id;
                    assert(before.contains(sources[j]));
                }
            }
        }
        while k < targets.len()
            invariant
                k <= targets.len(),
                out == lists(outgoing@),
                inc == lists(incoming@),
                inc.dom() == incoming@.dom(),
                out.dom() == inc.dom(),
                mirrored(out, inc),
                out.contains_key(id),
                out[id] == targets@,
                !before.contains(id),
                hits(targets@, id) == 0,
                degrees@.dom() == inc.dom(),
                forall|v: u32|
                    inc.contains_key(v) ==> #[trigger] unresolved(inc[v], before) == unresolved(
                        inc[v],
                        before.insert(id),
                    ) + hits(targets@, v),
                forall|v: u32| #[trigger]
                    degrees@.contains_key(v) ==> degrees@[v] == unresolved(inc[v], before) - hits(
                        targets@.take(k as int),
                        v,
                    ),
                forall|v: u32| #[trigger] before.contains(v) ==> unresolved(inc[v], before) == 0,
                queue@.no_duplicates(),
                forall|v: u32| #[trigger]
                    queue@.contains(v) <==> degrees@.contains_key(v) && degrees@[v] == 0
                        && !before.contains(v) && v != id,
            decreases targets.len() - k,
        {
            let vertex = targets[k].vertex_id;
            let ghost old_degrees = degrees@;
            let ghost old_queue = queue@;
            proof {
                assert(targets@[k as int].vertex_id == vertex);
                lemma_hits_positive(targets@, vertex);
                assert(hits(list_at(out, id), vertex) > 0);
                lemma_occurrences_positive(list_at(inc, vertex), id);
                assert(occurrences(list_at(inc, vertex), id) > 0);
                assert(inc.contains_key(vertex));
                assert forall|v: u32| #[trigger] hits(targets@.take(k + 1), v) == hits(
                    targets@.take(k as int),
                    v,
                ) + if vertex == v {
                    1nat
                } else {
                    0nat
                } by {
                    lemma_hits_prefix(targets@, k as int, v);
                }
                lemma_hits_prefix(targets@, k + 1, vertex);
                assert(unresolved(inc[vertex], before) == unresolved(
                    inc[vertex],
                    before.insert(id),
                ) + hits(targets@, vertex));
                assert(degrees@.contains_key(vertex));
                assert(degrees@[vertex] > 0);
            }
            let degree: usize = *degrees.get(&vertex).unwrap();
            degrees.insert(vertex, degree - 1);
            if degree - 1 == 0 {
                queue.push_back(vertex);
                proof {
                    lemma_push_set(old_queue, vertex);
                    assert(!old_queue.contains(vertex));
                    assert forall|v: u32| #[trigger] queue@.contains(v) <==> old_queue.contains(v)
                        || v == vertex by {
                        assert(queue@.to_set().contains(v) <==> old_queue.to_set().contains(v) || v
                            == vertex);
                    }
                    assert(!before.contains(vertex));
                }
            }
            proof {
                assert forall|v: u32| #[trigger] degrees@.contains_key(v) implies degrees@[v]
                    == unresolved(inc[v], before) - hits(targets@.take(k + 1), v) by {
                    assert(old_degrees.contains_key(v));
                }
                assert forall|v: u32| #[trigger] queue@.contains(v) <==> degrees@.contains_key(v)
                    && degrees@[v] == 0 && !before.contains(v) && v != id by {
                    assert(old_queue.contains(v) <==> old_degrees.contains_key(v)
                        && old_degrees[v] == 0 && !before.contains(v) && v != id);
                }
            }
            k = k + 1;
        }
        proof {
            assert(targets@.take(k as int) =~= targets@);
            done = before.insert(id);
            let old_rank = rank;
            rank = rank.insert(id, (visited - 1) as nat);
            assert forall|v: u32| #[trigger] degrees@.contains_key(v) implies degrees@[v]
                == unresolved(inc[v], done) by {
                assert(unresolved(inc[v], before) == unresolved(inc[v], before.insert(id)) + hits(
                    targets@,
                    v,
                ));
            }
            assert(visited_in_order(inc, before, old_rank, (visited - 1) as nat));
            assert forall|v: u32, j: int|
                #![trigger inc[v][j]]
                done.contains(v) && 0 <= j < inc[v].len() implies done.contains(inc[v][j])
                && rank[inc[v][j]] < rank[v] by {
                if v == id {
                    assert(before.contains(inc[id][j]));
                } else {
                    assert(before.contains(v));
                    assert(before.contains(inc[v][j]));
                }
            }
        }
    }
    proof {
        let left = inc.dom().difference(done);
        if visited == incoming@.dom().len() {
            assert(done =~= inc.dom()) by {
                vstd::set_lib::lemma_subset_equality(done, inc.dom());
            }
            assert forall|source: u32, j: int|
                #![trigger out[source][j]]
                out.contains_key(source) && 0 <= j < out[source].len() implies rank[source]
                < rank[out[source][j].vertex_id] by {
                let target = out[source][j].vertex_id;
                lemma_hits_positive(out[source], target);
                assert(hits(list_at(out, source), target) > 0);
                assert(occurrences(list_at(inc, target), source) > 0);
                lemma_occurrences_positive(list_at(inc, target), source);
                let sources = list_at(inc, target);
                let m = choose|m: int| 0 <= m < sources.len() && sources[m] == source;
                assert(done.contains(target));
                assert(inc[target][m] == source);
            }
            assert(ranks_edges(out, rank));
        } else {
            if is_acyclic(out) {
                assert(left.finite());
                assert(left.len() > 0) by {
                    if left.len() == 0 {
                        assert(left =~= Set::empty());
                        assert forall|x: u32| inc.dom().contains(x) implies done.contains(x) by {
                            assert(!left.contains(x));
                        }
                        assert(done =~= inc.dom());
                    }
                }
                let free = lemma_acyclic_has_frontier(out, inc, left, done);
                assert(list_at(inc, free) == inc[free]);
                assert(degrees@.contains_key(free));
                assert(queue@.contains(free));
            }
        }
    }
    visited == total
}

} // verus!
