//! Resolution of the declared graph: every output is matched with the port,
//! vertex and contract it leads to, and the result must be a connected-up
//! acyclic graph with one sink.

use std::collections::HashMap;

use vstd::prelude::*;

use crate::collections::{
    ascending, lemma_ascending, lemma_push_set, sorted_keys, sorted_members, strictly_increasing,
};
use crate::failure::Failure;
use crate::topology::graph::{
    is_acyclic, lemma_hits_push, lemma_occurrences_push, list_at, lists, mirrored, occurrences,
    OutgoingEdges,
};
use crate::topology::order::visits_every_vertex;
use crate::topology::{DeclaredEdge, PortTarget, SunTopology};

verus! {

broadcast use vstd::std_specs::hash::group_hash_axioms;

/// The first edge declared for `port`.
pub open spec fn first_edge(edges: Seq<DeclaredEdge>, port: u32) -> Option<DeclaredEdge>
    decreases edges.len(),
{
    if edges.len() == 0 {
        None
    } else if edges[0].port_id == port {
        Some(edges[0])
    } else {
        first_edge(edges.drop_first(), port)
    }
}

/// What is wrong with the output of `vertex` to `port`, if anything. The
/// contracts at its ends matter only in a typed graph.
pub open spec fn edge_defect(
    topology: SunTopology,
    typed: bool,
    vertex: u32,
    port: u32,
) -> Option<Failure> {
    let contracts = topology.node_contracts@;
    let edge = first_edge(list_at(lists(topology.declared_edges@), vertex), port);
    let target = topology.port_vertices@[port];
    if !topology.port_vertices@.contains_key(port) {
        Some(Failure::MissingPort { vertex, port })
    } else if !typed {
        None
    } else if edge is None {
        Some(Failure::MissingEdgeDescriptor { vertex, port })
    } else if !contracts.contains_key(target) {
        Some(Failure::MissingDestinationContract { vertex: target })
    } else if edge->0.source_contract@ != contracts[vertex]@ {
        Some(Failure::SourceContractMismatch { vertex, port })
    } else if edge->0.destination_contract@ != contracts[target]@ {
        Some(Failure::DestinationContractMismatch { vertex, port })
    } else if contracts[vertex]@.outputs != contracts[target]@.inputs {
        Some(Failure::ArtifactBundleMismatch { vertex, port })
    } else {
        None
    }
}

/// Every output of `vertex` is backed by matching contracts at both ends.
pub open spec fn vertex_sound(topology: SunTopology, typed: bool, vertex: u32) -> bool {
    &&& typed ==> topology.node_contracts@.contains_key(vertex)
    &&& forall|i: int|
        #![trigger topology.declared_outputs@[vertex]@[i]]
        0 <= i < topology.declared_outputs@[vertex]@.len() ==> edge_defect(
            topology,
            typed,
            vertex,
            topology.declared_outputs@[vertex]@[i],
        ) is None
}

/// Every declared output is backed by matching contracts at both ends.
pub open spec fn edges_sound(topology: SunTopology, typed: bool) -> bool {
    forall|vertex: u32| #[trigger]
        topology.declared_outputs@.contains_key(vertex) ==> vertex_sound(topology, typed, vertex)
}

/// `failure` names a declared output that is not sound.
pub open spec fn describes_edge_defect(
    topology: SunTopology,
    typed: bool,
    failure: Failure,
) -> bool {
    exists|vertex: u32|
        #![trigger topology.declared_outputs@.contains_key(vertex)]
        topology.declared_outputs@.contains_key(vertex) && if !typed
            || topology.node_contracts@.contains_key(vertex) {
            exists|i: int|
                #![trigger topology.declared_outputs@[vertex]@[i]]
                0 <= i < topology.declared_outputs@[vertex]@.len() && edge_defect(
                    topology,
                    typed,
                    vertex,
                    topology.declared_outputs@[vertex]@[i],
                ) == Some(failure)
        } else {
            failure == (Failure::MissingContract { vertex })
        }
}

/// Outputs to `port` declared by the listed vertices.
pub open spec fn producers_among(
    declared: Map<u32, Seq<u32>>,
    vertices: Seq<u32>,
    port: u32,
) -> nat
    decreases vertices.len(),
{
    if vertices.len() == 0 {
        0
    } else {
        producers_among(declared, vertices.drop_last(), port) + occurrences(
            list_at(declared, vertices.last()),
            port,
        )
    }
}

/// Number of declared outputs that lead to `port`.
pub open spec fn producers(topology: SunTopology, port: u32) -> nat {
    producers_among(
        lists(topology.declared_outputs@),
        ascending(topology.declared_outputs@.dom()),
        port,
    )
}

/// Number of producers of each port of `vertex`; an unknown port has none.
pub open spec fn producer_counts_of(topology: SunTopology, vertex: u32) -> Seq<nat> {
    topology.vertex_ports@[vertex]@.map_values(
        |port: u32|
            if topology.port_vertices@.contains_key(port) {
                producers(topology, port)
            } else {
                0
            },
    )
}

/// Either every count is zero or every count is one.
pub open spec fn uniform(counts: Seq<nat>) -> bool {
    (forall|i: int| 0 <= i < counts.len() ==> counts[i] == 0) || (forall|i: int|
        0 <= i < counts.len() ==> counts[i] == 1)
}

/// No input port is fed twice.
pub open spec fn ports_sound(topology: SunTopology) -> bool {
    forall|port: u32| #[trigger]
        topology.port_vertices@.contains_key(port) ==> producers(topology, port) <= 1
}

/// Every vertex has all of its input ports connected, or none.
pub open spec fn inputs_sound(topology: SunTopology) -> bool {
    forall|vertex: u32| #[trigger]
        topology.vertex_ports@.contains_key(vertex) ==> uniform(
            producer_counts_of(topology, vertex),
        )
}

/// The edges leaving `vertex` as its declared outputs resolve.
pub open spec fn resolved_targets(topology: SunTopology, vertex: u32) -> Seq<PortTarget> {
    list_at(lists(topology.declared_outputs@), vertex).map_values(
        |port: u32| PortTarget { port_id: port, vertex_id: topology.port_vertices@[port] },
    )
}

/// The graph that the declared outputs resolve to.
pub open spec fn resolved_outgoing(topology: SunTopology) -> OutgoingEdges {
    Map::new(
        |vertex: u32| topology.vertices().contains(vertex),
        |vertex: u32| resolved_targets(topology, vertex),
    )
}

/// The vertices without outputs.
pub open spec fn sinks(topology: SunTopology) -> Set<u32> {
    topology.vertices().filter(|vertex: u32| resolved_targets(topology, vertex).len() == 0)
}

/// The declared graph can be finalized.
pub open spec fn resolvable(topology: SunTopology, typed: bool) -> bool {
    &&& topology.duplicate_ports@.len() == 0
    &&& topology.vertices().len() > 0
    &&& edges_sound(topology, typed)
    &&& ports_sound(topology)
    &&& inputs_sound(topology)
    &&& is_acyclic(resolved_outgoing(topology))
    &&& sinks(topology).len() == 1
}

/// `failure` is the reason why the declared graph cannot be finalized. The
/// checks are made in the order below; the first that fails is reported, with
/// one of the vertices or ports on which it fails.
pub open spec fn explains_unresolvable(
    topology: SunTopology,
    typed: bool,
    failure: Failure,
) -> bool {
    if topology.duplicate_ports@.len() > 0 {
        failure matches Failure::DuplicatePorts { ports } && ports@ == ascending(
            topology.duplicate_ports@,
        )
    } else if topology.vertices().len() == 0 {
        failure is NoVertices
    } else if !edges_sound(topology, typed) {
        describes_edge_defect(topology, typed, failure)
    } else if !ports_sound(topology) {
        failure matches Failure::TooManyProducers { port, count }
            && topology.port_vertices@.contains_key(port) && count == producers(topology, port)
            && count > 1
    } else if !inputs_sound(topology) {
        failure matches Failure::ProducerCounts { vertex, ports, counts }
            && topology.vertex_ports@.contains_key(vertex) && ports@
            == topology.vertex_ports@[vertex]@ && crate::text::counts_as_nats(counts@)
            == producer_counts_of(topology, vertex) && !uniform(
            producer_counts_of(topology, vertex),
        )
    } else if !is_acyclic(resolved_outgoing(topology)) {
        failure is Cycle
    } else {
        failure matches Failure::Sinks { sinks: found } && found@ == ascending(sinks(topology))
    }
}

/// The edges and counts gathered from the declared outputs.
struct ResolvedEdges {
    outgoing: HashMap<u32, Vec<PortTarget>>,
    incoming: HashMap<u32, Vec<u32>>,
    producers: HashMap<u32, usize>,
}

/// Finds the first edge declared for `port`.
fn find_edge(edges: &Vec<DeclaredEdge>, port: u32) -> (found: Option<&DeclaredEdge>)
    ensures
        found is Some <==> first_edge(edges@, port) is Some,
        found matches Some(edge) ==> first_edge(edges@, port) == Some(*edge),
{
    let mut i: usize = 0;
    assert(edges@.skip(0) =~= edges@);
    while i < edges.len()
        invariant
            i <= edges.len(),
            first_edge(edges@, port) == first_edge(edges@.skip(i as int), port),
        decreases edges.len() - i,
    {
        assert(edges@.skip(i as int).drop_first() =~= edges@.skip(i + 1));
        if edges[i].port_id == port {
            return Some(&edges[i]);
        }
        i = i + 1;
    }
    None
}

/// Checks the output of `vertex` to `port` and resolves it to its target.
fn resolve_output(
    topology: &SunTopology,
    typed: bool,
    vertex: u32,
    port: u32,
) -> (result: Result<PortTarget, Failure>)
    requires
        typed ==> topology.node_contracts@.contains_key(vertex),
    ensures
        result is Ok <==> edge_defect(*topology, typed, vertex, port) is None,
        result matches Ok(target) ==> topology.port_vertices@.contains_key(port) && target == (
        PortTarget { port_id: port, vertex_id: topology.port_vertices@[port] }),
        result matches Err(failure) ==> edge_defect(*topology, typed, vertex, port) == Some(failure),
{
    let target: u32 = match topology.port_vertices.get(&port) {
        Some(target) => *target,
        None => {
            return Err(Failure::MissingPort { vertex, port });
        },
    };
    if !typed {
        return Ok(PortTarget { port_id: port, vertex_id: target });
    }
    let found = match topology.declared_edges.get(&vertex) {
        Some(edges) => find_edge(edges, port),
        None => None,
    };
    let edge = match found {
        Some(edge) => edge,
        None => {
            return Err(Failure::MissingEdgeDescriptor { vertex, port });
        },
    };
    let source_contract = topology.node_contracts.get(&vertex).unwrap();
    let destination_contract = match topology.node_contracts.get(&target) {
        Some(contract) => contract,
        None => {
            return Err(Failure::MissingDestinationContract { vertex: target });
        },
    };
    if !edge.source_contract.same(source_contract) {
        return Err(Failure::SourceContractMismatch { vertex, port });
    }
    if !edge.destination_contract.same(destination_contract) {
        return Err(Failure::DestinationContractMismatch { vertex, port });
    }
    if !crate::contract::same_bundle(&source_contract.outputs, &destination_contract.inputs) {
        return Err(Failure::ArtifactBundleMismatch { vertex, port });
    }
    Ok(PortTarget { port_id: port, vertex_id: target })
}

/// A map from every listed id to an empty list.
fn empty_lists<T>(ids: &Vec<u32>) -> (map: HashMap<u32, Vec<T>>)
    ensures
        map@.dom() == ids@.to_set(),
        forall|id: u32| #[trigger] map@.contains_key(id) ==> map@[id]@ == Seq::<T>::empty(),
{
    let mut map: HashMap<u32, Vec<T>> = HashMap::new();
    let mut i: usize = 0;
    assert(ids@.take(0).to_set() =~= Set::empty());
    while i < ids.len()
        invariant
            i <= ids.len(),
            map@.dom() == ids@.take(i as int).to_set(),
            forall|id: u32| #[trigger] map@.contains_key(id) ==> map@[id]@ == Seq::<T>::empty(),
        decreases ids.len() - i,
    {
        let id = ids[i];
        map.insert(id, Vec::new());
        proof {
            assert(ids@.take(i + 1) =~= ids@.take(i as int).push(id));
            lemma_push_set(ids@.take(i as int), id);
        }
        i = i + 1;
    }
    assert(ids@.take(i as int) =~= ids@);
    map
}

/// A map from every listed id to zero.
fn zero_counts(ids: &Vec<u32>) -> (map: HashMap<u32, usize>)
    ensures
        map@.dom() == ids@.to_set(),
        forall|id: u32| #[trigger] map@.contains_key(id) ==> map@[id] == 0,
{
    let mut map: HashMap<u32, usize> = HashMap::new();
    let mut i: usize = 0;
    assert(ids@.take(0).to_set() =~= Set::empty());
    while i < ids.len()
        invariant
            i <= ids.len(),
            map@.dom() == ids@.take(i as int).to_set(),
            forall|id: u32| #[trigger] map@.contains_key(id) ==> map@[id] == 0,
        decreases ids.len() - i,
    {
        let id = ids[i];
        map.insert(id, 0);
        proof {
            assert(ids@.take(i + 1) =~= ids@.take(i as int).push(id));
            lemma_push_set(ids@.take(i as int), id);
        }
        i = i + 1;
    }
    assert(ids@.take(i as int) =~= ids@);
    map
}

/// The gathered edges agree with each other.
spec fn edges_consistent(topology: SunTopology, edges: ResolvedEdges) -> bool {
    &&& edges.outgoing@.dom() == topology.vertices()
    &&& edges.incoming@.dom() == topology.vertices()
    &&& edges.producers@.dom() == topology.port_vertices@.dom()
    &&& mirrored(lists(edges.outgoing@), lists(edges.incoming@))
    &&& forall|port: u32| #[trigger]
        edges.producers@.contains_key(port) ==> edges.producers@[port]
            <= edges.incoming@[topology.port_vertices@[port]]@.len()
}

/// Recording one edge at both ends keeps the ends in agreement.
proof fn lemma_mirrored_push(
    outgoing: Map<u32, Vec<PortTarget>>,
    incoming: Map<u32, Vec<u32>>,
    next_outgoing: Map<u32, Vec<PortTarget>>,
    next_incoming: Map<u32, Vec<u32>>,
    source: u32,
    target: PortTarget,
)
    requires
        mirrored(lists(outgoing), lists(incoming)),
        outgoing.contains_key(source),
        incoming.contains_key(target.vertex_id),
        next_outgoing.dom() == outgoing.dom(),
        next_incoming.dom() == incoming.dom(),
        forall|id: u32| #[trigger]
            next_outgoing.contains_key(id) ==> next_outgoing[id]@ == if id == source {
                outgoing[id]@.push(target)
            } else {
                outgoing[id]@
            },
        forall|id: u32| #[trigger]
            next_incoming.contains_key(id) ==> next_incoming[id]@ == if id == target.vertex_id {
                incoming[id]@.push(source)
            } else {
                incoming[id]@
            },
    ensures
        mirrored(lists(next_outgoing), lists(next_incoming)),
{
    let out = lists(outgoing);
    let inc = lists(incoming);
    let next_out = lists(next_outgoing);
    let next_inc = lists(next_incoming);
    assert forall|u: u32, v: u32|
        #![trigger occurrences(list_at(next_inc, v), u)]
        #![trigger crate::topology::graph::hits(list_at(next_out, u), v)]
        occurrences(list_at(next_inc, v), u) == crate::topology::graph::hits(
            list_at(next_out, u),
            v,
        ) by {
        assert(occurrences(list_at(inc, v), u) == crate::topology::graph::hits(list_at(out, u), v));
        lemma_hits_push(list_at(out, source), target, v);
        lemma_occurrences_push(list_at(inc, target.vertex_id), source, u);
        assert(next_outgoing.contains_key(u) == outgoing.contains_key(u));
        assert(next_incoming.contains_key(v) == incoming.contains_key(v));
    }
}

/// Records the outputs of one vertex, stopping at the first unsound one.
fn record_outputs(
    topology: &SunTopology,
    typed: bool,
    vertex: u32,
    edges: &mut ResolvedEdges,
) -> (result: Result<(), Failure>)
    requires
        topology.well_formed(),
        topology.declared_outputs@.contains_key(vertex),
        typed ==> topology.node_contracts@.contains_key(vertex),
        edges_consistent(*topology, *old(edges)),
        old(edges).outgoing@[vertex]@.len() == 0,
    ensures
        result is Ok <==> vertex_sound(*topology, typed, vertex),
        result is Ok ==> {
            &&& edges_consistent(*topology, *final(edges))
            &&& final(edges).outgoing@[vertex]@ == resolved_targets(*topology, vertex)
            &&& forall|id: u32| #[trigger]
                final(edges).outgoing@.contains_key(id) && id != vertex
                    ==> final(edges).outgoing@[id]@ == old(edges).outgoing@[id]@
            &&& forall|port: u32| #[trigger]
                final(edges).producers@.contains_key(port) ==> final(edges).producers@[port] == old(
                    edges,
                ).producers@[port] + occurrences(topology.declared_outputs@[vertex]@, port)
        },
        result matches Err(failure) ==> describes_edge_defect(*topology, typed, failure),
{
    let ports = topology.declared_outputs.get(&vertex).unwrap();
    let mut i: usize = 0;
    proof {
        assert(topology.vertices().contains(vertex));
        assert(ports@.take(0) =~= Seq::empty());
    }
    while i < ports.len()
        invariant
            i <= ports.len(),
            topology.well_formed(),
            topology.declared_outputs@.contains_key(vertex),
            topology.declared_outputs@[vertex] == *ports,
            typed ==> topology.node_contracts@.contains_key(vertex),
            topology.vertices().contains(vertex),
            edges_consistent(*topology, *edges),
            edges.outgoing@[vertex]@.len() == i,
            forall|j: int|
                #![trigger ports@[j]]
                0 <= j < i ==> edge_defect(*topology, typed, vertex, ports@[j]) is None
                    && edges.outgoing@[vertex]@[j] == (PortTarget {
                    port_id: ports@[j],
                    vertex_id: topology.port_vertices@[ports@[j]],
                }),
            forall|id: u32| #[trigger]
                edges.outgoing@.contains_key(id) && id != vertex ==> edges.outgoing@[id]@ == old(
                    edges,
                ).outgoing@[id]@,
            forall|port: u32| #[trigger]
                edges.producers@.contains_key(port) ==> edges.producers@[port] == old(
                    edges,
                ).producers@[port] + occurrences(ports@.take(i as int), port),
        decreases ports.len() - i,
    {
        let port = ports[i];
        assert(topology.declared_outputs@[vertex]@[i as int] == port);
        let target = match resolve_output(topology, typed, vertex, port) {
            Ok(target) => target,
            Err(failure) => {
                return Err(failure);
            },
        };
        let ghost before_out = edges.outgoing@;
        let ghost before_in = edges.incoming@;
        let ghost before_producers = edges.producers@;
        edges.outgoing.entry(vertex).or_insert(Vec::new()).push(target);
        edges.incoming.entry(target.vertex_id).or_insert(Vec::new()).push(vertex);
        let count: usize = *edges.producers.get(&port).unwrap();
        proof {
            let grown = edges.incoming@[target.vertex_id];
            assert(grown@.len() == before_in[target.vertex_id]@.len() + 1);
            assert(grown.len() == grown@.len());
            assert(count <= before_in[target.vertex_id]@.len());
        }
        edges.producers.insert(port, count + 1);
        proof {
            assert(ports@.take(i + 1) =~= ports@.take(i as int).push(port));
            assert(edges.outgoing@.dom() =~= before_out.dom());
            assert(edges.incoming@.dom() =~= before_in.dom());
            assert(edges.producers@.dom() =~= before_producers.dom());
            lemma_mirrored_push(
                before_out,
                before_in,
                edges.outgoing@,
                edges.incoming@,
                vertex,
                target,
            );
            assert forall|p: u32| #[trigger] edges.producers@.contains_key(p) implies (
            edges.producers@[p] == old(edges).producers@[p] + occurrences(ports@.take(i + 1), p))
                && edges.producers@[p]
                <= edges.incoming@[topology.port_vertices@[p]]@.len() by {
                lemma_occurrences_push(ports@.take(i as int), port, p);
                assert(before_producers.contains_key(p));
                assert(topology.port_vertices@.contains_key(p));
            }
        }
        i = i + 1;
    }
    proof {
        assert(ports@.take(i as int) =~= ports@);
        assert(edges.outgoing@[vertex]@ =~= resolved_targets(*topology, vertex));
    }
    Ok(())
}

/// Resolves every declared output, stopping at the first unsound one.
fn resolve_edges(topology: &SunTopology, typed: bool) -> (result: Result<ResolvedEdges, Failure>)
    requires
        topology.well_formed(),
    ensures
        result is Ok <==> edges_sound(*topology, typed),
        result matches Ok(edges) ==> {
            &&& edges_consistent(*topology, edges)
            &&& lists(edges.outgoing@) == resolved_outgoing(*topology)
            &&& forall|port: u32| #[trigger]
                edges.producers@.contains_key(port) ==> edges.producers@[port] == producers(
                    *topology,
                    port,
                )
        },
        result matches Err(failure) ==> describes_edge_defect(*topology, typed, failure),
{
    let vertices = sorted_keys(&topology.journey_ids);
    let ports = sorted_keys(&topology.port_vertices);
    let mut edges = ResolvedEdges {
        outgoing: empty_lists(&vertices),
        incoming: empty_lists(&vertices),
        producers: zero_counts(&ports),
    };
    let sources = sorted_keys(&topology.declared_outputs);
    let ghost declared = lists(topology.declared_outputs@);
    let mut i: usize = 0;
    proof {
        assert(sources@.take(0) =~= Seq::empty());
        assert forall|u: u32, v: u32|
            #![trigger occurrences(list_at(lists(edges.incoming@), v), u)]
            #![trigger crate::topology::graph::hits(list_at(lists(edges.outgoing@), u), v)]
            occurrences(list_at(lists(edges.incoming@), v), u) == crate::topology::graph::hits(
                list_at(lists(edges.outgoing@), u),
                v,
            ) by {
            assert(list_at(lists(edges.incoming@), v).len() == 0) by {
                if edges.incoming@.contains_key(v) {
                    assert(lists(edges.incoming@)[v] == edges.incoming@[v]@);
                }
            }
            assert(list_at(lists(edges.outgoing@), u).len() == 0) by {
                if edges.outgoing@.contains_key(u) {
                    assert(lists(edges.outgoing@)[u] == edges.outgoing@[u]@);
                }
            }
        }
    }
    while i < sources.len()
        invariant
            i <= sources.len(),
            topology.well_formed(),
            declared == lists(topology.declared_outputs@),
            strictly_increasing(sources@),
            sources@.to_set() == topology.declared_outputs@.dom(),
            edges_consistent(*topology, edges),
            forall|j: int|
                #![trigger sources@[j]]
                0 <= j < i ==> vertex_sound(*topology, typed, sources@[j]),
            forall|id: u32| #[trigger]
                edges.outgoing@.contains_key(id) ==> edges.outgoing@[id]@ == if sources@.take(
                    i as int,
                ).contains(id) {
                    resolved_targets(*topology, id)
                } else {
                    Seq::empty()
                },
            forall|port: u32| #[trigger]
                edges.producers@.contains_key(port) ==> edges.producers@[port] == producers_among(
                    declared,
                    sources@.take(i as int),
                    port,
                ),
        decreases sources.len() - i,
    {
        let source = sources[i];
        let ghost before = sources@.take(i as int);
        let ghost next = sources@.take(i + 1);
        proof {
            assert(sources@.contains(source));
            assert(sources@.to_set().contains(source));
            assert(topology.vertices().contains(source));
            assert(next =~= before.push(source));
            lemma_push_set(before, source);
            assert forall|x: u32|
                #![trigger next.contains(x)]
                next.contains(x) <==> before.contains(x) || x == source by {
                assert(next.to_set().contains(x) <==> before.to_set().contains(x) || x == source);
            }
            assert(!before.contains(source)) by {
                if before.contains(source) {
                    let k = choose|k: int| 0 <= k < before.len() && before[k] == source;
                    assert(sources@[k] < sources@[i as int]);
                }
            }
            assert(next.drop_last() =~= before);
        }
        if typed && !topology.node_contracts.contains_key(&source) {
            return Err(Failure::MissingContract { vertex: source });
        }
        match record_outputs(topology, typed, source, &mut edges) {
            Ok(()) => {},
            Err(failure) => {
                return Err(failure);
            },
        }
        assert(list_at(declared, source) == topology.declared_outputs@[source]@);
        i = i + 1;
    }
    proof {
        assert(sources@.take(i as int) =~= sources@);
        lemma_ascending(sources@, topology.declared_outputs@.dom());
        assert forall|id: u32| sources@.contains(id) <==> topology.declared_outputs@.contains_key(
            id,
        ) by {
            assert(sources@.to_set().contains(id) <==> topology.declared_outputs@.dom().contains(
                id,
            ));
        }
        assert forall|vertex: u32| #[trigger]
            topology.declared_outputs@.contains_key(vertex) implies vertex_sound(
            *topology,
            typed,
            vertex,
        ) by {
            assert(sources@.contains(vertex));
            let j = choose|j: int| 0 <= j < sources@.len() && sources@[j] == vertex;
            assert(vertex_sound(*topology, typed, sources@[j]));
        }
        assert forall|id: u32| #[trigger] edges.outgoing@.contains_key(id) implies lists(
            edges.outgoing@,
        )[id] == resolved_targets(*topology, id) by {
            if !sources@.contains(id) {
                assert(resolved_targets(*topology, id) =~= Seq::empty());
            }
        }
        assert(lists(edges.outgoing@) =~= resolved_outgoing(*topology));
    }
    Ok(edges)
}

/// Checks that no input port is fed twice.
fn check_ports(topology: &SunTopology, counts: &HashMap<u32, usize>) -> (result: Result<
    (),
    Failure,
>)
    requires
        counts@.dom() == topology.port_vertices@.dom(),
        forall|port: u32| #[trigger]
            counts@.contains_key(port) ==> counts@[port] == producers(*topology, port),
    ensures
        result is Ok <==> ports_sound(*topology),
        result matches Err(failure) ==> {
            failure matches Failure::TooManyProducers { port, count }
                && topology.port_vertices@.contains_key(port) && count == producers(
                *topology,
                port,
            ) && count > 1
        },
{
    let ports = sorted_keys(counts);
    let mut i: usize = 0;
    while i < ports.len()
        invariant
            i <= ports.len(),
            counts@.dom() == topology.port_vertices@.dom(),
            ports@.to_set() == counts@.dom(),
            forall|port: u32| #[trigger]
                counts@.contains_key(port) ==> counts@[port] == producers(*topology, port),
            forall|j: int|
                #![trigger ports@[j]]
                0 <= j < i ==> producers(*topology, ports@[j]) <= 1,
        decreases ports.len() - i,
    {
        let port = ports[i];
        proof {
            assert(ports@.contains(port));
            assert(ports@.to_set().contains(port));
            assert(topology.port_vertices@.contains_key(port));
        }
        let count: usize = *counts.get(&port).unwrap();
        if count > 1 {
            return Err(Failure::TooManyProducers { port, count });
        }
        i = i + 1;
    }
    proof {
        assert forall|port: u32| #[trigger]
            topology.port_vertices@.contains_key(port) implies producers(*topology, port) <= 1 by {
            assert(ports@.to_set().contains(port));
            let j = choose|j: int| 0 <= j < ports@.len() && ports@[j] == port;
            assert(ports@[j] == port);
        }
    }
    Ok(())
}

/// The producer count of each port of one vertex.
fn counts_for_ports(
    topology: &SunTopology,
    vertex: u32,
    counts: &HashMap<u32, usize>,
) -> (found: Vec<usize>)
    requires
        topology.vertex_ports@.contains_key(vertex),
        counts@.dom() == topology.port_vertices@.dom(),
        forall|port: u32| #[trigger]
            counts@.contains_key(port) ==> counts@[port] == producers(*topology, port),
    ensures
        crate::text::counts_as_nats(found@) == producer_counts_of(*topology, vertex),
{
    let ports = topology.vertex_ports.get(&vertex).unwrap();
    let mut found: Vec<usize> = Vec::new();
    let mut i: usize = 0;
    while i < ports.len()
        invariant
            i <= ports.len(),
            topology.vertex_ports@.contains_key(vertex),
            *ports == topology.vertex_ports@[vertex],
            counts@.dom() == topology.port_vertices@.dom(),
            forall|port: u32| #[trigger]
                counts@.contains_key(port) ==> counts@[port] == producers(*topology, port),
            found.len() == i,
            forall|j: int|
                #![trigger found@[j]]
                0 <= j < i ==> found@[j] == producer_counts_of(*topology, vertex)[j],
        decreases ports.len() - i,
    {
        let port = ports[i];
        let count: usize = match counts.get(&port) {
            Some(count) => *count,
            None => 0,
        };
        found.push(count);
        assert(producer_counts_of(*topology, vertex)[i as int] == count) by {
            assert(counts@.contains_key(port) == topology.port_vertices@.contains_key(port));
        }
        i = i + 1;
    }
    assert(crate::text::counts_as_nats(found@) =~= producer_counts_of(*topology, vertex));
    found
}

/// Whether every count equals `value`.
fn all_equal(counts: &Vec<usize>, value: usize) -> (equal: bool)
    ensures
        equal == (forall|i: int|
            0 <= i < counts@.len() ==> crate::text::counts_as_nats(counts@)[i] == value),
{
    let mut i: usize = 0;
    while i < counts.len()
        invariant
            i <= counts.len(),
            forall|j: int|
                0 <= j < i ==> #[trigger] crate::text::counts_as_nats(counts@)[j] == value,
        decreases counts.len() - i,
    {
        if counts[i] != value {
            assert(crate::text::counts_as_nats(counts@)[i as int] != value);
            return false;
        }
        i = i + 1;
    }
    true
}

fn clone_ids(ids: &Vec<u32>) -> (copy: Vec<u32>)
    ensures
        copy@ == ids@,
{
    let mut copy: Vec<u32> = Vec::new();
    let mut i: usize = 0;
    while i < ids.len()
        invariant
            i <= ids.len(),
            copy@ == ids@.take(i as int),
        decreases ids.len() - i,
    {
        copy.push(ids[i]);
        assert(ids@.take(i + 1) =~= ids@.take(i as int).push(ids@[i as int]));
        i = i + 1;
    }
    assert(ids@.take(i as int) =~= ids@);
    copy
}

/// Checks that every vertex has all of its input ports connected, or none.
fn check_inputs(topology: &SunTopology, counts: &HashMap<u32, usize>) -> (result: Result<
    (),
    Failure,
>)
    requires
        counts@.dom() == topology.port_vertices@.dom(),
        forall|port: u32| #[trigger]
            counts@.contains_key(port) ==> counts@[port] == producers(*topology, port),
    ensures
        result is Ok <==> inputs_sound(*topology),
        result matches Err(failure) ==> {
            failure matches Failure::ProducerCounts { vertex, ports, counts: found }
                && topology.vertex_ports@.contains_key(vertex) && ports@
                == topology.vertex_ports@[vertex]@ && crate::text::counts_as_nats(found@)
                == producer_counts_of(*topology, vertex) && !uniform(
                producer_counts_of(*topology, vertex),
            )
        },
{
    let vertices = sorted_keys(&topology.vertex_ports);
    let mut i: usize = 0;
    while i < vertices.len()
        invariant
            i <= vertices.len(),
            counts@.dom() == topology.port_vertices@.dom(),
            vertices@.to_set() == topology.vertex_ports@.dom(),
            forall|port: u32| #[trigger]
                counts@.contains_key(port) ==> counts@[port] == producers(*topology, port),
            forall|j: int|
                #![trigger vertices@[j]]
                0 <= j < i ==> uniform(producer_counts_of(*topology, vertices@[j])),
        decreases vertices.len() - i,
    {
        let vertex = vertices[i];
        proof {
            assert(vertices@.contains(vertex));
            assert(vertices@.to_set().contains(vertex));
            assert(topology.vertex_ports@.contains_key(vertex));
        }
        let found = counts_for_ports(topology, vertex, counts);
        if !all_equal(&found, 0) && !all_equal(&found, 1) {
            return Err(
                Failure::ProducerCounts {
                    vertex,
                    ports: clone_ids(topology.vertex_ports.get(&vertex).unwrap()),
                    counts: found,
                },
            );
        }
        i = i + 1;
    }
    proof {
        assert forall|vertex: u32| #[trigger]
            topology.vertex_ports@.contains_key(vertex) implies uniform(
            producer_counts_of(*topology, vertex),
        ) by {
            assert(vertices@.to_set().contains(vertex));
            let j = choose|j: int| 0 <= j < vertices@.len() && vertices@[j] == vertex;
            assert(vertices@[j] == vertex);
        }
    }
    Ok(())
}

/// The vertices without outgoing edges, in ascending order.
fn find_sinks(topology: &SunTopology, outgoing: &HashMap<u32, Vec<PortTarget>>) -> (found: Vec<
    u32,
>)
    requires
        outgoing@.dom() == topology.vertices(),
        lists(outgoing@) == resolved_outgoing(*topology),
    ensures
        found@ == ascending(sinks(*topology)),
        strictly_increasing(found@),
        found@.to_set() == sinks(*topology),
{
    let vertices = sorted_keys(&topology.journey_ids);
    let mut found: Vec<u32> = Vec::new();
    let mut i: usize = 0;
    while i < vertices.len()
        invariant
            i <= vertices.len(),
            strictly_increasing(vertices@),
            vertices@.to_set() == topology.vertices(),
            outgoing@.dom() == topology.vertices(),
            lists(outgoing@) == resolved_outgoing(*topology),
            strictly_increasing(found@),
            forall|j: int|
                #![trigger found@[j]]
                0 <= j < found@.len() ==> i > 0 && found@[j] <= vertices@[i - 1],
            forall|id: u32| #[trigger]
                found@.contains(id) <==> vertices@.take(i as int).contains(id)
                    && resolved_targets(*topology, id).len() == 0,
        decreases vertices.len() - i,
    {
        let id = vertices[i];
        let ghost before = found@;
        let ghost seen = vertices@.take(i as int);
        proof {
            assert(vertices@.contains(id));
            assert(vertices@.to_set().contains(id));
            assert(vertices@.take(i + 1) =~= seen.push(id));
            lemma_push_set(seen, id);
            lemma_push_set(before, id);
            assert forall|x: u32|
                #![trigger vertices@.take(i + 1).contains(x)]
                vertices@.take(i + 1).contains(x) <==> seen.contains(x) || x == id by {
                assert(vertices@.take(i + 1).to_set().contains(x) <==> seen.to_set().contains(x)
                    || x == id);
            }
            assert forall|x: u32|
                #![trigger before.push(id).contains(x)]
                before.push(id).contains(x) <==> before.contains(x) || x == id by {
                assert(before.push(id).to_set().contains(x) <==> before.to_set().contains(x) || x
                    == id);
            }
            assert(lists(outgoing@)[id] == resolved_targets(*topology, id));
        }
        let targets = outgoing.get(&id).unwrap();
        if targets.len() == 0 {
            found.push(id);
        }
        i = i + 1;
    }
    proof {
        assert(vertices@.take(i as int) =~= vertices@);
        assert forall|id: u32| found@.to_set().contains(id) <==> sinks(*topology).contains(id) by {
            assert(vertices@.to_set().contains(id) <==> topology.vertices().contains(id));
        }
        assert(found@.to_set() =~= sinks(*topology));
        lemma_ascending(found@, sinks(*topology));
    }
    found
}

/// A strictly increasing listing is as long as the set it lists.
proof fn lemma_increasing_len(order: Seq<u32>)
    requires
        strictly_increasing(order),
    ensures
        order.to_set().len() == order.len(),
{
    assert(order.no_duplicates());
    order.unique_seq_to_set();
}

/// Validates the declared graph and gathers its edges and its sink.
fn resolve_graph(topology: &SunTopology, typed: bool) -> (result: Result<
    (ResolvedEdges, u32),
    Failure,
>)
    requires
        topology.well_formed(),
    ensures
        result is Ok <==> resolvable(*topology, typed),
        result matches Ok((edges, sink)) ==> {
            &&& edges_consistent(*topology, edges)
            &&& lists(edges.outgoing@) == resolved_outgoing(*topology)
            &&& sinks(*topology) == set![sink]
        },
        result matches Err(failure) ==> explains_unresolvable(*topology, typed, failure),
{
    let duplicates = sorted_members(&topology.duplicate_ports);
    if duplicates.len() > 0 {
        return Err(Failure::DuplicatePorts { ports: duplicates });
    }
    if topology.journey_ids.is_empty() {
        return Err(Failure::NoVertices);
    }
    let edges = match resolve_edges(topology, typed) {
        Ok(edges) => edges,
        Err(failure) => {
            return Err(failure);
        },
    };
    match check_ports(topology, &edges.producers) {
        Ok(()) => {},
        Err(failure) => {
            return Err(failure);
        },
    }
    match check_inputs(topology, &edges.producers) {
        Ok(()) => {},
        Err(failure) => {
            return Err(failure);
        },
    }
    if !visits_every_vertex(&edges.outgoing, &edges.incoming) {
        return Err(Failure::Cycle);
    }
    let found = find_sinks(topology, &edges.outgoing);
    proof {
        lemma_increasing_len(found@);
    }
    if found.len() != 1 {
        return Err(Failure::Sinks { sinks: found });
    }
    let sink = found[0];
    proof {
        assert(found@ =~= Seq::<u32>::empty().push(sink));
        lemma_push_set(Seq::<u32>::empty(), sink);
        assert(sinks(*topology) =~= set![sink]);
    }
    Ok((edges, sink))
}

/// The graph is finalized: its edges are the resolved ones, recorded at both
/// ends.
pub open spec fn finalized_as(before: SunTopology, after: SunTopology) -> bool {
    &&& after.outgoing_edges() == resolved_outgoing(before)
    &&& after.outgoing@.dom() == before.vertices()
    &&& after.incoming@.dom() == before.vertices()
    &&& mirrored(after.outgoing_edges(), after.incoming_edges())
    &&& after == (SunTopology {
        finalized: true,
        incoming: after.incoming,
        outgoing: after.outgoing,
        ..before
    })
}

/// Validates the declared graph and records its resolved edges. Returns the
/// sink. A graph that cannot be resolved is left unfinalized and otherwise as
/// it was. In a typed graph the contracts at both ends of every edge must
/// agree as well.
pub fn resolve_topology(topology: &mut SunTopology, typed: bool) -> (result: Result<u32, Failure>)
    requires
        old(topology).well_formed(),
    ensures
        result is Ok <==> resolvable(*old(topology), typed),
        result matches Ok(sink) ==> {
            &&& finalized_as(*old(topology), *final(topology))
            &&& sinks(*old(topology)) == set![sink]
        },
        result matches Err(failure) ==> {
            &&& explains_unresolvable(*old(topology), typed, failure)
            &&& *final(topology) == (SunTopology { finalized: false, ..*old(topology) })
        },
{
    match resolve_graph(&*topology, typed) {
        Ok((edges, sink)) => {
            topology.incoming = edges.incoming;
            topology.outgoing = edges.outgoing;
            topology.finalized = true;
            Ok(sink)
        },
        Err(failure) => {
            topology.finalized = false;
            Err(failure)
        },
    }
}

/// Resolves a typed graph.
pub fn resolve_neutral_topology(topology: &mut SunTopology) -> (result: Result<u32, Failure>)
    requires
        old(topology).well_formed(),
    ensures
        result is Ok <==> resolvable(*old(topology), true),
        result matches Ok(sink) ==> {
            &&& finalized_as(*old(topology), *final(topology))
            &&& sinks(*old(topology)) == set![sink]
        },
        result matches Err(failure) ==> {
            &&& explains_unresolvable(*old(topology), true, failure)
            &&& *final(topology) == (SunTopology { finalized: false, ..*old(topology) })
        },
{
    resolve_topology(topology, true)
}

} // verus!
