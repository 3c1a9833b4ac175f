//! Which declared graphs are accepted, and what an accepted graph is.

use std::collections::HashSet;

use vstd::prelude::*;
use vstd::std_specs::iter::IteratorSpec;

use crate::collections::{ascending, lemma_ascending_lists};
use crate::contract::{bundle_view, ContractDescriptor, PortDescriptor};
use crate::failure::Failure;
use crate::topology::graph::{
    is_acyclic, lemma_hits_positive, lemma_occurrences_positive, list_at, lists, occurrences,
    ranks_edges,
};
use crate::topology::resolve::{
    describes_edge_defect, edge_defect, edges_sound, explains_unresolvable, finalized_as,
    first_edge, inputs_sound, ports_sound, producer_counts_of, producers, producers_among,
    resolvable, resolved_outgoing, resolved_targets, sinks, uniform, vertex_sound,
};
use crate::topology::{DeclaredEdge, SunTopology};

verus! {

broadcast use vstd::std_specs::hash::group_hash_axioms;

/// Both descriptors name the same tensor: same name, same extents, same
/// element type.
pub open spec fn ports_alike(a: PortDescriptor, b: PortDescriptor) -> bool {
    &&& a.name@ == b.name@
    &&& a.dimensions@ == b.dimensions@
    &&& a.dtype == b.dtype
}

/// Both bundles list the same tensors in the same order.
pub open spec fn bundles_alike(a: Seq<PortDescriptor>, b: Seq<PortDescriptor>) -> bool {
    &&& a.len() == b.len()
    &&& forall|i: int| #![trigger a[i]] #![trigger b[i]] 0 <= i < a.len() ==> ports_alike(a[i], b[i])
}

/// Both descriptors are of the same version of the same operation, with the
/// same bundles.
pub open spec fn contracts_alike(a: ContractDescriptor, b: ContractDescriptor) -> bool {
    &&& a.id == b.id
    &&& a.version == b.version
    &&& bundles_alike(a.inputs@, b.inputs@)
    &&& bundles_alike(a.outputs@, b.outputs@)
}

/// Output `i` of `vertex` was declared to lead to `port`.
pub open spec fn feeds(topology: SunTopology, vertex: u32, i: int, port: u32) -> bool {
    &&& topology.declared_outputs@.contains_key(vertex)
    &&& 0 <= i < topology.declared_outputs@[vertex]@.len()
    &&& topology.declared_outputs@[vertex]@[i] == port
}

/// Some output leads to `port`.
pub open spec fn fed(topology: SunTopology, port: u32) -> bool {
    exists|vertex: u32, i: int| #[trigger] feeds(topology, vertex, i, port)
}

/// `edge` is the first edge of `vertex` that was declared for `port`.
pub open spec fn declares(topology: SunTopology, vertex: u32, k: int, port: u32) -> bool {
    let edges = topology.declared_edges@[vertex]@;
    &&& topology.declared_edges@.contains_key(vertex)
    &&& 0 <= k < edges.len()
    &&& edges[k].port_id == port
    &&& forall|j: int| 0 <= j < k ==> (#[trigger] edges[j]).port_id != port
}

/// The output of `vertex` to `port` is declared with the contracts that both
/// ends registered, and what the source produces is what the destination
/// consumes.
pub open spec fn typed_output(topology: SunTopology, vertex: u32, port: u32) -> bool {
    let contracts = topology.node_contracts@;
    let target = topology.port_vertices@[port];
    &&& contracts.contains_key(vertex)
    &&& contracts.contains_key(target)
    &&& exists|k: int| #[trigger]
        declares(topology, vertex, k, port) && contracts_alike(
            topology.declared_edges@[vertex]@[k].source_contract,
            contracts[vertex],
        ) && contracts_alike(
            topology.declared_edges@[vertex]@[k].destination_contract,
            contracts[target],
        )
    &&& bundles_alike(contracts[vertex].outputs@, contracts[target].inputs@)
}

/// Every output leads to a port that a vertex owns; in a typed graph every
/// vertex with outputs has a contract, and every output is typed.
pub open spec fn outputs_valid(topology: SunTopology, typed: bool) -> bool {
    &&& forall|vertex: u32, i: int, port: u32| #[trigger]
        feeds(topology, vertex, i, port) ==> topology.port_vertices@.contains_key(port) && (typed
            ==> typed_output(topology, vertex, port))
    &&& typed ==> forall|vertex: u32| #[trigger]
        topology.declared_outputs@.contains_key(vertex) ==> topology.node_contracts@.contains_key(
            vertex,
        )
}

/// No port is fed by two outputs.
pub open spec fn fed_once(topology: SunTopology) -> bool {
    forall|v: u32, i: int, w: u32, j: int, port: u32|
        #![trigger feeds(topology, v, i, port), feeds(topology, w, j, port)]
        topology.port_vertices@.contains_key(port) && feeds(topology, v, i, port) && feeds(
            topology,
            w,
            j,
            port,
        ) ==> v == w && i == j
}

/// A port that a vertex owns and an output leads to.
pub open spec fn connected(topology: SunTopology, port: u32) -> bool {
    topology.port_vertices@.contains_key(port) && fed(topology, port)
}

/// Every vertex has all of its ports connected, or none.
pub open spec fn all_or_none(topology: SunTopology) -> bool {
    forall|vertex: u32, i: int, j: int|
        #![trigger topology.vertex_ports@[vertex]@[i], topology.vertex_ports@[vertex]@[j]]
        topology.vertex_ports@.contains_key(vertex) && 0 <= i
            < topology.vertex_ports@[vertex]@.len() && 0 <= j
            < topology.vertex_ports@[vertex]@.len() ==> (connected(
            topology,
            topology.vertex_ports@[vertex]@[i],
        ) <==> connected(topology, topology.vertex_ports@[vertex]@[j]))
}

/// The vertices can be numbered so that every output leads upward.
pub open spec fn ordered_by(topology: SunTopology, rank: Map<u32, nat>) -> bool {
    forall|vertex: u32, i: int, port: u32| #[trigger]
        feeds(topology, vertex, i, port) ==> rank[vertex] < rank[topology.port_vertices@[port]]
}

/// `vertex` was declared without outputs.
pub open spec fn ends(topology: SunTopology, vertex: u32) -> bool {
    topology.declared_outputs@.contains_key(vertex) ==> topology.declared_outputs@[vertex]@.len()
        == 0
}

/// `sink` is the only vertex without outputs.
pub open spec fn only_sink(topology: SunTopology, sink: u32) -> bool {
    &&& topology.vertices().contains(sink)
    &&& ends(topology, sink)
    &&& forall|vertex: u32| #[trigger]
        topology.vertices().contains(vertex) && ends(topology, vertex) ==> vertex == sink
}

/// The declared graph is what a Sun can run: its ports have one owner each, its
/// outputs lead to matching ports, no port is fed twice or left half connected,
/// nothing leads back, and everything ends in one sink.
pub open spec fn valid(topology: SunTopology, typed: bool) -> bool {
    &&& forall|port: u32| !#[trigger] topology.duplicate_ports@.contains(port)
    &&& outputs_valid(topology, typed)
    &&& fed_once(topology)
    &&& all_or_none(topology)
    &&& exists|rank: Map<u32, nat>| #[trigger] ordered_by(topology, rank)
    &&& exists|sink: u32| #[trigger] only_sink(topology, sink)
}

proof fn lemma_bundles(a: Seq<PortDescriptor>, b: Seq<PortDescriptor>)
    ensures
        bundle_view(a) == bundle_view(b) <==> bundles_alike(a, b),
{
    if bundle_view(a) == bundle_view(b) {
        assert(bundle_view(a).len() == a.len() && bundle_view(b).len() == b.len());
        assert forall|i: int| #![trigger a[i]] #![trigger b[i]] 0 <= i < a.len() implies ports_alike(a[i], b[i]) by {
            assert(bundle_view(a)[i] == a[i]@);
            assert(bundle_view(b)[i] == b[i]@);
        }
    }
    if bundles_alike(a, b) {
        assert forall|i: int| 0 <= i < a.len() implies bundle_view(a)[i] == bundle_view(b)[i] by {
            assert(ports_alike(a[i], b[i]));
            assert(a[i]@ =~= b[i]@);
        }
        assert(bundle_view(a) =~= bundle_view(b));
    }
}

proof fn lemma_contracts(a: ContractDescriptor, b: ContractDescriptor)
    ensures
        a@ == b@ <==> contracts_alike(a, b),
{
    lemma_bundles(a.inputs@, b.inputs@);
    lemma_bundles(a.outputs@, b.outputs@);
    if contracts_alike(a, b) {
        assert(a@ =~= b@);
    }
}

proof fn lemma_first_edge(edges: Seq<DeclaredEdge>, port: u32)
    ensures
        match first_edge(edges, port) {
            Some(edge) => exists|k: int|
                0 <= k < edges.len() && #[trigger] edges[k] == edge && edge.port_id == port && (
                forall|j: int| 0 <= j < k ==> (#[trigger] edges[j]).port_id != port),
            None => forall|j: int| 0 <= j < edges.len() ==> (#[trigger] edges[j]).port_id != port,
        },
    decreases edges.len(),
{
    if edges.len() > 0 && edges[0].port_id != port {
        let rest = edges.drop_first();
        lemma_first_edge(rest, port);
        match first_edge(rest, port) {
            Some(edge) => {
                let k = choose|k: int|
                    0 <= k < rest.len() && #[trigger] rest[k] == edge && edge.port_id == port && (
                    forall|j: int| 0 <= j < k ==> (#[trigger] rest[j]).port_id != port);
                assert(edges[k + 1] == edge);
                assert forall|j: int| 0 <= j < k + 1 implies (#[trigger] edges[j]).port_id
                    != port by {
                    if j > 0 {
                        assert(rest[j - 1] == edges[j]);
                    }
                }
            },
            None => {
                assert forall|j: int| 0 <= j < edges.len() implies (#[trigger] edges[j]).port_id
                    != port by {
                    if j > 0 {
                        assert(rest[j - 1] == edges[j]);
                    }
                }
            },
        }
    } else if edges.len() > 0 {
        assert(edges[0] == first_edge(edges, port)->0);
    }
}

/// The descriptor found for an output is the first one declared for it.
proof fn lemma_found_edge(topology: SunTopology, vertex: u32, port: u32)
    ensures
        ({
            let found = first_edge(list_at(lists(topology.declared_edges@), vertex), port);
            &&& found is Some <==> exists|k: int| #[trigger] declares(topology, vertex, k, port)
            &&& forall|k: int| #[trigger]
                declares(topology, vertex, k, port) ==> found == Some(
                    topology.declared_edges@[vertex]@[k],
                )
        }),
{
    let edges = list_at(lists(topology.declared_edges@), vertex);
    let found = first_edge(edges, port);
    lemma_first_edge(edges, port);
    if found is Some {
        let k = choose|k: int|
            0 <= k < edges.len() && #[trigger] edges[k] == found->0 && found->0.port_id == port && (
            forall|j: int| 0 <= j < k ==> (#[trigger] edges[j]).port_id != port);
        assert(topology.declared_edges@.contains_key(vertex));
        assert(edges == topology.declared_edges@[vertex]@);
        assert(declares(topology, vertex, k, port));
        assert forall|m: int| #[trigger] declares(topology, vertex, m, port) implies found == Some(
            topology.declared_edges@[vertex]@[m],
        ) by {
            if m < k {
                assert(edges[m].port_id != port);
            } else if k < m {
                assert(edges[k].port_id != port);
            }
        }
    } else {
        assert forall|k: int| !#[trigger] declares(topology, vertex, k, port) by {
            if declares(topology, vertex, k, port) {
                assert(edges == topology.declared_edges@[vertex]@);
                assert(edges[k].port_id != port);
            }
        }
    }
}

proof fn lemma_no_defect(topology: SunTopology, typed: bool, vertex: u32, port: u32)
    requires
        typed ==> topology.node_contracts@.contains_key(vertex),
    ensures
        edge_defect(topology, typed, vertex, port) is None
            <==> topology.port_vertices@.contains_key(port) && (typed ==> typed_output(
            topology,
            vertex,
            port,
        )),
{
    let contracts = topology.node_contracts@;
    let target = topology.port_vertices@[port];
    let edge = first_edge(list_at(lists(topology.declared_edges@), vertex), port);
    lemma_found_edge(topology, vertex, port);
    if topology.port_vertices@.contains_key(port) && typed && contracts.contains_key(target) {
        lemma_bundles(contracts[vertex].outputs@, contracts[target].inputs@);
        if edge is Some {
            lemma_contracts(edge->0.source_contract, contracts[vertex]);
            lemma_contracts(edge->0.destination_contract, contracts[target]);
            let k = choose|k: int| #[trigger] declares(topology, vertex, k, port);
            assert(edge == Some(topology.declared_edges@[vertex]@[k]));
        }
    }
}

proof fn lemma_edges_sound(topology: SunTopology, typed: bool)
    ensures
        edges_sound(topology, typed) <==> outputs_valid(topology, typed),
{
    if edges_sound(topology, typed) {
        assert forall|vertex: u32, i: int, port: u32| #[trigger]
            feeds(topology, vertex, i, port) implies topology.port_vertices@.contains_key(port) && (
        typed ==> typed_output(topology, vertex, port)) by {
            assert(vertex_sound(topology, typed, vertex));
            assert(topology.declared_outputs@[vertex]@[i] == port);
            lemma_no_defect(topology, typed, vertex, port);
        }
        if typed {
            assert forall|vertex: u32| #[trigger]
                topology.declared_outputs@.contains_key(
                    vertex,
                ) implies topology.node_contracts@.contains_key(vertex) by {
                assert(vertex_sound(topology, typed, vertex));
            }
        }
    }
    if outputs_valid(topology, typed) {
        assert forall|vertex: u32| #[trigger]
            topology.declared_outputs@.contains_key(vertex) implies vertex_sound(
            topology,
            typed,
            vertex,
        ) by {
            assert forall|i: int|
                #![trigger topology.declared_outputs@[vertex]@[i]]
                0 <= i < topology.declared_outputs@[vertex]@.len() implies edge_defect(
                topology,
                typed,
                vertex,
                topology.declared_outputs@[vertex]@[i],
            ) is None by {
                let port = topology.declared_outputs@[vertex]@[i];
                assert(feeds(topology, vertex, i, port));
                lemma_no_defect(topology, typed, vertex, port);
            }
        }
    }
}

/// Two places in a list count twice, and a count of two comes from two places.
proof fn lemma_occurrences_once(ids: Seq<u32>, id: u32)
    ensures
        occurrences(ids, id) <= 1 <==> forall|i: int, j: int|
            #![trigger ids[i], ids[j]]
            0 <= i < ids.len() && 0 <= j < ids.len() && ids[i] == id && ids[j] == id ==> i == j,
    decreases ids.len(),
{
    if ids.len() > 0 {
        let rest = ids.drop_last();
        let last = ids.len() - 1;
        lemma_occurrences_once(rest, id);
        lemma_occurrences_positive(rest, id);
        if occurrences(ids, id) <= 1 {
            assert forall|i: int, j: int|
                #![trigger ids[i], ids[j]]
                0 <= i < ids.len() && 0 <= j < ids.len() && ids[i] == id && ids[j] == id implies i
                == j by {
                if i < last {
                    assert(rest[i] == id);
                    assert(rest.contains(id));
                }
                if j < last {
                    assert(rest[j] == id);
                    assert(rest.contains(id));
                }
            }
        } else {
            if occurrences(rest, id) > 1 {
                let (i, j) = choose|i: int, j: int|
                    #![trigger rest[i], rest[j]]
                    0 <= i < rest.len() && 0 <= j < rest.len() && rest[i] == id && rest[j] == id && i
                        != j;
                assert(ids[i] == id && ids[j] == id);
            } else {
                assert(rest.contains(id));
                let i = choose|i: int| 0 <= i < rest.len() && rest[i] == id;
                assert(ids[i] == id && ids[last] == id);
            }
        }
    }
}

/// A place in the lists of the first vertices.
spec fn placed(declared: Map<u32, Seq<u32>>, vertices: Seq<u32>, port: u32, n: int, i: int) -> bool {
    0 <= n < vertices.len() && 0 <= i < list_at(declared, vertices[n]).len() && list_at(
        declared,
        vertices[n],
    )[i] == port
}

proof fn lemma_producers_among(declared: Map<u32, Seq<u32>>, vertices: Seq<u32>, port: u32)
    ensures
        producers_among(declared, vertices, port) > 0 <==> exists|n: int, i: int| #[trigger]
            placed(declared, vertices, port, n, i),
        producers_among(declared, vertices, port) <= 1 <==> forall|n: int, i: int, m: int, j: int|
            #![trigger placed(declared, vertices, port, n, i), placed(declared, vertices, port, m, j)]
            placed(declared, vertices, port, n, i) && placed(declared, vertices, port, m, j) ==> n
                == m && i == j,
    decreases vertices.len(),
{
    if vertices.len() > 0 {
        let rest = vertices.drop_last();
        let last = vertices.len() - 1;
        let list = list_at(declared, vertices.last());
        lemma_producers_among(declared, rest, port);
        lemma_occurrences_positive(list, port);
        lemma_occurrences_once(list, port);
        assert forall|n: int, i: int| n < last implies (#[trigger] placed(
            declared,
            vertices,
            port,
            n,
            i,
        ) <==> placed(declared, rest, port, n, i)) by {
            if 0 <= n < last {
                assert(vertices[n] == rest[n]);
            }
        }
        assert forall|i: int| #[trigger] placed(declared, vertices, port, last, i) <==> 0 <= i
            < list.len() && list[i] == port by {}
        let before = producers_among(declared, rest, port);
        let own = occurrences(list, port);
        if before > 0 {
            let (n, i) = choose|n: int, i: int| #[trigger] placed(declared, rest, port, n, i);
            assert(placed(declared, vertices, port, n, i));
        }
        if own > 0 {
            let i = choose|i: int| 0 <= i < list.len() && list[i] == port;
            assert(placed(declared, vertices, port, last, i));
        }
        if exists|n: int, i: int| #[trigger] placed(declared, vertices, port, n, i) {
            let (n, i) = choose|n: int, i: int| #[trigger] placed(declared, vertices, port, n, i);
            if n < last {
                assert(placed(declared, rest, port, n, i));
            } else {
                assert(list[i] == port);
                assert(list.contains(port));
            }
        }
        let unique = forall|n: int, i: int, m: int, j: int|
            #![trigger placed(declared, vertices, port, n, i), placed(declared, vertices, port, m, j)]
            placed(declared, vertices, port, n, i) && placed(declared, vertices, port, m, j) ==> n
                == m && i == j;
        if before + own <= 1 {
            assert forall|n: int, i: int, m: int, j: int|
                #![trigger placed(declared, vertices, port, n, i), placed(declared, vertices, port, m, j)]
                placed(declared, vertices, port, n, i) && placed(
                    declared,
                    vertices,
                    port,
                    m,
                    j,
                ) implies n == m && i == j by {
                if n < last {
                    assert(placed(declared, rest, port, n, i));
                }
                if m < last {
                    assert(placed(declared, rest, port, m, j));
                }
                if n == last {
                    assert(list[i] == port);
                    assert(list.contains(port));
                }
                if m == last {
                    assert(list[j] == port);
                    assert(list.contains(port));
                }
            }
        } else if unique {
            if before > 1 {
                let (n, i, m, j) = choose|n: int, i: int, m: int, j: int|
                    #![trigger placed(declared, rest, port, n, i), placed(declared, rest, port, m, j)]
                    placed(declared, rest, port, n, i) && placed(declared, rest, port, m, j) && !(n
                        == m && i == j);
                assert(placed(declared, vertices, port, n, i));
                assert(placed(declared, vertices, port, m, j));
            } else if own > 1 {
                let (i, j) = choose|i: int, j: int|
                    #![trigger list[i], list[j]]
                    0 <= i < list.len() && 0 <= j < list.len() && list[i] == port && list[j] == port
                        && i != j;
                assert(placed(declared, vertices, port, last, i));
                assert(placed(declared, vertices, port, last, j));
            } else {
                let (n, i) = choose|n: int, i: int| #[trigger] placed(declared, rest, port, n, i);
                assert(placed(declared, vertices, port, n, i));
                let j = choose|j: int| 0 <= j < list.len() && list[j] == port;
                assert(placed(declared, vertices, port, last, j));
            }
            assert(false);
        }
    }
}

/// Counting the producers of a port is counting the outputs that feed it.
proof fn lemma_producers(topology: SunTopology, port: u32)
    ensures
        producers(topology, port) > 0 <==> fed(topology, port),
        producers(topology, port) <= 1 <==> forall|v: u32, i: int, w: u32, j: int|
            #![trigger feeds(topology, v, i, port), feeds(topology, w, j, port)]
            feeds(topology, v, i, port) && feeds(topology, w, j, port) ==> v == w && i == j,
{
    let declared = lists(topology.declared_outputs@);
    let order = ascending(topology.declared_outputs@.dom());
    lemma_ascending_lists(topology.declared_outputs@.dom());
    lemma_producers_among(declared, order, port);
    assert forall|v: u32, i: int| #[trigger] feeds(topology, v, i, port) implies exists|n: int|
        order[n] == v && #[trigger] placed(declared, order, port, n, i) by {
        assert(order.to_set().contains(v));
        let n = choose|n: int| 0 <= n < order.len() && order[n] == v;
        assert(placed(declared, order, port, n, i));
    }
    assert forall|n: int, i: int| #[trigger] placed(declared, order, port, n, i) implies feeds(
        topology,
        order[n],
        i,
        port,
    ) by {
        assert(order.to_set().contains(order[n]));
    }
    if producers(topology, port) > 0 {
        let (n, i) = choose|n: int, i: int| #[trigger] placed(declared, order, port, n, i);
        assert(feeds(topology, order[n], i, port));
    }
    if producers(topology, port) <= 1 {
        assert forall|v: u32, i: int, w: u32, j: int|
            #![trigger feeds(topology, v, i, port), feeds(topology, w, j, port)]
            feeds(topology, v, i, port) && feeds(topology, w, j, port) implies v == w && i == j by {
            let n = choose|n: int|
                order[n] == v && #[trigger] placed(declared, order, port, n, i);
            let m = choose|m: int|
                order[m] == w && #[trigger] placed(declared, order, port, m, j);
            assert(n == m);
        }
    } else {
        let (n, i, m, j) = choose|n: int, i: int, m: int, j: int|
            #![trigger placed(declared, order, port, n, i), placed(declared, order, port, m, j)]
            placed(declared, order, port, n, i) && placed(declared, order, port, m, j) && !(n == m
                && i == j);
        assert(feeds(topology, order[n], i, port));
        assert(feeds(topology, order[m], j, port));
        if order[n] == order[m] && i == j {
            if n < m {
                assert(order[n] < order[m]);
            } else {
                assert(order[m] < order[n]);
            }
        }
    }
}

proof fn lemma_ports_sound(topology: SunTopology)
    ensures
        ports_sound(topology) <==> fed_once(topology),
{
    assert forall|port: u32| #[trigger]
        topology.port_vertices@.contains_key(port) implies (producers(topology, port) <= 1 <==> (
    forall|v: u32, i: int, w: u32, j: int|
        #![trigger feeds(topology, v, i, port), feeds(topology, w, j, port)]
        feeds(topology, v, i, port) && feeds(topology, w, j, port) ==> v == w && i == j)) by {
        lemma_producers(topology, port);
    }
    if fed_once(topology) {
        assert forall|port: u32| #[trigger]
            topology.port_vertices@.contains_key(port) implies producers(topology, port) <= 1 by {
            lemma_producers(topology, port);
        }
    }
}

proof fn lemma_inputs_sound(topology: SunTopology)
    requires
        ports_sound(topology),
    ensures
        inputs_sound(topology) <==> all_or_none(topology),
{
    assert forall|vertex: u32, i: int|
        #![trigger producer_counts_of(topology, vertex)[i]]
        topology.vertex_ports@.contains_key(vertex) && 0 <= i
            < topology.vertex_ports@[vertex]@.len() implies producer_counts_of(
        topology,
        vertex,
    )[i] == if connected(topology, topology.vertex_ports@[vertex]@[i]) {
        1nat
    } else {
        0
    } by {
        let port = topology.vertex_ports@[vertex]@[i];
        lemma_producers(topology, port);
        if topology.port_vertices@.contains_key(port) {
            assert(producers(topology, port) <= 1);
        }
    }
    if inputs_sound(topology) {
        assert forall|vertex: u32, i: int, j: int|
            #![trigger topology.vertex_ports@[vertex]@[i], topology.vertex_ports@[vertex]@[j]]
            topology.vertex_ports@.contains_key(vertex) && 0 <= i
                < topology.vertex_ports@[vertex]@.len() && 0 <= j
                < topology.vertex_ports@[vertex]@.len() implies (connected(
            topology,
            topology.vertex_ports@[vertex]@[i],
        ) <==> connected(topology, topology.vertex_ports@[vertex]@[j])) by {
            let counts = producer_counts_of(topology, vertex);
            assert(uniform(counts));
            assert(counts[i] == counts[j]);
        }
    }
    if all_or_none(topology) {
        assert forall|vertex: u32| #[trigger]
            topology.vertex_ports@.contains_key(vertex) implies uniform(
            producer_counts_of(topology, vertex),
        ) by {
            let counts = producer_counts_of(topology, vertex);
            let ports = topology.vertex_ports@[vertex]@;
            assert(counts.len() == ports.len());
            if counts.len() > 0 {
                assert forall|i: int| #![trigger counts[i]] 0 <= i < counts.len() implies counts[i] == counts[0] by {
                    assert(connected(topology, ports[i]) <==> connected(topology, ports[0]));
                    assert(producer_counts_of(topology, vertex)[i] == counts[i]);
                    assert(producer_counts_of(topology, vertex)[0] == counts[0]);
                }
            }
        }
    }
}

proof fn lemma_ranked(topology: SunTopology, rank: Map<u32, nat>)
    requires
        topology.well_formed(),
    ensures
        ranks_edges(resolved_outgoing(topology), rank) <==> ordered_by(topology, rank),
{
    let outgoing = resolved_outgoing(topology);
    if ranks_edges(outgoing, rank) {
        assert forall|vertex: u32, i: int, port: u32| #[trigger]
            feeds(topology, vertex, i, port) implies rank[vertex]
            < rank[topology.port_vertices@[port]] by {
            assert(topology.vertices().contains(vertex));
            assert(outgoing.contains_key(vertex));
            assert(outgoing[vertex] == resolved_targets(topology, vertex));
            assert(outgoing[vertex][i].vertex_id == topology.port_vertices@[port]);
        }
    }
    if ordered_by(topology, rank) {
        assert forall|source: u32, i: int|
            #![trigger outgoing[source][i]]
            outgoing.contains_key(source) && 0 <= i < outgoing[source].len() implies rank[source]
            < rank[outgoing[source][i].vertex_id] by {
            assert(outgoing[source] == resolved_targets(topology, source));
            assert(feeds(topology, source, i, topology.declared_outputs@[source]@[i]));
        }
    }
}

proof fn lemma_one_sink(topology: SunTopology)
    ensures
        sinks(topology).len() == 1 <==> exists|sink: u32| #[trigger] only_sink(topology, sink),
        forall|sink: u32| #[trigger] only_sink(topology, sink) ==> sinks(topology) == set![sink],
{
    let found = sinks(topology);
    assert forall|vertex: u32| #[trigger] found.contains(vertex) <==> topology.vertices().contains(
        vertex,
    ) && ends(topology, vertex) by {
        assert(resolved_targets(topology, vertex).len() == list_at(
            lists(topology.declared_outputs@),
            vertex,
        ).len());
    }
    if found.len() == 1 {
        let sink = found.choose();
        assert(found.contains(sink));
        assert(found.remove(sink).len() == 0);
        assert forall|vertex: u32| #[trigger]
            topology.vertices().contains(vertex) && ends(topology, vertex) implies vertex == sink by {
            assert(found.contains(vertex));
            if vertex != sink {
                assert(found.remove(sink).contains(vertex));
            }
        }
        assert(only_sink(topology, sink));
    }
    assert forall|sink: u32| #[trigger] only_sink(topology, sink) implies found == set![sink] by {
        assert forall|vertex: u32| found.contains(vertex) <==> set![sink].contains(vertex) by {}
        assert(found =~= set![sink]);
    }
    if exists|sink: u32| #[trigger] only_sink(topology, sink) {
        let sink = choose|sink: u32| #[trigger] only_sink(topology, sink);
        assert(found == set![sink]);
        assert(set![sink].len() == 1);
    }
}

proof fn lemma_members_finite(set: HashSet<u32>)
    ensures
        set@.finite(),
{
    let listed = vstd::std_specs::hash::spec_hash_keys_iter(&set).remaining().unref();
    vstd::seq_lib::seq_to_set_is_finite(listed);
    assert(listed.to_set() == set@);
}

/// A declared graph is accepted exactly when it is valid.
pub proof fn law_exactly_valid_graphs_are_accepted(topology: SunTopology, typed: bool)
    requires
        topology.well_formed(),
    ensures
        resolvable(topology, typed) <==> valid(topology, typed),
{
    lemma_edges_sound(topology, typed);
    lemma_ports_sound(topology);
    if ports_sound(topology) {
        lemma_inputs_sound(topology);
    }
    lemma_one_sink(topology);
    let outgoing = resolved_outgoing(topology);
    if is_acyclic(outgoing) {
        let rank = choose|rank: Map<u32, nat>| ranks_edges(outgoing, rank);
        lemma_ranked(topology, rank);
        assert(ordered_by(topology, rank));
    }
    if exists|rank: Map<u32, nat>| #[trigger] ordered_by(topology, rank) {
        let rank = choose|rank: Map<u32, nat>| #[trigger] ordered_by(topology, rank);
        lemma_ranked(topology, rank);
        assert(ranks_edges(outgoing, rank));
    }
    let duplicates = topology.duplicate_ports@;
    lemma_members_finite(topology.duplicate_ports);
    if duplicates.len() == 0 {
        assert(duplicates =~= Set::empty());
    }
    if forall|port: u32| !#[trigger] duplicates.contains(port) {
        assert(duplicates =~= Set::empty());
    }
    if valid(topology, typed) {
        let sink = choose|sink: u32| #[trigger] only_sink(topology, sink);
        assert(topology.vertices().contains(sink));
        if topology.vertices().len() == 0 {
            assert(topology.vertices() =~= Set::empty());
        }
    }
}

/// Along every edge of a finalized typed graph, what the source produces is
/// what the destination consumes: port by port the same name, the same extents
/// and the same element type.
pub proof fn law_bundles_match_along_edges(before: SunTopology, after: SunTopology, vertex: u32, i: int)
    requires
        before.well_formed(),
        resolvable(before, true),
        finalized_as(before, after),
        0 <= i < list_at(after.outgoing_edges(), vertex).len(),
    ensures
        ({
            let target = list_at(after.outgoing_edges(), vertex)[i].vertex_id;
            let made = after.node_contracts@[vertex].outputs@;
            let taken = after.node_contracts@[target].inputs@;
            &&& after.node_contracts@.contains_key(vertex)
            &&& after.node_contracts@.contains_key(target)
            &&& made.len() == taken.len()
            &&& forall|k: int|
                #![trigger made[k]]
                0 <= k < made.len() ==> made[k].name@ == taken[k].name@ && made[k].dimensions@
                    == taken[k].dimensions@ && made[k].dtype == taken[k].dtype
        }),
{
    law_exactly_valid_graphs_are_accepted(before, true);
    law_edges_are_the_declared_outputs(before, after, true, vertex);
    let port = before.declared_outputs@[vertex]@[i];
    assert(feeds(before, vertex, i, port));
    assert(typed_output(before, vertex, port));
    let made = after.node_contracts@[vertex].outputs@;
    let taken = after.node_contracts@[before.port_vertices@[port]].inputs@;
    assert forall|k: int| #![trigger made[k]] 0 <= k < made.len() implies made[k].name@
        == taken[k].name@ && made[k].dimensions@ == taken[k].dimensions@ && made[k].dtype
        == taken[k].dtype by {
        assert(ports_alike(made[k], taken[k]));
    }
}

/// The edges of a finalized graph are its declared outputs, in order, each to
/// the vertex that owns the port; and nothing else of the graph changes.
pub proof fn law_edges_are_the_declared_outputs(
    before: SunTopology,
    after: SunTopology,
    typed: bool,
    vertex: u32,
)
    requires
        before.well_formed(),
        finalized_as(before, after),
    ensures
        ({
            let edges = list_at(after.outgoing_edges(), vertex);
            let declared = list_at(lists(before.declared_outputs@), vertex);
            &&& edges.len() == declared.len()
            &&& forall|i: int|
                #![trigger edges[i]]
                0 <= i < edges.len() ==> edges[i].port_id == declared[i] && edges[i].vertex_id
                    == before.port_vertices@[declared[i]]
            &&& edges.len() > 0 ==> before.declared_outputs@.contains_key(vertex)
        }),
        after.finalized,
        after.journey_ids == before.journey_ids,
        after.warp_journey_ids == before.warp_journey_ids,
        after.node_labels == before.node_labels,
        after.vertex_ports == before.vertex_ports,
        after.port_vertices == before.port_vertices,
        after.node_contracts == before.node_contracts,
        after.declared_outputs == before.declared_outputs,
        after.declared_edges == before.declared_edges,
{
    let edges = list_at(after.outgoing_edges(), vertex);
    let declared = list_at(lists(before.declared_outputs@), vertex);
    if before.vertices().contains(vertex) {
        assert(edges == resolved_targets(before, vertex));
    } else {
        assert(!before.declared_outputs@.contains_key(vertex));
        assert(!after.outgoing_edges().contains_key(vertex));
        assert(edges =~= Seq::empty());
        assert(declared =~= Seq::empty());
    }
}

/// No walk along the edges of a finalized graph comes back to where it began.
pub proof fn law_no_walk_comes_back(before: SunTopology, after: SunTopology, typed: bool, walk: Seq<u32>)
    requires
        resolvable(before, typed),
        finalized_as(before, after),
        walk.len() > 1,
        forall|n: int| 0 <= n < walk.len() - 1 ==> #[trigger] steps(after, walk, n),
    ensures
        walk[0] != walk.last(),
{
    let outgoing = resolved_outgoing(before);
    let rank = choose|rank: Map<u32, nat>| ranks_edges(outgoing, rank);
    lemma_walk_ascends(after, rank, walk, walk.len() - 1);
}

/// Step `n` of a walk follows an edge.
pub open spec fn steps(topology: SunTopology, walk: Seq<u32>, n: int) -> bool {
    exists|i: int|
        0 <= i < list_at(topology.outgoing_edges(), walk[n]).len() && (#[trigger] list_at(
            topology.outgoing_edges(),
            walk[n],
        )[i]).vertex_id == walk[n + 1]
}

proof fn lemma_walk_ascends(topology: SunTopology, rank: Map<u32, nat>, walk: Seq<u32>, n: int)
    requires
        ranks_edges(topology.outgoing_edges(), rank),
        0 < n < walk.len(),
        forall|m: int| 0 <= m < walk.len() - 1 ==> #[trigger] steps(topology, walk, m),
    ensures
        rank[walk[0]] < rank[walk[n]],
    decreases n,
{
    assert(steps(topology, walk, n - 1));
    let out = topology.outgoing_edges();
    let i = choose|i: int|
        0 <= i < list_at(out, walk[n - 1]).len() && (#[trigger] list_at(
            out,
            walk[n - 1],
        )[i]).vertex_id == walk[n];
    assert(out.contains_key(walk[n - 1]));
    assert(out[walk[n - 1]][i].vertex_id == walk[n]);
    if n > 1 {
        lemma_walk_ascends(topology, rank, walk, n - 1);
    }
}

/// A vertex is recorded as a source of another exactly as often as it has
/// edges to it.
pub proof fn law_sources_mirror_edges(
    before: SunTopology,
    after: SunTopology,
    source: u32,
    target: u32,
)
    requires
        finalized_as(before, after),
    ensures
        list_at(after.incoming_edges(), target).contains(source) <==> exists|i: int|
            0 <= i < list_at(after.outgoing_edges(), source).len() && #[trigger] list_at(
                after.outgoing_edges(),
                source,
            )[i].vertex_id == target,
{
    let edges = list_at(after.outgoing_edges(), source);
    let sources = list_at(after.incoming_edges(), target);
    lemma_hits_positive(edges, target);
    lemma_occurrences_positive(sources, source);
    assert(occurrences(sources, source) == crate::topology::graph::hits(edges, target));
}

/// The sink that finalization returns is the only vertex without edges.
pub proof fn law_the_sink_is_the_only_end(
    before: SunTopology,
    after: SunTopology,
    typed: bool,
    sink: u32,
    vertex: u32,
)
    requires
        before.well_formed(),
        resolvable(before, typed),
        finalized_as(before, after),
        sinks(before) == set![sink],
        after.vertices().contains(vertex),
    ensures
        after.vertices().contains(sink),
        list_at(after.outgoing_edges(), vertex).len() == 0 <==> vertex == sink,
{
    assert(set![sink].contains(sink));
    assert(sinks(before).contains(sink));
    assert(sinks(before).contains(vertex) <==> vertex == sink);
    law_edges_are_the_declared_outputs(before, after, typed, vertex);
}

/// Some output of `vertex` leads to `port`.
pub open spec fn leads(topology: SunTopology, vertex: u32, port: u32) -> bool {
    exists|i: int| #[trigger] feeds(topology, vertex, i, port)
}

/// Some edge of `vertex` was declared for `port`.
pub open spec fn described(topology: SunTopology, vertex: u32, port: u32) -> bool {
    exists|k: int| #[trigger] declares(topology, vertex, k, port)
}

/// The edge for `port` names another contract than its source registered.
pub open spec fn source_differs(topology: SunTopology, vertex: u32, port: u32) -> bool {
    exists|k: int| #[trigger]
        declares(topology, vertex, k, port) && !contracts_alike(
            topology.declared_edges@[vertex]@[k].source_contract,
            topology.node_contracts@[vertex],
        )
}

/// The edge for `port` names another contract than its destination registered.
pub open spec fn destination_differs(topology: SunTopology, vertex: u32, port: u32) -> bool {
    exists|k: int| #[trigger]
        declares(topology, vertex, k, port) && !contracts_alike(
            topology.declared_edges@[vertex]@[k].destination_contract,
            topology.node_contracts@[topology.port_vertices@[port]],
        )
}

/// What the failure says of the declared graph is so.
pub open spec fn true_fault(topology: SunTopology, typed: bool, failure: Failure) -> bool {
    match failure {
        Failure::DuplicatePorts { ports } => ports@.len() > 0 && forall|port: u32| #[trigger]
            ports@.contains(port) <==> topology.duplicate_ports@.contains(port),
        Failure::NoVertices => forall|vertex: u32| !#[trigger] topology.vertices().contains(
            vertex,
        ),
        Failure::MissingContract { vertex } => typed && topology.declared_outputs@.contains_key(
            vertex,
        ) && !topology.node_contracts@.contains_key(vertex),
        Failure::MissingPort { vertex, port } => leads(topology, vertex, port)
            && !topology.port_vertices@.contains_key(port),
        Failure::MissingEdgeDescriptor { vertex, port } => typed && leads(topology, vertex, port)
            && !described(topology, vertex, port),
        Failure::MissingDestinationContract { vertex } => typed
            && !topology.node_contracts@.contains_key(vertex) && exists|source: u32, i: int, port: u32| #[trigger]
            feeds(topology, source, i, port) && topology.port_vertices@[port] == vertex,
        Failure::SourceContractMismatch { vertex, port } => typed && source_differs(
            topology,
            vertex,
            port,
        ),
        Failure::DestinationContractMismatch { vertex, port } => typed && destination_differs(
            topology,
            vertex,
            port,
        ),
        Failure::ArtifactBundleMismatch { vertex, port } => typed && leads(topology, vertex, port)
            && !bundles_alike(
            topology.node_contracts@[vertex].outputs@,
            topology.node_contracts@[topology.port_vertices@[port]].inputs@,
        ),
        Failure::TooManyProducers { port, count } => topology.port_vertices@.contains_key(port)
            && count > 1 && !fed_once(topology),
        Failure::ProducerCounts { vertex, ports, counts } => topology.vertex_ports@[vertex]@
            == ports@ && counts@.len() == ports@.len() && !all_or_none(topology),
        Failure::Cycle => forall|rank: Map<u32, nat>| !#[trigger] ordered_by(topology, rank),
        Failure::Sinks { sinks } => sinks@.len() != 1 && forall|vertex: u32| #[trigger]
            sinks@.contains(vertex) <==> topology.vertices().contains(vertex) && ends(
                topology,
                vertex,
            ),
        _ => false,
    }
}

/// What a refusal says is wrong is wrong.
pub proof fn law_refusals_name_true_faults(topology: SunTopology, typed: bool, failure: Failure)
    requires
        topology.well_formed(),
        !resolvable(topology, typed),
        explains_unresolvable(topology, typed, failure),
    ensures
        true_fault(topology, typed, failure),
{
    lemma_edges_sound(topology, typed);
    lemma_ports_sound(topology);
    lemma_members_finite(topology.duplicate_ports);
    if topology.duplicate_ports@.len() > 0 {
        lemma_ascending_lists(topology.duplicate_ports@);
        let ports = failure->DuplicatePorts_ports@;
        assert forall|port: u32| #[trigger] ports.contains(port)
            <==> topology.duplicate_ports@.contains(port) by {
            assert(ports.to_set().contains(port) <==> topology.duplicate_ports@.contains(port));
        }
    } else if topology.vertices().len() == 0 {
        assert(topology.vertices() =~= Set::empty());
    } else if !edges_sound(topology, typed) {
        assert(describes_edge_defect(topology, typed, failure));
        let vertex = choose|vertex: u32|
            #![trigger topology.declared_outputs@.contains_key(vertex)]
            topology.declared_outputs@.contains_key(vertex) && if !typed
                || topology.node_contracts@.contains_key(vertex) {
                exists|i: int|
                    #![trigger topology.declared_outputs@[vertex]@[i]]
                    0 <= i < topology.declared_outputs@[vertex]@.len() && edge_defect(
                        topology,
                        typed,
                        vertex,
                        topology.declared_outputs@[vertex]@[i],
                    ) == Some(failure)
            } else {
                failure == (Failure::MissingContract { vertex })
            };
        if !typed || topology.node_contracts@.contains_key(vertex) {
            let i = choose|i: int|
                #![trigger topology.declared_outputs@[vertex]@[i]]
                0 <= i < topology.declared_outputs@[vertex]@.len() && edge_defect(
                    topology,
                    typed,
                    vertex,
                    topology.declared_outputs@[vertex]@[i],
                ) == Some(failure);
            let port = topology.declared_outputs@[vertex]@[i];
            let contracts = topology.node_contracts@;
            let target = topology.port_vertices@[port];
            let edge = first_edge(list_at(lists(topology.declared_edges@), vertex), port);
            assert(feeds(topology, vertex, i, port));
            lemma_found_edge(topology, vertex, port);
            if edge is Some {
                let k = choose|k: int| #[trigger] declares(topology, vertex, k, port);
                assert(edge == Some(topology.declared_edges@[vertex]@[k]));
                lemma_contracts(edge->0.source_contract, contracts[vertex]);
                lemma_contracts(edge->0.destination_contract, contracts[target]);
                lemma_bundles(contracts[vertex].outputs@, contracts[target].inputs@);
                assert(declares(topology, vertex, k, port));
            }
            assert(leads(topology, vertex, port));
            assert(failure is SourceContractMismatch ==> source_differs(topology, vertex, port));
            assert(failure is DestinationContractMismatch ==> destination_differs(
                topology,
                vertex,
                port,
            ));
        }
    } else if !ports_sound(topology) {
    } else if !inputs_sound(topology) {
        lemma_inputs_sound(topology);
        let counts = failure->ProducerCounts_counts@;
        assert(crate::text::counts_as_nats(counts).len() == counts.len());
        assert(producer_counts_of(topology, failure->ProducerCounts_vertex).len()
            == failure->ProducerCounts_ports@.len());
    } else if !is_acyclic(resolved_outgoing(topology)) {
        assert forall|rank: Map<u32, nat>| !#[trigger] ordered_by(topology, rank) by {
            lemma_ranked(topology, rank);
            assert(!ranks_edges(resolved_outgoing(topology), rank));
        }
    } else {
        let found = sinks(topology);
        lemma_ascending_lists(found);
        assert forall|vertex: u32| #[trigger] ascending(found).contains(vertex)
            <==> topology.vertices().contains(vertex) && ends(topology, vertex) by {
            assert(ascending(found).to_set().contains(vertex) <==> found.contains(vertex));
            assert(resolved_targets(topology, vertex).len() == list_at(
                lists(topology.declared_outputs@),
                vertex,
            ).len());
        }
    }
}

} // verus!
