//! The deterministic view of a graph that observers see.

use std::collections::HashMap;

use vstd::prelude::*;
use vstd::string::*;

use crate::collections::{ascending, sorted_keys};
use crate::ids::Uuid;
use crate::text::{decimal, decimal_string};
use crate::topology::graph::{list_at, lists, OutgoingEdges};
use crate::topology::observe::{sequence_at, status_at, uuid_at};
use crate::topology::{
    PortTarget, SunAppearance, SunEdgeAppearance, SunNodeAppearance, SunNodeState,
    SunOperationalState, SunTopology,
};

verus! {

broadcast use vstd::std_specs::hash::group_hash_axioms;

/// The label of a vertex, by default made of its id.
pub open spec fn label_of(topology: SunTopology, id: u32) -> Seq<char> {
    if topology.node_labels@.contains_key(id) {
        topology.node_labels@[id]@
    } else {
        "cell "@ + decimal(id as nat)
    }
}

/// `node` shows the vertex `id` of `topology` in the given phase.
pub open spec fn shows_vertex(
    topology: SunTopology,
    node: SunNodeAppearance,
    id: u32,
    state: SunNodeState,
    grad_step: usize,
) -> bool {
    &&& node.id == id
    &&& node.journey_id == uuid_at(topology.journey_ids@, id)
    &&& node.warp_journey_id == uuid_at(topology.warp_journey_ids@, id)
    &&& node.label@ == label_of(topology, id)
    &&& node.input_ports@ == list_at(lists(topology.vertex_ports@), id)
    &&& node.state == state
    &&& node.state_sequence == sequence_at(topology.node_state_sequences@, id)
    &&& node.grad_step == grad_step
    &&& node.operational_state == status_at(topology.node_operational_states@, id)
    &&& node.phase_annotation is Some <==> topology.node_phase_annotations@.contains_key(id)
    &&& node.phase_annotation matches Some(text) ==> text@
        == topology.node_phase_annotations@[id]@
}

/// Edges are ordered by source, then target, then target port.
pub open spec fn edge_precedes(a: SunEdgeAppearance, b: SunEdgeAppearance) -> bool {
    ||| a.source < b.source
    ||| a.source == b.source && a.target < b.target
    ||| a.source == b.source && a.target == b.target && a.target_port < b.target_port
}

/// Strictly ordered, hence without duplicates.
pub open spec fn edges_ordered(edges: Seq<SunEdgeAppearance>) -> bool {
    forall|i: int, j: int|
        #![trigger edges[i], edges[j]]
        0 <= i < j < edges.len() ==> edge_precedes(edges[i], edges[j])
}

/// `edge` is one of the resolved edges.
pub open spec fn is_edge(outgoing: OutgoingEdges, edge: SunEdgeAppearance) -> bool {
    outgoing.contains_key(edge.source) && outgoing[edge.source].contains(
        PortTarget { port_id: edge.target_port, vertex_id: edge.target },
    )
}

/// `edges` shows every resolved edge once, in order.
pub open spec fn shows_edges(outgoing: OutgoingEdges, edges: Seq<SunEdgeAppearance>) -> bool {
    &&& edges_ordered(edges)
    &&& forall|edge: SunEdgeAppearance| #[trigger]
        edges.contains(edge) <==> is_edge(outgoing, edge)
}

/// `shown` is the view of a topology without strategy detail: every vertex
/// once, by ascending id, idle and in its first step, and every edge once.
pub open spec fn shows_topology(topology: SunTopology, shown: SunAppearance) -> bool {
    &&& shown.finalized == topology.finalized
    &&& shown.grad_steps == 1
    &&& shown.nodes@.len() == ascending(topology.vertices()).len()
    &&& forall|i: int|
        #![trigger shown.nodes@[i]]
        0 <= i < shown.nodes@.len() ==> shows_vertex(
            topology,
            shown.nodes@[i],
            ascending(topology.vertices())[i],
            SunNodeState::Idle,
            1,
        )
    &&& shows_edges(topology.outgoing_edges(), shown.edges@)
}

fn uuid_or_nil(ids: &HashMap<u32, Uuid>, id: u32) -> (found: Uuid)
    ensures
        found == uuid_at(ids@, id),
{
    match ids.get(&id) {
        Some(found) => *found,
        None => Uuid::nil(),
    }
}

fn clone_ports(ports: &HashMap<u32, Vec<u32>>, id: u32) -> (copy: Vec<u32>)
    ensures
        copy@ == list_at(lists(ports@), id),
{
    let mut copy: Vec<u32> = Vec::new();
    match ports.get(&id) {
        Some(list) => {
            let mut i: usize = 0;
            while i < list.len()
                invariant
                    i <= list.len(),
                    copy@ == list@.take(i as int),
                decreases list.len() - i,
            {
                copy.push(list[i]);
                assert(list@.take(i + 1) =~= list@.take(i as int).push(list@[i as int]));
                i = i + 1;
            }
            assert(copy@ =~= list@);
        },
        None => {},
    }
    copy
}

/// Builds the view of one vertex in the given phase.
pub fn node_appearance(
    topology: &SunTopology,
    id: u32,
    state: SunNodeState,
    grad_step: usize,
) -> (node: SunNodeAppearance)
    ensures
        shows_vertex(*topology, node, id, state, grad_step),
{
    let label: String = match topology.node_labels.get(&id) {
        Some(label) => label.clone(),
        None => {
            let mut label = "cell ".to_owned();
            label.append(decimal_string(id as u64).as_str());
            label
        },
    };
    let state_sequence: u64 = match topology.node_state_sequences.get(&id) {
        Some(sequence) => *sequence,
        None => 0,
    };
    let operational_state: SunOperationalState = match topology.node_operational_states.get(&id) {
        Some(state) => *state,
        None => SunOperationalState::Queued,
    };
    let phase_annotation: Option<String> = match topology.node_phase_annotations.get(&id) {
        Some(text) => Some(text.clone()),
        None => None,
    };
    SunNodeAppearance {
        id,
        journey_id: uuid_or_nil(&topology.journey_ids, id),
        warp_journey_id: uuid_or_nil(&topology.warp_journey_ids, id),
        label,
        input_ports: clone_ports(&topology.vertex_ports, id),
        state,
        state_sequence,
        grad_step,
        operational_state,
        phase_annotation,
    }
}

fn precedes(a: &SunEdgeAppearance, b: &SunEdgeAppearance) -> (before: bool)
    ensures
        before == edge_precedes(*a, *b),
{
    a.source < b.source || (a.source == b.source && a.target < b.target) || (a.source == b.source
        && a.target == b.target && a.target_port < b.target_port)
}

/// Puts an edge at its place, unless it is there already.
fn insert_edge(edges: &mut Vec<SunEdgeAppearance>, edge: SunEdgeAppearance)
    requires
        edges_ordered(old(edges)@),
    ensures
        edges_ordered(final(edges)@),
        forall|e: SunEdgeAppearance| #[trigger]
            final(edges)@.contains(e) <==> old(edges)@.contains(e) || e == edge,
{
    let mut at: usize = edges.len();
    while at > 0 && precedes(&edge, &edges[at - 1])
        invariant
            at <= edges.len(),
            edges@ == old(edges)@,
            edges_ordered(edges@),
            forall|i: int|
                #![trigger edges@[i]]
                at <= i < edges.len() ==> edge_precedes(edge, edges@[i]),
        decreases at,
    {
        at = at - 1;
    }
    if at > 0 && edges[at - 1] == edge {
        assert(edges@[at - 1] == edge);
        return;
    }
    let ghost before = edges@;
    assert(at > 0 ==> edge_precedes(before[at - 1], edge));
    edges.insert(at, edge);
    proof {
        let after = edges@;
        assert forall|e: SunEdgeAppearance| #[trigger] after.contains(e) <==> before.contains(e)
            || e == edge by {
            if before.contains(e) {
                let i = choose|i: int| 0 <= i < before.len() && before[i] == e;
                if i < at {
                    assert(after[i] == e);
                } else {
                    assert(after[i + 1] == e);
                }
            }
            if e == edge {
                assert(after[at as int] == e);
            }
            if after.contains(e) && e != edge {
                let i = choose|i: int| 0 <= i < after.len() && after[i] == e;
                if i < at {
                    assert(before[i] == e);
                } else {
                    assert(before[i - 1] == e);
                }
            }
        }
        assert forall|i: int, j: int|
            #![trigger after[i], after[j]]
            0 <= i < j < after.len() implies edge_precedes(after[i], after[j]) by {
            if j < at {
                assert(edge_precedes(before[i], before[j]));
            } else if j == at {
                if i < at - 1 {
                    assert(edge_precedes(before[i], before[at - 1]));
                }
            } else if i == at {
                assert(edge_precedes(edge, before[j - 1]));
            } else if i < at {
                assert(edge_precedes(before[i], before[j - 1]));
            } else {
                assert(edge_precedes(before[i - 1], before[j - 1]));
            }
        }
    }
}

/// Builds the ordered view of the resolved edges.
pub fn edge_appearances(topology: &SunTopology) -> (edges: Vec<SunEdgeAppearance>)
    ensures
        shows_edges(topology.outgoing_edges(), edges@),
{
    let sources = sorted_keys(&topology.outgoing);
    let ghost out = topology.outgoing_edges();
    let mut edges: Vec<SunEdgeAppearance> = Vec::new();
    let mut i: usize = 0;
    while i < sources.len()
        invariant
            i <= sources.len(),
            out == topology.outgoing_edges(),
            sources@.to_set() == topology.outgoing@.dom(),
            edges_ordered(edges@),
            forall|edge: SunEdgeAppearance| #[trigger]
                edges@.contains(edge) <==> sources@.take(i as int).contains(edge.source)
                    && is_edge(out, edge),
        decreases sources.len() - i,
    {
        let source = sources[i];
        let ghost seen = sources@.take(i as int);
        let ghost known = edges@;
        proof {
            assert(sources@.contains(source));
            assert(sources@.to_set().contains(source));
            assert(sources@.take(i + 1) =~= seen.push(source));
            crate::collections::lemma_push_set(seen, source);
            assert forall|x: u32|
                #![trigger sources@.take(i + 1).contains(x)]
                sources@.take(i + 1).contains(x) <==> seen.contains(x) || x == source by {
                assert(sources@.take(i + 1).to_set().contains(x) <==> seen.to_set().contains(x) || x
                    == source);
            }
        }
        let targets = topology.outgoing.get(&source).unwrap();
        assert(out[source] == targets@);
        let mut j: usize = 0;
        while j < targets.len()
            invariant
                j <= targets.len(),
                edges_ordered(edges@),
                forall|edge: SunEdgeAppearance| #[trigger]
                    edges@.contains(edge) <==> known.contains(edge) || (edge.source == source
                        && targets@.take(j as int).contains(
                        PortTarget { port_id: edge.target_port, vertex_id: edge.target },
                    )),
            decreases targets.len() - j,
        {
            let target = targets[j];
            let ghost before = edges@;
            let ghost passed = targets@.take(j as int);
            let edge = SunEdgeAppearance {
                source,
                target: target.vertex_id,
                target_port: target.port_id,
            };
            insert_edge(&mut edges, edge);
            proof {
                assert(targets@.take(j + 1) =~= passed.push(target));
                crate::collections::lemma_push_set(passed, target);
                assert forall|e: SunEdgeAppearance| #[trigger] edges@.contains(e) <==> known.contains(
                    e,
                ) || (e.source == source && targets@.take(j + 1).contains(
                    PortTarget { port_id: e.target_port, vertex_id: e.target },
                )) by {
                    let shown = PortTarget { port_id: e.target_port, vertex_id: e.target };
                    assert(targets@.take(j + 1).to_set().contains(shown) <==> passed.to_set().contains(
                        shown,
                    ) || shown == target);
                    assert(before.contains(e) <==> known.contains(e) || (e.source == source
                        && passed.contains(shown)));
                }
            }
            j = j + 1;
        }
        proof {
            assert(targets@.take(j as int) =~= targets@);
            assert forall|edge: SunEdgeAppearance| #[trigger] edges@.contains(edge)
                <==> sources@.take(i + 1).contains(edge.source) && is_edge(out, edge) by {
                assert(known.contains(edge) <==> seen.contains(edge.source) && is_edge(out, edge));
            }
        }
        i = i + 1;
    }
    proof {
        assert(sources@.take(i as int) =~= sources@);
        assert forall|edge: SunEdgeAppearance| #[trigger] edges@.contains(edge) <==> is_edge(
            out,
            edge,
        ) by {
            assert(sources@.to_set().contains(edge.source) <==> out.contains_key(edge.source));
        }
    }
    edges
}

impl SunTopology {
    /// Builds a deterministic view of the resolved graph.
    ///
    /// Node phase and gradient-step detail is strategy-specific and lives in
    /// each program's state; this view carries only what every Sun shares: the
    /// resolved nodes, their labels and ports, whatever operational state has
    /// been recorded on the topology, and the edges.
    pub fn appearance(&self) -> (shown: SunAppearance)
        ensures
            shows_topology(*self, shown),
    {
        let ids = sorted_keys(&self.journey_ids);
        let mut nodes: Vec<SunNodeAppearance> = Vec::new();
        let mut i: usize = 0;
        while i < ids.len()
            invariant
                i <= ids.len(),
                nodes.len() == i,
                forall|j: int|
                    #![trigger nodes@[j]]
                    0 <= j < i ==> shows_vertex(*self, nodes@[j], ids@[j], SunNodeState::Idle, 1),
            decreases ids.len() - i,
        {
            nodes.push(node_appearance(self, ids[i], SunNodeState::Idle, 1));
            i = i + 1;
        }
        SunAppearance {
            finalized: self.finalized,
            grad_steps: 1,
            nodes,
            edges: edge_appearances(self),
        }
    }
}

/// Two views of the same edges are equal: the view does not depend on how the
/// adjacency map is laid out.
pub proof fn law_edge_view_is_deterministic(
    outgoing: OutgoingEdges,
    a: Seq<SunEdgeAppearance>,
    b: Seq<SunEdgeAppearance>,
)
    requires
        shows_edges(outgoing, a),
        shows_edges(outgoing, b),
    ensures
        a == b,
{
    lemma_ordered_edges_unique(a, b);
}

proof fn lemma_ordered_edges_unique(a: Seq<SunEdgeAppearance>, b: Seq<SunEdgeAppearance>)
    requires
        edges_ordered(a),
        edges_ordered(b),
        forall|edge: SunEdgeAppearance| #[trigger] a.contains(edge) <==> b.contains(edge),
    ensures
        a == b,
    decreases a.len(),
{
    if a.len() == 0 {
        if b.len() > 0 {
            assert(b.contains(b[0]));
            assert(a.contains(b[0]));
        }
        assert(a =~= b);
    } else {
        assert(a.contains(a.last()));
        assert(b.contains(a.last()));
        assert(b.contains(b.last()));
        assert(a.contains(b.last()));
        let i = choose|i: int| 0 <= i < a.len() && a[i] == b.last();
        let j = choose|j: int| 0 <= j < b.len() && b[j] == a.last();
        if i < a.len() - 1 && j < b.len() - 1 {
            assert(edge_precedes(a[i], a[a.len() - 1]));
            assert(edge_precedes(b[j], b[b.len() - 1]));
        }
        assert(a.last() == b.last());
        let a1 = a.drop_last();
        let b1 = b.drop_last();
        assert forall|edge: SunEdgeAppearance| #[trigger] a1.contains(edge) <==> b1.contains(
            edge,
        ) by {
            if a1.contains(edge) {
                let k = choose|k: int| 0 <= k < a1.len() && a1[k] == edge;
                assert(a[k] == edge);
                assert(edge_precedes(a[k], a[a.len() - 1]));
                assert(a.contains(edge));
                assert(b.contains(edge));
                let m = choose|m: int| 0 <= m < b.len() && b[m] == edge;
                assert(b1[m] == edge);
            }
            if b1.contains(edge) {
                let k = choose|k: int| 0 <= k < b1.len() && b1[k] == edge;
                assert(b[k] == edge);
                assert(edge_precedes(b[k], b[b.len() - 1]));
                assert(b.contains(edge));
                assert(a.contains(edge));
                let m = choose|m: int| 0 <= m < a.len() && a[m] == edge;
                assert(a1[m] == edge);
            }
        }
        lemma_ordered_edges_unique(a1, b1);
        assert(a =~= a1.push(a.last()));
        assert(b =~= b1.push(b.last()));
    }
}

} // verus!
