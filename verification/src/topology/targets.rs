//! The mailboxes needed to drive nodes through one pass.

use std::collections::HashMap;

use vstd::prelude::*;

use crate::collections::{ascending, lemma_ascending_lists, lemma_take_next, sorted_keys};
use crate::ids::ObjectId;
use crate::topology::graph::{list_at, lists};
use crate::topology::{PropagationTarget, SunTopology};

verus! {

broadcast use vstd::std_specs::hash::group_hash_axioms;

/// The mailboxes of one pass: where each port listens, where it listens next,
/// and where each node publishes.
#[verifier::ext_equal]
pub ghost struct PassMailboxes {
    pub inputs: Map<u32, ObjectId>,
    pub next_inputs: Map<u32, ObjectId>,
    pub outputs: Map<u32, ObjectId>,
}

/// The target for `port` of `node`, when all of its mailboxes are known.
pub open spec fn target_at(boxes: PassMailboxes, node: u32, port: u32) -> Option<
    PropagationTarget,
> {
    if boxes.inputs.contains_key(port) && boxes.next_inputs.contains_key(port)
        && boxes.outputs.contains_key(node) {
        Some(
            PropagationTarget {
                node_id: node,
                port_id: port,
                input_id: boxes.inputs[port],
                next_input_id: boxes.next_inputs[port],
                output_id: boxes.outputs[node],
            },
        )
    } else {
        None
    }
}

/// The target for a port, on behalf of the vertex that owns it.
pub open spec fn owned_target(topology: SunTopology, boxes: PassMailboxes, port: u32) -> Option<
    PropagationTarget,
> {
    if topology.port_vertices@.contains_key(port) {
        target_at(boxes, topology.port_vertices@[port], port)
    } else {
        None
    }
}

/// The items that are there, in order.
pub open spec fn somes<A>(items: Seq<Option<A>>) -> Seq<A>
    decreases items.len(),
{
    if items.len() == 0 {
        Seq::empty()
    } else {
        match items.last() {
            Some(item) => somes(items.drop_last()).push(item),
            None => somes(items.drop_last()),
        }
    }
}

/// A vertex without recorded sources.
pub open spec fn is_root(topology: SunTopology, vertex: u32) -> bool {
    list_at(topology.incoming_edges(), vertex).len() == 0
}

/// The vertices without sources among `vertices`, each with each of its ports.
pub open spec fn root_ports(topology: SunTopology, vertices: Seq<u32>) -> Seq<(u32, u32)>
    decreases vertices.len(),
{
    if vertices.len() == 0 {
        Seq::empty()
    } else {
        let vertex = vertices.last();
        root_ports(topology, vertices.drop_last()) + if is_root(topology, vertex) {
            list_at(lists(topology.vertex_ports@), vertex).map_values(|port: u32| (vertex, port))
        } else {
            Seq::empty()
        }
    }
}

/// The target for one root port: of the vertex it is listed with, or of the
/// vertex that owns it.
pub open spec fn root_target(
    topology: SunTopology,
    boxes: PassMailboxes,
    by_owner: bool,
    entry: (u32, u32),
) -> Option<PropagationTarget> {
    if by_owner {
        owned_target(topology, boxes, entry.1)
    } else {
        target_at(boxes, entry.0, entry.1)
    }
}

/// The targets of all root ports whose mailboxes are known.
pub open spec fn root_targets_of(
    topology: SunTopology,
    boxes: PassMailboxes,
    by_owner: bool,
) -> Seq<PropagationTarget> {
    somes(
        root_ports(topology, ascending(topology.vertex_ports@.dom())).map_values(
            |entry: (u32, u32)| root_target(topology, boxes, by_owner, entry),
        ),
    )
}

/// Targets are ordered by node, then port.
pub open spec fn target_le(a: PropagationTarget, b: PropagationTarget) -> bool {
    a.node_id < b.node_id || (a.node_id == b.node_id && a.port_id <= b.port_id)
}

/// In ascending order of node and port.
pub open spec fn targets_ordered(targets: Seq<PropagationTarget>) -> bool {
    forall|i: int, j: int|
        #![trigger targets[i], targets[j]]
        0 <= i <= j < targets.len() ==> target_le(targets[i], targets[j])
}

/// `sorted` holds the same targets as `targets`, in ascending order.
pub open spec fn sorted_targets(
    targets: Seq<PropagationTarget>,
    sorted: Seq<PropagationTarget>,
) -> bool {
    &&& targets_ordered(sorted)
    &&& sorted.to_multiset() == targets.to_multiset()
}

/// Looks up the mailboxes of `port` and `node`.
pub fn lookup_target(
    inputs: &HashMap<u32, ObjectId>,
    next_inputs: &HashMap<u32, ObjectId>,
    outputs: &HashMap<u32, ObjectId>,
    node: u32,
    port: u32,
) -> (target: Option<PropagationTarget>)
    ensures
        target == target_at(
            PassMailboxes { inputs: inputs@, next_inputs: next_inputs@, outputs: outputs@ },
            node,
            port,
        ),
{
    match (inputs.get(&port), next_inputs.get(&port), outputs.get(&node)) {
        (Some(input_id), Some(next_input_id), Some(output_id)) => Some(
            PropagationTarget {
                node_id: node,
                port_id: port,
                input_id: *input_id,
                next_input_id: *next_input_id,
                output_id: *output_id,
            },
        ),
        _ => None,
    }
}

/// Looks up the mailboxes of `port` and of the vertex that owns it.
pub fn lookup_owned_target(
    topology: &SunTopology,
    inputs: &HashMap<u32, ObjectId>,
    next_inputs: &HashMap<u32, ObjectId>,
    outputs: &HashMap<u32, ObjectId>,
    port: u32,
) -> (target: Option<PropagationTarget>)
    ensures
        target == owned_target(
            *topology,
            PassMailboxes { inputs: inputs@, next_inputs: next_inputs@, outputs: outputs@ },
            port,
        ),
{
    match topology.port_vertices.get(&port) {
        Some(node) => lookup_target(inputs, next_inputs, outputs, *node, port),
        None => None,
    }
}

/// Puts a target at its place.
fn insert_target(targets: &mut Vec<PropagationTarget>, target: PropagationTarget)
    requires
        targets_ordered(old(targets)@),
    ensures
        targets_ordered(final(targets)@),
        final(targets)@.to_multiset() == old(targets)@.to_multiset().insert(target),
{
    let mut at: usize = targets.len();
    while at > 0 && (target.node_id < targets[at - 1].node_id || (target.node_id
        == targets[at - 1].node_id && target.port_id < targets[at - 1].port_id))
        invariant
            at <= targets.len(),
            targets@ == old(targets)@,
            targets_ordered(targets@),
            forall|i: int|
                #![trigger targets@[i]]
                at <= i < targets.len() ==> target_le(target, targets@[i]),
        decreases at,
    {
        at = at - 1;
    }
    let ghost before = targets@;
    assert(at > 0 ==> target_le(before[at - 1], target));
    targets.insert(at, target);
    proof {
        let after = targets@;
        assert(after =~= before.insert(at as int, target));
        vstd::seq_lib::to_multiset_insert(before, at as int, target);
        assert forall|i: int, j: int|
            #![trigger after[i], after[j]]
            0 <= i <= j < after.len() implies target_le(after[i], after[j]) by {
            if j < at {
                assert(target_le(before[i], before[j]));
            } else if j == at {
                if i < at {
                    assert(target_le(before[i], before[at - 1]));
                }
            } else if i == at {
                assert(target_le(target, before[j - 1]));
            } else if i < at {
                assert(target_le(before[i], before[j - 1]));
            } else {
                assert(target_le(before[i - 1], before[j - 1]));
            }
        }
    }
}

/// The values of a list with one more entry.
pub proof fn lemma_somes_push<A>(items: Seq<Option<A>>, item: Option<A>)
    ensures
        somes(items.push(item)) == match item {
            Some(value) => somes(items).push(value),
            None => somes(items),
        },
{
    assert(items.push(item).drop_last() =~= items);
}

/// The targets of all root ports whose mailboxes are known, in ascending
/// order of node and port.
pub fn collect_root_targets(
    topology: &SunTopology,
    inputs: &HashMap<u32, ObjectId>,
    next_inputs: &HashMap<u32, ObjectId>,
    outputs: &HashMap<u32, ObjectId>,
    by_owner: bool,
) -> (targets: Vec<PropagationTarget>)
    ensures
        sorted_targets(
            root_targets_of(
                *topology,
                PassMailboxes { inputs: inputs@, next_inputs: next_inputs@, outputs: outputs@ },
                by_owner,
            ),
            targets@,
        ),
{
    let ghost boxes = PassMailboxes {
        inputs: inputs@,
        next_inputs: next_inputs@,
        outputs: outputs@,
    };
    let ghost resolve = |entry: (u32, u32)| root_target(*topology, boxes, by_owner, entry);
    let vertices = sorted_keys(&topology.vertex_ports);
    let mut targets: Vec<PropagationTarget> = Vec::new();
    let mut i: usize = 0;
    proof {
        assert(vertices@.take(0) =~= Seq::empty());
        assert(root_ports(*topology, Seq::empty()).map_values(resolve) =~= Seq::empty());
        assert(targets@ =~= Seq::empty());
    }
    while i < vertices.len()
        invariant
            i <= vertices.len(),
            boxes == (PassMailboxes {
                inputs: inputs@,
                next_inputs: next_inputs@,
                outputs: outputs@,
            }),
            resolve == (|entry: (u32, u32)| root_target(*topology, boxes, by_owner, entry)),
            vertices@.to_set() == topology.vertex_ports@.dom(),
            targets_ordered(targets@),
            targets@.to_multiset() == somes(
                root_ports(*topology, vertices@.take(i as int)).map_values(resolve),
            ).to_multiset(),
        decreases vertices.len() - i,
    {
        let vertex = vertices[i];
        let ghost before = root_ports(*topology, vertices@.take(i as int));
        let ghost listed = list_at(lists(topology.vertex_ports@), vertex).map_values(
            |port: u32| (vertex, port),
        );
        proof {
            assert(vertices@.contains(vertex));
            assert(vertices@.to_set().contains(vertex));
            lemma_take_next(vertices@, i as int);
        }
        let root: bool = match topology.incoming.get(&vertex) {
            Some(sources) => sources.len() == 0,
            None => true,
        };
        if root {
            let ports = topology.vertex_ports.get(&vertex).unwrap();
            let mut j: usize = 0;
            proof {
                assert(before + listed.take(0) =~= before);
            }
            while j < ports.len()
                invariant
                    j <= ports.len(),
                    boxes == (PassMailboxes {
                        inputs: inputs@,
                        next_inputs: next_inputs@,
                        outputs: outputs@,
                    }),
                    resolve == (|entry: (u32, u32)|
                        root_target(*topology, boxes, by_owner, entry)),
                    listed == ports@.map_values(|port: u32| (vertex, port)),
                    targets_ordered(targets@),
                    targets@.to_multiset() == somes(
                        (before + listed.take(j as int)).map_values(resolve),
                    ).to_multiset(),
                decreases ports.len() - j,
            {
                let port = ports[j];
                let found = if by_owner {
                    lookup_owned_target(topology, inputs, next_inputs, outputs, port)
                } else {
                    lookup_target(inputs, next_inputs, outputs, vertex, port)
                };
                proof {
                    let sofar = (before + listed.take(j as int)).map_values(resolve);
                    lemma_take_next(listed, j as int);
                    assert((before + listed.take(j + 1)).map_values(resolve) =~= sofar.push(found));
                    lemma_somes_push(sofar, found);
                    if found is Some {
                        vstd::seq_lib::to_multiset_build(somes(sofar), found->0);
                    }
                }
                match found {
                    Some(target) => {
                        insert_target(&mut targets, target);
                    },
                    None => {},
                }
                j = j + 1;
            }
            proof {
                assert(listed.take(j as int) =~= listed);
            }
        } else {
            assert(before + Seq::<(u32, u32)>::empty() =~= before);
        }
        i = i + 1;
    }
    assert(vertices@.take(i as int) =~= vertices@);
    targets
}

/// The items that are there are exactly those that are listed as there.
pub proof fn lemma_somes_contains<A>(items: Seq<Option<A>>, item: A)
    ensures
        somes(items).contains(item) <==> items.contains(Some(item)),
    decreases items.len(),
{
    if items.len() > 0 {
        let rest = items.drop_last();
        lemma_somes_contains(rest, item);
        assert(items =~= rest.push(items.last()));
        if somes(items).contains(item) {
            let i = choose|i: int| 0 <= i < somes(items).len() && somes(items)[i] == item;
            if i < somes(rest).len() {
                assert(somes(rest)[i] == item);
                let k = choose|k: int| 0 <= k < rest.len() && rest[k] == Some(item);
                assert(items[k] == Some(item));
            } else {
                assert(items[items.len() - 1] == Some(item));
            }
        }
        if items.contains(Some(item)) {
            let k = choose|k: int| 0 <= k < items.len() && items[k] == Some(item);
            if k < rest.len() {
                assert(rest[k] == Some(item));
                let i = choose|i: int| 0 <= i < somes(rest).len() && somes(rest)[i] == item;
                assert(somes(items)[i] == item);
            } else {
                assert(somes(items)[somes(items).len() - 1] == item);
            }
        }
    }
}

proof fn lemma_root_ports(topology: SunTopology, vertices: Seq<u32>, entry: (u32, u32))
    ensures
        root_ports(topology, vertices).contains(entry) <==> vertices.contains(entry.0) && is_root(
            topology,
            entry.0,
        ) && list_at(lists(topology.vertex_ports@), entry.0).contains(entry.1),
    decreases vertices.len(),
{
    if vertices.len() > 0 {
        let rest = vertices.drop_last();
        let vertex = vertices.last();
        let before = root_ports(topology, rest);
        let ports = list_at(lists(topology.vertex_ports@), vertex);
        let listed = ports.map_values(|port: u32| (vertex, port));
        let all = root_ports(topology, vertices);
        lemma_root_ports(topology, rest, entry);
        if all.contains(entry) {
            let i = choose|i: int| 0 <= i < all.len() && all[i] == entry;
            if i < before.len() {
                assert(before[i] == entry);
                let k = choose|k: int| 0 <= k < rest.len() && rest[k] == entry.0;
                assert(vertices[k] == entry.0);
            } else {
                assert(listed[i - before.len()] == entry);
                assert(ports[i - before.len()] == entry.1);
                assert(vertices[vertices.len() - 1] == entry.0);
            }
        }
        if vertices.contains(entry.0) && is_root(topology, entry.0) && list_at(
            lists(topology.vertex_ports@),
            entry.0,
        ).contains(entry.1) {
            let k = choose|k: int| 0 <= k < vertices.len() && vertices[k] == entry.0;
            if k < rest.len() {
                assert(rest[k] == entry.0);
                let i = choose|i: int| 0 <= i < before.len() && before[i] == entry;
                assert(all[i] == entry);
            } else {
                let j = choose|j: int| 0 <= j < ports.len() && ports[j] == entry.1;
                assert(listed[j] == entry);
                assert(all[before.len() + j] == entry);
            }
        }
    }
}

/// A root target is a port of a vertex without sources.
pub proof fn lemma_root_targets(
    topology: SunTopology,
    boxes: PassMailboxes,
    target: PropagationTarget,
)
    requires
        root_targets_of(topology, boxes, false).contains(target),
    ensures
        is_root(topology, target.node_id),
        list_at(lists(topology.vertex_ports@), target.node_id).contains(target.port_id),
        target_at(boxes, target.node_id, target.port_id) == Some(target),
{
    let entries = root_ports(topology, ascending(topology.vertex_ports@.dom()));
    let found = entries.map_values(
        |entry: (u32, u32)| root_target(topology, boxes, false, entry),
    );
    lemma_somes_contains(found, target);
    let k = choose|k: int| 0 <= k < found.len() && found[k] == Some(target);
    assert(entries.contains(entries[k]));
    lemma_root_ports(topology, ascending(topology.vertex_ports@.dom()), entries[k]);
}

/// A port of a vertex without sources is a root target.
pub proof fn lemma_root_target_listed(
    topology: SunTopology,
    boxes: PassMailboxes,
    by_owner: bool,
    node: u32,
    port: u32,
)
    requires
        topology.vertex_ports@.contains_key(node),
        topology.vertex_ports@[node]@.contains(port),
        is_root(topology, node),
        root_target(topology, boxes, by_owner, (node, port)) is Some,
    ensures
        root_targets_of(topology, boxes, by_owner).contains(
            root_target(topology, boxes, by_owner, (node, port))->0,
        ),
{
    let order = ascending(topology.vertex_ports@.dom());
    let entries = root_ports(topology, order);
    let found = entries.map_values(
        |entry: (u32, u32)| root_target(topology, boxes, by_owner, entry),
    );
    let target = root_target(topology, boxes, by_owner, (node, port))->0;
    lemma_ascending_lists(topology.vertex_ports@.dom());
    assert(order.to_set().contains(node));
    lemma_root_ports(topology, order, (node, port));
    let k = choose|k: int| 0 <= k < entries.len() && entries[k] == (node, port);
    assert(found[k] == Some(target));
    assert(found.contains(Some(target)));
    lemma_somes_contains(found, target);
}

/// A root target taken by owner is a port listed at a vertex without sources.
pub proof fn lemma_owned_root_targets(
    topology: SunTopology,
    boxes: PassMailboxes,
    target: PropagationTarget,
) -> (root: u32)
    requires
        root_targets_of(topology, boxes, true).contains(target),
    ensures
        is_root(topology, root),
        list_at(lists(topology.vertex_ports@), root).contains(target.port_id),
        owned_target(topology, boxes, target.port_id) == Some(target),
{
    let entries = root_ports(topology, ascending(topology.vertex_ports@.dom()));
    let found = entries.map_values(
        |entry: (u32, u32)| root_target(topology, boxes, true, entry),
    );
    lemma_somes_contains(found, target);
    let k = choose|k: int| 0 <= k < found.len() && found[k] == Some(target);
    assert(entries.contains(entries[k]));
    lemma_root_ports(topology, ascending(topology.vertex_ports@.dom()), entries[k]);
    entries[k].0
}

} // verus!
