//! Where the deliveries of forward passes go: who is sent what, where the
//! receiver publishes, and where it listens next.

use std::collections::HashMap;

use vstd::prelude::*;

use crate::collections::{ascending, lemma_ascending_lists};
use crate::forward::effect::{
    deliveries_for, delivery_for, send_deliveries, target_nodes, AddressedDelivery,
    RootArtifactDeliverySend, SchedulerDelivery,
};
use crate::forward::pass::{edge_targets, endpoints_of, pass_mailboxes, pass_prepared};
use crate::forward::pipeline::{
    has_target, mailboxes_fit, next_task, pipeline_advanced, pipeline_prepared, pipeline_ready,
    ready_addressable, roots_addressable, sends_counted, sends_to, sends_to_all, target_of,
    task_endpoint, task_ready, task_targets, unsent_task, PipelineMailboxes,
};
use crate::forward::{ForwardRuntime, ForwardSunState};
use crate::ids::ObjectId;
use crate::message::ArtifactDelivery;
use crate::topology::frontier::{count_at, roots};
use crate::topology::graph::{list_at, lists, occurrences};
use crate::topology::targets::{
    lemma_root_target_listed, lemma_root_targets, lemma_somes_contains, root_target,
    root_targets_of, somes, sorted_targets, target_at,
};
use crate::topology::{PortTarget, PropagationTarget};

verus! {

broadcast use vstd::std_specs::hash::group_hash_axioms;

/// The delivery is put where its port listens in this pass, tells the node to
/// publish where the scheduler waits for it, and tells the port to listen next
/// where the next request will come. It carries the emission on.
pub open spec fn wired<S>(
    runtime: ForwardRuntime<S>,
    sent: AddressedDelivery,
    artifact: ArtifactDelivery,
) -> bool {
    &&& runtime.inputs@.contains_key(sent.port_id)
    &&& runtime.inputs@[sent.port_id] == sent.mailbox
    &&& runtime.outputs@.contains_key(sent.node_id)
    &&& runtime.outputs@[sent.node_id] == sent.delivery.send
    &&& runtime.next_inputs@.contains_key(sent.port_id)
    &&& runtime.next_inputs@[sent.port_id] == sent.delivery.recv
    &&& sent.delivery.emission_id == artifact.emission_id
}

/// The mailboxes that a delivery to `port` of `node` needs are known.
pub open spec fn reachable<S>(runtime: ForwardRuntime<S>, node: u32, port: u32) -> bool {
    runtime.inputs@.contains_key(port) && runtime.next_inputs@.contains_key(port)
        && runtime.outputs@.contains_key(node)
}

/// A planned delivery goes to `port` of `node`.
pub open spec fn goes_to(sent: AddressedDelivery, node: u32, port: u32) -> bool {
    sent.node_id == node && sent.port_id == port
}

/// The artifact of a pass is sent to the ports of the vertices without
/// sources and to no other, each delivery wired to the mailboxes of the pass.
pub proof fn law_root_deliveries_are_wired<S>(
    state: ForwardSunState<S>,
    targets: Seq<PropagationTarget>,
    artifact: ArtifactDelivery,
    i: int,
)
    requires
        sorted_targets(
            root_targets_of(state.topology, pass_mailboxes(state.runtime), false),
            targets,
        ),
        0 <= i < deliveries_for(targets, artifact).len(),
    ensures
        ({
            let sent = deliveries_for(targets, artifact)[i];
            &&& wired(state.runtime, sent, artifact)
            &&& list_at(state.topology.incoming_edges(), sent.node_id).len() == 0
            &&& list_at(lists(state.topology.vertex_ports@), sent.node_id).contains(sent.port_id)
            &&& target_nodes(targets).contains(sent.node_id)
        }),
{
    let found = root_targets_of(state.topology, pass_mailboxes(state.runtime), false);
    let target = targets[i];
    targets.to_multiset_ensures();
    found.to_multiset_ensures();
    assert(targets.contains(target));
    assert(targets.to_multiset().count(target) > 0);
    assert(found.to_multiset().count(target) > 0);
    assert(found.contains(target));
    lemma_root_targets(state.topology, pass_mailboxes(state.runtime), target);
    assert(targets.map_values(|t: PropagationTarget| t.node_id)[i] == target.node_id);
}

/// Every port of every vertex without sources whose mailboxes are known is
/// sent the artifact of the pass.
pub proof fn law_every_root_port_is_sent_to<S>(
    state: ForwardSunState<S>,
    targets: Seq<PropagationTarget>,
    artifact: ArtifactDelivery,
    node: u32,
    port: u32,
) -> (i: int)
    requires
        sorted_targets(
            root_targets_of(state.topology, pass_mailboxes(state.runtime), false),
            targets,
        ),
        state.topology.vertex_ports@.contains_key(node),
        state.topology.vertex_ports@[node]@.contains(port),
        list_at(state.topology.incoming_edges(), node).len() == 0,
        reachable(state.runtime, node, port),
    ensures
        0 <= i < deliveries_for(targets, artifact).len(),
        goes_to(deliveries_for(targets, artifact)[i], node, port),
        wired(state.runtime, deliveries_for(targets, artifact)[i], artifact),
{
    let boxes = pass_mailboxes(state.runtime);
    let found = root_targets_of(state.topology, boxes, false);
    let target = target_at(boxes, node, port)->0;
    lemma_root_target_listed(state.topology, boxes, false, node, port);
    assert(root_target(state.topology, boxes, false, (node, port)) == Some(target));
    targets.to_multiset_ensures();
    found.to_multiset_ensures();
    assert(found.contains(target));
    assert(found.to_multiset().count(target) > 0);
    assert(targets.to_multiset().count(target) > 0);
    assert(targets.contains(target));
    let i = choose|i: int| 0 <= i < targets.len() && targets[i] == target;
    i
}

/// What a node publishes is forwarded along its edges and nowhere else, each
/// delivery wired to the mailboxes of the pass.
pub proof fn law_forwarded_deliveries_are_wired<S>(
    state: ForwardSunState<S>,
    node: u32,
    published: ArtifactDelivery,
    i: int,
) -> (edge: int)
    requires
        0 <= i < deliveries_for(
            edge_targets(
                pass_mailboxes(state.runtime),
                list_at(state.topology.outgoing_edges(), node),
            ),
            published,
        ).len(),
    ensures
        ({
            let edges = list_at(state.topology.outgoing_edges(), node);
            let sent = deliveries_for(
                edge_targets(pass_mailboxes(state.runtime), edges),
                published,
            )[i];
            &&& 0 <= edge < edges.len()
            &&& goes_to(sent, edges[edge].vertex_id, edges[edge].port_id)
            &&& wired(state.runtime, sent, published)
        }),
{
    let boxes = pass_mailboxes(state.runtime);
    let edges = list_at(state.topology.outgoing_edges(), node);
    let found = edges.map_values(|edge: PortTarget| target_at(boxes, edge.vertex_id, edge.port_id));
    let target = edge_targets(boxes, edges)[i];
    assert(somes(found).contains(target));
    lemma_somes_contains(found, target);
    let edge = choose|k: int| 0 <= k < found.len() && found[k] == Some(target);
    edge
}

/// Every edge whose mailboxes are known is forwarded along.
pub proof fn law_every_edge_is_forwarded_along<S>(
    state: ForwardSunState<S>,
    node: u32,
    published: ArtifactDelivery,
    edge: int,
) -> (i: int)
    requires
        0 <= edge < list_at(state.topology.outgoing_edges(), node).len(),
        reachable(
            state.runtime,
            list_at(state.topology.outgoing_edges(), node)[edge].vertex_id,
            list_at(state.topology.outgoing_edges(), node)[edge].port_id,
        ),
    ensures
        ({
            let edges = list_at(state.topology.outgoing_edges(), node);
            let sends = deliveries_for(
                edge_targets(pass_mailboxes(state.runtime), edges),
                published,
            );
            &&& 0 <= i < sends.len()
            &&& goes_to(sends[i], edges[edge].vertex_id, edges[edge].port_id)
        }),
{
    let boxes = pass_mailboxes(state.runtime);
    let edges = list_at(state.topology.outgoing_edges(), node);
    let found = edges.map_values(|edge: PortTarget| target_at(boxes, edge.vertex_id, edge.port_id));
    let target = found[edge]->0;
    assert(found.contains(Some(target)));
    lemma_somes_contains(found, target);
    let i = choose|i: int| 0 <= i < somes(found).len() && somes(found)[i] == target;
    i
}

/// The scheduler waits for exactly the nodes it lists that have an output
/// mailbox, and for each where its deliveries tell it to publish.
pub proof fn law_scheduler_waits_where_nodes_publish<S>(
    runtime: ForwardRuntime<S>,
    ready: Set<u32>,
    sent: AddressedDelivery,
    artifact: ArtifactDelivery,
)
    requires
        ready.finite(),
        ready.contains(sent.node_id),
        wired(runtime, sent, artifact),
    ensures
        endpoints_of(runtime.outputs@, ascending(ready)).contains(
            (sent.node_id, sent.delivery.send),
        ),
        forall|at: (u32, ObjectId)| #[trigger]
            endpoints_of(runtime.outputs@, ascending(ready)).contains(at) ==> ready.contains(at.0)
                && runtime.outputs@.contains_key(at.0) && runtime.outputs@[at.0] == at.1,
{
    let outputs = runtime.outputs@;
    let order = ascending(ready);
    let found = order.map_values(
        |node: u32|
            if outputs.contains_key(node) {
                Some((node, outputs[node]))
            } else {
                None
            },
    );
    lemma_ascending_lists(ready);
    assert(order.to_set().contains(sent.node_id));
    let k = choose|k: int| 0 <= k < order.len() && order[k] == sent.node_id;
    assert(found[k] == Some((sent.node_id, sent.delivery.send)));
    assert(found.contains(Some((sent.node_id, sent.delivery.send))));
    lemma_somes_contains(found, (sent.node_id, sent.delivery.send));
    assert forall|at: (u32, ObjectId)| #[trigger]
        endpoints_of(outputs, order).contains(at) implies ready.contains(at.0)
        && outputs.contains_key(at.0) && outputs[at.0] == at.1 by {
        lemma_somes_contains(found, at);
        let j = choose|j: int| 0 <= j < found.len() && found[j] == Some(at);
        assert(order.to_set().contains(order[j]));
    }
}

/// The delivery carries artifact `index` of a window: it is put where its port
/// awaits that artifact, tells the node to publish where the scheduler waits
/// for its output of it, and tells the port to listen next where the artifact
/// after it will be put, or where the next window begins.
pub open spec fn wired_in_window<S>(
    state: ForwardSunState<S>,
    sent: AddressedDelivery,
    index: int,
    artifact: ArtifactDelivery,
) -> bool {
    let runtime = state.runtime;
    let inputs = runtime.pipeline_input_ids@;
    let outputs = runtime.pipeline_output_ids@;
    &&& state.topology.port_vertices@.contains_key(sent.port_id)
    &&& state.topology.port_vertices@[sent.port_id] == sent.node_id
    &&& 0 <= index < inputs.len()
    &&& inputs[index]@.contains_key(sent.port_id)
    &&& inputs[index]@[sent.port_id] == sent.mailbox
    &&& index < outputs.len()
    &&& outputs[index]@.contains_key(sent.node_id)
    &&& outputs[index]@[sent.node_id] == sent.delivery.send
    &&& if index + 1 < inputs.len() && inputs[index + 1]@.contains_key(sent.port_id) {
        inputs[index + 1]@[sent.port_id] == sent.delivery.recv
    } else {
        runtime.next_inputs@.contains_key(sent.port_id)
            && runtime.next_inputs@[sent.port_id] == sent.delivery.recv
    }
    &&& sent.delivery.emission_id == artifact.emission_id
}

proof fn lemma_target_is_wired<S>(
    state: ForwardSunState<S>,
    index: int,
    port: u32,
    artifact: ArtifactDelivery,
)
    requires
        has_target(state, index, port),
    ensures
        wired_in_window(state, delivery_for(target_of(state, index, port), artifact), index, artifact),
        delivery_for(target_of(state, index, port), artifact).port_id == port,
{
}

/// What a port is told to listen to next is where the artifact after it is put.
pub proof fn law_window_mailboxes_chain<S>(
    state: ForwardSunState<S>,
    port: u32,
    index: int,
    first: AddressedDelivery,
    a: ArtifactDelivery,
    second: AddressedDelivery,
    b: ArtifactDelivery,
)
    requires
        wired_in_window(state, first, index, a),
        wired_in_window(state, second, index + 1, b),
        first.port_id == port,
        second.port_id == port,
    ensures
        second.mailbox == first.delivery.recv,
{
}

proof fn lemma_sends_to_all<S>(
    state: ForwardSunState<S>,
    root_ids: Seq<u32>,
    send: RootArtifactDeliverySend,
)
    ensures
        sends_to_all(state, root_ids).contains(send) <==> exists|k: int|
            0 <= k < root_ids.len() && sends_to(state, #[trigger] root_ids[k]).contains(send),
    decreases root_ids.len(),
{
    if root_ids.len() > 0 {
        let rest = root_ids.drop_last();
        let before = sends_to_all(state, rest);
        let last = sends_to(state, root_ids.last());
        lemma_sends_to_all(state, rest, send);
        if sends_to_all(state, root_ids).contains(send) {
            let i = choose|i: int|
                0 <= i < sends_to_all(state, root_ids).len() && sends_to_all(state, root_ids)[i]
                    == send;
            if i < before.len() {
                assert(before[i] == send);
                let k = choose|k: int|
                    0 <= k < rest.len() && sends_to(state, #[trigger] rest[k]).contains(send);
                assert(root_ids[k] == rest[k]);
            } else {
                assert(last[i - before.len()] == send);
                assert(root_ids[root_ids.len() - 1] == root_ids.last());
            }
        }
        if exists|k: int|
            0 <= k < root_ids.len() && sends_to(state, #[trigger] root_ids[k]).contains(send) {
            let k = choose|k: int|
                0 <= k < root_ids.len() && sends_to(state, #[trigger] root_ids[k]).contains(send);
            if k < rest.len() {
                assert(rest[k] == root_ids[k]);
                let i = choose|i: int| 0 <= i < before.len() && before[i] == send;
                assert(sends_to_all(state, root_ids)[i] == send);
            } else {
                let i = choose|i: int| 0 <= i < last.len() && last[i] == send;
                assert(sends_to_all(state, root_ids)[before.len() + i] == send);
            }
        }
    }
}

/// A root that has completed `done` artifacts and has been sent no more is sent
/// the next one, at each of its ports; nothing else is sent. Every send carries
/// that artifact and is wired to the mailboxes of the window.
pub proof fn law_window_roots_are_sent_what_is_due<S>(
    state: ForwardSunState<S>,
    root: u32,
    port: u32,
)
    requires
        roots_addressable(state),
        roots(state.topology).contains(root),
        roots(state.topology).finite(),
        state.topology.vertex_ports@.contains_key(root),
        state.topology.vertex_ports@[root]@.contains(port),
    ensures
        ({
            let done = count_at(state.runtime.node_completed@, root);
            let sent = count_at(state.runtime.root_sent@, root);
            let sends = sends_to_all(state, ascending(roots(state.topology)));
            done < state.runtime.pipeline_inputs@.len() && sent <= done ==> exists|i: int| {
                &&& 0 <= i < sends.len()
                &&& goes_to(
                    #[trigger] send_deliveries(sends)[i],
                    state.topology.port_vertices@[port],
                    port,
                )
                &&& wired_in_window(
                    state,
                    send_deliveries(sends)[i],
                    done as int,
                    state.runtime.pipeline_inputs@[done as int],
                )
            }
        }),
{
    let done = count_at(state.runtime.node_completed@, root);
    let already = count_at(state.runtime.root_sent@, root);
    let order = ascending(roots(state.topology));
    let sends = sends_to_all(state, order);
    if done < state.runtime.pipeline_inputs@.len() && already <= done {
        let ports = list_at(lists(state.topology.vertex_ports@), root);
        let j = choose|j: int| 0 <= j < ports.len() && ports[j] == port;
        assert(unsent_task(state.runtime, root) == Some(done as int));
        assert(has_target(state, done as int, ports[j]));
        lemma_ascending_lists(roots(state.topology));
        assert(order.to_set().contains(root));
        let k = choose|k: int| 0 <= k < order.len() && order[k] == root;
        let send = sends_to(state, root)[j];
        assert(sends_to(state, order[k]).contains(send));
        lemma_sends_to_all(state, order, send);
        let i = choose|i: int| 0 <= i < sends.len() && sends[i] == send;
        lemma_target_is_wired(
            state,
            done as int,
            port,
            state.runtime.pipeline_inputs@[done as int],
        );
        assert(goes_to(send_deliveries(sends)[i], state.topology.port_vertices@[port], port));
    }
}

/// Nothing but the next artifact is sent to a root, and only to one that is
/// through with all it was sent.
pub proof fn law_window_roots_are_sent_nothing_else<S>(state: ForwardSunState<S>, i: int) -> (root:
    u32)
    requires
        roots_addressable(state),
        roots(state.topology).finite(),
        0 <= i < sends_to_all(state, ascending(roots(state.topology))).len(),
    ensures
        ({
            let done = count_at(state.runtime.node_completed@, root);
            let already = count_at(state.runtime.root_sent@, root);
            let sent = send_deliveries(sends_to_all(state, ascending(roots(state.topology))))[i];
            &&& roots(state.topology).contains(root)
            &&& list_at(lists(state.topology.vertex_ports@), root).contains(sent.port_id)
            &&& done < state.runtime.pipeline_inputs@.len()
            &&& already <= done
            &&& wired_in_window(
                state,
                sent,
                done as int,
                state.runtime.pipeline_inputs@[done as int],
            )
        }),
{
    let order = ascending(roots(state.topology));
    let sends = sends_to_all(state, order);
    let send = sends[i];
    assert(sends.contains(send));
    lemma_sends_to_all(state, order, send);
    let k = choose|k: int|
        0 <= k < order.len() && sends_to(state, #[trigger] order[k]).contains(send);
    let root = order[k];
    lemma_ascending_lists(roots(state.topology));
    assert(order.to_set().contains(root));
    let ports = list_at(lists(state.topology.vertex_ports@), root);
    let j = choose|j: int|
        0 <= j < sends_to(state, root).len() && sends_to(state, root)[j] == send;
    let done = count_at(state.runtime.node_completed@, root);
    assert(has_target(state, done as int, ports[j]));
    lemma_target_is_wired(
        state,
        done as int,
        ports[j],
        state.runtime.pipeline_inputs@[done as int],
    );
    root
}

/// A ready node that has completed `done` artifacts is awaited where its
/// deliveries of the next one told it to publish, and its output of that
/// artifact is forwarded along each of its edges within the same artifact.
pub proof fn law_window_outputs_follow_edges<S>(
    state: ForwardSunState<S>,
    node: u32,
    published: ArtifactDelivery,
    edge: int,
)
    requires
        ready_addressable(state),
        pipeline_ready(state).contains(node),
        0 <= edge < list_at(state.topology.outgoing_edges(), node).len(),
    ensures
        ({
            let done = count_at(state.runtime.node_completed@, node);
            let edges = list_at(state.topology.outgoing_edges(), node);
            let sends = deliveries_for(task_targets(state, node), published);
            &&& sends.len() == edges.len()
            &&& sends[edge].port_id == edges[edge].port_id
            &&& wired_in_window(state, sends[edge], done as int, published)
            &&& task_endpoint(state.runtime, node) matches Some(at) ==> at.0 == node && at.1
                == state.runtime.pipeline_output_ids@[done as int]@[node]
        }),
{
    let index = next_task(state.runtime, node)->0;
    let edges = list_at(state.topology.outgoing_edges(), node);
    assert(has_target(state, index, edges[edge].port_id));
    lemma_target_is_wired(state, index, edges[edge].port_id, published);
}

/// A node is ready exactly when it has an artifact of the window left, and that
/// artifact was sent to it, where it is a root, or completed by each of its
/// sources.
pub proof fn law_ready_means_artifact_is_there<S>(state: ForwardSunState<S>, node: u32)
    ensures
        pipeline_ready(state).contains(node) <==> {
            let done = count_at(state.runtime.node_completed@, node);
            let sources = list_at(state.topology.incoming_edges(), node);
            &&& state.topology.vertices().contains(node)
            &&& done < state.runtime.pipeline_inputs@.len()
            &&& if sources.len() == 0 {
                count_at(state.runtime.root_sent@, node) > done
            } else {
                forall|i: int|
                    #![trigger sources[i]]
                    0 <= i < sources.len() ==> count_at(state.runtime.node_completed@, sources[i])
                        > done
            }
        },
{
    let sources = list_at(state.topology.incoming_edges(), node);
    let done = count_at(state.runtime.node_completed@, node);
    if state.topology.vertices().contains(node) && done < state.runtime.pipeline_inputs@.len()
        && sources.len() > 0 {
        if task_ready(state, node) {
            assert forall|i: int| #![trigger sources[i]] 0 <= i < sources.len() implies count_at(
                state.runtime.node_completed@,
                sources[i],
            ) > done by {
                assert(list_at(state.topology.incoming_edges(), node)[i] == sources[i]);
            }
        }
        if forall|i: int|
            #![trigger sources[i]]
            0 <= i < sources.len() ==> count_at(state.runtime.node_completed@, sources[i]) > done {
            assert(task_ready(state, node));
        }
    }
}

/// A root counts each artifact it is sent, and is due none until it has
/// completed that one; a root that was sent none counts as before.
pub proof fn law_sent_artifacts_are_counted<S>(
    before: ForwardRuntime<S>,
    after: ForwardRuntime<S>,
    sent: Seq<u32>,
    root: u32,
)
    requires
        sends_counted(before.root_sent@, after.root_sent@, sent),
        after.node_completed == before.node_completed,
        after.pipeline_inputs == before.pipeline_inputs,
        sent.no_duplicates(),
        count_at(before.root_sent@, root) < usize::MAX,
    ensures
        sent.contains(root) ==> count_at(after.root_sent@, root) == count_at(before.root_sent@, root)
            + 1,
        !sent.contains(root) ==> count_at(after.root_sent@, root) == count_at(
            before.root_sent@,
            root,
        ),
        sent.contains(root) && count_at(before.root_sent@, root) == count_at(
            before.node_completed@,
            root,
        ) ==> unsent_task(after, root) is None,
{
    lemma_occurrences_of_distinct(sent, root);
}

proof fn lemma_occurrences_of_distinct(ids: Seq<u32>, id: u32)
    requires
        ids.no_duplicates(),
    ensures
        occurrences(ids, id) == if ids.contains(id) {
            1nat
        } else {
            0
        },
    decreases ids.len(),
{
    if ids.len() > 0 {
        let rest = ids.drop_last();
        lemma_occurrences_of_distinct(rest, id);
        assert(ids[ids.len() - 1] == ids.last());
        if ids.last() == id {
            assert(ids.contains(id));
            if rest.contains(id) {
                let i = choose|i: int| 0 <= i < rest.len() && rest[i] == id;
                assert(ids[i] == ids[ids.len() - 1]);
            }
        } else {
            if ids.contains(id) {
                let i = choose|i: int| 0 <= i < ids.len() && ids[i] == id;
                assert(rest[i] == id);
            }
            if rest.contains(id) {
                let i = choose|i: int| 0 <= i < rest.len() && rest[i] == id;
                assert(ids[i] == id);
            }
        }
    }
}

/// Completing an artifact moves that node on by one and no other, keeps what is
/// published at the sink as the newest output, and touches no mailbox before
/// the window ends.
pub proof fn law_completion_moves_one_node_on<S>(
    before: ForwardSunState<S>,
    after: ForwardSunState<S>,
    completion: SchedulerDelivery,
    other: u32,
)
    requires
        pipeline_advanced(before, after, completion),
        before.runtime.node_completed@.contains_key(completion.node_id),
        before.runtime.node_completed@[completion.node_id] < usize::MAX,
        before.runtime.pipeline_completions < usize::MAX,
        other != completion.node_id,
    ensures
        count_at(after.runtime.node_completed@, completion.node_id) == count_at(
            before.runtime.node_completed@,
            completion.node_id,
        ) + 1,
        count_at(after.runtime.node_completed@, other) == count_at(
            before.runtime.node_completed@,
            other,
        ),
        after.runtime.pipeline_completions == before.runtime.pipeline_completions + 1,
        before.runtime.sink_id == Some(completion.node_id)
            ==> after.runtime.completed_outputs@.len()
            == before.runtime.completed_outputs@.len() + 1
            && after.runtime.completed_outputs@.last() == completion.delivery,
        after.runtime.pipeline_input_ids == before.runtime.pipeline_input_ids,
        after.runtime.pipeline_output_ids == before.runtime.pipeline_output_ids,
        after.runtime.pipeline_inputs == before.runtime.pipeline_inputs,
        after.runtime.root_sent == before.runtime.root_sent,
        after.runtime.pipeline_completions < after.runtime.pipeline_target_completions
            ==> after.runtime.inputs@ == before.runtime.inputs@ && after.runtime.next_inputs@
            == before.runtime.next_inputs@,
        after.topology.outgoing == before.topology.outgoing,
        after.topology.incoming == before.topology.incoming,
{
}

/// A prepared window begins where the ports listen: the first artifact is put
/// at the current inboxes, every artifact has a mailbox for every port and every
/// node, and nothing has been completed or sent.
pub proof fn law_window_begins_at_the_current_inboxes<S>(
    before: ForwardSunState<S>,
    after: ForwardSunState<S>,
    fresh: PipelineMailboxes,
    port: u32,
    node: u32,
    k: int,
)
    requires
        pipeline_prepared(before, after, fresh),
        mailboxes_fit(
            fresh,
            before.topology.port_vertices@.dom(),
            before.topology.vertices(),
            before.runtime.pipeline_inputs@.len(),
        ),
        before.topology.port_vertices@.contains_key(port),
        before.topology.vertices().contains(node),
        0 <= k < before.runtime.pipeline_inputs@.len(),
    ensures
        ({
            let inputs = after.runtime.pipeline_input_ids@;
            let outputs = after.runtime.pipeline_output_ids@;
            &&& inputs.len() == before.runtime.pipeline_inputs@.len()
            &&& outputs.len() == before.runtime.pipeline_inputs@.len()
            &&& inputs[0]@.contains_key(port) && inputs[0]@[port] == before.runtime.inputs@[port]
            &&& inputs[k]@.contains_key(port)
            &&& outputs[k]@.contains_key(node)
            &&& after.runtime.next_inputs@.contains_key(port)
            &&& count_at(after.runtime.node_completed@, node) == 0
            &&& after.runtime.pipeline_completions == 0
            &&& after.runtime.pipeline_target_completions == before.topology.vertices().len()
                * before.runtime.pipeline_inputs@.len()
            &&& after.runtime.pipeline_inputs == before.runtime.pipeline_inputs
        }),
{
    assert(before.topology.port_vertices@.dom().contains(port));
    assert(after.runtime.pipeline_input_ids@[0]@.dom().contains(port));
    assert(after.runtime.pipeline_input_ids@[k]@.dom().contains(port));
    assert(fresh.outputs@[k]@.dom().contains(node));
    assert(after.runtime.next_inputs@.dom().contains(port));
    assert(after.runtime.node_completed@.dom().contains(node));
    assert(after.runtime.node_completed@.contains_key(node));
}

/// A prepared pass keeps the inboxes of the ports, takes the outputs and the
/// next inboxes it was given, and has every vertex await its sources.
pub proof fn law_pass_begins_at_the_current_inboxes<S>(
    before: ForwardSunState<S>,
    after: ForwardSunState<S>,
    next_inputs: HashMap<u32, ObjectId>,
    outputs: HashMap<u32, ObjectId>,
    node: u32,
)
    requires
        pass_prepared(before, after, next_inputs, outputs),
    ensures
        after.runtime.inputs == before.runtime.inputs,
        after.runtime.next_inputs == next_inputs,
        after.runtime.outputs == outputs,
        before.topology.vertices().contains(node) ==> after.runtime.pending@.contains_key(node)
            && after.runtime.pending@[node] == list_at(before.topology.incoming_edges(), node).len(),
        after.runtime.ready@.contains(node) <==> before.topology.vertices().contains(node)
            && list_at(before.topology.incoming_edges(), node).len() == 0,
{
    assert(after.runtime.pending@.dom().contains(node) <==> before.topology.vertices().contains(
        node,
    ));
    assert(after.runtime.pending@.contains_key(node) ==> after.runtime.pending@[node] == list_at(
        before.topology.incoming_edges(),
        node,
    ).len());
}

} // verus!
