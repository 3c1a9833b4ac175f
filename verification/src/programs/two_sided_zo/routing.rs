//! Where the messages of a two-sided epoch go: who is sent which step, where
//! the receiver publishes, where it listens next, and what it is told in the
//! end.

use std::collections::HashMap;

use vstd::prelude::*;

use crate::collections::{ascending, lemma_ascending_lists};
use crate::forward::pass::endpoints_of;
use crate::ids::{ObjectId, Uuid};
use crate::mailbox::law_last_mailbox_wins;
use crate::message::{Potentiation, Transmission};
use crate::programs::two_sided_zo::SunState;
use crate::programs::two_sided_zo::branch::owned_edge_targets;
use crate::programs::two_sided_zo::effect::{
    all_propagations, leading_propagations, next_inboxes, plans_sends, potentiations_for,
    propagation_for, same_sends, AddressedTransmission, BroadcastPotentiationInput,
    NodeTransmission, RootPropagationSend, SendPlan,
};
use crate::programs::two_sided_zo::epoch::epoch_ended;
use crate::programs::two_sided_zo::finalize::EpochMailboxes;
use crate::programs::two_sided_zo::pipeline::{
    completed_in, epoch_prepared, has_step_target, inputs_arrived, ready_set, step_mailboxes_fit,
    step_target_of, StepMailboxes, Task,
};
use crate::programs::two_sided_zo::schedule::{
    counters_after, ready_addressable, roots_addressable, sends_to, sends_to_all, step_absorbed,
    task_endpoint, task_now, task_targets, tasks_sent, unsent_task,
};
use crate::topology::{PortTarget, PropagationTarget, SunNodeState, SunTopology};
use crate::topology::frontier::{count_at, roots};
use crate::topology::graph::{list_at, lists};
use crate::topology::targets::{
    is_root, lemma_owned_root_targets, lemma_root_target_listed, lemma_somes_contains,
    owned_target, root_targets_of, somes, sorted_targets, PassMailboxes,
};

verus! {

broadcast use vstd::std_specs::hash::group_hash_axioms;

/// The steps of an epoch: as many as are configured, and at least one.
pub open spec fn steps_of<S>(state: SunState<S>) -> int {
    if state.shared.grad_steps > 1 {
        state.shared.grad_steps as int
    } else {
        1
    }
}

/// Where the ports listen in a pass, step by step.
pub open spec fn inboxes_in<S>(state: SunState<S>, first: bool) -> Seq<HashMap<u32, ObjectId>> {
    if first {
        state.p1_step_tx@
    } else {
        state.p2_step_tx@
    }
}

/// Where the nodes publish in a pass, step by step.
pub open spec fn outboxes_in<S>(state: SunState<S>, first: bool) -> Seq<HashMap<u32, ObjectId>> {
    if first {
        state.p1_step_rx@
    } else {
        state.p2_step_rx@
    }
}

/// `mailbox` is where `id` is at step `k`.
pub open spec fn is_at(boxes: Seq<HashMap<u32, ObjectId>>, k: int, id: u32, mailbox: ObjectId) -> bool {
    0 <= k < boxes.len() && boxes[k]@.contains_key(id) && boxes[k]@[id] == mailbox
}

/// After step `k` of a pass `port` listens at `mailbox`: where the next step of
/// the pass comes, after the first pass where the second begins, and after the
/// second where the outcome comes.
pub open spec fn listens_next<S>(
    state: SunState<S>,
    first: bool,
    k: int,
    port: u32,
    mailbox: ObjectId,
) -> bool {
    if k + 1 < steps_of(state) {
        is_at(inboxes_in(state, first), k + 1, port, mailbox)
    } else if first {
        is_at(state.p2_step_tx@, 0, port, mailbox)
    } else {
        state.shared.po_tx@.contains_key(port) && state.shared.po_tx@[port] == mailbox
    }
}

/// `sent` brings step `k` of a pass, counted from zero, to a port: it is put
/// where the port listens for that step, carries the emission that was given,
/// tells the owner of the port to publish where the scheduler waits for that
/// step, and tells the port where to listen next.
pub open spec fn wired_step<S>(
    state: SunState<S>,
    sent: AddressedTransmission,
    first: bool,
    k: int,
    given: Transmission,
) -> bool {
    &&& state.topology.port_vertices@.contains_key(sent.port_id)
    &&& state.topology.port_vertices@[sent.port_id] == sent.node_id
    &&& is_at(inboxes_in(state, first), k, sent.port_id, sent.mailbox)
    &&& sent.transmission is Propagation
    &&& given is Propagation
    &&& sent.transmission->emission_id == given->emission_id
    &&& is_at(outboxes_in(state, first), k, sent.node_id, sent.transmission->send)
    &&& listens_next(state, first, k, sent.port_id, sent.transmission->Propagation_recv)
}

/// A step of a pass, counted from zero.
pub ghost struct Turn {
    pub first: bool,
    pub step: int,
}

/// The step that a node takes next: the first pass to its end, then the second.
pub open spec fn turn<S>(state: SunState<S>, node: u32) -> Option<Turn> {
    let up = count_at(state.node_p1_completed@, node) as int;
    let down = count_at(state.node_p2_completed@, node) as int;
    if up < steps_of(state) {
        Some(Turn { first: true, step: up })
    } else if down < steps_of(state) {
        Some(Turn { first: false, step: down })
    } else {
        None
    }
}

/// What was generated for step `k` of a pass.
pub open spec fn generated_for<S>(state: SunState<S>, first: bool, k: int) -> Transmission {
    if first {
        state.propagation_up_inputs@[k]
    } else {
        state.propagation_down_inputs@[k]
    }
}

/// How many steps of a pass a root has been sent.
pub open spec fn root_sent<S>(state: SunState<S>, first: bool, root: u32) -> int {
    if first {
        count_at(state.root_p1_sent@, root) as int
    } else {
        count_at(state.root_p2_sent@, root) as int
    }
}

proof fn lemma_turn<S>(state: SunState<S>, node: u32)
    ensures
        task_now(state, node) is Some <==> turn(state, node) is Some,
        task_now(state, node) matches Some(task) ==> turn(state, node) == Some(
            Turn { first: task.phase == SunNodeState::Propagation1, step: task.step - 1 },
        ) && (task.phase == SunNodeState::Propagation1 || task.phase
            == SunNodeState::Propagation2),
{
}

proof fn lemma_target_is_wired<S>(
    state: SunState<S>,
    phase: SunNodeState,
    step: int,
    port: u32,
    given: Transmission,
)
    requires
        phase == SunNodeState::Propagation1 || phase == SunNodeState::Propagation2,
        1 <= step <= steps_of(state),
        has_step_target(state, phase, step, port),
        given is Propagation,
    ensures
        ({
            let sent = propagation_for(step_target_of(state, phase, step, port), given);
            &&& sent is Some
            &&& sent->0.port_id == port
            &&& wired_step(
                state,
                sent->0,
                phase == SunNodeState::Propagation1,
                step - 1,
                given,
            )
        }),
{
}

proof fn lemma_leading(sends: Seq<RootPropagationSend>, i: int)
    requires
        all_propagations(sends),
        0 <= i < sends.len(),
    ensures
        leading_propagations(sends).len() == sends.len(),
        propagation_for(sends[i].target, sends[i].transmission) == Some(
            leading_propagations(sends)[i],
        ),
    decreases sends.len(),
{
    let rest = sends.drop_first();
    assert(sends[0].transmission is Propagation);
    assert forall|j: int| #![trigger rest[j]] 0 <= j < rest.len() implies rest[j].transmission is Propagation by {
        assert(rest[j] == sends[j + 1]);
    }
    if rest.len() > 0 {
        if i > 0 {
            lemma_leading(rest, i - 1);
        } else {
            lemma_leading(rest, 0);
        }
    } else {
        assert(leading_propagations(rest).len() == 0);
    }
}

/// A plan that sends everything puts each propagation where its target
/// listens, with the target's own output and next inbox.
pub proof fn law_plans_reach_their_targets(
    sends: Seq<RootPropagationSend>,
    refused: Seq<char>,
    plan: SendPlan,
    i: int,
)
    requires
        plans_sends(sends, refused, plan),
        plan.outcome is Ok,
        0 <= i < sends.len(),
    ensures
        plan.sends@.len() == sends.len(),
        ({
            let sent = plan.sends@[i];
            let target = sends[i].target;
            &&& sent.node_id == target.node_id
            &&& sent.port_id == target.port_id
            &&& sent.mailbox == target.input_id
            &&& sent.transmission is Propagation
            &&& sends[i].transmission is Propagation
            &&& sent.transmission->emission_id == sends[i].transmission->emission_id
            &&& sent.transmission->Propagation_recv == target.next_input_id
            &&& sent.transmission->send == target.output_id
        }),
{
    lemma_leading(sends, i);
}

/// A list with a transmission that is no propagation is refused, and nothing
/// behind that transmission is sent.
pub proof fn law_only_propagations_are_sent(
    sends: Seq<RootPropagationSend>,
    refused: Seq<char>,
    plan: SendPlan,
    i: int,
)
    requires
        plans_sends(sends, refused, plan),
        0 <= i < sends.len(),
        !(sends[i].transmission is Propagation),
    ensures
        plan.outcome is Err,
        plan.sends@.len() <= i,
{
    assert(!all_propagations(sends));
    lemma_leading_stops(sends, i);
}

proof fn lemma_leading_stops(sends: Seq<RootPropagationSend>, i: int)
    requires
        0 <= i < sends.len(),
        !(sends[i].transmission is Propagation),
    ensures
        leading_propagations(sends).len() <= i,
    decreases sends.len(),
{
    if i > 0 {
        assert(sends.drop_first()[i - 1] == sends[i]);
        lemma_leading_stops(sends.drop_first(), i - 1);
    }
}

proof fn lemma_sends_to_all<S>(state: SunState<S>, root_ids: Seq<u32>, send: RootPropagationSend)
    ensures
        sends_to_all(state, root_ids).contains(send) <==> exists|k: int|
            0 <= k < root_ids.len() && sends_to(state, #[trigger] root_ids[k]).contains(send),
    decreases root_ids.len(),
{
    if root_ids.len() > 0 {
        let rest = root_ids.drop_last();
        let before = sends_to_all(state, rest);
        let last = sends_to(state, root_ids.last());
        let all = sends_to_all(state, root_ids);
        lemma_sends_to_all(state, rest, send);
        if all.contains(send) {
            let i = choose|i: int| 0 <= i < all.len() && all[i] == send;
            if i < before.len() {
                assert(before[i] == send);
                let k = choose|k: int|
                    0 <= k < rest.len() && sends_to(state, #[trigger] rest[k]).contains(send);
                assert(root_ids[k] == rest[k]);
            } else {
                assert(last[i - before.len()] == send);
                assert(root_ids[root_ids.len() - 1] == root_ids.last());
            }
        }
        if exists|k: int|
            0 <= k < root_ids.len() && sends_to(state, #[trigger] root_ids[k]).contains(send) {
            let k = choose|k: int|
                0 <= k < root_ids.len() && sends_to(state, #[trigger] root_ids[k]).contains(send);
            if k < rest.len() {
                assert(rest[k] == root_ids[k]);
                let i = choose|i: int| 0 <= i < before.len() && before[i] == send;
                assert(all[i] == send);
            } else {
                let i = choose|i: int| 0 <= i < last.len() && last[i] == send;
                assert(all[before.len() + i] == send);
            }
        }
    }
}

/// A root whose turn it is for a step it has not been sent is sent it at each
/// of its ports: what was generated for that step of that pass.
pub proof fn law_roots_are_sent_what_is_due<S>(
    state: SunState<S>,
    refused: Seq<char>,
    plan: SendPlan,
    root: u32,
    port: u32,
) -> (i: int)
    requires
        roots_addressable(state),
        plans_sends(sends_to_all(state, ascending(roots(state.topology))), refused, plan),
        plan.outcome is Ok,
        roots(state.topology).contains(root),
        roots(state.topology).finite(),
        state.topology.vertex_ports@.contains_key(root),
        state.topology.vertex_ports@[root]@.contains(port),
        turn(state, root) is Some,
        root_sent(state, turn(state, root)->0.first, root) <= turn(state, root)->0.step,
    ensures
        0 <= i < plan.sends@.len(),
        plan.sends@[i].port_id == port,
        ({
            let first = turn(state, root)->0.first;
            let k = turn(state, root)->0.step;
            wired_step(state, plan.sends@[i], first, k, generated_for(state, first, k))
        }),
{
    let order = ascending(roots(state.topology));
    let sends = sends_to_all(state, order);
    let ports = list_at(lists(state.topology.vertex_ports@), root);
    let j = choose|j: int| 0 <= j < ports.len() && ports[j] == port;
    lemma_turn(state, root);
    let task = task_now(state, root)->0;
    assert(unsent_task(state, root) == Some(task));
    assert(has_step_target(state, task.phase, task.step as int, ports[j]));
    lemma_ascending_lists(roots(state.topology));
    assert(order.to_set().contains(root));
    let n = choose|n: int| 0 <= n < order.len() && order[n] == root;
    let send = sends_to(state, root)[j];
    assert(sends_to(state, order[n]).contains(send));
    lemma_sends_to_all(state, order, send);
    let i = choose|i: int| 0 <= i < sends.len() && sends[i] == send;
    lemma_leading(sends, i);
    assert(sends[i].transmission is Propagation);
    lemma_target_is_wired(state, task.phase, task.step as int, port, send.transmission);
    i
}

/// A root is sent nothing but the step whose turn it is, and that only once.
pub proof fn law_roots_are_sent_nothing_else<S>(
    state: SunState<S>,
    refused: Seq<char>,
    plan: SendPlan,
    i: int,
) -> (root: u32)
    requires
        roots_addressable(state),
        plans_sends(sends_to_all(state, ascending(roots(state.topology))), refused, plan),
        plan.outcome is Ok,
        roots(state.topology).finite(),
        0 <= i < plan.sends@.len(),
    ensures
        roots(state.topology).contains(root),
        list_at(lists(state.topology.vertex_ports@), root).contains(plan.sends@[i].port_id),
        turn(state, root) is Some,
        ({
            let first = turn(state, root)->0.first;
            let k = turn(state, root)->0.step;
            &&& root_sent(state, first, root) <= k
            &&& wired_step(state, plan.sends@[i], first, k, generated_for(state, first, k))
        }),
{
    let order = ascending(roots(state.topology));
    let sends = sends_to_all(state, order);
    if sends.len() > 0 {
        lemma_leading(sends, 0);
    }
    let send = sends[i];
    lemma_leading(sends, i);
    assert(sends.contains(send));
    lemma_sends_to_all(state, order, send);
    let n = choose|n: int|
        0 <= n < order.len() && sends_to(state, #[trigger] order[n]).contains(send);
    let root = order[n];
    lemma_ascending_lists(roots(state.topology));
    assert(order.to_set().contains(root));
    let ports = list_at(lists(state.topology.vertex_ports@), root);
    let j = choose|j: int|
        0 <= j < sends_to(state, root).len() && sends_to(state, root)[j] == send;
    lemma_turn(state, root);
    let task = task_now(state, root)->0;
    assert(has_step_target(state, task.phase, task.step as int, ports[j]));
    assert(sends[i].transmission is Propagation);
    lemma_target_is_wired(state, task.phase, task.step as int, ports[j], send.transmission);
    root
}

/// What a ready node publishes for the step whose turn it is goes along each of
/// its edges as the same step of the same pass.
pub proof fn law_outputs_follow_edges<S>(
    state: SunState<S>,
    node: u32,
    published: Transmission,
    refused: Seq<char>,
    plan: SendPlan,
    edge: int,
)
    requires
        ready_addressable(state),
        ready_set(state).contains(node),
        plans_sends(same_sends(task_targets(state, node), published), refused, plan),
        plan.outcome is Ok,
        0 <= edge < list_at(state.topology.outgoing_edges(), node).len(),
    ensures
        plan.sends@.len() == list_at(state.topology.outgoing_edges(), node).len(),
        plan.sends@[edge].port_id == list_at(state.topology.outgoing_edges(), node)[edge].port_id,
        turn(state, node) is Some,
        ({
            let first = turn(state, node)->0.first;
            let k = turn(state, node)->0.step;
            wired_step(state, plan.sends@[edge], first, k, published)
        }),
{
    let edges = list_at(state.topology.outgoing_edges(), node);
    let sends = same_sends(task_targets(state, node), published);
    lemma_turn(state, node);
    let task = task_now(state, node)->0;
    assert(has_step_target(state, task.phase, task.step as int, edges[edge].port_id));
    lemma_leading(sends, edge);
    assert(sends[edge].transmission is Propagation);
    lemma_target_is_wired(
        state,
        task.phase,
        task.step as int,
        edges[edge].port_id,
        published,
    );
}

/// The scheduler waits for every ready node where the deliveries of its step
/// tell it to publish, and for no other node.
pub proof fn law_scheduler_waits_where_nodes_publish<S>(
    state: SunState<S>,
    sent: AddressedTransmission,
    given: Transmission,
)
    requires
        ready_set(state).finite(),
        ready_set(state).contains(sent.node_id),
        turn(state, sent.node_id) is Some,
        wired_step(
            state,
            sent,
            turn(state, sent.node_id)->0.first,
            turn(state, sent.node_id)->0.step,
            given,
        ),
    ensures
        ({
            let waits = somes(
                ascending(ready_set(state)).map_values(|node: u32| task_endpoint(state, node)),
            );
            &&& waits.contains((sent.node_id, sent.transmission->send))
            &&& forall|at: (u32, ObjectId)| #[trigger]
                waits.contains(at) ==> ready_set(state).contains(at.0) && is_at(
                    outboxes_in(state, turn(state, at.0)->0.first),
                    turn(state, at.0)->0.step,
                    at.0,
                    at.1,
                )
        }),
{
    let order = ascending(ready_set(state));
    let found = order.map_values(|node: u32| task_endpoint(state, node));
    let waits = somes(found);
    lemma_ascending_lists(ready_set(state));
    assert(order.to_set().contains(sent.node_id));
    let n = choose|n: int| 0 <= n < order.len() && order[n] == sent.node_id;
    lemma_turn(state, sent.node_id);
    assert(found[n] == Some((sent.node_id, sent.transmission->send)));
    assert(found.contains(Some((sent.node_id, sent.transmission->send))));
    lemma_somes_contains(found, (sent.node_id, sent.transmission->send));
    assert forall|at: (u32, ObjectId)| #[trigger] waits.contains(at) implies ready_set(
        state,
    ).contains(at.0) && is_at(
        outboxes_in(state, turn(state, at.0)->0.first),
        turn(state, at.0)->0.step,
        at.0,
        at.1,
    ) by {
        lemma_somes_contains(found, at);
        let j = choose|j: int| 0 <= j < found.len() && found[j] == Some(at);
        assert(order.to_set().contains(order[j]));
        lemma_turn(state, at.0);
    }
}

/// What a port is told after one step is where it is put the next: within a
/// pass, and from the first pass to the second.
pub proof fn law_steps_chain<S>(
    state: SunState<S>,
    one: AddressedTransmission,
    first: bool,
    k: int,
    given: Transmission,
    next: AddressedTransmission,
    then: Transmission,
)
    requires
        wired_step(state, one, first, k, given),
        next.port_id == one.port_id,
        if k + 1 < steps_of(state) {
            wired_step(state, next, first, k + 1, then)
        } else {
            first && wired_step(state, next, false, 0, then)
        },
    ensures
        next.mailbox == one.transmission->Propagation_recv,
{
}

/// A prepared epoch begins where the ports listen: the first step of the first
/// pass is put at the current inboxes, and every step of both passes has a
/// mailbox for every port and every node.
pub proof fn law_epoch_begins_at_the_current_inboxes<S>(
    before: SunState<S>,
    after: SunState<S>,
    fresh: StepMailboxes,
    port: u32,
    node: u32,
    k: int,
)
    requires
        epoch_prepared(before, after, fresh),
        step_mailboxes_fit(fresh, before.topology, steps_of(before) as usize),
        before.topology.port_vertices@.contains_key(port),
        before.topology.vertices().contains(node),
        0 <= k < steps_of(before),
    ensures
        is_at(after.p1_step_tx@, 0, port, before.shared.p1_tx@[port]),
        after.p1_step_tx@.len() == steps_of(before) && after.p1_step_tx@[k]@.contains_key(port),
        after.p2_step_tx@.len() == steps_of(before) && after.p2_step_tx@[k]@.contains_key(port),
        after.p1_step_rx@.len() == steps_of(before) && after.p1_step_rx@[k]@.contains_key(node),
        after.p2_step_rx@.len() == steps_of(before) && after.p2_step_rx@[k]@.contains_key(node),
        steps_of(after) == steps_of(before),
        after.propagation_up_inputs == before.propagation_up_inputs,
        after.propagation_down_inputs == before.propagation_down_inputs,
        turn(after, node) == Some(Turn { first: true, step: 0 }),
{
    assert(before.topology.port_vertices@.dom().contains(port));
    assert(after.p1_step_tx@[0]@.dom().contains(port));
    assert(after.p1_step_tx@[k]@.dom().contains(port));
    assert(after.p2_step_tx@[k]@.dom().contains(port));
    assert(after.p1_step_rx@[k]@.dom().contains(node));
    assert(after.p2_step_rx@[k]@.dom().contains(node));
    assert(after.node_p1_completed@.dom().contains(node));
    assert(after.node_p1_completed@.contains_key(node));
}

/// The outcome of an epoch reaches every listed port unchanged: both losses and
/// the seed, at the port's own mailbox, with a mailbox of its own to await
/// next.
pub proof fn law_outcome_reaches_every_port(
    input: BroadcastPotentiationInput,
    drawn: Seq<Uuid>,
    i: int,
)
    requires
        0 <= i < input.port_endpoints@.len(),
    ensures
        potentiations_for(input, drawn).len() == input.port_endpoints@.len(),
        next_inboxes(input, drawn).len() == input.port_endpoints@.len(),
        ({
            let sent = potentiations_for(input, drawn)[i];
            &&& sent.port_id == input.port_endpoints@[i].0
            &&& sent.mailbox == input.port_endpoints@[i].1
            &&& sent.transmission is Potentiation
            &&& sent.transmission->potentiation.loss_up_bits == input.potentiation.loss_up_bits
            &&& sent.transmission->potentiation.loss_down_bits == input.potentiation.loss_down_bits
            &&& sent.transmission->potentiation.seed == input.potentiation.seed
            &&& sent.transmission->Potentiation_recv == drawn[i]
            &&& next_inboxes(input, drawn)[i] == (
                sent.port_id,
                sent.transmission->Potentiation_recv,
            )
        }),
{
}

/// The outcome goes to exactly the ports of the graph that await one, each
/// where the last step of the second pass told it to listen.
pub proof fn law_outcome_goes_where_ports_listen<S>(state: SunState<S>, at: (u32, ObjectId))
    requires
        state.topology.port_vertices@.dom().finite(),
    ensures
        endpoints_of(
            state.shared.po_tx@,
            ascending(state.topology.port_vertices@.dom()),
        ).contains(at) <==> state.topology.port_vertices@.contains_key(at.0)
            && state.shared.po_tx@.contains_key(at.0) && state.shared.po_tx@[at.0] == at.1,
        state.topology.port_vertices@.contains_key(at.0) && state.shared.po_tx@.contains_key(at.0)
            && state.shared.po_tx@[at.0] == at.1 ==> listens_next(
            state,
            false,
            steps_of(state) - 1,
            at.0,
            at.1,
        ),
{
    let boxes = state.shared.po_tx@;
    let order = ascending(state.topology.port_vertices@.dom());
    let found = order.map_values(
        |node: u32|
            if boxes.contains_key(node) {
                Some((node, boxes[node]))
            } else {
                None
            },
    );
    lemma_ascending_lists(state.topology.port_vertices@.dom());
    lemma_somes_contains(found, at);
    if found.contains(Some(at)) {
        let n = choose|n: int| 0 <= n < found.len() && found[n] == Some(at);
        assert(order.to_set().contains(order[n]));
    }
    if state.topology.port_vertices@.contains_key(at.0) && boxes.contains_key(at.0) && boxes[at.0]
        == at.1 {
        assert(order.to_set().contains(at.0));
        let n = choose|n: int| 0 <= n < order.len() && order[n] == at.0;
        assert(found[n] == Some(at));
    }
}

/// After an epoch every port that was told the outcome is sent its next first
/// propagation where the outcome told it to listen.
pub proof fn law_next_epoch_begins_where_outcome_told<S>(
    before: SunState<S>,
    after: SunState<S>,
    input: BroadcastPotentiationInput,
    drawn: Seq<Uuid>,
    po_tx: HashMap<u32, ObjectId>,
    fresh: EpochMailboxes,
    i: int,
)
    requires
        epoch_ended(before, after, next_inboxes(input, drawn), po_tx, fresh),
        0 <= i < input.port_endpoints@.len(),
        forall|j: int|
            0 <= j < input.port_endpoints@.len() && j != i ==> (
            #[trigger] input.port_endpoints@[j]).0 != input.port_endpoints@[i].0,
    ensures
        ({
            let sent = potentiations_for(input, drawn)[i];
            &&& after.shared.p1_tx@.contains_key(sent.port_id)
            &&& after.shared.p1_tx@[sent.port_id] == sent.transmission->Potentiation_recv
        }),
        after.propagation_pairs@.len() == 0,
        after.propagation_up_inputs@.len() == 0,
        after.propagation_down_inputs@.len() == 0,
        after.propagation_up_outputs@.len() == 0,
        after.pipeline_completions == 0,
        steps_of(after) == steps_of(before),
{
    let next = next_inboxes(input, drawn);
    assert forall|j: int| i < j < next.len() implies (#[trigger] next[j]).0
        != input.port_endpoints@[i].0 by {
        assert(input.port_endpoints@[j].0 != input.port_endpoints@[i].0);
    }
    law_last_mailbox_wins(Map::empty(), next, i, input.port_endpoints@[i].0);
}

/// One tick of an epoch: a completion is taken in, or roots are sent steps.
pub open spec fn ticked<S>(
    before: SunState<S>,
    completion: Option<NodeTransmission>,
    after: SunState<S>,
) -> bool {
    match completion {
        Some(completion) => {
            &&& task_now(before, completion.node_id) is Some
            &&& step_absorbed(
                before,
                after,
                completion,
                task_now(before, completion.node_id)->0,
            )
        },
        None => {
            &&& after.node_p1_completed == before.node_p1_completed
            &&& after.node_p2_completed == before.node_p2_completed
            &&& after.propagation_up_outputs == before.propagation_up_outputs
            &&& after.propagation_pairs == before.propagation_pairs
            &&& after.sink_id == before.sink_id
            &&& after.shared.grad_steps == before.shared.grad_steps
        },
    }
}

/// What `sink` published in the completions, in order.
pub open spec fn published_by(
    completions: Seq<Option<NodeTransmission>>,
    sink: u32,
) -> Seq<Transmission>
    decreases completions.len(),
{
    if completions.len() == 0 {
        Seq::empty()
    } else {
        let before = published_by(completions.drop_last(), sink);
        match completions.last() {
            Some(completion) => if completion.node_id == sink {
                before.push(completion.transmission)
            } else {
                before
            },
            None => before,
        }
    }
}

/// What the sink has published so far is in its first-pass outputs and its
/// pairs.
spec fn paired<S>(state: SunState<S>, sink: u32, published: Seq<Transmission>) -> bool {
    let steps = steps_of(state);
    let up = count_at(state.node_p1_completed@, sink) as int;
    let down = count_at(state.node_p2_completed@, sink) as int;
    &&& state.sink_id == Some(sink)
    &&& up <= steps
    &&& down <= steps
    &&& down > 0 ==> up == steps
    &&& published.len() == up + down
    &&& state.propagation_up_outputs@ == published.take(up)
    &&& state.propagation_pairs@.len() == down
    &&& forall|k: int|
        #![trigger state.propagation_pairs@[k]]
        0 <= k < down ==> state.propagation_pairs@[k] == (published[k], published[steps + k])
}

/// The outputs of the sink are paired step by step: pair `k` of an epoch is
/// what the sink published for step `k` of the first pass with what it
/// published for step `k` of the second.
pub proof fn law_pairs_join_both_passes<S>(
    states: Seq<SunState<S>>,
    completions: Seq<Option<NodeTransmission>>,
    sink: u32,
)
    requires
        states.len() == completions.len() + 1,
        states[0].sink_id == Some(sink),
        count_at(states[0].node_p1_completed@, sink) == 0,
        count_at(states[0].node_p2_completed@, sink) == 0,
        states[0].propagation_up_outputs@.len() == 0,
        states[0].propagation_pairs@.len() == 0,
        forall|i: int|
            #![trigger completions[i]]
            0 <= i < completions.len() ==> ticked(states[i], completions[i], states[i + 1]),
    ensures
        ({
            let state = states.last();
            let published = published_by(completions, sink);
            let steps = steps_of(state);
            &&& steps == steps_of(states[0])
            &&& published.len() <= 2 * steps
            &&& state.propagation_pairs@.len() == if published.len() > steps {
                published.len() - steps
            } else {
                0
            }
            &&& forall|k: int|
                #![trigger state.propagation_pairs@[k]]
                0 <= k < state.propagation_pairs@.len() ==> state.propagation_pairs@[k] == (
                    published[k],
                    published[steps + k],
                )
        }),
{
    lemma_paired(states, completions, sink, completions.len() as int);
    assert(completions.take(completions.len() as int) =~= completions);
}

proof fn lemma_paired<S>(
    states: Seq<SunState<S>>,
    completions: Seq<Option<NodeTransmission>>,
    sink: u32,
    i: int,
)
    requires
        states.len() == completions.len() + 1,
        0 <= i <= completions.len(),
        states[0].sink_id == Some(sink),
        count_at(states[0].node_p1_completed@, sink) == 0,
        count_at(states[0].node_p2_completed@, sink) == 0,
        states[0].propagation_up_outputs@.len() == 0,
        states[0].propagation_pairs@.len() == 0,
        forall|i: int|
            #![trigger completions[i]]
            0 <= i < completions.len() ==> ticked(states[i], completions[i], states[i + 1]),
    ensures
        paired(states[i], sink, published_by(completions.take(i), sink)),
        steps_of(states[i]) == steps_of(states[0]),
    decreases i,
{
    if i == 0 {
        let published = published_by(completions.take(0), sink);
        assert(states[0].propagation_up_outputs@ =~= published.take(0));
    } else {
        lemma_paired(states, completions, sink, i - 1);
        let before = states[i - 1];
        let after = states[i];
        let tick = completions[i - 1];
        assert(ticked(before, tick, after));
        assert(completions.take(i).drop_last() =~= completions.take(i - 1));
        assert(completions.take(i).last() == tick);
        let was = published_by(completions.take(i - 1), sink);
        let now = published_by(completions.take(i), sink);
        if tick is Some {
            let completion = tick->0;
            let task = task_now(before, completion.node_id)->0;
            lemma_turn(before, completion.node_id);
            if completion.node_id == sink {
                assert(now == was.push(completion.transmission));
                let up = count_at(before.node_p1_completed@, sink) as int;
                if task.phase == SunNodeState::Propagation1 {
                    assert(after.propagation_up_outputs@ =~= now.take(up + 1));
                } else {
                    assert(after.propagation_up_outputs@ =~= now.take(up));
                    assert(before.propagation_up_outputs@[task.step - 1] == now[task.step - 1]);
                }
            } else {
                assert(count_at(after.node_p1_completed@, sink) == count_at(
                    before.node_p1_completed@,
                    sink,
                ));
                assert(count_at(after.node_p2_completed@, sink) == count_at(
                    before.node_p2_completed@,
                    sink,
                ));
            }
        }
    }
}

/// How many steps of a pass a node has completed.
pub open spec fn done_in<S>(state: SunState<S>, first: bool, node: u32) -> int {
    if first {
        count_at(state.node_p1_completed@, node) as int
    } else {
        count_at(state.node_p2_completed@, node) as int
    }
}

/// A node is ready exactly when it has a step left, and that step of that pass
/// was sent to it, where it is a root, or completed by each of its sources.
pub proof fn law_ready_means_inputs_are_there<S>(state: SunState<S>, node: u32)
    ensures
        ready_set(state).contains(node) <==> {
            let sources = list_at(state.topology.incoming_edges(), node);
            &&& state.topology.vertices().contains(node)
            &&& turn(state, node) is Some
            &&& if sources.len() == 0 {
                root_sent(state, turn(state, node)->0.first, node) > turn(state, node)->0.step
            } else {
                forall|i: int|
                    #![trigger sources[i]]
                    0 <= i < sources.len() ==> done_in(
                        state,
                        turn(state, node)->0.first,
                        sources[i],
                    ) > turn(state, node)->0.step
            }
        },
{
    lemma_turn(state, node);
    let sources = list_at(state.topology.incoming_edges(), node);
    if state.topology.vertices().contains(node) && turn(state, node) is Some && sources.len() > 0 {
        let task = task_now(state, node)->0;
        if inputs_arrived(state, node, task.phase, task.step) {
            assert forall|i: int| #![trigger sources[i]] 0 <= i < sources.len() implies done_in(
                state,
                turn(state, node)->0.first,
                sources[i],
            ) > turn(state, node)->0.step by {
                assert(completed_in(state, task.phase, sources[i]) >= task.step);
            }
        }
        if forall|i: int|
            #![trigger sources[i]]
            0 <= i < sources.len() ==> done_in(state, turn(state, node)->0.first, sources[i])
                > turn(state, node)->0.step {
            assert(inputs_arrived(state, node, task.phase, task.step));
        }
    }
}

/// Completing a step moves that node on by one step of that pass, and no other
/// node.
pub proof fn law_completion_moves_one_node_on<S>(
    before: SunState<S>,
    completion: NodeTransmission,
    after: SunState<S>,
    other: u32,
)
    requires
        ticked(before, Some(completion), after),
        other != completion.node_id,
        before.pipeline_completions < usize::MAX,
    ensures
        ({
            let node = completion.node_id;
            let first = turn(before, node)->0.first;
            let step = turn(before, node)->0.step;
            &&& turn(before, node) is Some
            &&& done_in(before, first, node) == step
            &&& done_in(after, first, node) == step + 1
            &&& done_in(after, !first, node) == done_in(before, !first, node)
            &&& turn(after, other) == turn(before, other)
            &&& after.pipeline_completions == before.pipeline_completions + 1
            &&& after.p1_step_tx == before.p1_step_tx
            &&& after.p2_step_tx == before.p2_step_tx
            &&& after.p1_step_rx == before.p1_step_rx
            &&& after.p2_step_rx == before.p2_step_rx
            &&& after.shared.po_tx == before.shared.po_tx
            &&& after.root_p1_sent == before.root_p1_sent
            &&& after.root_p2_sent == before.root_p2_sent
            &&& after.propagation_up_inputs == before.propagation_up_inputs
            &&& after.propagation_down_inputs == before.propagation_down_inputs
        }),
{
    lemma_turn(before, completion.node_id);
    lemma_turn(before, other);
}

proof fn lemma_counters_after(
    counters: Map<u32, usize>,
    tasks: Seq<(u32, Task)>,
    phase: SunNodeState,
    i: int,
)
    requires
        0 <= i < tasks.len(),
        forall|j: int, k: int|
            #![trigger tasks[j], tasks[k]]
            0 <= j < k < tasks.len() ==> tasks[j].0 != tasks[k].0,
    ensures
        tasks[i].1.phase == phase ==> count_at(
            counters_after(counters, tasks, phase),
            tasks[i].0,
        ) == tasks[i].1.step,
        tasks[i].1.phase != phase ==> count_at(
            counters_after(counters, tasks, phase),
            tasks[i].0,
        ) == count_at(counters, tasks[i].0),
    decreases tasks.len(),
{
    let rest = tasks.drop_last();
    let last = tasks.last();
    assert(tasks[tasks.len() - 1] == last);
    if i < rest.len() {
        lemma_counters_after(counters, rest, phase, i);
        assert(tasks[i].0 != tasks[tasks.len() - 1].0);
        assert(rest[i] == tasks[i]);
    } else {
        lemma_counters_unlisted(counters, rest, phase, last.0);
    }
}

proof fn lemma_counters_unlisted(
    counters: Map<u32, usize>,
    tasks: Seq<(u32, Task)>,
    phase: SunNodeState,
    node: u32,
)
    requires
        forall|j: int| #![trigger tasks[j]] 0 <= j < tasks.len() ==> tasks[j].0 != node,
    ensures
        count_at(counters_after(counters, tasks, phase), node) == count_at(counters, node),
    decreases tasks.len(),
{
    if tasks.len() > 0 {
        assert(tasks[tasks.len() - 1] == tasks.last());
        lemma_counters_unlisted(counters, tasks.drop_last(), phase, node);
    }
}

/// The steps sent, each with its root, in order.
proof fn lemma_tasks_sent<S>(state: SunState<S>, sent: Seq<u32>)
    requires
        sent.no_duplicates(),
    ensures
        forall|j: int, k: int|
            #![trigger tasks_sent(state, sent)[j], tasks_sent(state, sent)[k]]
            0 <= j < k < tasks_sent(state, sent).len() ==> tasks_sent(state, sent)[j].0
                != tasks_sent(state, sent)[k].0,
        forall|j: int|
            #![trigger tasks_sent(state, sent)[j]]
            0 <= j < tasks_sent(state, sent).len() ==> sent.contains(tasks_sent(state, sent)[j].0)
                && task_now(state, tasks_sent(state, sent)[j].0) == Some(
                tasks_sent(state, sent)[j].1,
            ),
        forall|root: u32|
            sent.contains(root) && task_now(state, root) is Some ==> #[trigger] tasks_sent(
                state,
                sent,
            ).contains((root, task_now(state, root)->0)),
    decreases sent.len(),
{
    let pick = |node: u32|
        match task_now(state, node) {
            Some(task) => Some((node, task)),
            None => None,
        };
    let found = sent.map_values(pick);
    let tasks = tasks_sent(state, sent);
    assert forall|root: u32|
        sent.contains(root) && task_now(state, root) is Some implies #[trigger] tasks.contains(
        (root, task_now(state, root)->0),
    ) by {
        let n = choose|n: int| 0 <= n < sent.len() && sent[n] == root;
        assert(found[n] == Some((root, task_now(state, root)->0)));
        assert(found.contains(Some((root, task_now(state, root)->0))));
        lemma_somes_contains(found, (root, task_now(state, root)->0));
    }
    assert forall|j: int| #![trigger tasks[j]] 0 <= j < tasks.len() implies sent.contains(
        tasks[j].0,
    ) && task_now(state, tasks[j].0) == Some(tasks[j].1) by {
        assert(tasks.contains(tasks[j]));
        lemma_somes_contains(found, tasks[j]);
        let n = choose|n: int| 0 <= n < found.len() && found[n] == Some(tasks[j]);
        assert(sent[n] == tasks[j].0);
    }
    if sent.len() > 0 {
        let rest = sent.drop_last();
        assert(rest.no_duplicates());
        lemma_tasks_sent(state, rest);
        assert(found.drop_last() =~= rest.map_values(pick));
        assert(found.last() == pick(sent.last()));
        let before = tasks_sent(state, rest);
        assert forall|j: int, k: int|
            #![trigger tasks[j], tasks[k]]
            0 <= j < k < tasks.len() implies tasks[j].0 != tasks[k].0 by {
            assert(tasks[j] == before[j]);
            if k < before.len() {
                assert(tasks[k] == before[k]);
            } else {
                assert(rest.contains(before[j].0));
                let n = choose|n: int| 0 <= n < rest.len() && rest[n] == before[j].0;
                assert(sent[n] == before[j].0);
                assert(sent[sent.len() - 1] == tasks[k].0);
            }
        }
    }
}

/// After its step was sent a root counts that step of that pass as sent, and a
/// root that was sent nothing counts as before.
pub proof fn law_sent_steps_are_counted<S>(
    before: SunState<S>,
    sent: Seq<u32>,
    after: SunState<S>,
    root: u32,
)
    requires
        sent.no_duplicates(),
        after.root_p1_sent@ == counters_after(
            before.root_p1_sent@,
            tasks_sent(before, sent),
            SunNodeState::Propagation1,
        ),
        after.root_p2_sent@ == counters_after(
            before.root_p2_sent@,
            tasks_sent(before, sent),
            SunNodeState::Propagation2,
        ),
    ensures
        sent.contains(root) && turn(before, root) is Some ==> root_sent(
            after,
            turn(before, root)->0.first,
            root,
        ) == turn(before, root)->0.step + 1 && root_sent(
            after,
            !turn(before, root)->0.first,
            root,
        ) == root_sent(before, !turn(before, root)->0.first, root),
        !sent.contains(root) ==> root_sent(after, true, root) == root_sent(before, true, root)
            && root_sent(after, false, root) == root_sent(before, false, root),
{
    let tasks = tasks_sent(before, sent);
    lemma_tasks_sent(before, sent);
    lemma_turn(before, root);
    if sent.contains(root) && turn(before, root) is Some {
        let task = task_now(before, root)->0;
        assert(tasks.contains((root, task)));
        let i = choose|i: int| 0 <= i < tasks.len() && tasks[i] == (root, task);
        lemma_counters_after(before.root_p1_sent@, tasks, SunNodeState::Propagation1, i);
        lemma_counters_after(before.root_p2_sent@, tasks, SunNodeState::Propagation2, i);
    }
    if !sent.contains(root) {
        assert forall|j: int| #![trigger tasks[j]] 0 <= j < tasks.len() implies tasks[j].0 != root by {
            assert(sent.contains(tasks[j].0));
        }
        lemma_counters_unlisted(before.root_p1_sent@, tasks, SunNodeState::Propagation1, root);
        lemma_counters_unlisted(before.root_p2_sent@, tasks, SunNodeState::Propagation2, root);
    }
}

/// `sent` brings a propagation of a serial pass to a port: it is put where the
/// port listens in the pass, carries the emission that was given, tells the
/// owner of the port to publish where the scheduler waits for it, and tells the
/// port to listen where it listens next.
pub open spec fn wired_in_pass(
    topology: SunTopology,
    boxes: PassMailboxes,
    sent: AddressedTransmission,
    given: Transmission,
) -> bool {
    &&& topology.port_vertices@.contains_key(sent.port_id)
    &&& topology.port_vertices@[sent.port_id] == sent.node_id
    &&& boxes.inputs.contains_key(sent.port_id)
    &&& boxes.inputs[sent.port_id] == sent.mailbox
    &&& sent.transmission is Propagation
    &&& given is Propagation
    &&& sent.transmission->emission_id == given->emission_id
    &&& boxes.outputs.contains_key(sent.node_id)
    &&& boxes.outputs[sent.node_id] == sent.transmission->send
    &&& boxes.next_inputs.contains_key(sent.port_id)
    &&& boxes.next_inputs[sent.port_id] == sent.transmission->Propagation_recv
}

/// In a serial pass the propagation goes to the ports of the roots, and to
/// nothing else, each time wired to the mailboxes of the pass.
pub proof fn law_serial_propagation_goes_to_the_roots(
    topology: SunTopology,
    boxes: PassMailboxes,
    targets: Seq<PropagationTarget>,
    given: Transmission,
    refused: Seq<char>,
    plan: SendPlan,
    i: int,
    root: u32,
    port: u32,
)
    requires
        sorted_targets(root_targets_of(topology, boxes, true), targets),
        plans_sends(same_sends(targets, given), refused, plan),
        plan.outcome is Ok,
    ensures
        0 <= i < plan.sends@.len() ==> wired_in_pass(topology, boxes, plan.sends@[i], given),
        0 <= i < plan.sends@.len() ==> exists|from: u32| {
            &&& #[trigger] is_root(topology, from)
            &&& list_at(lists(topology.vertex_ports@), from).contains(plan.sends@[i].port_id)
        },
        topology.vertex_ports@.contains_key(root) && topology.vertex_ports@[root]@.contains(port)
            && is_root(topology, root) && owned_target(topology, boxes, port) is Some
            ==> exists|k: int|
            0 <= k < plan.sends@.len() && (#[trigger] plan.sends@[k]).port_id == port,
{
    let found = root_targets_of(topology, boxes, true);
    let sends = same_sends(targets, given);
    targets.to_multiset_ensures();
    found.to_multiset_ensures();
    if sends.len() > 0 {
        lemma_leading(sends, 0);
    }
    if 0 <= i < plan.sends@.len() {
        lemma_leading(sends, i);
        assert(sends[i].transmission is Propagation);
        let target = targets[i];
        assert(targets.contains(target));
        assert(targets.to_multiset().count(target) > 0);
        assert(found.to_multiset().count(target) > 0);
        assert(found.contains(target));
        let from = lemma_owned_root_targets(topology, boxes, target);
        assert(is_root(topology, from));
    }
    if topology.vertex_ports@.contains_key(root) && topology.vertex_ports@[root]@.contains(port)
        && is_root(topology, root) && owned_target(topology, boxes, port) is Some {
        let target = owned_target(topology, boxes, port)->0;
        lemma_root_target_listed(topology, boxes, true, root, port);
        assert(found.contains(target));
        assert(found.to_multiset().count(target) > 0);
        assert(targets.to_multiset().count(target) > 0);
        assert(targets.contains(target));
        let k = choose|k: int| 0 <= k < targets.len() && targets[k] == target;
        assert(sends[k].target == target);
        lemma_leading(sends, k);
        assert(plan.sends@[k].port_id == port);
    }
}

/// In a serial pass what a node publishes goes along its edges, each time wired
/// to the mailboxes of the pass.
pub proof fn law_serial_outputs_go_along_the_edges(
    topology: SunTopology,
    boxes: PassMailboxes,
    edges: Seq<PortTarget>,
    published: Transmission,
    refused: Seq<char>,
    plan: SendPlan,
    i: int,
    edge: int,
)
    requires
        plans_sends(
            same_sends(owned_edge_targets(topology, boxes, edges), published),
            refused,
            plan,
        ),
        plan.outcome is Ok,
    ensures
        0 <= i < plan.sends@.len() ==> wired_in_pass(topology, boxes, plan.sends@[i], published),
        0 <= i < plan.sends@.len() ==> exists|e: int|
            0 <= e < edges.len() && (#[trigger] edges[e]).port_id == plan.sends@[i].port_id,
        0 <= edge < edges.len() && owned_target(topology, boxes, edges[edge].port_id) is Some
            ==> exists|k: int|
            0 <= k < plan.sends@.len() && (#[trigger] plan.sends@[k]).port_id
                == edges[edge].port_id,
{
    let found = edges.map_values(|e: PortTarget| owned_target(topology, boxes, e.port_id));
    let targets = owned_edge_targets(topology, boxes, edges);
    let sends = same_sends(targets, published);
    if sends.len() > 0 {
        lemma_leading(sends, 0);
    }
    if 0 <= i < plan.sends@.len() {
        lemma_leading(sends, i);
        assert(sends[i].transmission is Propagation);
        let target = targets[i];
        assert(targets.contains(target));
        lemma_somes_contains(found, target);
        let e = choose|e: int| 0 <= e < found.len() && found[e] == Some(target);
        assert(edges[e].port_id == plan.sends@[i].port_id);
    }
    if 0 <= edge < edges.len() && owned_target(topology, boxes, edges[edge].port_id) is Some {
        let target = owned_target(topology, boxes, edges[edge].port_id)->0;
        assert(found[edge] == Some(target));
        assert(found.contains(Some(target)));
        lemma_somes_contains(found, target);
        let k = choose|k: int| 0 <= k < targets.len() && targets[k] == target;
        assert(sends[k].target == target);
        lemma_leading(sends, k);
        assert(plan.sends@[k].port_id == edges[edge].port_id);
    }
}

} // verus!
