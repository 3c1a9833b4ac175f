//! What the actions of a two-sided Sun do in an epoch, from one action to the
//! next.

use std::collections::HashMap;

use vstd::prelude::*;

use crate::error::AtomError;
use crate::failure::Failure;
use crate::ids::{ObjectId, Uuid};
use crate::message::{Potentiation, Transmission};
use crate::programs::two_sided_zo::branch::{
    InitializePropagation, ProcessNextNode, PropagationState, SendRootPropagation,
};
use crate::programs::two_sided_zo::{PropA, PropB, SunState, TwoSidedZoInner};
use crate::programs::two_sided_zo::effect::{
    next_inboxes, potentiations_for, AddressedPotentiation, AddressedTransmission,
    BroadcastPotentiationEffect, BroadcastPotentiationInput, BroadcastPotentiationResult,
    NodeTransmission, RootPropagationSend, SendPlan, SendRootPropagationEffect,
    SendRootPropagationInput, SendRootTaskPropagationsEffect,
    WaitForNodeTransmissionEffect, WaitForNodeTransmissionInput,
};
use crate::programs::two_sided_zo::epoch::{
    BeginDownPropagationPhase, BeginGradientAccumulation, BroadcastPotentiation,
    CollectedPropagationPairs, NextDownPropagationInput, RecordDownPropagationOutput,
    RecordUpPropagationOutput, StoreDownPropagationInput, StorePropagationInputPair,
};
use crate::programs::two_sided_zo::finalize::{EpochMailboxes, FinalizeGraph};
use crate::programs::two_sided_zo::pipeline::{
    ready_set, PreparePropagationPipeline, StepMailboxes,
};
use crate::programs::two_sided_zo::routing::{
    generated_for, law_completion_moves_one_node_on, law_epoch_begins_at_the_current_inboxes,
    law_next_epoch_begins_where_outcome_told, law_outcome_goes_where_ports_listen,
    law_outcome_reaches_every_port, law_outputs_follow_edges, law_roots_are_sent_nothing_else,
    law_roots_are_sent_what_is_due, law_scheduler_waits_where_nodes_publish,
    law_sent_steps_are_counted, law_serial_propagation_goes_to_the_roots, root_sent, steps_of, ticked, turn, wired_step,
};
use crate::programs::two_sided_zo::schedule::{
    ready_addressable, roots_addressable, ProcessReadyPipelineNode, SendReadyRootTasks,
};
use crate::topology::SunTopology;
use crate::topology::frontier::roots;
use crate::topology::graph::{list_at, lists};
use crate::topology::laws::{
    frontier_holds, law_advance_keeps_frontier, law_frontier_starts, law_ready_may_advance, resolved,
};
use crate::topology::validity::{law_exactly_valid_graphs_are_accepted, valid};

verus! {

broadcast use vstd::std_specs::hash::group_hash_axioms;

/// A two-sided Sun is finalized exactly for a valid typed graph and at least
/// one step.
pub proof fn law_only_valid_graphs_train<S, const N: usize>(
    state: &mut SunState<S>,
    po_tx: HashMap<u32, ObjectId>,
    fresh: EpochMailboxes,
    result: Result<(), Failure>,
)
    requires
        mut_ref_current(state).topology.well_formed(),
        call_ensures(
            FinalizeGraph::<N>::absorb_with::<S>,
            (state, Ok::<(), AtomError>(()), po_tx, fresh),
            result,
        ),
    ensures
        result is Ok <==> N > 0 && valid(mut_ref_current(state).topology, true),
        result is Ok ==> mut_ref_future(state).topology.finalized && steps_of(mut_ref_future(state))
            == N && mut_ref_future(state).shared.p1_tx == mut_ref_current(state).shared.p1_tx
            && mut_ref_future(state).shared.po_tx == po_tx,
        mut_ref_future(state).inner == mut_ref_current(state).inner,
{
    law_exactly_valid_graphs_are_accepted(mut_ref_current(state).topology, true);
}

/// An epoch begins empty, keeps each generated pair behind the ones before it,
/// and gives its pairs out only when all of them are there.
pub proof fn law_pairs_are_kept_in_order<S, const N: usize>(
    beginning: &mut SunState<S>,
    begun: Result<(), Failure>,
    storing: &mut SunState<S>,
    up: Transmission,
    down: Transmission,
    stored: Result<(), Failure>,
    state: &SunState<S>,
    collected: Result<Vec<(Transmission, Transmission)>, Failure>,
)
    requires
        call_ensures(
            BeginGradientAccumulation::absorb::<S>,
            (beginning, Ok::<(), AtomError>(())),
            begun,
        ),
        call_ensures(
            StorePropagationInputPair::absorb::<S>,
            (storing, Ok::<(), AtomError>(()), (up, down)),
            stored,
        ),
        call_ensures(
            CollectedPropagationPairs::<N>::absorb::<S>,
            (state, Ok::<(), AtomError>(())),
            collected,
        ),
    ensures
        begun is Ok,
        mut_ref_future(beginning).propagation_up_inputs@.len() == 0,
        mut_ref_future(beginning).propagation_down_inputs@.len() == 0,
        mut_ref_future(beginning).propagation_pairs@.len() == 0,
        mut_ref_future(beginning).shared.p1_tx == mut_ref_current(beginning).shared.p1_tx,
        mut_ref_future(beginning).shared.po_tx == mut_ref_current(beginning).shared.po_tx,
        mut_ref_future(beginning).shared.active_micro_step == 0,
        stored is Ok,
        mut_ref_future(storing).propagation_up_inputs@ == mut_ref_current(
            storing,
        ).propagation_up_inputs@.push(up),
        mut_ref_future(storing).propagation_down_inputs@ == mut_ref_current(
            storing,
        ).propagation_down_inputs@.push(down),
        collected is Ok <==> state.propagation_pairs@.len() == N,
        collected is Ok ==> collected->Ok_0@ == state.propagation_pairs@,
{
}

/// Every root whose turn it is for a step it has not been sent is sent it at
/// each of its ports, and nothing else is sent.
pub proof fn law_steps_go_to_the_roots<S>(
    state: &SunState<S>,
    sends: &Vec<RootPropagationSend>,
    shown: &Vec<String>,
    plan: SendPlan,
    root: u32,
    port: u32,
    i: int,
)
    requires
        roots_addressable(*state),
        roots(state.topology).finite(),
        call_ensures(SendReadyRootTasks::emit::<S>, (state,), *sends),
        shown@.len() == sends@.len(),
        call_ensures(SendRootTaskPropagationsEffect::plan, (sends, shown), plan),
        plan.outcome is Ok,
    ensures
        roots(state.topology).contains(root) && state.topology.vertex_ports@.contains_key(root)
            && state.topology.vertex_ports@[root]@.contains(port) && turn(*state, root) is Some
            && root_sent(*state, turn(*state, root)->0.first, root) <= turn(*state, root)->0.step
            ==> exists|k: int| {
            &&& 0 <= k < plan.sends@.len()
            &&& (#[trigger] plan.sends@[k]).port_id == port
            &&& wired_step(
                *state,
                plan.sends@[k],
                turn(*state, root)->0.first,
                turn(*state, root)->0.step,
                generated_for(*state, turn(*state, root)->0.first, turn(*state, root)->0.step),
            )
        },
        0 <= i < plan.sends@.len() ==> exists|from: u32| {
            &&& #[trigger] roots(state.topology).contains(from)
            &&& turn(*state, from) is Some
            &&& wired_step(
                *state,
                plan.sends@[i],
                turn(*state, from)->0.first,
                turn(*state, from)->0.step,
                generated_for(*state, turn(*state, from)->0.first, turn(*state, from)->0.step),
            )
        },
{
    let refused = shown@[crate::programs::two_sided_zo::effect::leading_propagations(
        sends@,
    ).len() as int]@;
    if roots(state.topology).contains(root) && state.topology.vertex_ports@.contains_key(root)
        && state.topology.vertex_ports@[root]@.contains(port) && turn(*state, root) is Some
        && root_sent(*state, turn(*state, root)->0.first, root) <= turn(*state, root)->0.step {
        let k = law_roots_are_sent_what_is_due(*state, refused, plan, root, port);
        assert(plan.sends@[k].port_id == port);
    }
    if 0 <= i < plan.sends@.len() {
        let from = law_roots_are_sent_nothing_else(*state, refused, plan, i);
        assert(roots(state.topology).contains(from));
    }
}

/// A root that was sent its step counts it, and no other root does.
pub proof fn law_sent_roots_count_their_step<S>(
    state: &mut SunState<S>,
    sent: Vec<u32>,
    result: Result<(), Failure>,
    root: u32,
)
    requires
        call_ensures(
            SendReadyRootTasks::absorb::<S>,
            (state, Ok::<Vec<u32>, AtomError>(sent)),
            result,
        ),
        sent@.no_duplicates(),
    ensures
        result is Ok,
        sent@.contains(root) && turn(mut_ref_current(state), root) is Some ==> root_sent(
            mut_ref_future(state),
            turn(mut_ref_current(state), root)->0.first,
            root,
        ) == turn(mut_ref_current(state), root)->0.step + 1,
        !sent@.contains(root) ==> root_sent(mut_ref_future(state), true, root) == root_sent(
            mut_ref_current(state),
            true,
            root,
        ) && root_sent(mut_ref_future(state), false, root) == root_sent(
            mut_ref_current(state),
            false,
            root,
        ),
        ticked(mut_ref_current(state), None, mut_ref_future(state)),
        mut_ref_future(state).pipeline_completions == mut_ref_current(state).pipeline_completions,
{
    law_sent_steps_are_counted(mut_ref_current(state), sent@, mut_ref_future(state), root);
}

/// What a ready node publishes goes along each of its edges as the same step of
/// the same pass; and a ready node is awaited where the deliveries of its step
/// told it to publish.
pub proof fn law_outputs_go_along_the_edges<S>(
    state: &SunState<S>,
    input: &WaitForNodeTransmissionInput,
    node: u32,
    published: Transmission,
    shown: &str,
    plan: SendPlan,
    edge: int,
    sent: AddressedTransmission,
    given: Transmission,
)
    requires
        ready_addressable(*state),
        ready_set(*state).finite(),
        call_ensures(ProcessReadyPipelineNode::emit::<S>, (state,), *input),
        ready_set(*state).contains(node),
        call_ensures(
            WaitForNodeTransmissionEffect::forward,
            (input, node, published, shown),
            plan,
        ),
        plan.outcome is Ok,
        0 <= edge < list_at(state.topology.outgoing_edges(), node).len(),
        sent.node_id == node,
        turn(*state, node) is Some,
        wired_step(*state, sent, turn(*state, node)->0.first, turn(*state, node)->0.step, given),
    ensures
        input.rx_endpoints@.contains((node, sent.transmission->send)),
        plan.sends@.len() == list_at(state.topology.outgoing_edges(), node).len(),
        plan.sends@[edge].port_id == list_at(state.topology.outgoing_edges(), node)[edge].port_id,
        wired_step(
            *state,
            plan.sends@[edge],
            turn(*state, node)->0.first,
            turn(*state, node)->0.step,
            published,
        ),
{
    law_scheduler_waits_where_nodes_publish(*state, sent, given);
    assert(input.downstream@.contains_key(node));
    assert(lists(input.downstream@)[node] == input.downstream@[node]@);
    law_outputs_follow_edges(*state, node, published, shown@, plan, edge);
}

/// A completion is reported as it was published, and taking it in moves that
/// node on by one step.
pub proof fn law_completions_are_taken_in<S>(
    state: &mut SunState<S>,
    node: u32,
    published: Transmission,
    reached: Vec<u32>,
    completion: Result<NodeTransmission, AtomError>,
    result: Result<(), Failure>,
    other: u32,
)
    requires
        call_ensures(
            WaitForNodeTransmissionEffect::finish,
            (node, published, Ok::<Vec<u32>, AtomError>(reached)),
            completion,
        ),
        call_ensures(ProcessReadyPipelineNode::absorb::<S>, (state, completion), result),
        result is Ok,
        other != node,
        mut_ref_current(state).pipeline_completions < usize::MAX,
    ensures
        completion is Ok,
        completion->Ok_0.node_id == node,
        completion->Ok_0.transmission == published,
        completion->Ok_0.sent_node_ids == reached,
        ticked(mut_ref_current(state), Some(completion->Ok_0), mut_ref_future(state)),
        turn(mut_ref_current(state), node) is Some,
        turn(mut_ref_future(state), other) == turn(mut_ref_current(state), other),
        mut_ref_future(state).pipeline_completions == mut_ref_current(state).pipeline_completions
            + 1,
{
    law_completion_moves_one_node_on(
        mut_ref_current(state),
        completion->Ok_0,
        mut_ref_future(state),
        other,
    );
}

/// A prepared epoch begins where the ports listen, with every node before its
/// first step of the first pass.
pub proof fn law_epoch_is_prepared_from_the_inboxes<S, const N: usize>(
    state: &mut SunState<S>,
    fresh: StepMailboxes,
    result: Result<(), Failure>,
    port: u32,
    node: u32,
)
    requires
        crate::programs::two_sided_zo::pipeline::step_mailboxes_fit(
            fresh,
            mut_ref_current(state).topology,
            crate::counting::spec_at_least_one(N),
        ),
        call_ensures(
            PreparePropagationPipeline::<N>::absorb_with::<S>,
            (state, Ok::<(), AtomError>(()), fresh),
            result,
        ),
        result is Ok,
        mut_ref_current(state).topology.port_vertices@.contains_key(port),
        mut_ref_current(state).topology.vertices().contains(node),
    ensures
        steps_of(mut_ref_current(state)) == if N > 1 {
            N as int
        } else {
            1
        },
        mut_ref_future(state).p1_step_tx@.len() == steps_of(mut_ref_current(state)),
        mut_ref_future(state).p1_step_tx@[0]@[port] == mut_ref_current(state).shared.p1_tx@[port],
        turn(mut_ref_future(state), node) is Some,
        turn(mut_ref_future(state), node)->0.first,
        turn(mut_ref_future(state), node)->0.step == 0,
        mut_ref_future(state).pipeline_completions == 0,
        mut_ref_future(state).pipeline_target_completions == mut_ref_current(
            state,
        ).topology.vertices().len() * steps_of(mut_ref_current(state)) * 2,
{
    law_epoch_begins_at_the_current_inboxes(
        mut_ref_current(state),
        mut_ref_future(state),
        fresh,
        port,
        node,
        0,
    );
}

/// The outcome that the policy came to reaches every port that awaits one, with
/// both losses and the seed as they are, and the next epoch begins where each
/// port was told to listen.
pub proof fn law_outcome_is_broadcast<S>(
    state: &SunState<S>,
    outcome: Potentiation,
    input: &BroadcastPotentiationInput,
    drawn: &Vec<Uuid>,
    plan: (Vec<AddressedPotentiation>, BroadcastPotentiationResult),
    ending: &mut SunState<S>,
    po_tx: HashMap<u32, ObjectId>,
    fresh: EpochMailboxes,
    ended: Result<(), Failure>,
    i: int,
)
    requires
        call_ensures(BroadcastPotentiation::emit::<S>, (state, outcome), *input),
        drawn@.len() == input.port_endpoints@.len(),
        call_ensures(BroadcastPotentiationEffect::plan_with, (input, drawn), plan),
        *state == mut_ref_current(ending),
        call_ensures(
            BroadcastPotentiation::absorb_with::<S>,
            (ending, Ok::<BroadcastPotentiationResult, AtomError>(plan.1), po_tx, fresh),
            ended,
        ),
        0 <= i < plan.0@.len(),
        forall|j: int|
            0 <= j < input.port_endpoints@.len() && j != i ==> (
            #[trigger] input.port_endpoints@[j]).0 != input.port_endpoints@[i].0,
        state.topology.port_vertices@.dom().finite(),
    ensures
        ended is Ok,
        ({
            let sent = plan.0@[i];
            &&& state.topology.port_vertices@.contains_key(sent.port_id)
            &&& state.shared.po_tx@.contains_key(sent.port_id)
            &&& sent.mailbox == state.shared.po_tx@[sent.port_id]
            &&& sent.transmission is Potentiation
            &&& sent.transmission->potentiation.loss_up_bits == outcome.loss_up_bits
            &&& sent.transmission->potentiation.loss_down_bits == outcome.loss_down_bits
            &&& sent.transmission->potentiation.seed == outcome.seed
            &&& mut_ref_future(ending).shared.p1_tx@.contains_key(sent.port_id)
            &&& mut_ref_future(ending).shared.p1_tx@[sent.port_id]
                == sent.transmission->Potentiation_recv
        }),
        mut_ref_future(ending).propagation_pairs@.len() == 0,
{
    law_outcome_reaches_every_port(*input, drawn@, i);
    assert(plan.0@ == potentiations_for(*input, drawn@));
    assert(plan.1.next_p1_tx_map@ == next_inboxes(*input, drawn@));
    law_next_epoch_begins_where_outcome_told(
        mut_ref_current(ending),
        mut_ref_future(ending),
        *input,
        drawn@,
        po_tx,
        fresh,
        i,
    );
    let at = input.port_endpoints@[i];
    assert(input.port_endpoints@.contains(at));
    law_outcome_goes_where_ports_listen(*state, at);
}

/// In serial passes the second-pass inputs are queued in order and taken oldest
/// first, the first-pass outputs are kept in order, and each second-pass output
/// is paired with the first-pass output of its step.
pub proof fn law_serial_passes_pair_in_order<S, const N: usize>(
    queueing: &mut SunState<S>,
    up: Transmission,
    down: Transmission,
    queued: Result<Transmission, Failure>,
    recording: &mut SunState<S>,
    output: Transmission,
    recorded: Result<(), Failure>,
    turning: &mut SunState<S>,
    turned: Result<(), Failure>,
    taking: &mut SunState<S>,
    taken: Result<Transmission, Failure>,
    pairing: &mut SunState<S>,
    paired: Result<(), Failure>,
)
    requires
        call_ensures(
            StoreDownPropagationInput::absorb::<S>,
            (queueing, Ok::<(), AtomError>(()), (up, down)),
            queued,
        ),
        call_ensures(
            RecordUpPropagationOutput::absorb::<S>,
            (recording, Ok::<(), AtomError>(()), output),
            recorded,
        ),
        call_ensures(
            BeginDownPropagationPhase::<N>::absorb::<S>,
            (turning, Ok::<(), AtomError>(())),
            turned,
        ),
        call_ensures(
            NextDownPropagationInput::absorb::<S>,
            (taking, Ok::<(), AtomError>(())),
            taken,
        ),
        call_ensures(
            RecordDownPropagationOutput::absorb::<S>,
            (pairing, Ok::<(), AtomError>(()), output),
            paired,
        ),
    ensures
        queued == Ok::<Transmission, Failure>(up),
        mut_ref_future(queueing).propagation_down_inputs@ == mut_ref_current(
            queueing,
        ).propagation_down_inputs@.push(down),
        recorded is Ok,
        mut_ref_future(recording).propagation_up_outputs@ == mut_ref_current(
            recording,
        ).propagation_up_outputs@.push(output),
        turned is Ok <==> mut_ref_current(turning).propagation_down_inputs@.len() == (if N > 1 {
            N as int
        } else {
            1
        }) && mut_ref_current(turning).propagation_up_outputs@.len() == (if N > 1 {
            N as int
        } else {
            1
        }),
        taken is Ok <==> mut_ref_current(taking).propagation_down_inputs@.len() > 0,
        taken is Ok ==> taken->Ok_0 == mut_ref_current(taking).propagation_down_inputs@[0]
            && mut_ref_future(taking).propagation_down_inputs@.len() + 1 == mut_ref_current(
            taking,
        ).propagation_down_inputs@.len(),
        ({
            let k = mut_ref_current(pairing).propagation_pairs@.len() as int;
            &&& paired is Ok <==> k < mut_ref_current(pairing).propagation_up_outputs@.len()
            &&& paired is Ok ==> mut_ref_future(pairing).propagation_pairs@ == mut_ref_current(
                pairing,
            ).propagation_pairs@.push(
                (mut_ref_current(pairing).propagation_up_outputs@[k], output),
            )
        }),
{
}

/// The serial first pass sends its roots at the first-pass inboxes and awaits
/// its nodes at the first-pass outputs.
pub proof fn law_first_serial_pass_is_wired(
    topology: &SunTopology,
    inner: &TwoSidedZoInner,
    given: Transmission,
    emitted: (SendRootPropagationInput, Transmission),
    input: &SendRootPropagationInput,
    shown: &str,
    plan: SendPlan,
    i: int,
)
    requires
        call_ensures(SendRootPropagation::emit::<PropA>, (topology, inner, given), emitted),
        *input == emitted.0,
        call_ensures(SendRootPropagationEffect::plan, (input, shown), plan),
        plan.outcome is Ok,
        0 <= i < plan.sends@.len(),
    ensures
        ({
            let sent = plan.sends@[i];
            &&& emitted.1 == given
            &&& inner.p1_tx@.contains_key(sent.port_id)
            &&& sent.mailbox == inner.p1_tx@[sent.port_id]
            &&& sent.transmission is Propagation
            &&& given is Propagation
            &&& sent.transmission->emission_id == given->emission_id
            &&& inner.p1_rx@.contains_key(sent.node_id)
            &&& sent.transmission->send == inner.p1_rx@[sent.node_id]
            &&& inner.active_micro_step + 1 < inner.grad_steps
                ==> sent.transmission->Propagation_recv == inner.next_p1_tx@[sent.port_id]
            &&& inner.active_micro_step + 1 >= inner.grad_steps
                ==> sent.transmission->Propagation_recv == inner.p2_tx@[sent.port_id]
        }),
{
    law_serial_propagation_goes_to_the_roots(
        *topology,
        PropA::spec_mailboxes(*inner),
        input.targets@,
        given,
        shown@,
        plan,
        i,
        0,
        0,
    );
}

/// The serial second pass sends its roots at the second-pass inboxes and awaits
/// its nodes at the second-pass outputs.
pub proof fn law_second_serial_pass_is_wired(
    topology: &SunTopology,
    inner: &TwoSidedZoInner,
    given: Transmission,
    emitted: (SendRootPropagationInput, Transmission),
    input: &SendRootPropagationInput,
    shown: &str,
    plan: SendPlan,
    i: int,
)
    requires
        call_ensures(SendRootPropagation::emit::<PropB>, (topology, inner, given), emitted),
        *input == emitted.0,
        call_ensures(SendRootPropagationEffect::plan, (input, shown), plan),
        plan.outcome is Ok,
        0 <= i < plan.sends@.len(),
    ensures
        ({
            let sent = plan.sends@[i];
            &&& emitted.1 == given
            &&& inner.p2_tx@.contains_key(sent.port_id)
            &&& sent.mailbox == inner.p2_tx@[sent.port_id]
            &&& sent.transmission is Propagation
            &&& given is Propagation
            &&& sent.transmission->emission_id == given->emission_id
            &&& inner.p2_rx@.contains_key(sent.node_id)
            &&& sent.transmission->send == inner.p2_rx@[sent.node_id]
            &&& inner.active_micro_step + 1 < inner.grad_steps
                ==> sent.transmission->Propagation_recv == inner.next_p2_tx@[sent.port_id]
            &&& inner.active_micro_step + 1 >= inner.grad_steps
                ==> sent.transmission->Propagation_recv == inner.po_tx@[sent.port_id]
        }),
{
    law_serial_propagation_goes_to_the_roots(
        *topology,
        PropB::spec_mailboxes(*inner),
        input.targets@,
        given,
        shown@,
        plan,
        i,
        0,
        0,
    );
}

/// A serial pass over a resolved graph begins with its roots ready, and every
/// completion of a ready node is accepted, handed on as it was published, and
/// keeps the pass in order.
pub proof fn law_serial_passes_stay_in_order(
    branch: &mut PropA,
    topology: &SunTopology,
    given: Transmission,
    begun: Result<Transmission, Failure>,
    running: &mut PropA,
    running_topology: &mut SunTopology,
    inner: &mut TwoSidedZoInner,
    completion: NodeTransmission,
    result: Result<Transmission, Failure>,
    done: Set<u32>,
)
    requires
        resolved(*topology),
        call_ensures(InitializePropagation::absorb::<PropA>, (branch, topology, given), begun),
        resolved(mut_ref_current(running_topology)),
        frontier_holds(
            mut_ref_current(running_topology),
            done,
            mut_ref_current(running).pending@,
            mut_ref_current(running).ready@,
        ),
        mut_ref_current(running).ready@.contains(completion.node_id),
        call_ensures(
            ProcessNextNode::absorb::<PropA>,
            (
                running,
                running_topology,
                inner,
                Ok::<NodeTransmission, AtomError>(completion),
            ),
            result,
        ),
    ensures
        begun == Ok::<Transmission, Failure>(given),
        frontier_holds(
            *topology,
            Set::empty(),
            mut_ref_future(branch).pending@,
            mut_ref_future(branch).ready@,
        ),
        result == Ok::<Transmission, Failure>(completion.transmission),
        frontier_holds(
            mut_ref_current(running_topology),
            done.insert(completion.node_id),
            mut_ref_future(running).pending@,
            mut_ref_future(running).ready@,
        ),
        mut_ref_future(inner).p1_tx == mut_ref_current(inner).p1_tx,
        mut_ref_future(inner).p1_rx == mut_ref_current(inner).p1_rx,
{
    law_frontier_starts(*topology, mut_ref_future(branch).pending@);
    let here = mut_ref_current(running_topology);
    let node = completion.node_id;
    let pending = mut_ref_current(running).pending@;
    let ready = mut_ref_current(running).ready@;
    law_ready_may_advance(here, done, pending, ready, node);
    assert(pending.dom().contains(node));
    assert(here.vertices().contains(node));
    assert(here.outgoing_edges().dom().contains(node));
    assert(here.outgoing_edges()[node] == list_at(here.outgoing_edges(), node));
    law_advance_keeps_frontier(
        here,
        done,
        pending,
        ready,
        node,
        mut_ref_future(running).pending@,
        mut_ref_future(running).ready@,
    );
}

} // verus!
