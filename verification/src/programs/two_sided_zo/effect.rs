//! Routing of transmissions to the inboxes of nodes, and the broadcast of
//! potentiations.

use std::collections::HashMap;

use vstd::prelude::*;
use vstd::string::*;

use crate::collections::{ascending, lemma_take_next};
use crate::error::AtomError;
use crate::failure::{one_number, two_numbers, with_number, with_numbers};
use crate::forward::effect::{nodes_of_targets, target_nodes};
use crate::ids::{ObjectId, Uuid};
use crate::message::{Potentiation, Transmission};
use crate::topology::PropagationTarget;
use crate::topology::graph::{list_at, lists};

verus! {

broadcast use vstd::std_specs::hash::group_hash_axioms;

/// A completion of a node: what it published, and which nodes that reached.
#[derive(Debug)]
pub struct NodeTransmission {
    /// The node that published.
    pub node_id: u32,
    /// What it published.
    pub transmission: Transmission,
    /// Downstream nodes that were sent this transmission.
    pub sent_node_ids: Vec<u32>,
}

/// One propagation for every root port.
#[derive(Debug)]
pub struct SendRootPropagationInput {
    pub targets: Vec<PropagationTarget>,
    pub transmission: Transmission,
}

/// One propagation for one root port.
#[derive(Clone, Copy, Debug, PartialEq, Eq, Structural)]
pub struct RootPropagationSend {
    pub target: PropagationTarget,
    pub transmission: Transmission,
}

/// Output mailboxes of the ready nodes, and where to forward what arrives.
#[derive(Debug)]
pub struct WaitForNodeTransmissionInput {
    /// Each ready node with its output mailbox.
    pub rx_endpoints: Vec<(u32, ObjectId)>,
    /// The downstream targets of each ready node.
    pub downstream: HashMap<u32, Vec<PropagationTarget>>,
}

/// One transmission addressed to the mailbox of one port.
#[derive(Clone, Copy, Debug, PartialEq, Eq, Structural)]
pub struct AddressedTransmission {
    pub node_id: u32,
    pub port_id: u32,
    pub mailbox: ObjectId,
    pub transmission: Transmission,
}

/// Transmissions to write in order, and what to report once all are written.
pub struct SendPlan {
    pub sends: Vec<AddressedTransmission>,
    pub outcome: Result<Vec<u32>, AtomError>,
}

/// The transmission that reaches `target`: the same emission, with the
/// target's next inbox and its output mailbox. Only propagations are sent on.
pub open spec fn propagation_for(
    target: PropagationTarget,
    transmission: Transmission,
) -> Option<AddressedTransmission> {
    match transmission {
        Transmission::Propagation { emission_id, .. } => Some(
            AddressedTransmission {
                node_id: target.node_id,
                port_id: target.port_id,
                mailbox: target.input_id,
                transmission: Transmission::Propagation {
                    emission_id,
                    recv: target.next_input_id,
                    send: target.output_id,
                },
            },
        ),
        Transmission::Potentiation { .. } => None,
    }
}

/// The error for a transmission that is not a propagation and reads `shown`.
pub open spec fn refuses_potentiation(error: AtomError, shown: Seq<char>) -> bool {
    error matches AtomError::Transmission(cause) && cause@ == "expected propagation input, got "@
        + shown
}

/// Addresses a propagation to one target. `shown` is how the transmission
/// reads in a diagnostic.
pub fn send_propagation(
    target: &PropagationTarget,
    transmission: &Transmission,
    shown: &str,
) -> (result: Result<AddressedTransmission, AtomError>)
    ensures
        match propagation_for(*target, *transmission) {
            Some(sent) => result == Ok::<_, AtomError>(sent),
            None => result matches Err(error) && refuses_potentiation(error, shown@),
        },
{
    match transmission {
        Transmission::Propagation { emission_id, recv: _, send: _ } => Ok(
            AddressedTransmission {
                node_id: target.node_id,
                port_id: target.port_id,
                mailbox: target.input_id,
                transmission: Transmission::Propagation {
                    emission_id: *emission_id,
                    recv: target.next_input_id,
                    send: target.output_id,
                },
            },
        ),
        Transmission::Potentiation { potentiation: _, recv: _ } => {
            let mut text = "expected propagation input, got ".to_owned();
            text.append(shown);
            Err(AtomError::Transmission(text))
        },
    }
}

/// The error to report when writing a propagation failed.
pub fn send_propagation_failed(sent: &AddressedTransmission, cause: &str) -> (error: AtomError)
    ensures
        error matches AtomError::Transmission(text) && text@ == two_numbers(
            "send propagation to vertex "@,
            sent.node_id as nat,
            " port "@,
            sent.port_id as nat,
            ": "@,
        ) + cause@,
{
    let mut text = with_numbers(
        "send propagation to vertex ",
        sent.node_id as u64,
        " port ",
        sent.port_id as u64,
        ": ",
    );
    text.append(cause);
    AtomError::Transmission(text)
}

/// The sends of a list that come before the first that is no propagation.
pub open spec fn leading_propagations(sends: Seq<RootPropagationSend>) -> Seq<
    AddressedTransmission,
>
    decreases sends.len(),
{
    if sends.len() == 0 {
        Seq::empty()
    } else {
        match propagation_for(sends[0].target, sends[0].transmission) {
            Some(sent) => seq![sent] + leading_propagations(sends.drop_first()),
            None => Seq::empty(),
        }
    }
}

/// Every send of a list is a propagation.
pub open spec fn all_propagations(sends: Seq<RootPropagationSend>) -> bool {
    forall|i: int|
        #![trigger sends[i]]
        0 <= i < sends.len() ==> sends[i].transmission is Propagation
}

/// The targets of a list of sends.
pub open spec fn send_targets(sends: Seq<RootPropagationSend>) -> Seq<PropagationTarget> {
    sends.map_values(|send: RootPropagationSend| send.target)
}

/// The plan writes every propagation up to the first transmission that is
/// none. If all are propagations, it reports the nodes they reach, and else
/// it refuses that transmission, which reads `refused`.
pub open spec fn plans_sends(
    sends: Seq<RootPropagationSend>,
    refused: Seq<char>,
    plan: SendPlan,
) -> bool {
    &&& plan.sends@ == leading_propagations(sends)
    &&& plan.outcome is Ok <==> all_propagations(sends)
    &&& plan.outcome matches Ok(nodes) ==> nodes@ == ascending(target_nodes(send_targets(sends)))
    &&& plan.outcome matches Err(error) ==> refuses_potentiation(error, refused)
}

/// Sends many propagations, each target its own.
pub struct SendRootTaskPropagationsEffect;

impl SendRootTaskPropagationsEffect {
    /// What to write and what to report. `shown` is how each transmission
    /// reads in a diagnostic; the first that is no propagation comes right
    /// after those that are written.
    pub fn plan(sends: &Vec<RootPropagationSend>, shown: &Vec<String>) -> (plan: SendPlan)
        requires
            shown@.len() == sends@.len(),
        ensures
            plans_sends(sends@, shown@[leading_propagations(sends@).len() as int]@, plan),
    {
        let mut planned: Vec<AddressedTransmission> = Vec::new();
        let mut targets: Vec<PropagationTarget> = Vec::new();
        let mut i: usize = 0;
        assert(sends@.skip(0) =~= sends@);
        assert(planned@ + leading_propagations(sends@) =~= leading_propagations(sends@));
        while i < sends.len()
            invariant
                i <= sends.len(),
                shown@.len() == sends@.len(),
                planned@.len() == i,
                targets@ == send_targets(sends@).take(i as int),
                planned@ + leading_propagations(sends@.skip(i as int)) == leading_propagations(
                    sends@,
                ),
                forall|j: int|
                    #![trigger sends@[j]]
                    0 <= j < i ==> sends@[j].transmission is Propagation,
            decreases sends.len() - i,
        {
            proof {
                lemma_take_next(send_targets(sends@), i as int);
                assert(sends@.skip(i as int).drop_first() =~= sends@.skip(i + 1));
            }
            let ghost before = planned@;
            match send_propagation(
                &sends[i].target,
                &sends[i].transmission,
                shown[i].as_str(),
            ) {
                Ok(sent) => {
                    planned.push(sent);
                    assert(before + (seq![sent] + leading_propagations(sends@.skip(i + 1)))
                        =~= planned@ + leading_propagations(sends@.skip(i + 1)));
                },
                Err(error) => {
                    assert(!(sends@[i as int].transmission is Propagation));
                    assert(planned@ =~= leading_propagations(sends@));
                    return SendPlan { sends: planned, outcome: Err(error) };
                },
            }
            targets.push(sends[i].target);
            i = i + 1;
        }
        assert(sends@.skip(i as int) =~= Seq::empty());
        assert(planned@ =~= leading_propagations(sends@));
        assert(targets@ =~= send_targets(sends@));
        let nodes = nodes_of_targets(&targets);
        SendPlan { sends: planned, outcome: Ok(nodes) }
    }
}

/// One transmission for every target, as a list of sends.
pub open spec fn same_sends(targets: Seq<PropagationTarget>, transmission: Transmission) -> Seq<
    RootPropagationSend,
> {
    targets.map_values(|target: PropagationTarget| RootPropagationSend { target, transmission })
}

fn repeat_transmission(targets: &Vec<PropagationTarget>, transmission: Transmission) -> (sends: Vec<
    RootPropagationSend,
>)
    ensures
        sends@ == same_sends(targets@, transmission),
{
    let mut sends: Vec<RootPropagationSend> = Vec::new();
    let mut i: usize = 0;
    while i < targets.len()
        invariant
            i <= targets.len(),
            sends@ == same_sends(targets@, transmission).take(i as int),
        decreases targets.len() - i,
    {
        sends.push(RootPropagationSend { target: targets[i], transmission });
        proof {
            lemma_take_next(same_sends(targets@, transmission), i as int);
        }
        i = i + 1;
    }
    assert(sends@ =~= same_sends(targets@, transmission));
    sends
}

fn repeat_text(text: &str, count: usize) -> (texts: Vec<String>)
    ensures
        texts@.len() == count,
        forall|i: int| 0 <= i < count ==> (#[trigger] texts@[i])@ == text@,
{
    let mut texts: Vec<String> = Vec::new();
    let mut i: usize = 0;
    while i < count
        invariant
            i <= count,
            texts@.len() == i,
            forall|j: int| 0 <= j < i ==> (#[trigger] texts@[j])@ == text@,
        decreases count - i,
    {
        texts.push(text.to_owned());
        i = i + 1;
    }
    texts
}

/// There are at most as many leading propagations as sends, and as many only
/// where all are propagations.
proof fn lemma_leading_propagations(sends: Seq<RootPropagationSend>)
    ensures
        leading_propagations(sends).len() <= sends.len(),
        leading_propagations(sends).len() == sends.len() ==> all_propagations(sends),
    decreases sends.len(),
{
    if sends.len() > 0 {
        lemma_leading_propagations(sends.drop_first());
        assert forall|i: int| #![trigger sends[i]] 0 <= i < sends.len()
            && leading_propagations(sends).len() == sends.len() implies sends[i].transmission is Propagation by {
            if i > 0 {
                assert(sends.drop_first()[i - 1] == sends[i]);
            }
        }
    }
}

/// Addresses one transmission to every target.
fn plan_same(targets: &Vec<PropagationTarget>, transmission: Transmission, shown: &str) -> (plan:
    SendPlan)
    ensures
        plans_sends(same_sends(targets@, transmission), shown@, plan),
{
    let sends = repeat_transmission(targets, transmission);
    let texts = repeat_text(shown, sends.len());
    proof {
        lemma_leading_propagations(sends@);
    }
    SendRootTaskPropagationsEffect::plan(&sends, &texts)
}

/// Sends one propagation pass to all root ports.
pub struct SendRootPropagationEffect;

impl SendRootPropagationEffect {
    /// What to write and what to report. `shown` is how the transmission
    /// reads in a diagnostic.
    pub fn plan(input: &SendRootPropagationInput, shown: &str) -> (plan: SendPlan)
        ensures
            plans_sends(same_sends(input.targets@, input.transmission), shown@, plan),
    {
        plan_same(&input.targets, input.transmission, shown)
    }
}

/// Waits for the first ready node to publish, then forwards what it published
/// to that node's own targets.
pub struct WaitForNodeTransmissionEffect;

impl WaitForNodeTransmissionEffect {
    /// There must be a mailbox to wait at.
    pub fn begin(input: &WaitForNodeTransmissionInput) -> (result: Result<(), AtomError>)
        ensures
            result is Ok <==> input.rx_endpoints@.len() > 0,
            result matches Err(error) ==> {
                error matches AtomError::Transmission(cause) && cause@
                    == "no endpoints to wait for"@
            },
    {
        if input.rx_endpoints.len() == 0 {
            Err(AtomError::Transmission("no endpoints to wait for".to_owned()))
        } else {
            Ok(())
        }
    }

    /// What to forward once `node_id` has published `transmission`, which
    /// reads `shown` in a diagnostic.
    pub fn forward(
        input: &WaitForNodeTransmissionInput,
        node_id: u32,
        transmission: Transmission,
        shown: &str,
    ) -> (plan: SendPlan)
        ensures
            plans_sends(
                same_sends(list_at(lists(input.downstream@), node_id), transmission),
                shown@,
                plan,
            ),
    {
        match input.downstream.get(&node_id) {
            Some(targets) => plan_same(targets, transmission, shown),
            None => {
                let targets: Vec<PropagationTarget> = Vec::new();
                assert(targets@ =~= list_at(lists(input.downstream@), node_id));
                plan_same(&targets, transmission, shown)
            },
        }
    }

    /// The completion to report once everything was forwarded.
    pub fn finish(node_id: u32, transmission: Transmission, outcome: Result<Vec<u32>, AtomError>) -> (
    result: Result<NodeTransmission, AtomError>)
        ensures
            match outcome {
                Ok(sent) => result matches Ok(completion) && completion == (NodeTransmission {
                    node_id,
                    transmission,
                    sent_node_ids: sent,
                }),
                Err(error) => result == Err::<NodeTransmission, _>(error),
            },
    {
        match outcome {
            Ok(sent_node_ids) => Ok(NodeTransmission { node_id, transmission, sent_node_ids }),
            Err(error) => Err(error),
        }
    }
}

/// The outcome of a step and the mailbox of every port it goes to.
#[derive(Debug)]
pub struct BroadcastPotentiationInput {
    pub potentiation: Potentiation,
    /// Each port with its potentiation inbox.
    pub port_endpoints: Vec<(u32, ObjectId)>,
}

/// The first inbox of each port for the next epoch.
#[derive(Debug)]
pub struct BroadcastPotentiationResult {
    pub next_p1_tx_map: Vec<(u32, ObjectId)>,
}

/// One potentiation addressed to the mailbox of one port.
#[derive(Clone, Copy, Debug, PartialEq, Eq, Structural)]
pub struct AddressedPotentiation {
    pub port_id: u32,
    pub mailbox: ObjectId,
    pub transmission: Transmission,
}

/// The potentiations to write: to every port, each with its next inbox.
pub open spec fn potentiations_for(input: BroadcastPotentiationInput, drawn: Seq<Uuid>) -> Seq<
    AddressedPotentiation,
> {
    Seq::new(
        input.port_endpoints@.len(),
        |i: int|
            AddressedPotentiation {
                port_id: input.port_endpoints@[i].0,
                mailbox: input.port_endpoints@[i].1,
                transmission: Transmission::Potentiation {
                    potentiation: input.potentiation,
                    recv: drawn[i],
                },
            },
    )
}

/// Each port with the inbox it was told to await next.
pub open spec fn next_inboxes(input: BroadcastPotentiationInput, drawn: Seq<Uuid>) -> Seq<
    (u32, ObjectId),
> {
    Seq::new(
        input.port_endpoints@.len(),
        |i: int| (input.port_endpoints@[i].0, drawn[i]),
    )
}

/// Broadcasts the outcome of a step to all input ports. Each transmission
/// gives that port a fresh inbox for the next epoch.
pub struct BroadcastPotentiationEffect;

impl BroadcastPotentiationEffect {
    /// What to write and what to report, with the given next inboxes.
    pub fn plan_with(input: &BroadcastPotentiationInput, drawn: &Vec<Uuid>) -> (plan: (
        Vec<AddressedPotentiation>,
        BroadcastPotentiationResult,
    ))
        requires
            drawn@.len() == input.port_endpoints@.len(),
        ensures
            plan.0@ == potentiations_for(*input, drawn@),
            plan.1.next_p1_tx_map@ == next_inboxes(*input, drawn@),
    {
        let mut sends: Vec<AddressedPotentiation> = Vec::new();
        let mut next_p1_tx_map: Vec<(u32, ObjectId)> = Vec::new();
        let mut i: usize = 0;
        while i < input.port_endpoints.len()
            invariant
                i <= input.port_endpoints.len(),
                drawn@.len() == input.port_endpoints@.len(),
                sends@ == potentiations_for(*input, drawn@).take(i as int),
                next_p1_tx_map@ == next_inboxes(*input, drawn@).take(i as int),
            decreases input.port_endpoints.len() - i,
        {
            let (port_id, mailbox) = input.port_endpoints[i];
            sends.push(
                AddressedPotentiation {
                    port_id,
                    mailbox,
                    transmission: Transmission::Potentiation {
                        potentiation: input.potentiation,
                        recv: drawn[i],
                    },
                },
            );
            next_p1_tx_map.push((port_id, drawn[i]));
            proof {
                lemma_take_next(potentiations_for(*input, drawn@), i as int);
                lemma_take_next(next_inboxes(*input, drawn@), i as int);
            }
            i = i + 1;
        }
        assert(sends@ =~= potentiations_for(*input, drawn@));
        assert(next_p1_tx_map@ =~= next_inboxes(*input, drawn@));
        (sends, BroadcastPotentiationResult { next_p1_tx_map })
    }

    /// What to write and what to report, with random next inboxes.
    pub fn plan(input: &BroadcastPotentiationInput) -> (plan: (
        Vec<AddressedPotentiation>,
        BroadcastPotentiationResult,
    ))
        ensures
            exists|drawn: Seq<Uuid>|
                #![trigger next_inboxes(*input, drawn)]
                drawn.len() == input.port_endpoints@.len() && (forall|i: int|
                    0 <= i < drawn.len() ==> (#[trigger] drawn[i]).is_random()) && plan.0@
                    == potentiations_for(*input, drawn) && plan.1.next_p1_tx_map@ == next_inboxes(
                    *input,
                    drawn,
                ),
    {
        let drawn = crate::mailbox::draw_ids(input.port_endpoints.len());
        BroadcastPotentiationEffect::plan_with(input, &drawn)
    }

    /// The error to report when writing a potentiation failed.
    pub fn send_failed(port_id: u32, cause: &str) -> (error: AtomError)
        ensures
            error matches AtomError::Transmission(text) && text@ == one_number(
                "send potentiation to port "@,
                port_id as nat,
                ": "@,
            ) + cause@,
    {
        let mut text = with_number("send potentiation to port ", port_id as u64, ": ");
        text.append(cause);
        AtomError::Transmission(text)
    }
}

} // verus!
