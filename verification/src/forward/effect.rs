//! Routing of artifact deliveries to the inboxes of nodes.

use std::collections::HashMap;

use vstd::prelude::*;
use vstd::string::*;

use crate::collections::{
    ascending, insert_ascending, lemma_ascending, lemma_take_next, strictly_increasing,
};
use crate::error::AtomError;
use crate::failure::{two_numbers, with_numbers};
use crate::ids::ObjectId;
use crate::message::ArtifactDelivery;
use crate::topology::PropagationTarget;
use crate::topology::graph::{list_at, lists};

verus! {

broadcast use vstd::std_specs::hash::group_hash_axioms;

/// A completion in the neutral data plane.
#[derive(Debug)]
pub struct SchedulerDelivery {
    pub node_id: u32,
    pub delivery: ArtifactDelivery,
    pub sent_node_ids: Vec<u32>,
}

/// One artifact for every root port of a forward pass.
#[derive(Debug)]
pub struct SendRootArtifactDeliveryInput {
    pub targets: Vec<PropagationTarget>,
    pub delivery: ArtifactDelivery,
}

/// One artifact for one root port.
#[derive(Clone, Copy, Debug, PartialEq, Eq, Structural)]
pub struct RootArtifactDeliverySend {
    pub target: PropagationTarget,
    pub delivery: ArtifactDelivery,
}

/// Output mailboxes of the ready nodes, and where to forward what arrives.
#[derive(Debug)]
pub struct WaitForNodeArtifactDeliveryInput {
    pub rx_endpoints: Vec<(u32, ObjectId)>,
    pub downstream: HashMap<u32, Vec<PropagationTarget>>,
}

impl WaitForNodeArtifactDeliveryInput {
    pub fn new(
        rx_endpoints: Vec<(u32, ObjectId)>,
        downstream: HashMap<u32, Vec<PropagationTarget>>,
    ) -> (input: WaitForNodeArtifactDeliveryInput)
        ensures
            input.rx_endpoints == rx_endpoints,
            input.downstream == downstream,
    {
        WaitForNodeArtifactDeliveryInput { rx_endpoints, downstream }
    }
}

/// One artifact addressed to the mailbox of one port.
#[derive(Clone, Copy, Debug, PartialEq, Eq, Structural)]
pub struct AddressedDelivery {
    pub node_id: u32,
    pub port_id: u32,
    pub mailbox: ObjectId,
    pub delivery: ArtifactDelivery,
}

/// The delivery that reaches `target`: the same emission, with the target's
/// next inbox and its output mailbox.
pub open spec fn delivery_for(
    target: PropagationTarget,
    delivery: ArtifactDelivery,
) -> AddressedDelivery {
    AddressedDelivery {
        node_id: target.node_id,
        port_id: target.port_id,
        mailbox: target.input_id,
        delivery: ArtifactDelivery {
            emission_id: delivery.emission_id,
            recv: target.next_input_id,
            send: target.output_id,
        },
    }
}

/// Addresses a delivery to one target.
pub fn send_artifact_delivery(target: &PropagationTarget, delivery: ArtifactDelivery) -> (sent:
    AddressedDelivery)
    ensures
        sent == delivery_for(*target, delivery),
{
    AddressedDelivery {
        node_id: target.node_id,
        port_id: target.port_id,
        mailbox: target.input_id,
        delivery: ArtifactDelivery {
            emission_id: delivery.emission_id,
            recv: target.next_input_id,
            send: target.output_id,
        },
    }
}

/// The error to report when writing an artifact failed.
pub fn send_artifact_failed(sent: &AddressedDelivery, cause: &str) -> (error: AtomError)
    ensures
        error matches AtomError::Transmission(text) && text@ == two_numbers(
            "send artifact to vertex "@,
            sent.node_id as nat,
            " port "@,
            sent.port_id as nat,
            ": "@,
        ) + cause@,
{
    let mut text = with_numbers(
        "send artifact to vertex ",
        sent.node_id as u64,
        " port ",
        sent.port_id as u64,
        ": ",
    );
    text.append(cause);
    AtomError::Transmission(text)
}

/// The nodes behind a list of targets.
pub open spec fn target_nodes(targets: Seq<PropagationTarget>) -> Set<u32> {
    targets.map_values(|target: PropagationTarget| target.node_id).to_set()
}

/// The nodes behind a list of targets, each once, in ascending order.
pub fn nodes_of_targets(targets: &Vec<PropagationTarget>) -> (nodes: Vec<u32>)
    ensures
        nodes@ == ascending(target_nodes(targets@)),
        strictly_increasing(nodes@),
        nodes@.to_set() == target_nodes(targets@),
{
    let ghost ids = targets@.map_values(|target: PropagationTarget| target.node_id);
    let mut nodes: Vec<u32> = Vec::new();
    let mut i: usize = 0;
    assert(ids.take(0).to_set() =~= Set::empty());
    assert(nodes@.to_set() =~= Set::empty());
    while i < targets.len()
        invariant
            i <= targets.len(),
            ids == targets@.map_values(|target: PropagationTarget| target.node_id),
            strictly_increasing(nodes@),
            nodes@.to_set() == ids.take(i as int).to_set(),
        decreases targets.len() - i,
    {
        let node = targets[i].node_id;
        proof {
            lemma_take_next(ids, i as int);
            assert(ids[i as int] == node);
        }
        if !contains_id(&nodes, node) {
            insert_ascending(&mut nodes, node);
        } else {
            assert(nodes@.to_set().contains(node));
            assert(nodes@.to_set().insert(node) =~= nodes@.to_set());
        }
        i = i + 1;
    }
    proof {
        assert(ids.take(i as int) =~= ids);
        lemma_ascending(nodes@, target_nodes(targets@));
    }
    nodes
}

/// Whether `id` is one of `ids`.
pub fn contains_id(ids: &Vec<u32>, id: u32) -> (found: bool)
    ensures
        found == ids@.contains(id),
{
    let mut i: usize = 0;
    while i < ids.len()
        invariant
            i <= ids.len(),
            forall|j: int| 0 <= j < i ==> ids@[j] != id,
        decreases ids.len() - i,
    {
        if ids[i] == id {
            assert(ids@[i as int] == id);
            return true;
        }
        i = i + 1;
    }
    false
}

/// The deliveries that carry one artifact to every target, in order.
pub open spec fn deliveries_for(
    targets: Seq<PropagationTarget>,
    delivery: ArtifactDelivery,
) -> Seq<AddressedDelivery> {
    targets.map_values(|target: PropagationTarget| delivery_for(target, delivery))
}

fn address_all(targets: &Vec<PropagationTarget>, delivery: ArtifactDelivery) -> (sent: Vec<
    AddressedDelivery,
>)
    ensures
        sent@ == deliveries_for(targets@, delivery),
{
    let mut sent: Vec<AddressedDelivery> = Vec::new();
    let mut i: usize = 0;
    while i < targets.len()
        invariant
            i <= targets.len(),
            sent@ == deliveries_for(targets@, delivery).take(i as int),
        decreases targets.len() - i,
    {
        sent.push(send_artifact_delivery(&targets[i], delivery));
        proof {
            lemma_take_next(deliveries_for(targets@, delivery), i as int);
        }
        i = i + 1;
    }
    assert(sent@ =~= deliveries_for(targets@, delivery));
    sent
}

/// Sends one artifact to every root port.
pub struct SendRootArtifactDeliveryEffect;

impl SendRootArtifactDeliveryEffect {
    /// The deliveries to make, and the nodes they reach.
    pub fn plan(input: &SendRootArtifactDeliveryInput) -> (planned: (
        Vec<AddressedDelivery>,
        Vec<u32>,
    ))
        ensures
            planned.0@ == deliveries_for(input.targets@, input.delivery),
            planned.1@ == ascending(target_nodes(input.targets@)),
    {
        (address_all(&input.targets, input.delivery), nodes_of_targets(&input.targets))
    }
}

/// The targets of a list of root sends.
pub open spec fn send_targets(sends: Seq<RootArtifactDeliverySend>) -> Seq<PropagationTarget> {
    sends.map_values(|send: RootArtifactDeliverySend| send.target)
}

/// The deliveries of a list of root sends, in order.
pub open spec fn send_deliveries(sends: Seq<RootArtifactDeliverySend>) -> Seq<AddressedDelivery> {
    sends.map_values(|send: RootArtifactDeliverySend| delivery_for(send.target, send.delivery))
}

/// Sends artifacts to root ports, each port its own.
pub struct SendReadyRootArtifactDeliveriesEffect;

impl SendReadyRootArtifactDeliveriesEffect {
    /// The deliveries to make, and the nodes they reach.
    pub fn plan(sends: &Vec<RootArtifactDeliverySend>) -> (planned: (
        Vec<AddressedDelivery>,
        Vec<u32>,
    ))
        ensures
            planned.0@ == send_deliveries(sends@),
            planned.1@ == ascending(target_nodes(send_targets(sends@))),
    {
        let mut sent: Vec<AddressedDelivery> = Vec::new();
        let mut targets: Vec<PropagationTarget> = Vec::new();
        let mut i: usize = 0;
        while i < sends.len()
            invariant
                i <= sends.len(),
                sent@ == send_deliveries(sends@).take(i as int),
                targets@ == send_targets(sends@).take(i as int),
            decreases sends.len() - i,
        {
            sent.push(send_artifact_delivery(&sends[i].target, sends[i].delivery));
            targets.push(sends[i].target);
            proof {
                lemma_take_next(send_deliveries(sends@), i as int);
                lemma_take_next(send_targets(sends@), i as int);
            }
            i = i + 1;
        }
        assert(sent@ =~= send_deliveries(sends@));
        assert(targets@ =~= send_targets(sends@));
        let nodes = nodes_of_targets(&targets);
        (sent, nodes)
    }
}

/// Waits for the first ready node to publish, then forwards what it published
/// to the node's own targets.
pub struct WaitForNodeArtifactDeliveryEffect;

impl WaitForNodeArtifactDeliveryEffect {
    /// There must be a mailbox to wait at.
    pub fn begin(input: &WaitForNodeArtifactDeliveryInput) -> (result: Result<(), AtomError>)
        ensures
            result is Ok <==> input.rx_endpoints@.len() > 0,
            result matches Err(error) ==> {
                error matches AtomError::Transmission(cause) && cause@
                    == "no typed artifact endpoints to wait for"@
            },
    {
        if input.rx_endpoints.len() == 0 {
            Err(AtomError::Transmission("no typed artifact endpoints to wait for".to_owned()))
        } else {
            Ok(())
        }
    }

    /// What to forward once `node_id` has published `delivery`, and the
    /// completion to report.
    pub fn forward(
        input: &WaitForNodeArtifactDeliveryInput,
        node_id: u32,
        delivery: ArtifactDelivery,
    ) -> (forwarded: (Vec<AddressedDelivery>, SchedulerDelivery))
        ensures
            forwarded.0@ == deliveries_for(list_at(lists(input.downstream@), node_id), delivery),
            forwarded.1.node_id == node_id,
            forwarded.1.delivery == delivery,
            forwarded.1.sent_node_ids@ == ascending(
                target_nodes(list_at(lists(input.downstream@), node_id)),
            ),
    {
        match input.downstream.get(&node_id) {
            Some(targets) => {
                let sent = address_all(targets, delivery);
                let sent_node_ids = nodes_of_targets(targets);
                (sent, SchedulerDelivery { node_id, delivery, sent_node_ids })
            },
            None => {
                let none: Vec<PropagationTarget> = Vec::new();
                assert(none@ =~= list_at(lists(input.downstream@), node_id));
                let sent = address_all(&none, delivery);
                let sent_node_ids = nodes_of_targets(&none);
                (sent, SchedulerDelivery { node_id, delivery, sent_node_ids })
            },
        }
    }
}

} // verus!
