//! Suns over untyped graphs: edges are declared by port alone, and a graph is
//! validated without contracts.

use std::collections::HashMap;

use vstd::prelude::*;

use crate::collections::{ascending, lemma_ascending_lists};
use crate::compile::register::{
    claim_ports, collect_ports, list_set_once, ports_claimed, ports_of, set_if_absent, set_once,
};
use crate::error::AtomError;
use crate::failure::{refused, refused_by, says, Failure};
use crate::ids::{ObjectId, Uuid};
use crate::mailbox::{draw_ids, extend_mailboxes, extended, law_last_mailbox_wins};
use crate::programs::two_sided_zo::effect::BroadcastPotentiationResult;
use crate::programs::two_sided_zo::epoch::{collect_owners, owners_of};
use crate::programs::two_sided_zo::phase::{
    book, clock, only_phases_changed, positions_fit, with_optimizations_sent,
};
use crate::programs::two_sided_zo::shown::law_every_told_node_takes_the_outcome_in;
use crate::programs::two_sided_zo::{SunState, TwoSidedZoInner};
use crate::topology::frontier::{port_ids, vertex_ids};
use crate::topology::resolve::{
    explains_unresolvable, finalized_as, resolvable, resolve_topology,
};
use crate::topology::validity::{law_exactly_valid_graphs_are_accepted, valid};
use crate::topology::{SunNodeState, SunTopology};

verus! {

broadcast use vstd::std_specs::hash::group_hash_axioms;

/// The inboxes after the first claims of a list of ports: a port that is owned
/// or listed before keeps its inbox.
pub open spec fn first_claims(
    owned: Set<u32>,
    inboxes: Map<u32, ObjectId>,
    ports: Seq<(u32, ObjectId)>,
) -> Map<u32, ObjectId>
    decreases ports.len(),
{
    if ports.len() == 0 {
        inboxes
    } else {
        let before = first_claims(owned, inboxes, ports.drop_last());
        let (port, inbox) = ports.last();
        if owned.contains(port) || ports_of(ports.drop_last()).contains(port) {
            before
        } else {
            before.insert(port, inbox)
        }
    }
}

/// Everything that registering an untyped vertex records on the topology. What
/// an earlier registration of the same vertex recorded stays.
pub open spec fn untyped_vertex_registered(
    before: SunTopology,
    after: SunTopology,
    vertex_id: u32,
    node_label: String,
    ports: Seq<(u32, ObjectId)>,
    declared_outputs: Seq<u32>,
    journey_id: Uuid,
) -> bool {
    &&& set_once(before.journey_ids@, after.journey_ids@, vertex_id, journey_id)
    &&& set_once(before.node_labels@, after.node_labels@, vertex_id, node_label)
    &&& set_once(before.node_state_sequences@, after.node_state_sequences@, vertex_id, 0)
    &&& list_set_once(before.vertex_ports@, after.vertex_ports@, vertex_id, ports_of(ports))
    &&& list_set_once(
        before.declared_outputs@,
        after.declared_outputs@,
        vertex_id,
        declared_outputs,
    )
    &&& ports_claimed(before, after, vertex_id, ports_of(ports))
    &&& after == (SunTopology {
        journey_ids: after.journey_ids,
        node_labels: after.node_labels,
        node_state_sequences: after.node_state_sequences,
        vertex_ports: after.vertex_ports,
        declared_outputs: after.declared_outputs,
        port_vertices: after.port_vertices,
        duplicate_ports: after.duplicate_ports,
        ..before
    })
}

fn claims_before(ports: &Vec<(u32, ObjectId)>, count: usize, port: u32) -> (claimed: bool)
    requires
        count <= ports@.len(),
    ensures
        claimed == ports_of(ports@.take(count as int)).contains(port),
{
    let ghost earlier = ports_of(ports@.take(count as int));
    let mut i: usize = 0;
    while i < count
        invariant
            i <= count,
            count <= ports@.len(),
            earlier == ports_of(ports@.take(count as int)),
            forall|j: int| 0 <= j < i ==> #[trigger] earlier[j] != port,
        decreases count - i,
    {
        assert(earlier[i as int] == ports@[i as int].0);
        if ports[i].0 == port {
            return true;
        }
        i = i + 1;
    }
    false
}

fn open_first_inboxes(
    topology: &SunTopology,
    inboxes: &mut HashMap<u32, ObjectId>,
    ports: &Vec<(u32, ObjectId)>,
)
    ensures
        final(inboxes)@ == first_claims(topology.port_vertices@.dom(), old(inboxes)@, ports@),
{
    let ghost owned = topology.port_vertices@.dom();
    let mut i: usize = 0;
    assert(ports@.take(0) =~= Seq::empty());
    while i < ports.len()
        invariant
            i <= ports@.len(),
            owned == topology.port_vertices@.dom(),
            inboxes@ == first_claims(owned, old(inboxes)@, ports@.take(i as int)),
        decreases ports.len() - i,
    {
        let (port, inbox) = ports[i];
        assert(ports@.take(i + 1).drop_last() =~= ports@.take(i as int));
        if !topology.port_vertices.contains_key(&port) && !claims_before(ports, i, port) {
            inboxes.insert(port, inbox);
        }
        i = i + 1;
    }
    assert(ports@.take(i as int) =~= ports@);
}

/// Registers an untyped vertex and the first inboxes of its ports. A port that
/// is claimed again keeps its owner and its inbox.
pub fn register_vertex<S>(
    state: &mut SunState<S>,
    vertex_id: u32,
    node_label: String,
    ports: &Vec<(u32, ObjectId)>,
    declared_outputs: Vec<u32>,
    journey_id: Uuid,
)
    ensures
        untyped_vertex_registered(
            old(state).topology,
            final(state).topology,
            vertex_id,
            node_label,
            ports@,
            declared_outputs@,
            journey_id,
        ),
        set_once(
            old(state).shared.node_states@,
            final(state).shared.node_states@,
            vertex_id,
            SunNodeState::Idle,
        ),
        final(state).shared.p1_tx@ == first_claims(
            old(state).topology.port_vertices@.dom(),
            old(state).shared.p1_tx@,
            ports@,
        ),
        final(state).shared == (TwoSidedZoInner {
            node_states: final(state).shared.node_states,
            p1_tx: final(state).shared.p1_tx,
            ..old(state).shared
        }),
        *final(state) == (SunState {
            topology: final(state).topology,
            shared: final(state).shared,
            ..*old(state)
        }),
        old(state).topology.well_formed() ==> final(state).topology.well_formed(),
{
    set_if_absent(&mut state.topology.journey_ids, vertex_id, journey_id);
    set_if_absent(&mut state.topology.node_labels, vertex_id, node_label);
    set_if_absent(&mut state.shared.node_states, vertex_id, SunNodeState::Idle);
    set_if_absent(&mut state.topology.node_state_sequences, vertex_id, 0);
    set_if_absent(&mut state.topology.vertex_ports, vertex_id, collect_ports(ports));
    set_if_absent(&mut state.topology.declared_outputs, vertex_id, declared_outputs);
    open_first_inboxes(&state.topology, &mut state.shared.p1_tx, ports);
    claim_ports(&mut state.topology, vertex_id, ports);
}

/// Mailboxes for a graph with one step per epoch, each with its port or node.
pub struct SunMailboxes {
    pub p2_tx: Vec<(u32, ObjectId)>,
    pub po_tx: Vec<(u32, ObjectId)>,
    pub p1_rx: Vec<(u32, ObjectId)>,
    pub p2_rx: Vec<(u32, ObjectId)>,
}

/// Random mailboxes, one for each of the listed ids in order.
pub open spec fn drawn_for(boxes: Seq<(u32, ObjectId)>, ids: Seq<u32>) -> bool {
    &&& ports_of(boxes) == ids
    &&& forall|i: int| 0 <= i < boxes.len() ==> (#[trigger] boxes[i]).1.is_random()
}

fn draw_for(ids: &Vec<u32>) -> (boxes: Vec<(u32, ObjectId)>)
    ensures
        drawn_for(boxes@, ids@),
{
    let drawn = draw_ids(ids.len());
    let mut boxes: Vec<(u32, ObjectId)> = Vec::new();
    let mut i: usize = 0;
    assert(ports_of(boxes@) =~= ids@.take(0));
    while i < ids.len()
        invariant
            i <= ids@.len(),
            drawn@.len() == ids@.len(),
            forall|j: int| 0 <= j < drawn@.len() ==> (#[trigger] drawn@[j]).is_random(),
            drawn_for(boxes@, ids@.take(i as int)),
        decreases ids.len() - i,
    {
        assert(drawn@[i as int].is_random());
        let ghost before = boxes@;
        boxes.push((ids[i], drawn[i]));
        proof {
            assert(ports_of(boxes@) =~= ports_of(before).push(ids@[i as int]));
            assert(ids@.take(i + 1) =~= ids@.take(i as int).push(ids@[i as int]));
        }
        i = i + 1;
    }
    assert(ids@.take(i as int) =~= ids@);
    boxes
}

/// The bookkeeping with the given mailboxes put in place.
pub open spec fn mailboxes_placed(
    before: TwoSidedZoInner,
    after: TwoSidedZoInner,
    boxes: SunMailboxes,
) -> bool {
    &&& after.p2_tx@ == extended(before.p2_tx@, boxes.p2_tx@)
    &&& after.po_tx@ == extended(before.po_tx@, boxes.po_tx@)
    &&& after.p1_rx@ == extended(before.p1_rx@, boxes.p1_rx@)
    &&& after.p2_rx@ == extended(before.p2_rx@, boxes.p2_rx@)
    &&& after == (TwoSidedZoInner {
        p2_tx: after.p2_tx,
        po_tx: after.po_tx,
        p1_rx: after.p1_rx,
        p2_rx: after.p2_rx,
        ..before
    })
}

fn place_mailboxes(inner: &mut TwoSidedZoInner, boxes: &SunMailboxes)
    ensures
        mailboxes_placed(*old(inner), *final(inner), *boxes),
{
    extend_mailboxes(&mut inner.p2_tx, &boxes.p2_tx);
    extend_mailboxes(&mut inner.po_tx, &boxes.po_tx);
    extend_mailboxes(&mut inner.p1_rx, &boxes.p1_rx);
    extend_mailboxes(&mut inner.p2_rx, &boxes.p2_rx);
}

/// Resolves an untyped graph and allocates its mailboxes.
pub struct FinalizeGraph;

impl FinalizeGraph {
    /// Finalizes with the given mailboxes.
    pub fn absorb_with<S>(
        state: &mut SunState<S>,
        output: Result<(), AtomError>,
        boxes: SunMailboxes,
    ) -> (result: Result<(), Failure>)
        requires
            old(state).topology.well_formed(),
        ensures
            result is Ok <==> output is Ok && resolvable(old(state).topology, false),
            result is Ok ==> {
                &&& finalized_as(old(state).topology, final(state).topology)
                &&& mailboxes_placed(old(state).shared, final(state).shared, boxes)
            },
            result matches Err(failure) ==> {
                &&& final(state).shared == old(state).shared
                &&& if output is Err {
                    says(failure, "finalize graph failed"@) && final(state).topology == old(
                        state,
                    ).topology
                } else {
                    explains_unresolvable(old(state).topology, false, failure)
                        && final(state).topology == (SunTopology {
                        finalized: false,
                        ..old(state).topology
                    })
                }
            },
            *final(state) == (SunState {
                topology: final(state).topology,
                shared: final(state).shared,
                ..*old(state)
            }),
    {
        if output.is_err() {
            return Err(refused("finalize graph failed"));
        }
        match resolve_topology(&mut state.topology, false) {
            Ok(_) => {},
            Err(failure) => {
                return Err(failure);
            },
        }
        place_mailboxes(&mut state.shared, &boxes);
        Ok(())
    }

    /// Finalizes with random mailboxes: two for every port, two for every
    /// node.
    pub fn absorb<S>(state: &mut SunState<S>, output: Result<(), AtomError>) -> (result: Result<
        (),
        Failure,
    >)
        requires
            old(state).topology.well_formed(),
        ensures
            result is Ok <==> output is Ok && resolvable(old(state).topology, false),
            result is Ok ==> {
                &&& finalized_as(old(state).topology, final(state).topology)
                &&& exists|boxes: SunMailboxes| #[trigger]
                    mailboxes_placed(old(state).shared, final(state).shared, boxes)
                        && mailboxes_drawn(boxes, old(state).topology)
            },
            result matches Err(failure) ==> {
                &&& final(state).shared == old(state).shared
                &&& if output is Err {
                    says(failure, "finalize graph failed"@) && final(state).topology == old(
                        state,
                    ).topology
                } else {
                    explains_unresolvable(old(state).topology, false, failure)
                        && final(state).topology == (SunTopology {
                        finalized: false,
                        ..old(state).topology
                    })
                }
            },
            *final(state) == (SunState {
                topology: final(state).topology,
                shared: final(state).shared,
                ..*old(state)
            }),
    {
        let boxes = draw_mailboxes(&state.topology);
        Self::absorb_with(state, output, boxes)
    }
}

/// Short name for finalization.
pub type BuildAddrs = FinalizeGraph;

/// Random mailboxes for every port and every node.
pub open spec fn mailboxes_drawn(boxes: SunMailboxes, topology: SunTopology) -> bool {
    let ports = ascending(topology.port_vertices@.dom());
    let nodes = ascending(topology.vertices());
    &&& drawn_for(boxes.p2_tx@, ports)
    &&& drawn_for(boxes.po_tx@, ports)
    &&& drawn_for(boxes.p1_rx@, nodes)
    &&& drawn_for(boxes.p2_rx@, nodes)
}

fn draw_mailboxes(topology: &SunTopology) -> (boxes: SunMailboxes)
    ensures
        mailboxes_drawn(boxes, *topology),
{
    let ports = port_ids(topology);
    let nodes = vertex_ids(topology);
    SunMailboxes {
        p2_tx: draw_for(&ports),
        po_tx: draw_for(&ports),
        p1_rx: draw_for(&nodes),
        p2_rx: draw_for(&nodes),
    }
}

/// Every reached node optimizes, every reached port listens at its new inbox,
/// and the given mailboxes are in place.
pub open spec fn potentiation_absorbed<S>(
    before: SunState<S>,
    after: SunState<S>,
    next: Seq<(u32, ObjectId)>,
    placed: TwoSidedZoInner,
    boxes: SunMailboxes,
) -> bool {
    let opened = TwoSidedZoInner { p1_tx: placed.p1_tx, ..before.shared };
    &&& placed.p1_tx@ == extended(before.shared.p1_tx@, next)
    &&& mailboxes_placed(opened, placed, boxes)
    &&& book(after.shared, after.topology) == with_optimizations_sent(
        book(before.shared, before.topology),
        clock(before.shared),
        ascending(owners_of(before.topology, next)),
    )
    &&& only_phases_changed(placed, before.topology, after.shared, after.topology)
    &&& after == (SunState { topology: after.topology, shared: after.shared, ..before })
}

/// Broadcasts the outcome of a step to every input port of an untyped graph.
pub struct BroadcastPotentiation;

impl BroadcastPotentiation {
    /// Moves every reached port on, with the given mailboxes.
    pub fn absorb_with<S>(
        state: &mut SunState<S>,
        output: Result<BroadcastPotentiationResult, AtomError>,
        boxes: SunMailboxes,
    ) -> (result: Result<(), Failure>)
        requires
            output matches Ok(sent) ==> positions_fit(
                old(state).topology.node_state_sequences@,
                sent.next_p1_tx_map@.len(),
            ),
        ensures
            match output {
                Ok(sent) => result is Ok && exists|placed: TwoSidedZoInner| #[trigger]
                    potentiation_absorbed(
                        *old(state),
                        *final(state),
                        sent.next_p1_tx_map@,
                        placed,
                        boxes,
                    ),
                Err(error) => result is Err && says(
                    result->Err_0,
                    "broadcast potentiation failed: "@ + error.text(),
                ) && *final(state) == *old(state),
            },
    {
        let sent = match output {
            Ok(sent) => sent,
            Err(error) => {
                return Err(refused_by("broadcast potentiation failed: ", &error));
            },
        };
        let owners = collect_owners(&state.topology, &sent.next_p1_tx_map);
        extend_mailboxes(&mut state.shared.p1_tx, &sent.next_p1_tx_map);
        place_mailboxes(&mut state.shared, &boxes);
        let ghost placed = state.shared;
        state.shared.record_optimization_sent(&mut state.topology, &owners);
        proof {
            assert(potentiation_absorbed(
                *old(state),
                *state,
                sent.next_p1_tx_map@,
                placed,
                boxes,
            ));
        }
        Ok(())
    }

    /// Moves every reached port on with random mailboxes: two for every
    /// reached port, two for every node.
    pub fn absorb<S>(
        state: &mut SunState<S>,
        output: Result<BroadcastPotentiationResult, AtomError>,
    ) -> (result: Result<(), Failure>)
        requires
            output matches Ok(sent) ==> positions_fit(
                old(state).topology.node_state_sequences@,
                sent.next_p1_tx_map@.len(),
            ),
        ensures
            match output {
                Ok(sent) => result is Ok && exists|placed: TwoSidedZoInner, boxes: SunMailboxes|
                    #[trigger]
                    potentiation_absorbed(
                        *old(state),
                        *final(state),
                        sent.next_p1_tx_map@,
                        placed,
                        boxes,
                    ) && drawn_for(boxes.p2_tx@, ports_of(sent.next_p1_tx_map@)) && drawn_for(
                        boxes.po_tx@,
                        ports_of(sent.next_p1_tx_map@),
                    ) && drawn_for(boxes.p1_rx@, ascending(old(state).topology.vertices()))
                        && drawn_for(boxes.p2_rx@, ascending(old(state).topology.vertices())),
                Err(error) => result is Err && says(
                    result->Err_0,
                    "broadcast potentiation failed: "@ + error.text(),
                ) && *final(state) == *old(state),
            },
    {
        let nodes = vertex_ids(&state.topology);
        let ports = match &output {
            Ok(sent) => collect_ports(&sent.next_p1_tx_map),
            Err(_) => Vec::new(),
        };
        let boxes = SunMailboxes {
            p2_tx: draw_for(&ports),
            po_tx: draw_for(&ports),
            p1_rx: draw_for(&nodes),
            p2_rx: draw_for(&nodes),
        };
        Self::absorb_with(state, output, boxes)
    }
}

proof fn lemma_placed(before: Map<u32, ObjectId>, boxes: Seq<(u32, ObjectId)>, ids: Seq<u32>, id: u32)
    requires
        drawn_for(boxes, ids),
        ids.no_duplicates(),
        ids.contains(id),
    ensures
        extended(before, boxes).contains_key(id),
        extended(before, boxes)[id].is_random(),
        boxes.contains((id, extended(before, boxes)[id])),
{
    let i = choose|i: int| 0 <= i < ids.len() && ids[i] == id;
    assert(ports_of(boxes)[i] == boxes[i].0);
    assert forall|j: int| i < j < boxes.len() implies (#[trigger] boxes[j]).0 != id by {
        assert(ports_of(boxes)[j] == boxes[j].0);
        assert(ids[j] != ids[i]);
    }
    law_last_mailbox_wins(before, boxes, i, id);
    assert(boxes[i] == (id, boxes[i].1));
}

/// A finalized untyped Sun has a fresh second-pass and outcome inbox for every
/// port and fresh outputs of both passes for every vertex; the ports still
/// listen where they were registered.
pub proof fn law_finalization_equips_ports_and_vertices(
    topology: SunTopology,
    before: TwoSidedZoInner,
    after: TwoSidedZoInner,
    boxes: SunMailboxes,
    port: u32,
    vertex: u32,
)
    requires
        mailboxes_placed(before, after, boxes),
        mailboxes_drawn(boxes, topology),
        topology.port_vertices@.contains_key(port),
        topology.vertices().contains(vertex),
    ensures
        after.p2_tx@.contains_key(port) && after.p2_tx@[port].is_random(),
        after.po_tx@.contains_key(port) && after.po_tx@[port].is_random(),
        after.p1_rx@.contains_key(vertex) && after.p1_rx@[vertex].is_random(),
        after.p2_rx@.contains_key(vertex) && after.p2_rx@[vertex].is_random(),
        boxes.p2_tx@.contains((port, after.p2_tx@[port])),
        boxes.po_tx@.contains((port, after.po_tx@[port])),
        boxes.p1_rx@.contains((vertex, after.p1_rx@[vertex])),
        boxes.p2_rx@.contains((vertex, after.p2_rx@[vertex])),
        after.p1_tx == before.p1_tx,
        after.grad_steps == before.grad_steps,
{
    let ports = ascending(topology.port_vertices@.dom());
    let nodes = ascending(topology.vertices());
    lemma_ascending_lists(topology.port_vertices@.dom());
    lemma_ascending_lists(topology.vertices());
    assert(ports.to_set().contains(port));
    assert(nodes.to_set().contains(vertex));
    lemma_placed(before.p2_tx@, boxes.p2_tx@, ports, port);
    lemma_placed(before.po_tx@, boxes.po_tx@, ports, port);
    lemma_placed(before.p1_rx@, boxes.p1_rx@, nodes, vertex);
    lemma_placed(before.p2_rx@, boxes.p2_rx@, nodes, vertex);
}

/// After the outcome was told, a port listens for its next first propagation
/// where it was told to, a port that was not told listens as before, and the
/// owner of a told port is shown to take the outcome in.
pub proof fn law_told_ports_move_on<S>(
    before: SunState<S>,
    after: SunState<S>,
    next: Seq<(u32, ObjectId)>,
    placed: TwoSidedZoInner,
    boxes: SunMailboxes,
    i: int,
    untold: u32,
)
    requires
        potentiation_absorbed(before, after, next, placed, boxes),
        0 <= i < next.len(),
        forall|j: int| i < j < next.len() ==> (#[trigger] next[j]).0 != next[i].0,
        forall|j: int| 0 <= j < next.len() ==> (#[trigger] next[j]).0 != untold,
        before.topology.port_vertices@.contains_key(next[i].0),
    ensures
        after.shared.p1_tx@.contains_key(next[i].0),
        after.shared.p1_tx@[next[i].0] == next[i].1,
        after.shared.p1_tx@.contains_key(untold) == before.shared.p1_tx@.contains_key(untold),
        before.shared.p1_tx@.contains_key(untold) ==> after.shared.p1_tx@[untold]
            == before.shared.p1_tx@[untold],
        ({
            let owner = before.topology.port_vertices@[next[i].0];
            &&& after.shared.node_states@.contains_key(owner)
            &&& after.shared.node_states@[owner] == SunNodeState::Optimization
        }),
{
    law_last_mailbox_wins(before.shared.p1_tx@, next, i, next[i].0);
    law_last_mailbox_wins(before.shared.p1_tx@, next, i, untold);
    let owner = before.topology.port_vertices@[next[i].0];
    let owners = owners_of(before.topology, next);
    assert(owners.contains(owner)) by {
        assert(next[i] == next[i]);
    }
    lemma_owners_finite(before.topology, next);
    lemma_ascending_lists(owners);
    assert(ascending(owners).to_set().contains(owner));
    law_every_told_node_takes_the_outcome_in(
        book(before.shared, before.topology),
        clock(before.shared),
        ascending(owners),
        owner,
    );
    assert(book(after.shared, after.topology).states == after.shared.node_states@);
}

proof fn lemma_owners_finite(topology: SunTopology, next: Seq<(u32, ObjectId)>)
    ensures
        owners_of(topology, next).finite(),
{
    let named = next.map_values(|entry: (u32, ObjectId)| topology.port_vertices@[entry.0]);
    vstd::seq_lib::seq_to_set_is_finite(named);
    assert(owners_of(topology, next).subset_of(named.to_set())) by {
        assert forall|node: u32| owners_of(topology, next).contains(node) implies named.to_set().contains(
            node,
        ) by {
            let i = choose|i: int|
                #![trigger next[i]]
                0 <= i < next.len() && topology.port_vertices@.contains_key(next[i].0)
                    && topology.port_vertices@[next[i].0] == node;
            assert(named[i] == node);
        }
    }
    vstd::set_lib::lemma_set_subset_finite(named.to_set(), owners_of(topology, next));
}

/// A port keeps the inbox of the first vertex that claims it, and of its first
/// listing there.
pub proof fn law_first_claim_keeps_the_inbox(
    owned: Set<u32>,
    inboxes: Map<u32, ObjectId>,
    ports: Seq<(u32, ObjectId)>,
    i: int,
    other: u32,
)
    requires
        0 <= i < ports.len(),
        forall|j: int| 0 <= j < i ==> (#[trigger] ports[j]).0 != ports[i].0,
        owned.contains(other) || forall|j: int| 0 <= j < ports.len() ==> (#[trigger] ports[j]).0 != other,
    ensures
        !owned.contains(ports[i].0) ==> first_claims(owned, inboxes, ports).contains_key(ports[i].0)
            && first_claims(owned, inboxes, ports)[ports[i].0] == ports[i].1,
        first_claims(owned, inboxes, ports).contains_key(other) == inboxes.contains_key(other),
        inboxes.contains_key(other) ==> first_claims(owned, inboxes, ports)[other]
            == inboxes[other],
    decreases ports.len(),
{
    let rest = ports.drop_last();
    let port = ports.last().0;
    assert(ports[ports.len() - 1] == ports.last());
    if i < rest.len() {
        assert(rest[i] == ports[i]);
        assert forall|j: int| 0 <= j < i implies (#[trigger] rest[j]).0 != rest[i].0 by {
            assert(rest[j] == ports[j]);
        }
        if !owned.contains(other) {
            assert forall|j: int| 0 <= j < rest.len() implies (#[trigger] rest[j]).0 != other by {
                assert(rest[j] == ports[j]);
            }
        }
        law_first_claim_keeps_the_inbox(owned, inboxes, rest, i, other);
        if port == ports[i].0 {
            assert(ports_of(rest)[i] == port);
        }
    } else {
        assert(!ports_of(rest).contains(port)) by {
            if ports_of(rest).contains(port) {
                let j = choose|j: int| 0 <= j < ports_of(rest).len() && ports_of(rest)[j] == port;
                assert(rest[j].0 == port);
                assert(ports[j].0 == port);
            }
        }
        lemma_unlisted_inbox(owned, inboxes, rest, other);
    }
}

proof fn lemma_unlisted_inbox(
    owned: Set<u32>,
    inboxes: Map<u32, ObjectId>,
    ports: Seq<(u32, ObjectId)>,
    other: u32,
)
    requires
        owned.contains(other) || forall|j: int| 0 <= j < ports.len() ==> (#[trigger] ports[j]).0 != other,
    ensures
        first_claims(owned, inboxes, ports).contains_key(other) == inboxes.contains_key(other),
        inboxes.contains_key(other) ==> first_claims(owned, inboxes, ports)[other]
            == inboxes[other],
    decreases ports.len(),
{
    if ports.len() > 0 {
        let rest = ports.drop_last();
        assert(ports[ports.len() - 1] == ports.last());
        if !owned.contains(other) {
            assert forall|j: int| 0 <= j < rest.len() implies (#[trigger] rest[j]).0 != other by {
                assert(rest[j] == ports[j]);
            }
        }
        lemma_unlisted_inbox(owned, inboxes, rest, other);
    }
}

/// A vertex that is registered for the first time is recorded as it was given,
/// and no other vertex changes.
pub proof fn law_new_untyped_vertex_is_recorded_as_given(
    before: SunTopology,
    after: SunTopology,
    vertex: u32,
    label: String,
    ports: Seq<(u32, ObjectId)>,
    outputs: Seq<u32>,
    journey_id: Uuid,
    other: u32,
)
    requires
        !before.journey_ids@.contains_key(vertex),
        !before.node_labels@.contains_key(vertex),
        !before.vertex_ports@.contains_key(vertex),
        !before.declared_outputs@.contains_key(vertex),
        untyped_vertex_registered(before, after, vertex, label, ports, outputs, journey_id),
        other != vertex,
    ensures
        after.journey_ids@.contains_key(vertex) && after.journey_ids@[vertex] == journey_id,
        after.node_labels@.contains_key(vertex) && after.node_labels@[vertex] == label,
        after.vertex_ports@.contains_key(vertex) && after.vertex_ports@[vertex]@.len()
            == ports.len(),
        forall|i: int|
            #![trigger ports[i]]
            0 <= i < ports.len() ==> after.vertex_ports@[vertex]@[i] == ports[i].0
                && after.port_vertices@.contains_key(ports[i].0),
        after.declared_outputs@.contains_key(vertex) && after.declared_outputs@[vertex]@ == outputs,
        after.vertex_ports@.contains_key(other) == before.vertex_ports@.contains_key(other),
        before.vertex_ports@.contains_key(other) ==> after.vertex_ports@[other]
            == before.vertex_ports@[other],
        before.declared_outputs@.contains_key(other) ==> after.declared_outputs@[other]
            == before.declared_outputs@[other],
        before.journey_ids@.contains_key(other) ==> after.journey_ids@[other]
            == before.journey_ids@[other],
{
    assert forall|i: int|
        #![trigger ports[i]]
        0 <= i < ports.len() implies after.vertex_ports@[vertex]@[i] == ports[i].0
        && after.port_vertices@.contains_key(ports[i].0) by {
        assert(ports_of(ports)[i] == ports[i].0);
        assert(ports_of(ports).contains(ports[i].0));
    }
}

/// An untyped Sun is finalized exactly for a graph that is valid without regard
/// to contracts.
pub proof fn law_only_valid_untyped_graphs_are_finalized<S>(
    state: &mut SunState<S>,
    boxes: SunMailboxes,
    result: Result<(), Failure>,
)
    requires
        mut_ref_current(state).topology.well_formed(),
        call_ensures(
            FinalizeGraph::absorb_with::<S>,
            (state, Ok::<(), AtomError>(()), boxes),
            result,
        ),
    ensures
        result is Ok <==> valid(mut_ref_current(state).topology, false),
        result is Ok ==> mut_ref_future(state).topology.finalized
            && mut_ref_future(state).shared.p1_tx == mut_ref_current(state).shared.p1_tx,
        result is Err ==> mut_ref_future(state).shared == mut_ref_current(state).shared,
        mut_ref_future(state).inner == mut_ref_current(state).inner,
{
    law_exactly_valid_graphs_are_accepted(mut_ref_current(state).topology, false);
}

/// The outcome moves every told port on to where it was told to listen.
pub proof fn law_untyped_outcome_moves_ports_on<S>(
    state: &mut SunState<S>,
    sent: BroadcastPotentiationResult,
    boxes: SunMailboxes,
    result: Result<(), Failure>,
    i: int,
)
    requires
        call_ensures(
            BroadcastPotentiation::absorb_with::<S>,
            (state, Ok::<BroadcastPotentiationResult, AtomError>(sent), boxes),
            result,
        ),
        0 <= i < sent.next_p1_tx_map@.len(),
        forall|j: int|
            i < j < sent.next_p1_tx_map@.len() ==> (#[trigger] sent.next_p1_tx_map@[j]).0
                != sent.next_p1_tx_map@[i].0,
    ensures
        result is Ok,
        mut_ref_future(state).shared.p1_tx@.contains_key(sent.next_p1_tx_map@[i].0),
        mut_ref_future(state).shared.p1_tx@[sent.next_p1_tx_map@[i].0]
            == sent.next_p1_tx_map@[i].1,
{
    let before = mut_ref_current(state);
    let after = mut_ref_future(state);
    let placed = choose|placed: TwoSidedZoInner| #[trigger]
        potentiation_absorbed(before, after, sent.next_p1_tx_map@, placed, boxes);
    law_last_mailbox_wins(
        before.shared.p1_tx@,
        sent.next_p1_tx_map@,
        i,
        sent.next_p1_tx_map@[i].0,
    );
}

} // verus!
