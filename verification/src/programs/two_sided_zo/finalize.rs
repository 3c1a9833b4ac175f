//! Finalization of a two-sided graph and the mailboxes of an epoch.

use std::collections::HashMap;

use vstd::prelude::*;

use crate::collections::lemma_take_next;
use crate::error::AtomError;
use crate::failure::{refused, says, Failure};
use crate::ids::ObjectId;
use crate::mailbox::{all_random, fresh_mailboxes};
use crate::programs::two_sided_zo::{epoch_empty, same_epoch, SunState, TwoSidedZoInner};
use crate::topology::SunTopology;
use crate::topology::frontier::{port_ids, vertex_ids};
use crate::topology::resolve::{
    explains_unresolvable, finalized_as, resolvable, resolve_neutral_topology, sinks,
};

verus! {

broadcast use vstd::std_specs::hash::group_hash_axioms;

/// Mailboxes for one epoch.
pub struct EpochMailboxes {
    /// Second-pass inputs of the ports.
    pub p2_tx: HashMap<u32, ObjectId>,
    /// First-pass outputs of the nodes.
    pub p1_rx: HashMap<u32, ObjectId>,
    /// Second-pass outputs of the nodes.
    pub p2_rx: HashMap<u32, ObjectId>,
    /// First-pass inputs of the ports for the following microstep.
    pub next_p1_tx: HashMap<u32, ObjectId>,
    /// Second-pass inputs of the ports for the following microstep.
    pub next_p2_tx: HashMap<u32, ObjectId>,
}

/// The ids that need a mailbox for the microstep after one of `steps` steps:
/// none when there is just one.
pub open spec fn following(ids: Set<u32>, more: bool) -> Set<u32> {
    if more {
        ids
    } else {
        Set::empty()
    }
}

/// There is a mailbox for every port and every node.
pub open spec fn epoch_mailboxes_fit(
    fresh: EpochMailboxes,
    topology: SunTopology,
    grad_steps: usize,
) -> bool {
    let ports = topology.port_vertices@.dom();
    let nodes = topology.vertices();
    &&& fresh.p2_tx@.dom() == ports
    &&& fresh.p1_rx@.dom() == nodes
    &&& fresh.p2_rx@.dom() == nodes
    &&& fresh.next_p1_tx@.dom() == following(ports, grad_steps > 1)
    &&& fresh.next_p2_tx@.dom() == following(ports, grad_steps > 1)
}

/// Every mailbox is a random identifier.
pub open spec fn epoch_mailboxes_random(fresh: EpochMailboxes) -> bool {
    &&& all_random(fresh.p2_tx@)
    &&& all_random(fresh.p1_rx@)
    &&& all_random(fresh.p2_rx@)
    &&& all_random(fresh.next_p1_tx@)
    &&& all_random(fresh.next_p2_tx@)
}

/// Random mailboxes for the listed ids, or none.
fn draw_following(ids: &Vec<u32>, more: bool) -> (mailboxes: HashMap<u32, ObjectId>)
    requires
        ids@.no_duplicates(),
    ensures
        mailboxes@.dom() == following(ids@.to_set(), more),
        all_random(mailboxes@),
{
    if more {
        fresh_mailboxes(ids)
    } else {
        let none: HashMap<u32, ObjectId> = HashMap::new();
        assert(none@.dom() =~= Set::empty());
        none
    }
}

/// Allocates random mailboxes for one epoch.
pub fn draw_epoch_mailboxes(topology: &SunTopology, grad_steps: usize) -> (fresh: EpochMailboxes)
    ensures
        epoch_mailboxes_fit(fresh, *topology, grad_steps),
        epoch_mailboxes_random(fresh),
{
    let ports = port_ids(topology);
    let nodes = vertex_ids(topology);
    EpochMailboxes {
        p2_tx: fresh_mailboxes(&ports),
        p1_rx: fresh_mailboxes(&nodes),
        p2_rx: fresh_mailboxes(&nodes),
        next_p1_tx: draw_following(&ports, grad_steps > 1),
        next_p2_tx: draw_following(&ports, grad_steps > 1),
    }
}

/// The bookkeeping with the mailboxes of an epoch in place.
pub open spec fn with_epoch_mailboxes(
    inner: TwoSidedZoInner,
    fresh: EpochMailboxes,
) -> TwoSidedZoInner {
    TwoSidedZoInner {
        p2_tx: fresh.p2_tx,
        p1_rx: fresh.p1_rx,
        p2_rx: fresh.p2_rx,
        next_p1_tx: fresh.next_p1_tx,
        next_p2_tx: fresh.next_p2_tx,
        ..inner
    }
}

/// Puts the mailboxes of an epoch in place.
pub fn install_epoch_mailboxes(inner: &mut TwoSidedZoInner, fresh: EpochMailboxes)
    ensures
        *final(inner) == with_epoch_mailboxes(*old(inner), fresh),
{
    inner.p2_tx = fresh.p2_tx;
    inner.p1_rx = fresh.p1_rx;
    inner.p2_rx = fresh.p2_rx;
    inner.next_p1_tx = fresh.next_p1_tx;
    inner.next_p2_tx = fresh.next_p2_tx;
}

/// Replaces the mailboxes of an epoch by random ones.
pub fn reset_epoch_mailboxes(topology: &SunTopology, inner: &mut TwoSidedZoInner)
    ensures
        exists|fresh: EpochMailboxes| #[trigger]
            epoch_mailboxes_fit(fresh, *topology, old(inner).grad_steps) && epoch_mailboxes_random(
                fresh,
            ) && *final(inner) == with_epoch_mailboxes(*old(inner), fresh),
{
    let fresh = draw_epoch_mailboxes(topology, inner.grad_steps);
    install_epoch_mailboxes(inner, fresh);
}

/// The bookkeeping moved on to the next first-pass microstep.
pub open spec fn up_microstep_prepared(
    before: TwoSidedZoInner,
    after: TwoSidedZoInner,
    completed_steps: usize,
    p1_rx: HashMap<u32, ObjectId>,
    next_p1_tx: HashMap<u32, ObjectId>,
) -> bool {
    after == (TwoSidedZoInner {
        p1_tx: before.next_p1_tx,
        active_micro_step: completed_steps,
        p1_rx,
        next_p1_tx,
        ..before
    })
}

/// Moves on to the next first-pass microstep with the given mailboxes.
pub fn install_up_microstep(
    inner: &mut TwoSidedZoInner,
    completed_steps: usize,
    p1_rx: HashMap<u32, ObjectId>,
    next_p1_tx: HashMap<u32, ObjectId>,
)
    ensures
        up_microstep_prepared(*old(inner), *final(inner), completed_steps, p1_rx, next_p1_tx),
{
    let mut next = next_p1_tx;
    std::mem::swap(&mut next, &mut inner.next_p1_tx);
    inner.p1_tx = next;
    inner.active_micro_step = completed_steps;
    inner.p1_rx = p1_rx;
}

/// The mailboxes drawn for a microstep cover the nodes, and the ports when
/// another step follows.
pub open spec fn microstep_mailboxes_fit(
    topology: SunTopology,
    completed_steps: usize,
    grad_steps: usize,
    rx: Map<u32, ObjectId>,
    next_tx: Map<u32, ObjectId>,
) -> bool {
    &&& rx.dom() == topology.vertices()
    &&& next_tx.dom() == following(
        topology.port_vertices@.dom(),
        completed_steps + 1 < grad_steps,
    )
    &&& all_random(rx)
    &&& all_random(next_tx)
}

/// Moves on to the next first-pass microstep with random mailboxes.
pub fn prepare_next_up_microstep(
    topology: &SunTopology,
    inner: &mut TwoSidedZoInner,
    completed_steps: usize,
)
    requires
        completed_steps < usize::MAX,
    ensures
        up_microstep_prepared(
            *old(inner),
            *final(inner),
            completed_steps,
            final(inner).p1_rx,
            final(inner).next_p1_tx,
        ),
        microstep_mailboxes_fit(
            *topology,
            completed_steps,
            old(inner).grad_steps,
            final(inner).p1_rx@,
            final(inner).next_p1_tx@,
        ),
{
    let ports = port_ids(topology);
    let nodes = vertex_ids(topology);
    let p1_rx = fresh_mailboxes(&nodes);
    let next_p1_tx = draw_following(&ports, completed_steps + 1 < inner.grad_steps);
    install_up_microstep(inner, completed_steps, p1_rx, next_p1_tx);
}

/// The bookkeeping moved on to the next second-pass microstep.
pub open spec fn down_microstep_prepared(
    before: TwoSidedZoInner,
    after: TwoSidedZoInner,
    completed_steps: usize,
    p2_rx: HashMap<u32, ObjectId>,
    next_p2_tx: HashMap<u32, ObjectId>,
) -> bool {
    after == (TwoSidedZoInner {
        p2_tx: before.next_p2_tx,
        active_micro_step: completed_steps,
        p2_rx,
        next_p2_tx,
        ..before
    })
}

/// Moves on to the next second-pass microstep with the given mailboxes.
pub fn install_down_microstep(
    inner: &mut TwoSidedZoInner,
    completed_steps: usize,
    p2_rx: HashMap<u32, ObjectId>,
    next_p2_tx: HashMap<u32, ObjectId>,
)
    ensures
        down_microstep_prepared(*old(inner), *final(inner), completed_steps, p2_rx, next_p2_tx),
{
    let mut next = next_p2_tx;
    std::mem::swap(&mut next, &mut inner.next_p2_tx);
    inner.p2_tx = next;
    inner.active_micro_step = completed_steps;
    inner.p2_rx = p2_rx;
}

/// Moves on to the next second-pass microstep with random mailboxes.
pub fn prepare_next_down_microstep(
    topology: &SunTopology,
    inner: &mut TwoSidedZoInner,
    completed_steps: usize,
)
    requires
        completed_steps < usize::MAX,
    ensures
        down_microstep_prepared(
            *old(inner),
            *final(inner),
            completed_steps,
            final(inner).p2_rx,
            final(inner).next_p2_tx,
        ),
        microstep_mailboxes_fit(
            *topology,
            completed_steps,
            old(inner).grad_steps,
            final(inner).p2_rx@,
            final(inner).next_p2_tx@,
        ),
{
    let ports = port_ids(topology);
    let nodes = vertex_ids(topology);
    let p2_rx = fresh_mailboxes(&nodes);
    let next_p2_tx = draw_following(&ports, completed_steps + 1 < inner.grad_steps);
    install_down_microstep(inner, completed_steps, p2_rx, next_p2_tx);
}

/// Every vertex is in its first step; the others are as they were.
pub open spec fn all_at_first_step(
    before: Map<u32, usize>,
    after: Map<u32, usize>,
    vertices: Set<u32>,
) -> bool {
    &&& after.dom() == before.dom().union(vertices)
    &&& forall|id: u32| #[trigger]
        after.contains_key(id) ==> after[id] == if vertices.contains(id) {
            1
        } else {
            before[id]
        }
}

fn set_first_step(steps: &mut HashMap<u32, usize>, ids: &Vec<u32>)
    ensures
        all_at_first_step(old(steps)@, final(steps)@, ids@.to_set()),
{
    let mut i: usize = 0;
    assert(ids@.take(0).to_set() =~= Set::empty());
    assert(steps@.dom().union(Set::empty()) =~= steps@.dom());
    while i < ids.len()
        invariant
            i <= ids.len(),
            all_at_first_step(old(steps)@, steps@, ids@.take(i as int).to_set()),
        decreases ids.len() - i,
    {
        let ghost seen = ids@.take(i as int).to_set();
        steps.insert(ids[i], 1);
        proof {
            lemma_take_next(ids@, i as int);
            assert(steps@.dom() =~= old(steps)@.dom().union(seen.insert(ids@[i as int])));
        }
        i = i + 1;
    }
    assert(ids@.take(i as int) =~= ids@);
}

/// Resolves the graph and allocates the mailboxes of its first epoch.
pub struct FinalizeGraph<const GRADIENT_ACCUMULATION_STEPS: usize>;

/// The graph is resolved, its sink known, and the first epoch set up with the
/// given mailboxes.
pub open spec fn sun_finalized<S>(
    before: SunState<S>,
    after: SunState<S>,
    grad_steps: usize,
    po_tx: HashMap<u32, ObjectId>,
    fresh: EpochMailboxes,
) -> bool {
    &&& finalized_as(before.topology, after.topology)
    &&& after.sink_id matches Some(sink) && sinks(before.topology) == set![sink]
    &&& after.shared == with_epoch_mailboxes(
        TwoSidedZoInner {
            grad_steps,
            active_micro_step: 0,
            node_grad_steps: after.shared.node_grad_steps,
            po_tx,
            ..before.shared
        },
        fresh,
    )
    &&& all_at_first_step(
        before.shared.node_grad_steps@,
        after.shared.node_grad_steps@,
        before.topology.vertices(),
    )
    &&& exists|cleared: SunState<S>| #[trigger]
        epoch_empty(cleared) && same_epoch(SunState { sink_id: after.sink_id, ..cleared }, after)
    &&& after.a == before.a
    &&& after.b == before.b
    &&& after.inner == before.inner
}

impl<const GRADIENT_ACCUMULATION_STEPS: usize> FinalizeGraph<GRADIENT_ACCUMULATION_STEPS> {
    /// Finalizes with the given mailboxes. Whatever comes of it, a former
    /// finalization and a former epoch are forgotten.
    pub fn absorb_with<S>(
        state: &mut SunState<S>,
        output: Result<(), AtomError>,
        po_tx: HashMap<u32, ObjectId>,
        fresh: EpochMailboxes,
    ) -> (result: Result<(), Failure>)
        requires
            old(state).topology.well_formed(),
        ensures
            result is Ok <==> output is Ok && GRADIENT_ACCUMULATION_STEPS > 0 && resolvable(
                old(state).topology,
                true,
            ),
            result is Ok ==> sun_finalized(
                *old(state),
                *final(state),
                GRADIENT_ACCUMULATION_STEPS,
                po_tx,
                fresh,
            ),
            result matches Err(failure) ==> if output is Err {
                &&& says(failure, "finalize graph failed"@)
                &&& *final(state) == *old(state)
            } else {
                &&& if GRADIENT_ACCUMULATION_STEPS == 0 {
                    says(failure, "gradient accumulation steps must be at least 1"@)
                } else {
                    explains_unresolvable(old(state).topology, true, failure)
                }
                &&& epoch_empty(*final(state))
                &&& final(state).topology == (SunTopology {
                    finalized: false,
                    ..old(state).topology
                })
                &&& final(state).shared == old(state).shared
                &&& final(state).a == old(state).a
                &&& final(state).b == old(state).b
                &&& final(state).inner == old(state).inner
            },
    {
        if output.is_err() {
            return Err(refused("finalize graph failed"));
        }
        state.clear_epoch();
        let ghost cleared = *state;
        if GRADIENT_ACCUMULATION_STEPS == 0 {
            state.topology.finalized = false;
            return Err(refused("gradient accumulation steps must be at least 1"));
        }
        let sink = match resolve_neutral_topology(&mut state.topology) {
            Ok(sink) => sink,
            Err(failure) => {
                return Err(failure);
            },
        };
        let nodes = vertex_ids(&state.topology);
        state.sink_id = Some(sink);
        state.shared.grad_steps = GRADIENT_ACCUMULATION_STEPS;
        state.shared.active_micro_step = 0;
        set_first_step(&mut state.shared.node_grad_steps, &nodes);
        state.shared.po_tx = po_tx;
        install_epoch_mailboxes(&mut state.shared, fresh);
        proof {
            assert(epoch_empty(cleared));
        }
        Ok(())
    }

    /// Finalizes with random mailboxes.
    pub fn absorb<S>(state: &mut SunState<S>, output: Result<(), AtomError>) -> (result: Result<
        (),
        Failure,
    >)
        requires
            old(state).topology.well_formed(),
        ensures
            result is Ok <==> output is Ok && GRADIENT_ACCUMULATION_STEPS > 0 && resolvable(
                old(state).topology,
                true,
            ),
            result is Ok ==> {
                &&& final(state).shared.po_tx@.dom() == old(state).topology.port_vertices@.dom()
                &&& all_random(final(state).shared.po_tx@)
                &&& exists|fresh: EpochMailboxes| #[trigger]
                    epoch_mailboxes_fit(fresh, old(state).topology, GRADIENT_ACCUMULATION_STEPS)
                        && epoch_mailboxes_random(fresh) && sun_finalized(
                        *old(state),
                        *final(state),
                        GRADIENT_ACCUMULATION_STEPS,
                        final(state).shared.po_tx,
                        fresh,
                    )
            },
            result matches Err(failure) ==> if output is Err {
                &&& says(failure, "finalize graph failed"@)
                &&& *final(state) == *old(state)
            } else {
                &&& if GRADIENT_ACCUMULATION_STEPS == 0 {
                    says(failure, "gradient accumulation steps must be at least 1"@)
                } else {
                    explains_unresolvable(old(state).topology, true, failure)
                }
                &&& epoch_empty(*final(state))
                &&& final(state).topology == (SunTopology {
                    finalized: false,
                    ..old(state).topology
                })
                &&& final(state).shared == old(state).shared
                &&& final(state).a == old(state).a
                &&& final(state).b == old(state).b
                &&& final(state).inner == old(state).inner
            },
    {
        let ports = port_ids(&state.topology);
        let po_tx = fresh_mailboxes(&ports);
        let fresh = draw_epoch_mailboxes(&state.topology, GRADIENT_ACCUMULATION_STEPS);
        Self::absorb_with(state, output, po_tx, fresh)
    }
}

} // verus!
