//! Begin and end of an epoch, and the propagations collected in between.

use std::collections::HashMap;

use vstd::prelude::*;

use crate::collections::{
    ascending, insert_ascending, lemma_ascending, lemma_take_next, sorted_keys,
    strictly_increasing,
};
use crate::counting::{at_least_one, spec_at_least_one};
use crate::error::AtomError;
use crate::failure::{
    one_number, refused, refused_at, refused_between, refused_by, says, two_numbers, Failure,
};
use crate::forward::effect::contains_id;
use crate::forward::pass::{collect_endpoints, endpoints_of};
use crate::ids::ObjectId;
use crate::mailbox::{all_random, extend_mailboxes, extended, fresh_mailboxes};
use crate::message::{Potentiation, Transmission};
use crate::programs::two_sided_zo::effect::{
    BroadcastPotentiationInput, BroadcastPotentiationResult,
};
use crate::programs::two_sided_zo::finalize::{
    down_microstep_prepared, draw_epoch_mailboxes, epoch_mailboxes_fit, epoch_mailboxes_random,
    install_epoch_mailboxes, microstep_mailboxes_fit, prepare_next_down_microstep,
    prepare_next_up_microstep, up_microstep_prepared, with_epoch_mailboxes, EpochMailboxes,
};
use crate::programs::two_sided_zo::phase::{
    book, clock, only_phases_changed, positions_fit, steps_in, with_optimizations_sent,
};
use crate::programs::two_sided_zo::{epoch_empty, SunState, TwoSidedZoInner};
use crate::topology::frontier::port_ids;
use crate::topology::observe::progress_reset;

use crate::topology::SunTopology;

verus! {

broadcast use vstd::std_specs::hash::group_hash_axioms;

/// Clears collected propagation outputs and resets accumulation counters.
pub struct BeginGradientAccumulation;

impl BeginGradientAccumulation {
    pub fn absorb<S>(state: &mut SunState<S>, output: Result<(), AtomError>) -> (result: Result<
        (),
        Failure,
    >)
        ensures
            result is Ok <==> output is Ok,
            result is Ok ==> {
                &&& epoch_empty(*final(state))
                &&& final(state).shared == (TwoSidedZoInner {
                    active_micro_step: 0,
                    ..old(state).shared
                })
                &&& progress_reset(old(state).topology, final(state).topology)
                &&& final(state).a == old(state).a
                &&& final(state).b == old(state).b
                &&& final(state).inner == old(state).inner
            },
            result matches Err(failure) ==> {
                &&& says(failure, "begin sun accumulation failed"@)
                &&& *final(state) == *old(state)
            },
    {
        if output.is_err() {
            return Err(refused("begin sun accumulation failed"));
        }
        state.clear_epoch();
        state.shared.active_micro_step = 0;
        state.topology.reset_progress();
        Ok(())
    }
}

/// Stores one generated pair of root propagations.
pub struct StorePropagationInputPair;

impl StorePropagationInputPair {
    pub fn absorb<S>(
        state: &mut SunState<S>,
        output: Result<(), AtomError>,
        carry: (Transmission, Transmission),
    ) -> (result: Result<(), Failure>)
        ensures
            result is Ok <==> output is Ok,
            result is Ok ==> {
                &&& final(state).propagation_up_inputs@ == old(state).propagation_up_inputs@.push(
                    carry.0,
                )
                &&& final(state).propagation_down_inputs@ == old(
                    state,
                ).propagation_down_inputs@.push(carry.1)
                &&& *final(state) == (SunState {
                    propagation_up_inputs: final(state).propagation_up_inputs,
                    propagation_down_inputs: final(state).propagation_down_inputs,
                    ..*old(state)
                })
            },
            result matches Err(failure) ==> {
                &&& says(failure, "store propagation input pair failed"@)
                &&& *final(state) == *old(state)
            },
    {
        if output.is_err() {
            return Err(refused("store propagation input pair failed"));
        }
        let (up, down) = carry;
        state.propagation_up_inputs.push(up);
        state.propagation_down_inputs.push_back(down);
        Ok(())
    }
}

/// Stores one generated second-pass propagation and hands on the first-pass
/// one.
pub struct StoreDownPropagationInput;

impl StoreDownPropagationInput {
    pub fn absorb<S>(
        state: &mut SunState<S>,
        output: Result<(), AtomError>,
        carry: (Transmission, Transmission),
    ) -> (result: Result<Transmission, Failure>)
        ensures
            result is Ok <==> output is Ok,
            result matches Ok(up) ==> {
                &&& up == carry.0
                &&& final(state).propagation_down_inputs@ == old(
                    state,
                ).propagation_down_inputs@.push(carry.1)
                &&& *final(state) == (SunState {
                    propagation_down_inputs: final(state).propagation_down_inputs,
                    ..*old(state)
                })
            },
            result matches Err(failure) ==> {
                &&& says(failure, "store down propagation input failed"@)
                &&& *final(state) == *old(state)
            },
    {
        if output.is_err() {
            return Err(refused("store down propagation input failed"));
        }
        let (up, down) = carry;
        state.propagation_down_inputs.push_back(down);
        Ok(up)
    }
}

/// Records one first-pass output and rotates first-pass mailboxes.
pub struct RecordUpPropagationOutput;

impl RecordUpPropagationOutput {
    pub fn absorb<S>(
        state: &mut SunState<S>,
        output: Result<(), AtomError>,
        carry: Transmission,
    ) -> (result: Result<(), Failure>)
        ensures
            result is Ok <==> output is Ok,
            result is Ok ==> {
                let completed = old(state).propagation_up_outputs@.len() + 1;
                &&& final(state).propagation_up_outputs@ == old(
                    state,
                ).propagation_up_outputs@.push(carry)
                &&& *final(state) == (SunState {
                    propagation_up_outputs: final(state).propagation_up_outputs,
                    shared: final(state).shared,
                    ..*old(state)
                })
                &&& if completed < steps_in(clock(old(state).shared)) {
                    &&& up_microstep_prepared(
                        old(state).shared,
                        final(state).shared,
                        completed as usize,
                        final(state).shared.p1_rx,
                        final(state).shared.next_p1_tx,
                    )
                    &&& microstep_mailboxes_fit(
                        old(state).topology,
                        completed as usize,
                        old(state).shared.grad_steps,
                        final(state).shared.p1_rx@,
                        final(state).shared.next_p1_tx@,
                    )
                } else {
                    final(state).shared == old(state).shared
                }
            },
            result matches Err(failure) ==> {
                &&& says(failure, "record up propagation output failed"@)
                &&& *final(state) == *old(state)
            },
    {
        if output.is_err() {
            return Err(refused("record up propagation output failed"));
        }
        state.propagation_up_outputs.push(carry);
        let completed_steps = state.propagation_up_outputs.len();
        let grad_steps = state.shared.steps();
        if completed_steps < grad_steps {
            prepare_next_up_microstep(&state.topology, &mut state.shared, completed_steps);
        }
        Ok(())
    }
}

/// Switches from the first pass to the second.
pub struct BeginDownPropagationPhase<const GRADIENT_ACCUMULATION_STEPS: usize>;

impl<const GRADIENT_ACCUMULATION_STEPS: usize> BeginDownPropagationPhase<
    GRADIENT_ACCUMULATION_STEPS,
> {
    pub fn absorb<S>(state: &mut SunState<S>, output: Result<(), AtomError>) -> (result: Result<
        (),
        Failure,
    >)
        ensures
            ({
                let expected = spec_at_least_one(GRADIENT_ACCUMULATION_STEPS);
                let down = old(state).propagation_down_inputs@.len();
                let up = old(state).propagation_up_outputs@.len();
                &&& result is Ok <==> output is Ok && down == expected && up == expected
                &&& result is Ok ==> *final(state) == (SunState {
                    shared: TwoSidedZoInner { active_micro_step: 0, ..old(state).shared },
                    ..*old(state)
                })
                &&& result matches Err(failure) ==> {
                    &&& *final(state) == *old(state)
                    &&& says(
                        failure,
                        if output is Err {
                            "begin down propagation phase failed"@
                        } else if down != expected {
                            two_numbers(
                                "expected "@,
                                expected as nat,
                                " queued down inputs, got "@,
                                down,
                                ""@,
                            )
                        } else {
                            two_numbers(
                                "expected "@,
                                expected as nat,
                                " first-pass outputs, got "@,
                                up,
                                ""@,
                            )
                        },
                    )
                }
            }),
    {
        if output.is_err() {
            return Err(refused("begin down propagation phase failed"));
        }
        let expected = at_least_one(GRADIENT_ACCUMULATION_STEPS);
        let down = state.propagation_down_inputs.len();
        if down != expected {
            return Err(
                refused_between(
                    "expected ",
                    expected as u64,
                    " queued down inputs, got ",
                    down as u64,
                    "",
                ),
            );
        }
        let up = state.propagation_up_outputs.len();
        if up != expected {
            return Err(
                refused_between(
                    "expected ",
                    expected as u64,
                    " first-pass outputs, got ",
                    up as u64,
                    "",
                ),
            );
        }
        state.shared.active_micro_step = 0;
        Ok(())
    }
}

/// Takes the next generated second-pass propagation.
pub struct NextDownPropagationInput;

impl NextDownPropagationInput {
    pub fn absorb<S>(state: &mut SunState<S>, output: Result<(), AtomError>) -> (result: Result<
        Transmission,
        Failure,
    >)
        ensures
            result is Ok <==> output is Ok && old(state).propagation_down_inputs@.len() > 0,
            *final(state) == (SunState {
                propagation_down_inputs: final(state).propagation_down_inputs,
                ..*old(state)
            }),
            result matches Ok(down) ==> {
                &&& down == old(state).propagation_down_inputs@[0]
                &&& final(state).propagation_down_inputs@ == old(
                    state,
                ).propagation_down_inputs@.drop_first()
            },
            result matches Err(failure) ==> {
                &&& final(state).propagation_down_inputs@ == old(state).propagation_down_inputs@
                &&& says(
                    failure,
                    if output is Err {
                        "next down propagation input failed"@
                    } else {
                        "missing queued down propagation input"@
                    },
                )
            },
    {
        if output.is_err() {
            return Err(refused("next down propagation input failed"));
        }
        match state.propagation_down_inputs.pop_front() {
            Some(down) => Ok(down),
            None => Err(refused("missing queued down propagation input")),
        }
    }
}

/// Records one second-pass output with its first-pass partner and rotates
/// second-pass mailboxes.
pub struct RecordDownPropagationOutput;

impl RecordDownPropagationOutput {
    pub fn absorb<S>(
        state: &mut SunState<S>,
        output: Result<(), AtomError>,
        carry: Transmission,
    ) -> (result: Result<(), Failure>)
        ensures
            ({
                let index = old(state).propagation_pairs@.len();
                let ups = old(state).propagation_up_outputs@;
                &&& result is Ok <==> output is Ok && index < ups.len()
                &&& result is Ok ==> {
                    &&& final(state).propagation_pairs@ == old(state).propagation_pairs@.push(
                        (ups[index as int], carry),
                    )
                    &&& *final(state) == (SunState {
                        propagation_pairs: final(state).propagation_pairs,
                        shared: final(state).shared,
                        ..*old(state)
                    })
                    &&& if index + 1 < steps_in(clock(old(state).shared)) {
                        &&& down_microstep_prepared(
                            old(state).shared,
                            final(state).shared,
                            (index + 1) as usize,
                            final(state).shared.p2_rx,
                            final(state).shared.next_p2_tx,
                        )
                        &&& microstep_mailboxes_fit(
                            old(state).topology,
                            (index + 1) as usize,
                            old(state).shared.grad_steps,
                            final(state).shared.p2_rx@,
                            final(state).shared.next_p2_tx@,
                        )
                    } else {
                        final(state).shared == old(state).shared
                    }
                }
                &&& result matches Err(failure) ==> {
                    &&& *final(state) == *old(state)
                    &&& says(
                        failure,
                        if output is Err {
                            "record down propagation output failed"@
                        } else {
                            one_number(
                                "missing first-pass output for pair index "@,
                                index,
                                ""@,
                            )
                        },
                    )
                }
            }),
    {
        if output.is_err() {
            return Err(refused("record down propagation output failed"));
        }
        let pair_index = state.propagation_pairs.len();
        if pair_index >= state.propagation_up_outputs.len() {
            return Err(
                refused_at("missing first-pass output for pair index ", pair_index as u64, ""),
            );
        }
        let up = state.propagation_up_outputs[pair_index];
        state.propagation_pairs.push((up, carry));
        let completed_steps = state.propagation_pairs.len();
        let grad_steps = state.shared.steps();
        if completed_steps < grad_steps {
            prepare_next_down_microstep(&state.topology, &mut state.shared, completed_steps);
        }
        Ok(())
    }
}

/// Hands the collected pairs of an epoch to the policy.
pub struct CollectedPropagationPairs<const GRADIENT_ACCUMULATION_STEPS: usize>;

impl<const GRADIENT_ACCUMULATION_STEPS: usize> CollectedPropagationPairs<
    GRADIENT_ACCUMULATION_STEPS,
> {
    pub fn absorb<S>(state: &SunState<S>, output: Result<(), AtomError>) -> (result: Result<
        Vec<(Transmission, Transmission)>,
        Failure,
    >)
        ensures
            result is Ok <==> output is Ok && state.propagation_pairs@.len()
                == GRADIENT_ACCUMULATION_STEPS,
            result matches Ok(pairs) ==> pairs@ == state.propagation_pairs@,
            result matches Err(failure) ==> says(
                failure,
                if output is Err {
                    "collect propagation pairs failed"@
                } else {
                    two_numbers(
                        "expected "@,
                        GRADIENT_ACCUMULATION_STEPS as nat,
                        " propagation pairs, got "@,
                        state.propagation_pairs@.len(),
                        ""@,
                    )
                },
            ),
    {
        if output.is_err() {
            return Err(refused("collect propagation pairs failed"));
        }
        let count = state.propagation_pairs.len();
        if count != GRADIENT_ACCUMULATION_STEPS {
            return Err(
                refused_between(
                    "expected ",
                    GRADIENT_ACCUMULATION_STEPS as u64,
                    " propagation pairs, got ",
                    count as u64,
                    "",
                ),
            );
        }
        let mut pairs: Vec<(Transmission, Transmission)> = Vec::new();
        let mut i: usize = 0;
        while i < count
            invariant
                i <= count,
                count == state.propagation_pairs@.len(),
                pairs@ == state.propagation_pairs@.take(i as int),
            decreases count - i,
        {
            pairs.push(state.propagation_pairs[i]);
            proof {
                lemma_take_next(state.propagation_pairs@, i as int);
            }
            i = i + 1;
        }
        assert(pairs@ =~= state.propagation_pairs@);
        Ok(pairs)
    }
}

/// The vertices that own the listed ports.
pub open spec fn owners_of(topology: SunTopology, ports: Seq<(u32, ObjectId)>) -> Set<u32> {
    Set::new(
        |node: u32|
            exists|i: int|
                #![trigger ports[i]]
                0 <= i < ports.len() && topology.port_vertices@.contains_key(ports[i].0)
                    && topology.port_vertices@[ports[i].0] == node,
    )
}

pub fn collect_owners(topology: &SunTopology, ports: &Vec<(u32, ObjectId)>) -> (owners: Vec<u32>)
    ensures
        owners@ == ascending(owners_of(*topology, ports@)),
        strictly_increasing(owners@),
        owners@.to_set() == owners_of(*topology, ports@),
        owners@.len() <= ports@.len(),
{
    let mut owners: Vec<u32> = Vec::new();
    let mut i: usize = 0;
    while i < ports.len()
        invariant
            i <= ports.len(),
            strictly_increasing(owners@),
            owners@.len() <= i,
            forall|node: u32| #[trigger]
                owners@.contains(node) <==> exists|j: int|
                    #![trigger ports@[j]]
                    0 <= j < i && topology.port_vertices@.contains_key(ports@[j].0)
                        && topology.port_vertices@[ports@[j].0] == node,
        decreases ports.len() - i,
    {
        let ghost before = owners@;
        match topology.port_vertices.get(&ports[i].0) {
            Some(owner) => {
                if !contains_id(&owners, *owner) {
                    insert_ascending(&mut owners, *owner);
                    assert forall|node: u32| #[trigger] owners@.contains(node)
                        <==> before.contains(node) || node == *owner by {
                        assert(owners@.to_set().contains(node) <==> before.to_set().insert(
                            *owner,
                        ).contains(node));
                    }
                }
                assert(topology.port_vertices@[ports@[i as int].0] == *owner);
            },
            None => {},
        }
        i = i + 1;
    }
    proof {
        assert forall|node: u32| owners@.to_set().contains(node) <==> owners_of(
            *topology,
            ports@,
        ).contains(node) by {
            assert(owners@.contains(node) <==> exists|j: int|
                #![trigger ports@[j]]
                0 <= j < i && topology.port_vertices@.contains_key(ports@[j].0)
                    && topology.port_vertices@[ports@[j].0] == node);
        }
        assert(owners@.to_set() =~= owners_of(*topology, ports@));
        lemma_ascending(owners@, owners_of(*topology, ports@));
    }
    owners
}

/// The epoch ended: every reached node optimizes, every port listens at its
/// new inbox, and the next epoch has the given mailboxes.
pub open spec fn epoch_ended<S>(
    before: SunState<S>,
    after: SunState<S>,
    next: Seq<(u32, ObjectId)>,
    po_tx: HashMap<u32, ObjectId>,
    fresh: EpochMailboxes,
) -> bool {
    let renewed = with_epoch_mailboxes(
        TwoSidedZoInner {
            p1_tx: after.shared.p1_tx,
            po_tx,
            active_micro_step: 0,
            ..before.shared
        },
        fresh,
    );
    &&& after.shared.p1_tx@ == extended(Map::empty(), next)
    &&& book(after.shared, after.topology) == with_optimizations_sent(
        book(before.shared, before.topology),
        clock(renewed),
        ascending(owners_of(before.topology, next)),
    )
    &&& only_phases_changed(renewed, before.topology, after.shared, after.topology)
    &&& epoch_empty(after)
    &&& after.a == before.a
    &&& after.b == before.b
    &&& after.inner == before.inner
}

/// Broadcasts matching potentiations to every input port. Each assigns that
/// port a fresh first-pass inbox.
pub struct BroadcastPotentiation;

impl BroadcastPotentiation {
    /// The outcome and the ports it goes to, by ascending port.
    pub fn emit<S>(state: &SunState<S>, input: Potentiation) -> (emitted: BroadcastPotentiationInput)
        ensures
            emitted.potentiation == input,
            emitted.port_endpoints@ == endpoints_of(
                state.shared.po_tx@,
                ascending(state.topology.port_vertices@.dom()),
            ),
    {
        let ports = sorted_keys(&state.topology.port_vertices);
        BroadcastPotentiationInput {
            potentiation: input,
            port_endpoints: collect_endpoints(&state.shared.po_tx, &ports),
        }
    }

    /// Ends the epoch with the given mailboxes.
    pub fn absorb_with<S>(
        state: &mut SunState<S>,
        output: Result<BroadcastPotentiationResult, AtomError>,
        po_tx: HashMap<u32, ObjectId>,
        fresh: EpochMailboxes,
    ) -> (result: Result<(), Failure>)
        requires
            output matches Ok(sent) ==> positions_fit(
                old(state).topology.node_state_sequences@,
                sent.next_p1_tx_map@.len(),
            ),
        ensures
            match output {
                Ok(sent) => {
                    &&& result is Ok
                    &&& epoch_ended(
                        *old(state),
                        *final(state),
                        sent.next_p1_tx_map@,
                        po_tx,
                        fresh,
                    )
                },
                Err(error) => {
                    &&& result matches Err(failure) && says(
                        failure,
                        "broadcast potentiation failed: "@ + error.text(),
                    )
                    &&& *final(state) == *old(state)
                },
            },
    {
        let sent = match output {
            Ok(sent) => sent,
            Err(error) => {
                return Err(refused_by("broadcast potentiation failed: ", &error));
            },
        };
        let owners = collect_owners(&state.topology, &sent.next_p1_tx_map);
        state.shared.p1_tx.clear();
        extend_mailboxes(&mut state.shared.p1_tx, &sent.next_p1_tx_map);
        state.shared.po_tx = po_tx;
        state.shared.active_micro_step = 0;
        install_epoch_mailboxes(&mut state.shared, fresh);
        state.shared.record_optimization_sent(&mut state.topology, &owners);
        state.clear_epoch();
        Ok(())
    }

    /// Ends the epoch with random mailboxes.
    pub fn absorb<S>(
        state: &mut SunState<S>,
        output: Result<BroadcastPotentiationResult, AtomError>,
    ) -> (result: Result<(), Failure>)
        requires
            output matches Ok(sent) ==> positions_fit(
                old(state).topology.node_state_sequences@,
                sent.next_p1_tx_map@.len(),
            ),
        ensures
            match output {
                Ok(sent) => {
                    &&& result is Ok
                    &&& final(state).shared.po_tx@.dom() == old(
                        state,
                    ).topology.port_vertices@.dom()
                    &&& all_random(final(state).shared.po_tx@)
                    &&& exists|fresh: EpochMailboxes| #[trigger]
                        epoch_mailboxes_fit(
                            fresh,
                            old(state).topology,
                            old(state).shared.grad_steps,
                        ) && epoch_mailboxes_random(fresh) && epoch_ended(
                            *old(state),
                            *final(state),
                            sent.next_p1_tx_map@,
                            final(state).shared.po_tx,
                            fresh,
                        )
                },
                Err(error) => {
                    &&& result matches Err(failure) && says(
                        failure,
                        "broadcast potentiation failed: "@ + error.text(),
                    )
                    &&& *final(state) == *old(state)
                },
            },
    {
        let ports = port_ids(&state.topology);
        let po_tx = fresh_mailboxes(&ports);
        let fresh = draw_epoch_mailboxes(&state.topology, state.shared.grad_steps);
        BroadcastPotentiation::absorb_with(state, output, po_tx, fresh)
    }
}

} // verus!
