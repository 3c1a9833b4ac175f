//! Boundaries: model-free nodes that stand for a warp journey.
//!
//! A boundary takes part in a graph like a cell with one port. Instead of
//! running a model it looks at the warp journey it stands for, and passes the
//! outcome of each step on to it.

use std::marker::PhantomData;

use vstd::prelude::*;
use vstd::string::*;

use crate::counting::{at_least_one, spec_at_least_one};
use crate::error::AtomError;
use crate::failure::{refused, refused_by, says, Failure};
use crate::ids::{ObjectId, Uuid};
use crate::message::{EmissionId, Potentiation};
use crate::nodes::cell::action::{next_count, Propagation};
use crate::topology::BoundaryInit;

verus! {

/// State carried by a boundary, with what was last seen of its warp journey.
pub struct BoundaryState<S> {
    /// The model instance this node would own.
    pub model_id: Uuid,
    /// The warp journey this boundary stands for.
    pub warp_journey_id: Uuid,
    /// The mailbox of the next message to await.
    pub recv_id: ObjectId,
    /// The mailbox for the next output.
    pub send_id: ObjectId,
    /// Seed of the last step.
    pub perturbation_seed: u64,
    pub is_frozen: bool,
    /// Number of microsteps per propagation phase.
    pub grad_steps: usize,
    /// Number of completed microsteps in the current phase.
    pub grad_step: usize,
    pub inner: S,
}

impl<S: Default> Default for BoundaryState<S> {
    fn default() -> (state: Self)
        ensures
            state == (BoundaryState {
                model_id: Uuid::spec_nil(),
                warp_journey_id: Uuid::spec_nil(),
                recv_id: Uuid::spec_nil(),
                send_id: Uuid::spec_nil(),
                perturbation_seed: 0,
                is_frozen: false,
                grad_steps: 0,
                grad_step: 0,
                inner: state.inner,
            }),
            call_ensures(S::default, (), state.inner),
    {
        BoundaryState {
            model_id: Uuid::nil(),
            warp_journey_id: Uuid::nil(),
            recv_id: Uuid::nil(),
            send_id: Uuid::nil(),
            perturbation_seed: 0,
            is_frozen: false,
            grad_steps: 0,
            grad_step: 0,
            inner: S::default(),
        }
    }
}

impl<S> BoundaryState<S> {
    /// Microsteps left in the current phase.
    pub open spec fn microsteps_left(self) -> int {
        if self.grad_step < spec_at_least_one(self.grad_steps) {
            spec_at_least_one(self.grad_steps) - self.grad_step
        } else {
            0
        }
    }
}

/// Takes the first mailbox and the warp journey from the seed.
pub struct InitRecvId<S>(pub PhantomData<S>);

impl<S> InitRecvId<S> {
    pub fn absorb(state: &mut BoundaryState<S>, init: BoundaryInit)
        ensures
            *final(state) == (BoundaryState {
                recv_id: init.recv_id,
                grad_steps: spec_at_least_one(init.grad_steps),
                grad_step: 0,
                warp_journey_id: init.warp_journey_id,
                ..*old(state)
            }),
    {
        state.recv_id = init.recv_id;
        state.grad_steps = at_least_one(init.grad_steps);
        state.grad_step = 0;
        state.warp_journey_id = init.warp_journey_id;
    }
}

/// Whether microsteps are left in the current phase.
pub struct HasPendingGradientStep<S>(pub PhantomData<S>);

impl<S> HasPendingGradientStep<S> {
    pub fn eval(state: &BoundaryState<S>) -> (pending: bool)
        ensures
            pending == (state.grad_step < spec_at_least_one(state.grad_steps)),
            pending == (state.microsteps_left() > 0),
    {
        state.grad_step < at_least_one(state.grad_steps)
    }
}

/// Starts a phase of microsteps.
pub struct BeginGradientAccumulation<S>(pub PhantomData<S>);

impl<S> BeginGradientAccumulation<S> {
    pub fn absorb(state: &mut BoundaryState<S>, output: Result<(), AtomError>) -> (result: Result<
        (),
        Failure,
    >)
        ensures
            result is Ok <==> output is Ok,
            result matches Err(failure) ==> says(failure, "begin accumulation failed"@)
                && *final(state) == *old(state),
            result is Ok ==> *final(state) == (BoundaryState {
                grad_step: 0,
                grad_steps: spec_at_least_one(old(state).grad_steps),
                ..*old(state)
            }) && final(state).microsteps_left() == spec_at_least_one(old(state).grad_steps),
    {
        match output {
            Err(_) => Err(refused("begin accumulation failed")),
            Ok(()) => {
                state.grad_step = 0;
                if state.grad_steps == 0 {
                    state.grad_steps = 1;
                }
                Ok(())
            },
        }
    }
}

/// Counts one completed microstep.
pub struct AdvanceGradientStep<S>(pub PhantomData<S>);

impl<S> AdvanceGradientStep<S> {
    pub fn absorb(state: &mut BoundaryState<S>, output: Result<(), AtomError>) -> (result: Result<
        (),
        Failure,
    >)
        ensures
            result is Ok <==> output is Ok,
            result matches Err(failure) ==> says(failure, "advance accumulation failed"@)
                && *final(state) == *old(state),
            result is Ok ==> *final(state) == (BoundaryState {
                grad_step: next_count(old(state).grad_step),
                ..*old(state)
            }),
            result is Ok && old(state).microsteps_left() > 0 ==> final(state).microsteps_left()
                == old(state).microsteps_left() - 1,
    {
        match output {
            Err(_) => Err(refused("advance accumulation failed")),
            Ok(()) => {
                state.grad_step = state.grad_step.saturating_add(1);
                Ok(())
            },
        }
    }
}

/// Awaits a propagation and moves on to the mailboxes it names.
pub struct WaitForPropagation<S>(pub PhantomData<S>);

impl<S> WaitForPropagation<S> {
    pub fn emit(state: &BoundaryState<S>) -> (mailbox: ObjectId)
        ensures
            mailbox == state.recv_id,
    {
        state.recv_id
    }

    pub fn absorb(
        state: &mut BoundaryState<S>,
        output: Result<Propagation, AtomError>,
    ) -> (result: Result<EmissionId, Failure>)
        ensures
            result is Ok <==> output is Ok,
            output matches Err(error) ==> says(
                result->Err_0,
                "wait for propagation failed: "@ + error.text(),
            ) && *final(state) == *old(state),
            output matches Ok(propagation) ==> result->Ok_0 == propagation.emission_id && *final(state) == (BoundaryState {
                recv_id: propagation.recv_id,
                send_id: propagation.send_id,
                ..*old(state)
            }),
    {
        match output {
            Err(error) => Err(refused_by("wait for propagation failed: ", &error)),
            Ok(propagation) => {
                state.recv_id = propagation.recv_id;
                state.send_id = propagation.send_id;
                Ok(propagation.emission_id)
            },
        }
    }
}

/// Awaits the outcome of a step, keeps its seed and moves on to the mailbox it
/// names.
pub struct WaitForPotentiation<S>(pub PhantomData<S>);

impl<S> WaitForPotentiation<S> {
    pub fn emit(state: &BoundaryState<S>) -> (mailbox: ObjectId)
        ensures
            mailbox == state.recv_id,
    {
        state.recv_id
    }

    pub fn absorb(
        state: &mut BoundaryState<S>,
        output: Result<(Potentiation, ObjectId), AtomError>,
    ) -> (result: Result<Potentiation, Failure>)
        ensures
            result is Ok <==> output is Ok,
            output matches Err(error) ==> says(
                result->Err_0,
                "wait for potentiation failed: "@ + error.text(),
            ) && *final(state) == *old(state),
            output matches Ok(received) ==> result->Ok_0 == received.0 && *final(state) == (BoundaryState {
                recv_id: received.1,
                perturbation_seed: received.0.seed,
                ..*old(state)
            }),
    {
        match output {
            Err(error) => Err(refused_by("wait for potentiation failed: ", &error)),
            Ok(received) => {
                state.recv_id = received.1;
                state.perturbation_seed = received.0.seed;
                Ok(received.0)
            },
        }
    }
}

/// Sends an emission on to the output mailbox.
pub struct Transmit<S>(pub PhantomData<S>);

impl<S> Transmit<S> {
    pub fn emit(state: &BoundaryState<S>, emission_id: EmissionId) -> (sent: (EmissionId, ObjectId))
        ensures
            sent == (emission_id, state.send_id),
    {
        (emission_id, state.send_id)
    }

    pub fn absorb(output: Result<(), AtomError>) -> (result: Result<(), Failure>)
        ensures
            result is Ok <==> output is Ok,
            output matches Err(error) ==> says(
                result->Err_0,
                "transmit failed: "@ + error.text(),
            ),
    {
        match output {
            Ok(()) => Ok(()),
            Err(error) => Err(refused_by("transmit failed: ", &error)),
        }
    }
}

/// Keeps what was seen of the warp journey and passes the emission through.
pub struct ObserveWarp<S>(pub PhantomData<S>);

impl<S> ObserveWarp<S> {
    pub fn emit(state: &BoundaryState<S>, emission_id: EmissionId) -> (sent: (Uuid, EmissionId))
        ensures
            sent == (state.warp_journey_id, emission_id),
    {
        (state.warp_journey_id, emission_id)
    }

    pub fn absorb(
        state: &mut BoundaryState<S>,
        output: Result<S, AtomError>,
        emission_id: EmissionId,
    ) -> (result: Result<EmissionId, Failure>)
        ensures
            output matches Err(error) ==> result is Err && says(
                result->Err_0,
                "observe warp failed: "@ + error.text(),
            ) && *final(state) == *old(state),
            output matches Ok(seen) ==> result == Ok::<EmissionId, Failure>(emission_id)
                && *final(state) == (BoundaryState { inner: seen, ..*old(state) }),
    {
        match output {
            Err(error) => Err(refused_by("observe warp failed: ", &error)),
            Ok(seen) => {
                state.inner = seen;
                Ok(emission_id)
            },
        }
    }
}

/// Passes the outcome of a step on to the warp journey.
pub struct PerturbWarp<S>(pub PhantomData<S>);

impl<S> PerturbWarp<S> {
    pub fn emit(state: &BoundaryState<S>, potentiation: Potentiation) -> (sent: (
        Uuid,
        Potentiation,
    ))
        ensures
            sent == (state.warp_journey_id, potentiation),
    {
        (state.warp_journey_id, potentiation)
    }

    pub fn absorb(output: Result<(), AtomError>) -> (result: Result<(), Failure>)
        ensures
            result is Ok <==> output is Ok,
            output matches Err(error) ==> says(
                result->Err_0,
                "perturb warp failed: "@ + error.text(),
            ),
    {
        match output {
            Ok(()) => Ok(()),
            Err(error) => Err(refused_by("perturb warp failed: ", &error)),
        }
    }
}

/// Looks at a warp journey.
pub struct ObserveWarpEffect;

impl ObserveWarpEffect {
    pub fn completed<S>(outcome: Result<S, String>) -> (result: Result<S, AtomError>)
        ensures
            result == match outcome {
                Ok(seen) => Ok::<S, AtomError>(seen),
                Err(cause) => Err::<S, AtomError>(AtomError::ObserveWarp(cause)),
            },
    {
        match outcome {
            Ok(seen) => Ok(seen),
            Err(cause) => Err(AtomError::ObserveWarp(cause)),
        }
    }
}

/// Passes the outcome of a step to a warp journey.
pub struct PerturbWarpEffect;

impl PerturbWarpEffect {
    pub fn completed(outcome: Result<(), String>) -> (result: Result<(), AtomError>)
        ensures
            result == match outcome {
                Ok(()) => Ok::<(), AtomError>(()),
                Err(cause) => Err::<(), AtomError>(AtomError::PerturbWarp(cause)),
            },
    {
        match outcome {
            Ok(()) => Ok(()),
            Err(cause) => Err(AtomError::PerturbWarp(cause)),
        }
    }
}

} // verus!
