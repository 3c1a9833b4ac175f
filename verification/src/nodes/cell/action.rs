//! The actions of a cell: what each hands to its effect, and what it makes of
//! the outcome.

use std::marker::PhantomData;

use vstd::prelude::*;
use vstd::string::*;

use crate::counting::{at_least_one, spec_at_least_one};
use crate::error::AtomError;
use crate::failure::{refused, refused_by, says, Failure};
use crate::ids::{ObjectId, Uuid};
use crate::message::{ArtifactDelivery, EmissionId, Potentiation};
use crate::nodes::cell::{CellState, CheckpointSettings, Init};
use crate::programs::pipeline_backward::OperationalControl;

verus! {

/// Payload of a propagation.
#[derive(Clone, Copy, Debug, PartialEq, Eq, Structural)]
pub struct Propagation {
    pub emission_id: EmissionId,
    pub recv_id: ObjectId,
    pub send_id: ObjectId,
}

/// Takes the first mailbox and the settings of the cell from its seed.
pub struct InitRecvId<S>(pub PhantomData<S>);

impl<S> InitRecvId<S> {
    pub fn absorb(state: &mut CellState<S>, init: Init, settings: CheckpointSettings)
        ensures
            *final(state) == (CellState {
                recv_id: init.recv_id,
                grad_steps: spec_at_least_one(init.grad_steps),
                grad_step: 0,
                checkpoint_steps: settings.steps,
                checkpoint_dir: settings.directory,
                ..*old(state)
            }),
    {
        state.recv_id = init.recv_id;
        state.grad_steps = at_least_one(init.grad_steps);
        state.grad_step = 0;
        state.checkpoint_steps = settings.steps;
        state.checkpoint_dir = settings.directory;
    }
}

/// Whether microsteps are left in the current phase.
pub struct HasPendingGradientStep<S>(pub PhantomData<S>);

impl<S> HasPendingGradientStep<S> {
    pub fn eval(state: &CellState<S>) -> (pending: bool)
        ensures
            pending == (state.grad_step < spec_at_least_one(state.grad_steps)),
            pending == (state.microsteps_left() > 0),
    {
        state.grad_step < at_least_one(state.grad_steps)
    }
}

/// Starts a phase of microsteps.
pub struct BeginGradientAccumulation<S>(pub PhantomData<S>);

impl<S> BeginGradientAccumulation<S> {
    pub fn absorb(state: &mut CellState<S>, output: Result<(), AtomError>) -> (result: Result<
        (),
        Failure,
    >)
        ensures
            result is Ok <==> output is Ok,
            result matches Err(failure) ==> says(failure, "begin accumulation failed"@)
                && *final(state) == *old(state),
            result is Ok ==> *final(state) == (CellState {
                grad_step: 0,
                grad_steps: spec_at_least_one(old(state).grad_steps),
                ..*old(state)
            }) && final(state).microsteps_left() == spec_at_least_one(old(state).grad_steps),
    {
        match output {
            Err(_) => Err(refused("begin accumulation failed")),
            Ok(()) => {
                state.grad_step = 0;
                if state.grad_steps == 0 {
                    state.grad_steps = 1;
                }
                Ok(())
            },
        }
    }
}

/// Counts one completed microstep.
pub struct AdvanceGradientStep<S>(pub PhantomData<S>);

impl<S> AdvanceGradientStep<S> {
    pub fn absorb(state: &mut CellState<S>, output: Result<(), AtomError>) -> (result: Result<
        (),
        Failure,
    >)
        ensures
            result is Ok <==> output is Ok,
            result matches Err(failure) ==> says(failure, "advance accumulation failed"@)
                && *final(state) == *old(state),
            result is Ok ==> *final(state) == (CellState {
                grad_step: next_count(old(state).grad_step),
                ..*old(state)
            }),
            result is Ok && old(state).microsteps_left() > 0 ==> final(state).microsteps_left()
                == old(state).microsteps_left() - 1,
    {
        match output {
            Err(_) => Err(refused("advance accumulation failed")),
            Ok(()) => {
                state.grad_step = state.grad_step.saturating_add(1);
                Ok(())
            },
        }
    }
}

/// Hands out the id of a new model instance.
pub struct GenerateModelId<S>(pub PhantomData<S>);

impl<S> GenerateModelId<S> {
    pub fn absorb(output: Result<Uuid, AtomError>) -> (result: Result<Uuid, Failure>)
        ensures
            output matches Ok(id) ==> result == Ok::<Uuid, Failure>(id),
            output matches Err(error) ==> result is Err && says(
                result->Err_0,
                "generate model ID failed: "@ + error.text(),
            ),
    {
        match output {
            Ok(id) => Ok(id),
            Err(error) => Err(refused_by("generate model ID failed: ", &error)),
        }
    }
}

/// Draws the id of a new model instance.
pub struct GenerateModelIdEffect;

impl GenerateModelIdEffect {
    pub fn effect() -> (id: Uuid)
        ensures
            id.is_random(),
    {
        Uuid::new_v4()
    }
}

/// Starts the model instance under its id.
pub struct StartModel<S>(pub PhantomData<S>);

impl<S> StartModel<S> {
    /// Takes whether the started instance is frozen.
    pub fn absorb(
        state: &mut CellState<S>,
        output: Result<bool, AtomError>,
        model_id: Uuid,
    ) -> (result: Result<(), Failure>)
        ensures
            result is Ok <==> output is Ok,
            output matches Err(error) ==> says(
                result->Err_0,
                "start model failed: "@ + error.text(),
            ) && *final(state) == *old(state),
            output matches Ok(frozen) ==> *final(state) == (CellState {
                is_frozen: frozen,
                model_id,
                ..*old(state)
            }),
    {
        match output {
            Err(error) => Err(refused_by("start model failed: ", &error)),
            Ok(frozen) => {
                state.is_frozen = frozen;
                state.model_id = model_id;
                Ok(())
            },
        }
    }
}

/// Starts an instance of an operation under its id.
pub struct StartOperation<S>(pub PhantomData<S>);

impl<S> StartOperation<S> {
    pub fn absorb(
        state: &mut CellState<S>,
        output: Result<(), AtomError>,
        instance_id: ObjectId,
    ) -> (result: Result<(), Failure>)
        ensures
            result is Ok <==> output is Ok,
            output matches Err(error) ==> says(
                result->Err_0,
                "start operation failed: "@ + error.text(),
            ) && *final(state) == *old(state),
            output is Ok ==> *final(state) == (CellState { model_id: instance_id, ..*old(state) }),
    {
        match output {
            Err(error) => Err(refused_by("start operation failed: ", &error)),
            Ok(()) => {
                state.model_id = instance_id;
                Ok(())
            },
        }
    }
}

/// Shuts the model instance down.
pub struct ShutdownModel<S>(pub PhantomData<S>);

impl<S> ShutdownModel<S> {
    pub fn emit(state: &CellState<S>) -> (id: Uuid)
        ensures
            id == state.model_id,
    {
        state.model_id
    }

    pub fn absorb(output: Result<(), AtomError>) -> (result: Result<(), Failure>)
        ensures
            result is Ok <==> output is Ok,
            output matches Err(error) ==> says(
                result->Err_0,
                "shutdown model failed: "@ + error.text(),
            ),
    {
        match output {
            Ok(()) => Ok(()),
            Err(error) => Err(refused_by("shutdown model failed: ", &error)),
        }
    }
}

/// Adds the id of the model instance to an emission.
pub struct PrepareAtomInput<S>(pub PhantomData<S>);

impl<S> PrepareAtomInput<S> {
    pub fn absorb(
        state: &CellState<S>,
        output: Result<(), AtomError>,
        emission_id: EmissionId,
    ) -> (result: Result<(Uuid, EmissionId), Failure>)
        ensures
            output is Ok ==> result == Ok::<(Uuid, EmissionId), Failure>(
                (state.model_id, emission_id),
            ),
            output is Err ==> result is Err && says(result->Err_0, "prepare Atom input failed"@),
    {
        match output {
            Ok(()) => Ok((state.model_id, emission_id)),
            Err(_) => Err(refused("prepare Atom input failed")),
        }
    }
}

/// Adds the id of the operation instance to an emission.
pub struct PrepareOperationInput<S>(pub PhantomData<S>);

impl<S> PrepareOperationInput<S> {
    pub fn absorb(
        state: &CellState<S>,
        output: Result<(), AtomError>,
        emission_id: EmissionId,
    ) -> (result: Result<(ObjectId, EmissionId), Failure>)
        ensures
            output is Ok ==> result == Ok::<(ObjectId, EmissionId), Failure>(
                (state.model_id, emission_id),
            ),
            output is Err ==> result is Err && says(
                result->Err_0,
                "prepare operation input failed"@,
            ),
    {
        match output {
            Ok(()) => Ok((state.model_id, emission_id)),
            Err(_) => Err(refused("prepare operation input failed")),
        }
    }
}

/// Runs inference on an emission.
pub struct MassInferStep<S>(pub PhantomData<S>);

impl<S> MassInferStep<S> {
    pub fn absorb(output: Result<EmissionId, AtomError>) -> (result: Result<EmissionId, Failure>)
        ensures
            output matches Ok(id) ==> result == Ok::<EmissionId, Failure>(id),
            output matches Err(error) ==> result is Err && says(
                result->Err_0,
                "mass inference failed: "@ + error.text(),
            ),
    {
        match output {
            Ok(id) => Ok(id),
            Err(error) => Err(refused_by("mass inference failed: ", &error)),
        }
    }
}

/// Perturbs the weights upward.
pub struct PerturbUp<S>(pub PhantomData<S>);

impl<S> PerturbUp<S> {
    pub fn emit(state: &CellState<S>) -> (sent: (Uuid, u64))
        ensures
            sent == (state.model_id, state.perturbation_seed),
    {
        (state.model_id, state.perturbation_seed)
    }

    pub fn absorb(output: Result<(), AtomError>) -> (result: Result<(), Failure>)
        ensures
            result is Ok <==> output is Ok,
            output matches Err(error) ==> says(
                result->Err_0,
                "perturb up failed: "@ + error.text(),
            ),
    {
        match output {
            Ok(()) => Ok(()),
            Err(error) => Err(refused_by("perturb up failed: ", &error)),
        }
    }
}

/// Perturbs the weights of the operation upward.
pub struct PerturbOperationUp<S>(pub PhantomData<S>);

impl<S> PerturbOperationUp<S> {
    pub fn emit(state: &CellState<S>) -> (sent: (Uuid, u64))
        ensures
            sent == (state.model_id, state.perturbation_seed),
    {
        (state.model_id, state.perturbation_seed)
    }

    pub fn absorb(output: Result<(), AtomError>) -> (result: Result<(), Failure>)
        ensures
            result is Ok <==> output is Ok,
            output matches Err(error) ==> says(
                result->Err_0,
                "perturb operation up failed: "@ + error.text(),
            ),
    {
        match output {
            Ok(()) => Ok(()),
            Err(error) => Err(refused_by("perturb operation up failed: ", &error)),
        }
    }
}

/// Perturbs the weights downward.
pub struct PerturbDown<S>(pub PhantomData<S>);

impl<S> PerturbDown<S> {
    pub fn emit(state: &CellState<S>) -> (id: Uuid)
        ensures
            id == state.model_id,
    {
        state.model_id
    }

    pub fn absorb(output: Result<(), AtomError>) -> (result: Result<(), Failure>)
        ensures
            result is Ok <==> output is Ok,
            output matches Err(error) ==> says(
                result->Err_0,
                "perturb down failed: "@ + error.text(),
            ),
    {
        match output {
            Ok(()) => Ok(()),
            Err(error) => Err(refused_by("perturb down failed: ", &error)),
        }
    }
}

/// Perturbs the weights of the operation downward.
pub struct PerturbOperationDown<S>(pub PhantomData<S>);

impl<S> PerturbOperationDown<S> {
    pub fn emit(state: &CellState<S>) -> (id: Uuid)
        ensures
            id == state.model_id,
    {
        state.model_id
    }

    pub fn absorb(output: Result<(), AtomError>) -> (result: Result<(), Failure>)
        ensures
            result is Ok <==> output is Ok,
            output matches Err(error) ==> says(
                result->Err_0,
                "perturb operation down failed: "@ + error.text(),
            ),
    {
        match output {
            Ok(()) => Ok(()),
            Err(error) => Err(refused_by("perturb operation down failed: ", &error)),
        }
    }
}

/// Applies the outcome of a step to the weights.
pub struct Optimize<S>(pub PhantomData<S>);

impl<S> Optimize<S> {
    pub fn emit(state: &CellState<S>, potentiation: Potentiation) -> (sent: (Uuid, Potentiation))
        ensures
            sent == (state.model_id, potentiation),
    {
        (state.model_id, potentiation)
    }

    /// Takes whether the optimized instance is frozen.
    pub fn absorb(state: &mut CellState<S>, output: Result<bool, AtomError>) -> (result: Result<
        (),
        Failure,
    >)
        ensures
            result is Ok <==> output is Ok,
            output matches Err(error) ==> says(
                result->Err_0,
                "optimize failed: "@ + error.text(),
            ) && *final(state) == *old(state),
            output matches Ok(frozen) ==> *final(state) == (CellState {
                is_frozen: frozen,
                optimization_step: next_count(old(state).optimization_step),
                ..*old(state)
            }),
    {
        match output {
            Err(error) => Err(refused_by("optimize failed: ", &error)),
            Ok(frozen) => {
                state.is_frozen = frozen;
                state.optimization_step = state.optimization_step.saturating_add(1);
                Ok(())
            },
        }
    }
}

/// Applies the outcome of a step to the weights of the operation.
pub struct OptimizeOperation<S>(pub PhantomData<S>);

impl<S> OptimizeOperation<S> {
    pub fn emit(state: &CellState<S>, potentiation: Potentiation) -> (sent: (
        ObjectId,
        Potentiation,
    ))
        ensures
            sent == (state.model_id, potentiation),
    {
        (state.model_id, potentiation)
    }

    pub fn absorb(state: &mut CellState<S>, output: Result<(), AtomError>) -> (result: Result<
        (),
        Failure,
    >)
        ensures
            result is Ok <==> output is Ok,
            output matches Err(error) ==> says(
                result->Err_0,
                "optimize operation failed: "@ + error.text(),
            ) && *final(state) == *old(state),
            output is Ok ==> *final(state) == (CellState {
                optimization_step: next_count(old(state).optimization_step),
                ..*old(state)
            }),
    {
        match output {
            Err(error) => Err(refused_by("optimize operation failed: ", &error)),
            Ok(()) => {
                state.optimization_step = state.optimization_step.saturating_add(1);
                Ok(())
            },
        }
    }
}

/// Saves a checkpoint when one is due.
pub struct CheckpointOperation<S>(pub PhantomData<S>);

impl<S> CheckpointOperation<S> {
    /// The instance, its completed steps, how often to save and where.
    pub fn emit(state: &CellState<S>) -> (sent: (ObjectId, usize, usize, Option<String>))
        ensures
            sent.0 == state.model_id,
            sent.1 == state.optimization_step,
            sent.2 == state.checkpoint_steps,
            same_text(sent.3, state.checkpoint_dir),
    {
        (
            state.model_id,
            state.optimization_step,
            state.checkpoint_steps,
            copy_text(&state.checkpoint_dir),
        )
    }

    pub fn absorb(output: Result<(), AtomError>) -> (result: Result<(), Failure>)
        ensures
            result is Ok <==> output is Ok,
            output matches Err(error) ==> says(
                result->Err_0,
                "checkpoint operation failed: "@ + error.text(),
            ),
    {
        match output {
            Ok(()) => Ok(()),
            Err(error) => Err(refused_by("checkpoint operation failed: ", &error)),
        }
    }
}

/// Awaits a propagation and moves on to the mailboxes it names.
pub struct WaitForPropagation<S>(pub PhantomData<S>);

impl<S> WaitForPropagation<S> {
    pub fn emit(state: &CellState<S>) -> (mailbox: ObjectId)
        ensures
            mailbox == state.recv_id,
    {
        state.recv_id
    }

    pub fn absorb(
        state: &mut CellState<S>,
        output: Result<Propagation, AtomError>,
    ) -> (result: Result<EmissionId, Failure>)
        ensures
            result is Ok <==> output is Ok,
            output matches Err(error) ==> says(
                result->Err_0,
                "wait for propagation failed: "@ + error.text(),
            ) && *final(state) == *old(state),
            output matches Ok(propagation) ==> result->Ok_0 == propagation.emission_id && *final(state) == (CellState {
                recv_id: propagation.recv_id,
                send_id: propagation.send_id,
                ..*old(state)
            }),
    {
        match output {
            Err(error) => Err(refused_by("wait for propagation failed: ", &error)),
            Ok(propagation) => {
                state.recv_id = propagation.recv_id;
                state.send_id = propagation.send_id;
                Ok(propagation.emission_id)
            },
        }
    }
}

/// Awaits a propagation for an operation and moves on to the mailboxes it
/// names.
pub struct WaitForOperationPropagation<S>(pub PhantomData<S>);

impl<S> WaitForOperationPropagation<S> {
    pub fn emit(state: &CellState<S>) -> (mailbox: ObjectId)
        ensures
            mailbox == state.recv_id,
    {
        state.recv_id
    }

    pub fn absorb(
        state: &mut CellState<S>,
        output: Result<Propagation, AtomError>,
    ) -> (result: Result<EmissionId, Failure>)
        ensures
            result is Ok <==> output is Ok,
            output matches Err(error) ==> says(
                result->Err_0,
                "wait for operation propagation failed: "@ + error.text(),
            ) && *final(state) == *old(state),
            output matches Ok(propagation) ==> result->Ok_0 == propagation.emission_id && *final(state) == (CellState {
                recv_id: propagation.recv_id,
                send_id: propagation.send_id,
                ..*old(state)
            }),
    {
        match output {
            Err(error) => Err(refused_by("wait for operation propagation failed: ", &error)),
            Ok(propagation) => {
                state.recv_id = propagation.recv_id;
                state.send_id = propagation.send_id;
                Ok(propagation.emission_id)
            },
        }
    }
}

/// Awaits an artifact and moves on to the mailboxes it names.
pub struct WaitForArtifact<S>(pub PhantomData<S>);

impl<S> WaitForArtifact<S> {
    pub fn emit(state: &CellState<S>) -> (mailbox: ObjectId)
        ensures
            mailbox == state.recv_id,
    {
        state.recv_id
    }

    pub fn absorb(
        state: &mut CellState<S>,
        output: Result<ArtifactDelivery, AtomError>,
    ) -> (result: Result<EmissionId, Failure>)
        ensures
            result is Ok <==> output is Ok,
            output matches Err(error) ==> says(
                result->Err_0,
                "wait for artifact failed: "@ + error.text(),
            ) && *final(state) == *old(state),
            output matches Ok(delivery) ==> result->Ok_0 == delivery.emission_id && *final(state) == (CellState {
                recv_id: delivery.recv,
                send_id: delivery.send,
                ..*old(state)
            }),
    {
        match output {
            Err(error) => Err(refused_by("wait for artifact failed: ", &error)),
            Ok(delivery) => {
                state.recv_id = delivery.recv;
                state.send_id = delivery.send;
                Ok(delivery.emission_id)
            },
        }
    }
}

/// Awaits the outcome of a step, keeps its seed and moves on to the mailbox it
/// names.
pub struct WaitForPotentiation<S>(pub PhantomData<S>);

impl<S> WaitForPotentiation<S> {
    pub fn emit(state: &CellState<S>) -> (mailbox: ObjectId)
        ensures
            mailbox == state.recv_id,
    {
        state.recv_id
    }

    pub fn absorb(
        state: &mut CellState<S>,
        output: Result<(Potentiation, ObjectId), AtomError>,
    ) -> (result: Result<Potentiation, Failure>)
        ensures
            result is Ok <==> output is Ok,
            output matches Err(error) ==> says(
                result->Err_0,
                "wait for potentiation failed: "@ + error.text(),
            ) && *final(state) == *old(state),
            output matches Ok(received) ==> result->Ok_0 == received.0 && *final(state) == (CellState {
                recv_id: received.1,
                perturbation_seed: received.0.seed,
                ..*old(state)
            }),
    {
        match output {
            Err(error) => Err(refused_by("wait for potentiation failed: ", &error)),
            Ok(received) => {
                state.recv_id = received.1;
                state.perturbation_seed = received.0.seed;
                Ok(received.0)
            },
        }
    }
}

/// Awaits a control message and moves on to the mailbox it names.
pub struct WaitForOperationalControl<C, S>(pub PhantomData<(C, S)>);

impl<C, S> WaitForOperationalControl<C, S> {
    pub fn emit(state: &CellState<S>) -> (mailbox: ObjectId)
        ensures
            mailbox == state.recv_id,
    {
        state.recv_id
    }

    pub fn absorb(
        state: &mut CellState<S>,
        output: Result<OperationalControl<C>, AtomError>,
    ) -> (result: Result<C, Failure>)
        ensures
            result is Ok <==> output is Ok,
            output matches Err(error) ==> says(
                result->Err_0,
                "wait for control failed: "@ + error.text(),
            ) && *final(state) == *old(state),
            output matches Ok(message) ==> result->Ok_0 == message.control && *final(state) == (
            CellState { recv_id: message.recv, ..*old(state) }),
    {
        match output {
            Err(error) => Err(refused_by("wait for control failed: ", &error)),
            Ok(message) => {
                state.recv_id = message.recv;
                Ok(message.control)
            },
        }
    }
}

/// Sends an emission on to the output mailbox.
pub struct Transmit<S>(pub PhantomData<S>);

impl<S> Transmit<S> {
    pub fn emit(state: &CellState<S>, emission_id: EmissionId) -> (sent: (EmissionId, ObjectId))
        ensures
            sent == (emission_id, state.send_id),
    {
        (emission_id, state.send_id)
    }

    pub fn absorb(output: Result<(), AtomError>) -> (result: Result<(), Failure>)
        ensures
            result is Ok <==> output is Ok,
            output matches Err(error) ==> says(
                result->Err_0,
                "transmit failed: "@ + error.text(),
            ),
    {
        match output {
            Ok(()) => Ok(()),
            Err(error) => Err(refused_by("transmit failed: ", &error)),
        }
    }
}

/// Sends an emission of an operation on to the output mailbox.
pub struct TransmitOperation<S>(pub PhantomData<S>);

impl<S> TransmitOperation<S> {
    pub fn emit(state: &CellState<S>, emission_id: EmissionId) -> (sent: (EmissionId, ObjectId))
        ensures
            sent == (emission_id, state.send_id),
    {
        (emission_id, state.send_id)
    }

    pub fn absorb(output: Result<(), AtomError>) -> (result: Result<(), Failure>)
        ensures
            result is Ok <==> output is Ok,
            output matches Err(error) ==> says(
                result->Err_0,
                "transmit operation failed: "@ + error.text(),
            ),
    {
        match output {
            Ok(()) => Ok(()),
            Err(error) => Err(refused_by("transmit operation failed: ", &error)),
        }
    }
}

/// Publishes an emission for the parent scheduler.
pub struct TransmitArtifact<S>(pub PhantomData<S>);

impl<S> TransmitArtifact<S> {
    pub fn emit(state: &CellState<S>, emission_id: EmissionId) -> (sent: (EmissionId, ObjectId))
        ensures
            sent == (emission_id, state.send_id),
    {
        (emission_id, state.send_id)
    }

    pub fn absorb(output: Result<(), AtomError>) -> (result: Result<(), Failure>)
        ensures
            result is Ok <==> output is Ok,
            output matches Err(error) ==> says(
                result->Err_0,
                "transmit artifact failed: "@ + error.text(),
            ),
    {
        match output {
            Ok(()) => Ok(()),
            Err(error) => Err(refused_by("transmit artifact failed: ", &error)),
        }
    }
}

/// One more, where there is room.
pub open spec fn next_count(count: usize) -> usize {
    if count < usize::MAX {
        (count + 1) as usize
    } else {
        usize::MAX
    }
}

/// Both are absent, or both hold the same text.
pub open spec fn same_text(a: Option<String>, b: Option<String>) -> bool {
    match (a, b) {
        (Some(a), Some(b)) => a@ == b@,
        (None, None) => true,
        _ => false,
    }
}

/// A copy of an optional text.
pub fn copy_text(text: &Option<String>) -> (copy: Option<String>)
    ensures
        same_text(copy, *text),
{
    match text {
        Some(text) => Some(text.clone()),
        None => None,
    }
}

} // verus!
