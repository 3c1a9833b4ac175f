//! What a node does with the messages it receives, from one action to the
//! next: where it listens, where it publishes, and what it hands to its model.

use vstd::prelude::*;

use crate::error::AtomError;
use crate::failure::Failure;
use crate::ids::{ObjectId, Uuid};
use crate::message::{ArtifactDelivery, EmissionId, Potentiation, Transmission};
use crate::nodes::cell::action::{self as cell_action, Propagation};
use crate::nodes::cell::effect as cell_effect;
use crate::nodes::cell::{CellState, CheckpointSettings, Init};
use crate::nodes::fusion::action::{self as fusion_action, LossTexts, ReceivedPotentiation};
use crate::nodes::fusion::{FusionSeed, FusionState};
use crate::nodes::meld::{self as meld, MeldSeed, MeldState};
use crate::nodes::warp::{self as warp, BoundaryState};
use crate::nodes::{boundary, twin};
use crate::topology::BoundaryInit;

verus! {

/// A cell that is sent a propagation works on its emission, publishes where the
/// propagation says, and listens next where it says.
pub proof fn law_cell_follows_its_propagation<S>(
    state: &mut CellState<S>,
    message: Propagation,
    taken: Result<EmissionId, Failure>,
    after: &CellState<S>,
    made: EmissionId,
    awaited: ObjectId,
    sent: (EmissionId, ObjectId),
)
    requires
        call_ensures(
            cell_action::WaitForPropagation::<S>::absorb,
            (state, Ok::<Propagation, AtomError>(message)),
            taken,
        ),
        *after == mut_ref_future(state),
        call_ensures(cell_action::WaitForPropagation::<S>::emit, (after,), awaited),
        call_ensures(cell_action::Transmit::<S>::emit, (after, made), sent),
    ensures
        taken == Ok::<EmissionId, Failure>(message.emission_id),
        awaited == message.recv_id,
        sent.0 == made,
        sent.1 == message.send_id,
        after.model_id == mut_ref_current(state).model_id,
        after.perturbation_seed == mut_ref_current(state).perturbation_seed,
        after.grad_step == mut_ref_current(state).grad_step,
        after.grad_steps == mut_ref_current(state).grad_steps,
        after.optimization_step == mut_ref_current(state).optimization_step,
{
}

/// So does a cell that runs an operation.
pub proof fn law_operation_cell_follows_its_propagation<S>(
    state: &mut CellState<S>,
    message: Propagation,
    taken: Result<EmissionId, Failure>,
    after: &CellState<S>,
    made: EmissionId,
    awaited: ObjectId,
    sent: (EmissionId, ObjectId),
)
    requires
        call_ensures(
            cell_action::WaitForOperationPropagation::<S>::absorb,
            (state, Ok::<Propagation, AtomError>(message)),
            taken,
        ),
        *after == mut_ref_future(state),
        call_ensures(cell_action::WaitForOperationPropagation::<S>::emit, (after,), awaited),
        call_ensures(cell_action::TransmitOperation::<S>::emit, (after, made), sent),
    ensures
        taken == Ok::<EmissionId, Failure>(message.emission_id),
        awaited == message.recv_id,
        sent.0 == made,
        sent.1 == message.send_id,
        after.model_id == mut_ref_current(state).model_id,
        after.perturbation_seed == mut_ref_current(state).perturbation_seed,
        after.grad_step == mut_ref_current(state).grad_step,
        after.grad_steps == mut_ref_current(state).grad_steps,
        after.optimization_step == mut_ref_current(state).optimization_step,
{
}

/// So does a cell that serves artifacts.
pub proof fn law_serving_cell_follows_its_artifact<S>(
    state: &mut CellState<S>,
    message: ArtifactDelivery,
    taken: Result<EmissionId, Failure>,
    after: &CellState<S>,
    made: EmissionId,
    awaited: ObjectId,
    sent: (EmissionId, ObjectId),
)
    requires
        call_ensures(
            cell_action::WaitForArtifact::<S>::absorb,
            (state, Ok::<ArtifactDelivery, AtomError>(message)),
            taken,
        ),
        *after == mut_ref_future(state),
        call_ensures(cell_action::WaitForArtifact::<S>::emit, (after,), awaited),
        call_ensures(cell_action::TransmitArtifact::<S>::emit, (after, made), sent),
    ensures
        taken == Ok::<EmissionId, Failure>(message.emission_id),
        awaited == message.recv,
        sent.0 == made,
        sent.1 == message.send,
        after.model_id == mut_ref_current(state).model_id,
        after.perturbation_seed == mut_ref_current(state).perturbation_seed,
        after.grad_step == mut_ref_current(state).grad_step,
        after.grad_steps == mut_ref_current(state).grad_steps,
        after.optimization_step == mut_ref_current(state).optimization_step,
{
}

/// A cell that is told an outcome hands it on, listens next where it was told
/// to, perturbs next with the seed of the outcome, and optimizes its own model
/// by it.
pub proof fn law_cell_follows_its_outcome<S>(
    state: &mut CellState<S>,
    outcome: Potentiation,
    recv: ObjectId,
    taken: Result<Potentiation, Failure>,
    after: &CellState<S>,
    awaited: ObjectId,
    up: (Uuid, u64),
    operation_up: (Uuid, u64),
    tuned: (Uuid, Potentiation),
    operation_tuned: (ObjectId, Potentiation),
)
    requires
        call_ensures(
            cell_action::WaitForPotentiation::<S>::absorb,
            (state, Ok::<(Potentiation, ObjectId), AtomError>((outcome, recv))),
            taken,
        ),
        *after == mut_ref_future(state),
        call_ensures(cell_action::WaitForPotentiation::<S>::emit, (after,), awaited),
        call_ensures(cell_action::PerturbUp::<S>::emit, (after,), up),
        call_ensures(cell_action::PerturbOperationUp::<S>::emit, (after,), operation_up),
        call_ensures(cell_action::Optimize::<S>::emit, (after, outcome), tuned),
        call_ensures(cell_action::OptimizeOperation::<S>::emit, (after, outcome), operation_tuned),
    ensures
        taken == Ok::<Potentiation, Failure>(outcome),
        awaited == recv,
        up.0 == mut_ref_current(state).model_id,
        up.1 == outcome.seed,
        operation_up == up,
        tuned.0 == mut_ref_current(state).model_id,
        tuned.1.loss_up_bits == outcome.loss_up_bits,
        tuned.1.loss_down_bits == outcome.loss_down_bits,
        tuned.1.seed == outcome.seed,
        operation_tuned == tuned,
        after.send_id == mut_ref_current(state).send_id,
        after.grad_steps == mut_ref_current(state).grad_steps,
{
}

/// Once its model is started, everything a cell does goes to that model.
pub proof fn law_cell_runs_its_own_model<S>(
    state: &mut CellState<S>,
    frozen: bool,
    id: Uuid,
    started: Result<(), Failure>,
    after: &CellState<S>,
    emission: EmissionId,
    up: (Uuid, u64),
    down: Uuid,
    stopped: Uuid,
    input: Result<(Uuid, EmissionId), Failure>,
)
    requires
        call_ensures(
            cell_action::StartModel::<S>::absorb,
            (state, Ok::<bool, AtomError>(frozen), id),
            started,
        ),
        *after == mut_ref_future(state),
        call_ensures(cell_action::PerturbUp::<S>::emit, (after,), up),
        call_ensures(cell_action::PerturbDown::<S>::emit, (after,), down),
        call_ensures(cell_action::ShutdownModel::<S>::emit, (after,), stopped),
        call_ensures(
            cell_action::PrepareAtomInput::<S>::absorb,
            (after, Ok::<(), AtomError>(()), emission),
            input,
        ),
    ensures
        started is Ok,
        up.0 == id,
        up.1 == mut_ref_current(state).perturbation_seed,
        down == id,
        stopped == id,
        input == Ok::<(Uuid, EmissionId), Failure>((id, emission)),
        after.is_frozen == frozen,
        after.recv_id == mut_ref_current(state).recv_id,
        after.grad_steps == mut_ref_current(state).grad_steps,
{
}

/// Once its operation is started, everything a cell does goes to that instance.
pub proof fn law_operation_cell_runs_its_own_instance<S>(
    state: &mut CellState<S>,
    id: ObjectId,
    started: Result<(), Failure>,
    after: &CellState<S>,
    emission: EmissionId,
    up: (Uuid, u64),
    down: Uuid,
    input: Result<(ObjectId, EmissionId), Failure>,
    saved: (ObjectId, usize, usize, Option<String>),
)
    requires
        call_ensures(
            cell_action::StartOperation::<S>::absorb,
            (state, Ok::<(), AtomError>(()), id),
            started,
        ),
        *after == mut_ref_future(state),
        call_ensures(cell_action::PerturbOperationUp::<S>::emit, (after,), up),
        call_ensures(cell_action::PerturbOperationDown::<S>::emit, (after,), down),
        call_ensures(
            cell_action::PrepareOperationInput::<S>::absorb,
            (after, Ok::<(), AtomError>(()), emission),
            input,
        ),
        call_ensures(cell_action::CheckpointOperation::<S>::emit, (after,), saved),
    ensures
        started is Ok,
        up.0 == id,
        up.1 == mut_ref_current(state).perturbation_seed,
        down == id,
        input == Ok::<(ObjectId, EmissionId), Failure>((id, emission)),
        saved.0 == id,
        saved.1 == mut_ref_current(state).optimization_step,
        saved.2 == mut_ref_current(state).checkpoint_steps,
        after.recv_id == mut_ref_current(state).recv_id,
        after.grad_steps == mut_ref_current(state).grad_steps,
{
}

/// A seeded cell listens first where its seed says, takes the microsteps its
/// seed says, and saves checkpoints as its process is set.
pub proof fn law_cell_begins_as_seeded<S>(
    state: &mut CellState<S>,
    init: Init,
    settings: CheckpointSettings,
    after: &CellState<S>,
    awaited: ObjectId,
    pending: bool,
)
    requires
        call_ensures(cell_action::InitRecvId::<S>::absorb, (state, init, settings), ()),
        *after == mut_ref_future(state),
        call_ensures(cell_action::WaitForPropagation::<S>::emit, (after,), awaited),
        call_ensures(cell_action::HasPendingGradientStep::<S>::eval, (after,), pending),
    ensures
        awaited == init.recv_id,
        pending,
        after.grad_steps == if init.grad_steps > 1 {
            init.grad_steps
        } else {
            1
        },
        after.checkpoint_steps == settings.steps,
        after.checkpoint_dir == settings.directory,
        after.model_id == mut_ref_current(state).model_id,
{
}

/// A phase begins with all of its microsteps pending, each completed one is one
/// less, and the phase ends with the last.
pub proof fn law_cell_counts_its_microsteps<S>(
    state: &mut CellState<S>,
    begun: Result<(), Failure>,
    fresh: &CellState<S>,
    first: bool,
    running: &mut CellState<S>,
    counted: Result<(), Failure>,
    after: &CellState<S>,
    more: bool,
)
    requires
        call_ensures(
            cell_action::BeginGradientAccumulation::<S>::absorb,
            (state, Ok::<(), AtomError>(())),
            begun,
        ),
        *fresh == mut_ref_future(state),
        call_ensures(cell_action::HasPendingGradientStep::<S>::eval, (fresh,), first),
        call_ensures(
            cell_action::AdvanceGradientStep::<S>::absorb,
            (running, Ok::<(), AtomError>(())),
            counted,
        ),
        mut_ref_current(running).grad_step < usize::MAX,
        *after == mut_ref_future(running),
        call_ensures(cell_action::HasPendingGradientStep::<S>::eval, (after,), more),
    ensures
        begun is Ok,
        first,
        fresh.grad_step == 0,
        fresh.recv_id == mut_ref_current(state).recv_id,
        counted is Ok,
        after.grad_step == mut_ref_current(running).grad_step + 1,
        more <==> mut_ref_current(running).grad_step + 1 < (if after.grad_steps > 1 {
            after.grad_steps as int
        } else {
            1
        }),
        after.recv_id == mut_ref_current(running).recv_id,
        after.send_id == mut_ref_current(running).send_id,
        after.model_id == mut_ref_current(running).model_id,
{
}

/// A cell counts every outcome it has applied, and knows whether that froze its
/// model; one that could not be applied is not counted.
pub proof fn law_cell_counts_its_optimizations<S>(
    state: &mut CellState<S>,
    frozen: bool,
    applied: Result<(), Failure>,
    operated: &mut CellState<S>,
    stepped: Result<(), Failure>,
    failing: &mut CellState<S>,
    error: AtomError,
    failed: Result<(), Failure>,
)
    requires
        call_ensures(
            cell_action::Optimize::<S>::absorb,
            (state, Ok::<bool, AtomError>(frozen)),
            applied,
        ),
        mut_ref_current(state).optimization_step < usize::MAX,
        call_ensures(
            cell_action::OptimizeOperation::<S>::absorb,
            (operated, Ok::<(), AtomError>(())),
            stepped,
        ),
        mut_ref_current(operated).optimization_step < usize::MAX,
        call_ensures(
            cell_action::Optimize::<S>::absorb,
            (failing, Err::<bool, AtomError>(error)),
            failed,
        ),
    ensures
        applied is Ok,
        mut_ref_future(state).optimization_step == mut_ref_current(state).optimization_step + 1,
        mut_ref_future(state).is_frozen == frozen,
        mut_ref_future(state).recv_id == mut_ref_current(state).recv_id,
        stepped is Ok,
        mut_ref_future(operated).optimization_step == mut_ref_current(operated).optimization_step
            + 1,
        failed is Err,
        mut_ref_future(failing) == mut_ref_current(failing),
{
}

/// A wait or a start that failed is a failure and changes nothing.
pub proof fn law_failed_cell_steps_change_nothing<S>(
    waiting: &mut CellState<S>,
    waited: Result<EmissionId, Failure>,
    told: &mut CellState<S>,
    listened: Result<Potentiation, Failure>,
    starting: &mut CellState<S>,
    id: Uuid,
    started: Result<(), Failure>,
    error: AtomError,
)
    requires
        call_ensures(
            cell_action::WaitForPropagation::<S>::absorb,
            (waiting, Err::<Propagation, AtomError>(error)),
            waited,
        ),
        call_ensures(
            cell_action::WaitForPotentiation::<S>::absorb,
            (told, Err::<(Potentiation, ObjectId), AtomError>(error)),
            listened,
        ),
        call_ensures(
            cell_action::StartModel::<S>::absorb,
            (starting, Err::<bool, AtomError>(error), id),
            started,
        ),
    ensures
        waited is Err,
        mut_ref_future(waiting) == mut_ref_current(waiting),
        listened is Err,
        mut_ref_future(told) == mut_ref_current(told),
        started is Err,
        mut_ref_future(starting) == mut_ref_current(starting),
{
}

/// What a cell takes from a message is what the message holds, and a message of
/// the other kind is refused.
pub proof fn law_messages_are_taken_as_they_are(
    emission_id: EmissionId,
    recv: ObjectId,
    send: ObjectId,
    outcome: Potentiation,
    shown: &str,
    propagation: Result<Propagation, AtomError>,
    no_propagation: Result<Propagation, AtomError>,
    told: Result<(Potentiation, ObjectId), AtomError>,
    not_told: Result<(Potentiation, ObjectId), AtomError>,
)
    requires
        call_ensures(
            cell_effect::WaitForPropagationEffect::received,
            (
                Ok::<Transmission, String>(Transmission::Propagation { emission_id, recv, send }),
                shown,
            ),
            propagation,
        ),
        call_ensures(
            cell_effect::WaitForPropagationEffect::received,
            (
                Ok::<Transmission, String>(
                    Transmission::Potentiation { potentiation: outcome, recv },
                ),
                shown,
            ),
            no_propagation,
        ),
        call_ensures(
            cell_effect::WaitForPotentiationEffect::received,
            (
                Ok::<Transmission, String>(
                    Transmission::Potentiation { potentiation: outcome, recv },
                ),
                shown,
            ),
            told,
        ),
        call_ensures(
            cell_effect::WaitForPotentiationEffect::received,
            (
                Ok::<Transmission, String>(Transmission::Propagation { emission_id, recv, send }),
                shown,
            ),
            not_told,
        ),
    ensures
        propagation is Ok,
        propagation->Ok_0.emission_id == emission_id,
        propagation->Ok_0.recv_id == recv,
        propagation->Ok_0.send_id == send,
        no_propagation is Err,
        told == Ok::<(Potentiation, ObjectId), AtomError>((outcome, recv)),
        not_told is Err,
{
}

/// An effect that fails says which work failed, with the cause it was given.
pub proof fn law_effects_name_the_work_that_failed(
    cause: String,
    started: Result<(), AtomError>,
    stopped: Result<(), AtomError>,
    up: Result<(), AtomError>,
    down: Result<(), AtomError>,
    tuned: Result<(), AtomError>,
    sent: Result<(), AtomError>,
)
    requires
        call_ensures(cell_effect::MassStart::started, (Err::<(), String>(cause),), started),
        call_ensures(cell_effect::MassShutdown::completed, (Err::<(), String>(cause),), stopped),
        call_ensures(cell_effect::MassPerturbUp::completed, (Err::<(), String>(cause),), up),
        call_ensures(cell_effect::MassPerturbDown::completed, (Err::<(), String>(cause),), down),
        call_ensures(cell_effect::MassOptimize::optimized, (Err::<(), String>(cause),), tuned),
        call_ensures(cell_effect::Transmit::completed, (Err::<(), String>(cause),), sent),
    ensures
        started == Err::<(), AtomError>(AtomError::ModelStart(cause)),
        stopped == Err::<(), AtomError>(AtomError::ModelShutdown(cause)),
        up == Err::<(), AtomError>(AtomError::PerturbUp(cause)),
        down == Err::<(), AtomError>(AtomError::PerturbDown(cause)),
        tuned == Err::<(), AtomError>(AtomError::Optimize(cause)),
        sent == Err::<(), AtomError>(AtomError::Transmission(cause)),
{
}

/// A fusion that is sent a pair works on both emissions in the order of its ports,
/// publishes once where both say, and listens next at each port where its own
/// envelope says. A pair that names two outputs is refused and changes nothing.
pub proof fn law_fusion_follows_its_propagations(
    state: &mut FusionState,
    p1: Propagation,
    p2: Propagation,
    taken: Result<(EmissionId, EmissionId), Failure>,
    after: &FusionState,
    made: EmissionId,
    awaited: (ObjectId, ObjectId),
    sent: (EmissionId, ObjectId),
    input: Result<(Uuid, (EmissionId, EmissionId)), Failure>,
)
    requires
        call_ensures(
            fusion_action::WaitForFusionPropagationAction::absorb,
            (state, Ok::<(Propagation, Propagation), AtomError>((p1, p2))),
            taken,
        ),
        *after == mut_ref_future(state),
        call_ensures(fusion_action::WaitForFusionPropagationAction::emit, (after,), awaited),
        call_ensures(fusion_action::FusionTransmit::emit, (after, made), sent),
        call_ensures(
            fusion_action::PrepareTransformInput::absorb,
            (after, Ok::<(), AtomError>(()), (p1.emission_id, p2.emission_id)),
            input,
        ),
    ensures
        p1.send_id == p2.send_id ==> {
            &&& taken == Ok::<(EmissionId, EmissionId), Failure>((p1.emission_id, p2.emission_id))
            &&& awaited == (p1.recv_id, p2.recv_id)
            &&& sent == (made, p1.send_id)
        },
        p1.send_id != p2.send_id ==> taken is Err && mut_ref_future(state) == mut_ref_current(
            state,
        ),
        input == Ok::<(Uuid, (EmissionId, EmissionId)), Failure>(
            (mut_ref_current(state).transform_id, (p1.emission_id, p2.emission_id)),
        ),
        after.transform_id == mut_ref_current(state).transform_id,
{
}

/// A fusion that is told the same losses at both ports takes them and listens next
/// at each port where it was told to; losses that differ are refused and change
/// nothing.
pub proof fn law_fusion_follows_its_outcomes(
    state: &mut FusionState,
    p1: ReceivedPotentiation,
    p2: ReceivedPotentiation,
    losses: &LossTexts,
    taken: Result<Potentiation, Failure>,
    after: &FusionState,
    awaited: (ObjectId, ObjectId),
)
    requires
        call_ensures(
            fusion_action::WaitForFusionPotentiationForOptimize::absorb,
            (state, Ok::<(ReceivedPotentiation, ReceivedPotentiation), AtomError>((p1, p2)), losses),
            taken,
        ),
        *after == mut_ref_future(state),
        call_ensures(fusion_action::WaitForFusionPotentiationForOptimize::emit, (after,), awaited),
    ensures
        ({
            let agree = p1.potentiation.loss_up_bits == p2.potentiation.loss_up_bits
                && p1.potentiation.loss_down_bits == p2.potentiation.loss_down_bits;
            &&& taken is Ok <==> agree
            &&& agree ==> awaited == (p1.recv_id, p2.recv_id) && taken->Ok_0 == p1.potentiation
            &&& !agree ==> mut_ref_future(state) == mut_ref_current(state)
        }),
        after.transform_id == mut_ref_current(state).transform_id,
        after.send_id == mut_ref_current(state).send_id,
{
}

/// A seeded fusion listens first at each port where its seed says.
pub proof fn law_fusion_begins_as_seeded(
    state: &mut FusionState,
    seed: FusionSeed,
    begun: Result<(), Failure>,
    after: &FusionState,
    awaited: (ObjectId, ObjectId),
)
    requires
        call_ensures(fusion_action::InitFusion::absorb, (state, Ok::<(), AtomError>(()), seed), begun),
        *after == mut_ref_future(state),
        call_ensures(fusion_action::WaitForFusionPropagationAction::emit, (after,), awaited),
    ensures
        begun is Ok,
        awaited == (seed.p1_recv_id, seed.p2_recv_id),
{
}

/// A meld that is sent a pair works on both emissions in the order of its ports,
/// publishes once where both say, and listens next at each port where its own
/// envelope says. A pair that names two outputs is refused and changes nothing.
pub proof fn law_meld_follows_its_propagations(
    state: &mut MeldState,
    p1: Propagation,
    p2: Propagation,
    taken: Result<(EmissionId, EmissionId), Failure>,
    after: &MeldState,
    made: EmissionId,
    awaited: (ObjectId, ObjectId),
    sent: (EmissionId, ObjectId),
    input: Result<(Uuid, (EmissionId, EmissionId)), Failure>,
)
    requires
        call_ensures(
            meld::WaitForMeldPropagationAction::absorb,
            (state, Ok::<(Propagation, Propagation), AtomError>((p1, p2))),
            taken,
        ),
        *after == mut_ref_future(state),
        call_ensures(meld::WaitForMeldPropagationAction::emit, (after,), awaited),
        call_ensures(meld::MeldTransmit::emit, (after, made), sent),
        call_ensures(
            meld::PrepareTransformInput::absorb,
            (after, Ok::<(), AtomError>(()), (p1.emission_id, p2.emission_id)),
            input,
        ),
    ensures
        p1.send_id == p2.send_id ==> {
            &&& taken == Ok::<(EmissionId, EmissionId), Failure>((p1.emission_id, p2.emission_id))
            &&& awaited == (p1.recv_id, p2.recv_id)
            &&& sent == (made, p1.send_id)
        },
        p1.send_id != p2.send_id ==> taken is Err && mut_ref_future(state) == mut_ref_current(
            state,
        ),
        input == Ok::<(Uuid, (EmissionId, EmissionId)), Failure>(
            (mut_ref_current(state).transform_id, (p1.emission_id, p2.emission_id)),
        ),
        after.transform_id == mut_ref_current(state).transform_id,
{
}

/// A meld that is told the same losses at both ports takes them and listens next
/// at each port where it was told to; losses that differ are refused and change
/// nothing.
pub proof fn law_meld_follows_its_outcomes(
    state: &mut MeldState,
    p1: ReceivedPotentiation,
    p2: ReceivedPotentiation,
    losses: &LossTexts,
    taken: Result<(), Failure>,
    after: &MeldState,
    awaited: (ObjectId, ObjectId),
)
    requires
        call_ensures(
            meld::WaitForMeldPotentiationAction::absorb,
            (state, Ok::<(ReceivedPotentiation, ReceivedPotentiation), AtomError>((p1, p2)), losses),
            taken,
        ),
        *after == mut_ref_future(state),
        call_ensures(meld::WaitForMeldPotentiationAction::emit, (after,), awaited),
    ensures
        ({
            let agree = p1.potentiation.loss_up_bits == p2.potentiation.loss_up_bits
                && p1.potentiation.loss_down_bits == p2.potentiation.loss_down_bits;
            &&& taken is Ok <==> agree
            &&& agree ==> awaited == (p1.recv_id, p2.recv_id)
            &&& !agree ==> mut_ref_future(state) == mut_ref_current(state)
        }),
        after.transform_id == mut_ref_current(state).transform_id,
        after.send_id == mut_ref_current(state).send_id,
{
}

/// A seeded meld listens first at each port where its seed says.
pub proof fn law_meld_begins_as_seeded(
    state: &mut MeldState,
    seed: MeldSeed,
    begun: Result<(), Failure>,
    after: &MeldState,
    awaited: (ObjectId, ObjectId),
)
    requires
        call_ensures(meld::InitMeld::absorb, (state, Ok::<(), AtomError>(()), seed), begun),
        *after == mut_ref_future(state),
        call_ensures(meld::WaitForMeldPropagationAction::emit, (after,), awaited),
    ensures
        begun is Ok,
        awaited == (seed.p1_recv_id, seed.p2_recv_id),
{
}

/// Once a fusion has its id, everything it does goes to that instance.
pub proof fn law_fusion_runs_its_own_instance(
    state: &mut FusionState,
    id: Uuid,
    begun: Result<(), Failure>,
    after: &FusionState,
    emission: EmissionId,
    outcome: Potentiation,
    started: Uuid,
    up: (Uuid, u64),
    down: Uuid,
    inferred: (Uuid, EmissionId),
    tuned: (Uuid, Potentiation),
)
    requires
        call_ensures(
            fusion_action::GenerateTransformId::absorb,
            (state, Ok::<Uuid, AtomError>(id)),
            begun,
        ),
        *after == mut_ref_future(state),
        call_ensures(fusion_action::FusionStartModel::emit, (after,), started),
        call_ensures(fusion_action::FusionPerturbUp::emit, (after,), up),
        call_ensures(fusion_action::FusionPerturbDown::emit, (after,), down),
        call_ensures(fusion_action::FusionQuarkInferStep::emit, (after, emission), inferred),
        call_ensures(fusion_action::FusionOptimize::emit, (after, outcome), tuned),
    ensures
        begun is Ok,
        started == id,
        up.0 == id,
        down == id,
        inferred == (id, emission),
        tuned.0 == id,
        tuned.1.loss_up_bits == outcome.loss_up_bits,
        tuned.1.loss_down_bits == outcome.loss_down_bits,
        tuned.1.seed == outcome.seed,
        after.p1_recv_id == mut_ref_current(state).p1_recv_id,
        after.p2_recv_id == mut_ref_current(state).p2_recv_id,
{
}

/// A phase of a fusion begins with all of its microsteps pending, and each
/// completed one is one less.
pub proof fn law_fusion_counts_its_microsteps(
    state: &mut FusionState,
    begun: Result<(), Failure>,
    fresh: &FusionState,
    first: bool,
    running: &mut FusionState,
    counted: Result<(), Failure>,
    after: &FusionState,
    more: bool,
)
    requires
        call_ensures(
            fusion_action::BeginFusionGradientAccumulation::absorb,
            (state, Ok::<(), AtomError>(())),
            begun,
        ),
        *fresh == mut_ref_future(state),
        call_ensures(fusion_action::HasPendingFusionGradientStep::eval, (fresh,), first),
        call_ensures(
            fusion_action::AdvanceFusionGradientStep::absorb,
            (running, Ok::<(), AtomError>(())),
            counted,
        ),
        mut_ref_current(running).grad_step < usize::MAX,
        *after == mut_ref_future(running),
        call_ensures(fusion_action::HasPendingFusionGradientStep::eval, (after,), more),
    ensures
        begun is Ok,
        first,
        counted is Ok,
        after.grad_step == mut_ref_current(running).grad_step + 1,
        more <==> mut_ref_current(running).grad_step + 1 < (if after.grad_steps > 1 {
            after.grad_steps as int
        } else {
            1
        }),
        after.send_id == mut_ref_current(running).send_id,
{
}

/// A boundary that is sent a propagation publishes and listens next where the
/// propagation says, and looks at its own warp journey.
pub proof fn law_boundary_follows_its_propagation<S>(
    state: &mut BoundaryState<S>,
    message: Propagation,
    taken: Result<EmissionId, Failure>,
    after: &BoundaryState<S>,
    made: EmissionId,
    awaited: ObjectId,
    sent: (EmissionId, ObjectId),
    looked: (Uuid, EmissionId),
)
    requires
        call_ensures(
            warp::WaitForPropagation::<S>::absorb,
            (state, Ok::<Propagation, AtomError>(message)),
            taken,
        ),
        *after == mut_ref_future(state),
        call_ensures(warp::WaitForPropagation::<S>::emit, (after,), awaited),
        call_ensures(warp::Transmit::<S>::emit, (after, made), sent),
        call_ensures(warp::ObserveWarp::<S>::emit, (after, message.emission_id), looked),
    ensures
        taken == Ok::<EmissionId, Failure>(message.emission_id),
        awaited == message.recv_id,
        sent == (made, message.send_id),
        looked == (mut_ref_current(state).warp_journey_id, message.emission_id),
{
}

/// A boundary that is told an outcome listens next where it was told to and
/// passes the outcome on to its own warp journey.
pub proof fn law_boundary_follows_its_outcome<S>(
    state: &mut BoundaryState<S>,
    outcome: Potentiation,
    recv: ObjectId,
    taken: Result<Potentiation, Failure>,
    after: &BoundaryState<S>,
    awaited: ObjectId,
    passed: (Uuid, Potentiation),
)
    requires
        call_ensures(
            warp::WaitForPotentiation::<S>::absorb,
            (state, Ok::<(Potentiation, ObjectId), AtomError>((outcome, recv))),
            taken,
        ),
        *after == mut_ref_future(state),
        call_ensures(warp::WaitForPotentiation::<S>::emit, (after,), awaited),
        call_ensures(warp::PerturbWarp::<S>::emit, (after, outcome), passed),
    ensures
        taken == Ok::<Potentiation, Failure>(outcome),
        awaited == recv,
        passed.0 == mut_ref_current(state).warp_journey_id,
        passed.1.loss_up_bits == outcome.loss_up_bits,
        passed.1.loss_down_bits == outcome.loss_down_bits,
        passed.1.seed == outcome.seed,
{
}

/// A seeded boundary listens first where its seed says and stands for the warp
/// journey its seed names; what it sees there becomes its own state.
pub proof fn law_boundary_begins_as_seeded<S>(
    state: &mut BoundaryState<S>,
    init: BoundaryInit,
    after: &BoundaryState<S>,
    awaited: ObjectId,
    emission: EmissionId,
    looked: (Uuid, EmissionId),
    looking: &mut BoundaryState<S>,
    seen: S,
    kept: Result<EmissionId, Failure>,
)
    requires
        call_ensures(warp::InitRecvId::<S>::absorb, (state, init), ()),
        *after == mut_ref_future(state),
        call_ensures(warp::WaitForPropagation::<S>::emit, (after,), awaited),
        call_ensures(warp::ObserveWarp::<S>::emit, (after, emission), looked),
        call_ensures(
            warp::ObserveWarp::<S>::absorb,
            (looking, Ok::<S, AtomError>(seen), emission),
            kept,
        ),
    ensures
        awaited == init.recv_id,
        looked == (init.warp_journey_id, emission),
        after.grad_steps == if init.grad_steps > 1 {
            init.grad_steps
        } else {
            1
        },
        kept == Ok::<EmissionId, Failure>(emission),
        mut_ref_future(looking).inner == seen,
        mut_ref_future(looking).recv_id == mut_ref_current(looking).recv_id,
{
}

/// A boundary that keeps its journey in the state of a cell begins and goes on
/// as its messages say.
pub proof fn law_cell_boundary_follows_its_messages<S>(
    state: &mut CellState<S>,
    init: BoundaryInit,
    after: &CellState<S>,
    first: ObjectId,
    telling: &mut CellState<S>,
    outcome: Potentiation,
    recv: ObjectId,
    taken: Result<(), Failure>,
    told: &CellState<S>,
    awaited: ObjectId,
    handing: &mut CellState<S>,
    handed: Result<Potentiation, Failure>,
)
    requires
        call_ensures(boundary::InitRecvId::<S>::absorb, (state, init), ()),
        *after == mut_ref_future(state),
        call_ensures(boundary::WaitForPotentiation::<S>::emit, (after,), first),
        call_ensures(
            boundary::WaitForPotentiation::<S>::absorb,
            (telling, Ok::<(Potentiation, ObjectId), AtomError>((outcome, recv))),
            taken,
        ),
        *told == mut_ref_future(telling),
        call_ensures(boundary::WaitForPotentiationForInput::<S>::emit, (told,), awaited),
        call_ensures(
            boundary::WaitForPotentiationForInput::<S>::absorb,
            (handing, Ok::<(Potentiation, ObjectId), AtomError>((outcome, recv))),
            handed,
        ),
    ensures
        first == init.recv_id,
        after.model_id == init.warp_journey_id,
        taken is Ok,
        awaited == recv,
        told.perturbation_seed == outcome.seed,
        handed == Ok::<Potentiation, Failure>(outcome),
        mut_ref_future(handing).recv_id == recv,
        mut_ref_future(handing).perturbation_seed == outcome.seed,
{
}

/// A stack of twins goes out with both emissions in order, and comes back as
/// the stacked emission for the same model.
pub proof fn law_twins_stack_for_their_model<S>(
    model_id: Uuid,
    left: EmissionId,
    right: EmissionId,
    stacked: EmissionId,
    a: ((EmissionId, EmissionId), Uuid),
    b: ((EmissionId, EmissionId), Uuid),
    c: ((EmissionId, EmissionId), Uuid),
    x: Result<(Uuid, EmissionId), Failure>,
    y: Result<(Uuid, EmissionId), Failure>,
    z: Result<(Uuid, EmissionId), Failure>,
)
    requires
        call_ensures(twin::LeftStack::<S>::emit, ((model_id, (left, right)),), a),
        call_ensures(twin::RightStack::<S>::emit, ((model_id, (left, right)),), b),
        call_ensures(twin::RandStack::<S>::emit, ((model_id, (left, right)),), c),
        call_ensures(
            twin::LeftStack::<S>::absorb,
            (Ok::<EmissionId, AtomError>(stacked), model_id),
            x,
        ),
        call_ensures(
            twin::RightStack::<S>::absorb,
            (Ok::<EmissionId, AtomError>(stacked), model_id),
            y,
        ),
        call_ensures(
            twin::RandStack::<S>::absorb,
            (Ok::<EmissionId, AtomError>(stacked), model_id),
            z,
        ),
    ensures
        a == ((left, right), model_id),
        b == a,
        c == a,
        x == Ok::<(Uuid, EmissionId), Failure>((model_id, stacked)),
        y == x,
        z == x,
{
}

} // verus!
