//! The actions of a fusion.

use vstd::prelude::*;
use vstd::string::*;

use crate::counting::{at_least_one, spec_at_least_one};
use crate::error::AtomError;
use crate::failure::{refused, refused_by, refused_with, says, Failure};
use crate::ids::{hyphenated, ObjectId, Uuid};
use crate::message::{EmissionId, Potentiation};
use crate::nodes::cell::action::{next_count, Propagation};
use crate::nodes::fusion::{FusionSeed, FusionState};

verus! {

/// The outcome of a step, with the mailbox to await next.
#[derive(Clone, Copy, Debug, PartialEq, Eq, Structural)]
pub struct ReceivedPotentiation {
    pub potentiation: Potentiation,
    pub recv_id: ObjectId,
}

/// Takes the first mailboxes of both chains from the seed.
pub struct InitFusion;

impl InitFusion {
    pub fn absorb(
        state: &mut FusionState,
        output: Result<(), AtomError>,
        seed: FusionSeed,
    ) -> (result: Result<(), Failure>)
        ensures
            result is Ok <==> output is Ok,
            result matches Err(failure) ==> says(failure, "initialize fusion failed"@)
                && *final(state) == *old(state),
            result is Ok ==> *final(state) == (FusionState {
                p1_recv_id: seed.p1_recv_id,
                p2_recv_id: seed.p2_recv_id,
                grad_steps: spec_at_least_one(seed.grad_steps),
                grad_step: 0,
                ..*old(state)
            }),
    {
        match output {
            Err(_) => Err(refused("initialize fusion failed")),
            Ok(()) => {
                state.p1_recv_id = seed.p1_recv_id;
                state.p2_recv_id = seed.p2_recv_id;
                state.grad_steps = at_least_one(seed.grad_steps);
                state.grad_step = 0;
                Ok(())
            },
        }
    }
}

/// Whether microsteps are left in the current phase.
pub struct HasPendingFusionGradientStep;

impl HasPendingFusionGradientStep {
    pub fn eval(state: &FusionState) -> (pending: bool)
        ensures
            pending == (state.grad_step < spec_at_least_one(state.grad_steps)),
            pending == (state.microsteps_left() > 0),
    {
        state.grad_step < at_least_one(state.grad_steps)
    }
}

/// Starts a phase of microsteps.
pub struct BeginFusionGradientAccumulation;

impl BeginFusionGradientAccumulation {
    pub fn absorb(state: &mut FusionState, output: Result<(), AtomError>) -> (result: Result<
        (),
        Failure,
    >)
        ensures
            result is Ok <==> output is Ok,
            result matches Err(failure) ==> says(failure, "begin fusion accumulation failed"@)
                && *final(state) == *old(state),
            result is Ok ==> *final(state) == (FusionState {
                grad_step: 0,
                grad_steps: spec_at_least_one(old(state).grad_steps),
                ..*old(state)
            }) && final(state).microsteps_left() == spec_at_least_one(old(state).grad_steps),
    {
        match output {
            Err(_) => Err(refused("begin fusion accumulation failed")),
            Ok(()) => {
                state.grad_step = 0;
                if state.grad_steps == 0 {
                    state.grad_steps = 1;
                }
                Ok(())
            },
        }
    }
}

/// Counts one completed microstep.
pub struct AdvanceFusionGradientStep;

impl AdvanceFusionGradientStep {
    pub fn absorb(state: &mut FusionState, output: Result<(), AtomError>) -> (result: Result<
        (),
        Failure,
    >)
        ensures
            result is Ok <==> output is Ok,
            result matches Err(failure) ==> says(failure, "advance fusion accumulation failed"@)
                && *final(state) == *old(state),
            result is Ok ==> *final(state) == (FusionState {
                grad_step: next_count(old(state).grad_step),
                ..*old(state)
            }),
            result is Ok && old(state).microsteps_left() > 0 ==> final(state).microsteps_left()
                == old(state).microsteps_left() - 1,
    {
        match output {
            Err(_) => Err(refused("advance fusion accumulation failed")),
            Ok(()) => {
                state.grad_step = state.grad_step.saturating_add(1);
                Ok(())
            },
        }
    }
}

/// Draws the id of a transform.
pub struct GenerateTransformIdEffect;

impl GenerateTransformIdEffect {
    pub fn effect() -> (id: Uuid)
        ensures
            id.is_random(),
    {
        Uuid::new_v4()
    }
}

/// Keeps the id of the transform.
pub struct GenerateTransformId;

impl GenerateTransformId {
    pub fn absorb(state: &mut FusionState, output: Result<Uuid, AtomError>) -> (result: Result<
        (),
        Failure,
    >)
        ensures
            result is Ok <==> output is Ok,
            output matches Err(error) ==> says(
                result->Err_0,
                "generate transform ID failed: "@ + error.text(),
            ) && *final(state) == *old(state),
            output matches Ok(id) ==> *final(state) == (FusionState {
                transform_id: id,
                ..*old(state)
            }),
    {
        match output {
            Err(error) => Err(refused_by("generate transform ID failed: ", &error)),
            Ok(id) => {
                state.transform_id = id;
                Ok(())
            },
        }
    }
}

/// Starts the model instance under the id of the transform.
pub struct FusionStartModel;

impl FusionStartModel {
    pub fn emit(state: &FusionState) -> (id: Uuid)
        ensures
            id == state.transform_id,
    {
        state.transform_id
    }

    pub fn absorb(output: Result<bool, AtomError>) -> (result: Result<(), Failure>)
        ensures
            result is Ok <==> output is Ok,
            output matches Err(error) ==> says(
                result->Err_0,
                "start fusion model failed: "@ + error.text(),
            ),
    {
        match output {
            Ok(_) => Ok(()),
            Err(error) => Err(refused_by("start fusion model failed: ", &error)),
        }
    }
}

/// Perturbs the weights upward before a propagation phase.
pub struct FusionPerturbUp;

impl FusionPerturbUp {
    pub fn emit(state: &FusionState) -> (sent: (Uuid, u64))
        ensures
            sent == (state.transform_id, state.perturbation_seed),
    {
        (state.transform_id, state.perturbation_seed)
    }

    pub fn absorb(output: Result<(), AtomError>) -> (result: Result<(), Failure>)
        ensures
            result is Ok <==> output is Ok,
            output matches Err(error) ==> says(
                result->Err_0,
                "fusion perturb up failed: "@ + error.text(),
            ),
    {
        match output {
            Ok(()) => Ok(()),
            Err(error) => Err(refused_by("fusion perturb up failed: ", &error)),
        }
    }
}

/// Perturbs the weights downward between propagation phases.
pub struct FusionPerturbDown;

impl FusionPerturbDown {
    pub fn emit(state: &FusionState) -> (id: Uuid)
        ensures
            id == state.transform_id,
    {
        state.transform_id
    }

    pub fn absorb(output: Result<(), AtomError>) -> (result: Result<(), Failure>)
        ensures
            result is Ok <==> output is Ok,
            output matches Err(error) ==> says(
                result->Err_0,
                "fusion perturb down failed: "@ + error.text(),
            ),
    {
        match output {
            Ok(()) => Ok(()),
            Err(error) => Err(refused_by("fusion perturb down failed: ", &error)),
        }
    }
}

/// What is said of two envelopes that name different output mailboxes.
pub open spec fn sends_disagree(before: Seq<char>, p1: ObjectId, p2: ObjectId) -> Seq<char> {
    before + hyphenated(p1.bits) + ", P2="@ + hyphenated(p2.bits)
}

/// A failure about two envelopes that name different output mailboxes.
pub fn refused_sends(before: &str, p1: ObjectId, p2: ObjectId) -> (failure: Failure)
    ensures
        says(failure, sends_disagree(before@, p1, p2)),
{
    let mut text = before.to_owned();
    text.append(p1.to_text().as_str());
    text.append(", P2=");
    text.append(p2.to_text().as_str());
    Failure::Message(text)
}

/// Receives both envelopes of a propagation and hands on their emissions in
/// the order of the ports.
pub struct WaitForFusionPropagationAction;

impl WaitForFusionPropagationAction {
    pub fn emit(state: &FusionState) -> (mailboxes: (ObjectId, ObjectId))
        ensures
            mailboxes == (state.p1_recv_id, state.p2_recv_id),
    {
        (state.p1_recv_id, state.p2_recv_id)
    }

    pub fn absorb(
        state: &mut FusionState,
        output: Result<(Propagation, Propagation), AtomError>,
    ) -> (result: Result<(EmissionId, EmissionId), Failure>)
        ensures
            output matches Err(error) ==> result is Err && says(
                result->Err_0,
                "wait for fusion propagation failed: "@ + error.text(),
            ),
            output matches Ok(pair) ==> if pair.0.send_id == pair.1.send_id {
                &&& result == Ok::<(EmissionId, EmissionId), Failure>(
                    (pair.0.emission_id, pair.1.emission_id),
                )
                &&& *final(state) == (FusionState {
                    p1_recv_id: pair.0.recv_id,
                    p2_recv_id: pair.1.recv_id,
                    send_id: pair.0.send_id,
                    ..*old(state)
                })
            } else {
                result is Err && says(
                    result->Err_0,
                    sends_disagree(
                        "fusion propagation send addresses disagree: P1="@,
                        pair.0.send_id,
                        pair.1.send_id,
                    ),
                )
            },
            result is Err ==> *final(state) == *old(state),
    {
        match output {
            Err(error) => Err(refused_by("wait for fusion propagation failed: ", &error)),
            Ok((p1, p2)) => {
                if p1.send_id != p2.send_id {
                    return Err(
                        refused_sends(
                            "fusion propagation send addresses disagree: P1=",
                            p1.send_id,
                            p2.send_id,
                        ),
                    );
                }
                state.p1_recv_id = p1.recv_id;
                state.p2_recv_id = p2.recv_id;
                state.send_id = p1.send_id;
                Ok((p1.emission_id, p2.emission_id))
            },
        }
    }
}

/// Adds the id of the transform to a pair of emissions.
pub struct PrepareTransformInput;

impl PrepareTransformInput {
    pub fn absorb(
        state: &FusionState,
        output: Result<(), AtomError>,
        emissions: (EmissionId, EmissionId),
    ) -> (result: Result<(Uuid, (EmissionId, EmissionId)), Failure>)
        ensures
            output is Ok ==> result == Ok::<(Uuid, (EmissionId, EmissionId)), Failure>(
                (state.transform_id, emissions),
            ),
            output is Err ==> result is Err && says(
                result->Err_0,
                "prepare transform input failed"@,
            ),
    {
        match output {
            Ok(()) => Ok((state.transform_id, emissions)),
            Err(_) => Err(refused("prepare transform input failed")),
        }
    }
}

/// Publishes a transformed emission to the shared output mailbox.
pub struct FusionTransmit;

impl FusionTransmit {
    pub fn emit(state: &FusionState, emission_id: EmissionId) -> (sent: (EmissionId, ObjectId))
        ensures
            sent == (emission_id, state.send_id),
    {
        (emission_id, state.send_id)
    }

    pub fn absorb(output: Result<(), AtomError>) -> (result: Result<(), Failure>)
        ensures
            result is Ok <==> output is Ok,
            output matches Err(error) ==> says(
                result->Err_0,
                "fusion transmit failed: "@ + error.text(),
            ),
    {
        match output {
            Ok(()) => Ok(()),
            Err(error) => Err(refused_by("fusion transmit failed: ", &error)),
        }
    }
}

/// Runs inference on a transformed emission.
pub struct FusionQuarkInferStep;

impl FusionQuarkInferStep {
    pub fn emit(state: &FusionState, emission_id: EmissionId) -> (sent: (Uuid, EmissionId))
        ensures
            sent == (state.transform_id, emission_id),
    {
        (state.transform_id, emission_id)
    }

    pub fn absorb(output: Result<EmissionId, AtomError>) -> (result: Result<EmissionId, Failure>)
        ensures
            output matches Ok(id) ==> result == Ok::<EmissionId, Failure>(id),
            output matches Err(error) ==> result is Err && says(
                result->Err_0,
                "fusion quark inference failed: "@ + error.text(),
            ),
    {
        match output {
            Ok(id) => Ok(id),
            Err(error) => Err(refused_by("fusion quark inference failed: ", &error)),
        }
    }
}

/// The losses of two outcomes are the same, bit by bit.
pub open spec fn losses_agree(p1: Potentiation, p2: Potentiation) -> bool {
    p1.loss_up_bits == p2.loss_up_bits && p1.loss_down_bits == p2.loss_down_bits
}

/// The losses of two outcomes as they read in a diagnostic.
pub struct LossTexts {
    pub p1_up: String,
    pub p1_down: String,
    pub p2_up: String,
    pub p2_down: String,
}

impl LossTexts {
    /// Both pairs, each behind the name of its port.
    pub open spec fn text(self) -> Seq<char> {
        "P1=("@ + self.p1_up@ + ", "@ + self.p1_down@ + "), P2=("@ + self.p2_up@ + ", "@
            + self.p2_down@ + ")"@
    }
}

/// The failure for losses that disagree.
pub(crate) fn refused_losses(start: &str, losses: &LossTexts) -> (failure: Failure)
    ensures
        says(failure, start@ + losses.text()),
{
    let mut text = "P1=(".to_owned();
    text.append(losses.p1_up.as_str());
    text.append(", ");
    text.append(losses.p1_down.as_str());
    text.append("), P2=(");
    text.append(losses.p2_up.as_str());
    text.append(", ");
    text.append(losses.p2_down.as_str());
    text.append(")");
    refused_with(start, text.as_str())
}

/// Receives the outcome of a step on both chains and moves both on.
pub struct WaitForFusionPotentiationForOptimize;

impl WaitForFusionPotentiationForOptimize {
    pub fn emit(state: &FusionState) -> (mailboxes: (ObjectId, ObjectId))
        ensures
            mailboxes == (state.p1_recv_id, state.p2_recv_id),
    {
        (state.p1_recv_id, state.p2_recv_id)
    }

    pub fn absorb(
        state: &mut FusionState,
        output: Result<(ReceivedPotentiation, ReceivedPotentiation), AtomError>,
        losses: &LossTexts,
    ) -> (result: Result<Potentiation, Failure>)
        ensures
            output matches Err(error) ==> result is Err && says(
                result->Err_0,
                "wait for fusion potentiation failed: "@ + error.text(),
            ),
            output matches Ok(pair) ==> if losses_agree(
                pair.0.potentiation,
                pair.1.potentiation,
            ) {
                &&& result == Ok::<Potentiation, Failure>(pair.0.potentiation)
                &&& *final(state) == (FusionState {
                    p1_recv_id: pair.0.recv_id,
                    p2_recv_id: pair.1.recv_id,
                    ..*old(state)
                })
            } else {
                result is Err && says(
                    result->Err_0,
                    "fusion potentiation losses disagree: "@ + losses.text(),
                )
            },
            result is Err ==> *final(state) == *old(state),
    {
        match output {
            Err(error) => Err(refused_by("wait for fusion potentiation failed: ", &error)),
            Ok((p1, p2)) => {
                if p1.potentiation.loss_up_bits != p2.potentiation.loss_up_bits
                    || p1.potentiation.loss_down_bits != p2.potentiation.loss_down_bits {
                    return Err(
                        refused_losses("fusion potentiation losses disagree: ", losses),
                    );
                }
                state.p1_recv_id = p1.recv_id;
                state.p2_recv_id = p2.recv_id;
                Ok(p1.potentiation)
            },
        }
    }
}

/// Receives the outcome of a step on both chains without optimizing.
pub struct WaitForFusionPotentiationAction;

impl WaitForFusionPotentiationAction {
    pub fn emit(state: &FusionState) -> (mailboxes: (ObjectId, ObjectId))
        ensures
            mailboxes == (state.p1_recv_id, state.p2_recv_id),
    {
        (state.p1_recv_id, state.p2_recv_id)
    }

    pub fn absorb(
        state: &mut FusionState,
        output: Result<(ReceivedPotentiation, ReceivedPotentiation), AtomError>,
        losses: &LossTexts,
    ) -> (result: Result<(), Failure>)
        ensures
            output matches Err(error) ==> result is Err && says(
                result->Err_0,
                "wait for fusion potentiation failed: "@ + error.text(),
            ),
            output matches Ok(pair) ==> if losses_agree(
                pair.0.potentiation,
                pair.1.potentiation,
            ) {
                &&& result is Ok
                &&& *final(state) == (FusionState {
                    p1_recv_id: pair.0.recv_id,
                    p2_recv_id: pair.1.recv_id,
                    ..*old(state)
                })
            } else {
                result is Err && says(
                    result->Err_0,
                    "fusion potentiation losses disagree: "@ + losses.text(),
                )
            },
            result is Err ==> *final(state) == *old(state),
    {
        match WaitForFusionPotentiationForOptimize::absorb(state, output, losses) {
            Ok(_) => Ok(()),
            Err(failure) => Err(failure),
        }
    }
}

/// Applies the outcome of a step to the weights.
pub struct FusionOptimize;

impl FusionOptimize {
    pub fn emit(state: &FusionState, potentiation: Potentiation) -> (sent: (Uuid, Potentiation))
        ensures
            sent == (state.transform_id, potentiation),
    {
        (state.transform_id, potentiation)
    }

    pub fn absorb(output: Result<bool, AtomError>) -> (result: Result<(), Failure>)
        ensures
            result is Ok <==> output is Ok,
            output matches Err(error) ==> says(
                result->Err_0,
                "fusion optimize failed: "@ + error.text(),
            ),
    {
        match output {
            Ok(_) => Ok(()),
            Err(error) => Err(refused_by("fusion optimize failed: ", &error)),
        }
    }
}

/// Two outcomes agree exactly when neither loss differs in any bit; their seeds
/// do not matter.
pub proof fn law_outcomes_agree_on_both_losses(p1: Potentiation, p2: Potentiation)
    ensures
        p1.loss_up_bits != p2.loss_up_bits ==> !losses_agree(p1, p2),
        p1.loss_down_bits != p2.loss_down_bits ==> !losses_agree(p1, p2),
        losses_agree(
            p1,
            Potentiation {
                loss_up_bits: p1.loss_up_bits,
                loss_down_bits: p1.loss_down_bits,
                seed: p2.seed,
            },
        ),
{
}

} // verus!
