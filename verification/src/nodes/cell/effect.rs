//! What the effects of a cell make of the outcome of outside work.

use vstd::prelude::*;
use vstd::string::*;

use crate::error::AtomError;
use crate::ids::ObjectId;
use crate::message::{Potentiation, Transmission};
use crate::nodes::cell::action::Propagation;

verus! {

/// The error for a message of the wrong kind: what was expected, and how the
/// message reads.
pub(crate) fn unexpected(start: &str, shown: &str) -> (error: AtomError)
    ensures
        error is Transmission,
        error.cause() == start@ + shown@,
{
    let mut text = start.to_owned();
    text.append(shown);
    AtomError::Transmission(text)
}

/// Awaits a propagation.
pub struct WaitForPropagationEffect;

impl WaitForPropagationEffect {
    /// Takes what came. `shown` is how it reads in a diagnostic.
    pub fn received(outcome: Result<Transmission, String>, shown: &str) -> (result: Result<
        Propagation,
        AtomError,
    >)
        ensures
            match outcome {
                Ok(Transmission::Propagation { emission_id, recv, send }) => result == Ok::<
                    Propagation,
                    AtomError,
                >(Propagation { emission_id, recv_id: recv, send_id: send }),
                Ok(Transmission::Potentiation { .. }) => result is Err && result->Err_0
                    is Transmission && result->Err_0.cause()
                    == "expected Propagation, got "@ + shown@,
                Err(cause) => result == Err::<Propagation, AtomError>(
                    AtomError::Transmission(cause),
                ),
            },
    {
        match outcome {
            Ok(Transmission::Propagation { emission_id, recv, send }) => Ok(
                Propagation { emission_id, recv_id: recv, send_id: send },
            ),
            Ok(Transmission::Potentiation { .. }) => Err(
                unexpected("expected Propagation, got ", shown),
            ),
            Err(cause) => Err(AtomError::Transmission(cause)),
        }
    }
}

/// Awaits the outcome of a step.
pub struct WaitForPotentiationEffect;

impl WaitForPotentiationEffect {
    /// Takes what came. `shown` is how it reads in a diagnostic.
    pub fn received(outcome: Result<Transmission, String>, shown: &str) -> (result: Result<
        (Potentiation, ObjectId),
        AtomError,
    >)
        ensures
            match outcome {
                Ok(Transmission::Potentiation { potentiation, recv }) => result == Ok::<
                    (Potentiation, ObjectId),
                    AtomError,
                >((potentiation, recv)),
                Ok(Transmission::Propagation { .. }) => result is Err && result->Err_0
                    is Transmission && result->Err_0.cause()
                    == "expected Potentiation, got "@ + shown@,
                Err(cause) => result == Err::<(Potentiation, ObjectId), AtomError>(
                    AtomError::Transmission(cause),
                ),
            },
    {
        match outcome {
            Ok(Transmission::Potentiation { potentiation, recv }) => Ok((potentiation, recv)),
            Ok(Transmission::Propagation { .. }) => Err(
                unexpected("expected Potentiation, got ", shown),
            ),
            Err(cause) => Err(AtomError::Transmission(cause)),
        }
    }
}

/// Starts a model instance and asks whether it is frozen.
pub struct MassStart;

impl MassStart {
    pub fn started(outcome: Result<(), String>) -> (result: Result<(), AtomError>)
        ensures
            result == match outcome {
                Ok(value) => Ok::<(), AtomError>(value),
                Err(cause) => Err::<(), AtomError>(AtomError::ModelStart(cause)),
            },
    {
        match outcome {
            Ok(value) => Ok(value),
            Err(cause) => Err(AtomError::ModelStart(cause)),
        }
    }

    pub fn queried(outcome: Result<bool, String>) -> (result: Result<bool, AtomError>)
        ensures
            result == match outcome {
                Ok(value) => Ok::<bool, AtomError>(value),
                Err(cause) => Err::<bool, AtomError>(AtomError::ModelStart(cause)),
            },
    {
        match outcome {
            Ok(value) => Ok(value),
            Err(cause) => Err(AtomError::ModelStart(cause)),
        }
    }
}

/// Shuts a model instance down.
pub struct MassShutdown;

impl MassShutdown {
    pub fn completed(outcome: Result<(), String>) -> (result: Result<(), AtomError>)
        ensures
            result == match outcome {
                Ok(value) => Ok::<(), AtomError>(value),
                Err(cause) => Err::<(), AtomError>(AtomError::ModelShutdown(cause)),
            },
    {
        match outcome {
            Ok(value) => Ok(value),
            Err(cause) => Err(AtomError::ModelShutdown(cause)),
        }
    }
}

/// Perturbs the weights of a model instance upward.
pub struct MassPerturbUp;

impl MassPerturbUp {
    pub fn completed(outcome: Result<(), String>) -> (result: Result<(), AtomError>)
        ensures
            result == match outcome {
                Ok(value) => Ok::<(), AtomError>(value),
                Err(cause) => Err::<(), AtomError>(AtomError::PerturbUp(cause)),
            },
    {
        match outcome {
            Ok(value) => Ok(value),
            Err(cause) => Err(AtomError::PerturbUp(cause)),
        }
    }
}

/// Perturbs the weights of a model instance downward.
pub struct MassPerturbDown;

impl MassPerturbDown {
    pub fn completed(outcome: Result<(), String>) -> (result: Result<(), AtomError>)
        ensures
            result == match outcome {
                Ok(value) => Ok::<(), AtomError>(value),
                Err(cause) => Err::<(), AtomError>(AtomError::PerturbDown(cause)),
            },
    {
        match outcome {
            Ok(value) => Ok(value),
            Err(cause) => Err(AtomError::PerturbDown(cause)),
        }
    }
}

/// Applies the outcome of a step to a model instance and asks whether it is
/// frozen.
pub struct MassOptimize;

impl MassOptimize {
    pub fn optimized(outcome: Result<(), String>) -> (result: Result<(), AtomError>)
        ensures
            result == match outcome {
                Ok(value) => Ok::<(), AtomError>(value),
                Err(cause) => Err::<(), AtomError>(AtomError::Optimize(cause)),
            },
    {
        match outcome {
            Ok(value) => Ok(value),
            Err(cause) => Err(AtomError::Optimize(cause)),
        }
    }

    pub fn queried(outcome: Result<bool, String>) -> (result: Result<bool, AtomError>)
        ensures
            result == match outcome {
                Ok(value) => Ok::<bool, AtomError>(value),
                Err(cause) => Err::<bool, AtomError>(AtomError::Optimize(cause)),
            },
    {
        match outcome {
            Ok(value) => Ok(value),
            Err(cause) => Err(AtomError::Optimize(cause)),
        }
    }
}

/// Sends an emission on to the next node.
pub struct Transmit;

impl Transmit {
    pub fn completed(outcome: Result<(), String>) -> (result: Result<(), AtomError>)
        ensures
            result == match outcome {
                Ok(value) => Ok::<(), AtomError>(value),
                Err(cause) => Err::<(), AtomError>(AtomError::Transmission(cause)),
            },
    {
        match outcome {
            Ok(value) => Ok(value),
            Err(cause) => Err(AtomError::Transmission(cause)),
        }
    }
}

} // verus!
