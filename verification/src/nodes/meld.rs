//! Melds: model-free nodes that join two inputs.
//!
//! A meld owns two independent mailbox chains. For each of the two
//! propagation passes it receives both envelopes in the order of its ports,
//! checks that they name one shared output mailbox, and transmits once. It
//! then consumes matching outcomes of the step and rotates both chains without
//! optimizing anything.

use vstd::prelude::*;
use vstd::string::*;

use crate::error::AtomError;
use crate::failure::{refused, refused_by, says, Failure};
use crate::ids::{ObjectId, Uuid};
use crate::message::{EmissionId, Transmission};
use crate::nodes::cell::action::Propagation;
use crate::nodes::cell::effect::unexpected;
use crate::nodes::fusion::action::{
    losses_agree, refused_losses, refused_sends, sends_disagree, LossTexts, ReceivedPotentiation,
};

verus! {

/// First mailboxes of a meld, in the order of its ports.
#[derive(Clone, Copy, Debug, PartialEq, Eq, Structural)]
pub struct MeldSeed {
    pub p1_recv_id: ObjectId,
    pub p2_recv_id: ObjectId,
}

/// State of a meld.
#[derive(Clone, Copy, Debug, PartialEq, Eq, Structural)]
pub struct MeldState {
    /// The id handed to the transform with every pair.
    pub transform_id: Uuid,
    pub p1_recv_id: ObjectId,
    pub p2_recv_id: ObjectId,
    pub send_id: ObjectId,
}

impl Default for MeldState {
    fn default() -> (state: MeldState)
        ensures
            state == (MeldState {
                transform_id: Uuid::spec_nil(),
                p1_recv_id: Uuid::spec_nil(),
                p2_recv_id: Uuid::spec_nil(),
                send_id: Uuid::spec_nil(),
            }),
    {
        MeldState {
            transform_id: Uuid::nil(),
            p1_recv_id: Uuid::nil(),
            p2_recv_id: Uuid::nil(),
            send_id: Uuid::nil(),
        }
    }
}

/// Takes the first mailboxes of both chains from the seed.
pub struct InitMeld;

impl InitMeld {
    pub fn absorb(state: &mut MeldState, output: Result<(), AtomError>, seed: MeldSeed) -> (result:
        Result<(), Failure>)
        ensures
            result is Ok <==> output is Ok,
            result matches Err(failure) ==> says(failure, "initialize meld failed"@)
                && *final(state) == *old(state),
            result is Ok ==> *final(state) == (MeldState {
                p1_recv_id: seed.p1_recv_id,
                p2_recv_id: seed.p2_recv_id,
                ..*old(state)
            }),
    {
        match output {
            Err(_) => Err(refused("initialize meld failed")),
            Ok(()) => {
                state.p1_recv_id = seed.p1_recv_id;
                state.p2_recv_id = seed.p2_recv_id;
                Ok(())
            },
        }
    }
}



/// Keeps the id of the transform.
pub struct GenerateTransformId;

impl GenerateTransformId {
    pub fn absorb(state: &mut MeldState, output: Result<Uuid, AtomError>) -> (result: Result<
        (),
        Failure,
    >)
        ensures
            result is Ok <==> output is Ok,
            output matches Err(error) ==> says(
                result->Err_0,
                "generate transform ID failed: "@ + error.text(),
            ) && *final(state) == *old(state),
            output matches Ok(id) ==> *final(state) == (MeldState {
                transform_id: id,
                ..*old(state)
            }),
    {
        match output {
            Err(error) => Err(refused_by("generate transform ID failed: ", &error)),
            Ok(id) => {
                state.transform_id = id;
                Ok(())
            },
        }
    }
}

/// Receives both envelopes of a propagation and hands on their emissions in
/// the order of the ports.
pub struct WaitForMeldPropagationAction;

impl WaitForMeldPropagationAction {
    pub fn emit(state: &MeldState) -> (mailboxes: (ObjectId, ObjectId))
        ensures
            mailboxes == (state.p1_recv_id, state.p2_recv_id),
    {
        (state.p1_recv_id, state.p2_recv_id)
    }

    pub fn absorb(
        state: &mut MeldState,
        output: Result<(Propagation, Propagation), AtomError>,
    ) -> (result: Result<(EmissionId, EmissionId), Failure>)
        ensures
            output matches Err(error) ==> result is Err && says(
                result->Err_0,
                "wait for meld propagation failed: "@ + error.text(),
            ),
            output matches Ok(pair) ==> if pair.0.send_id == pair.1.send_id {
                &&& result == Ok::<(EmissionId, EmissionId), Failure>(
                    (pair.0.emission_id, pair.1.emission_id),
                )
                &&& *final(state) == (MeldState {
                    p1_recv_id: pair.0.recv_id,
                    p2_recv_id: pair.1.recv_id,
                    send_id: pair.0.send_id,
                    ..*old(state)
                })
            } else {
                result is Err && says(
                    result->Err_0,
                    sends_disagree(
                        "meld propagation send addresses disagree: P1="@,
                        pair.0.send_id,
                        pair.1.send_id,
                    ),
                )
            },
            result is Err ==> *final(state) == *old(state),
    {
        match output {
            Err(error) => Err(refused_by("wait for meld propagation failed: ", &error)),
            Ok((p1, p2)) => {
                if p1.send_id != p2.send_id {
                    return Err(
                        refused_sends(
                            "meld propagation send addresses disagree: P1=",
                            p1.send_id,
                            p2.send_id,
                        ),
                    );
                }
                state.p1_recv_id = p1.recv_id;
                state.p2_recv_id = p2.recv_id;
                state.send_id = p1.send_id;
                Ok((p1.emission_id, p2.emission_id))
            },
        }
    }
}

/// Adds the id of the transform to a pair of emissions.
pub struct PrepareTransformInput;

impl PrepareTransformInput {
    pub fn absorb(
        state: &MeldState,
        output: Result<(), AtomError>,
        emissions: (EmissionId, EmissionId),
    ) -> (result: Result<(Uuid, (EmissionId, EmissionId)), Failure>)
        ensures
            output is Ok ==> result == Ok::<(Uuid, (EmissionId, EmissionId)), Failure>(
                (state.transform_id, emissions),
            ),
            output is Err ==> result is Err && says(
                result->Err_0,
                "prepare transform input failed"@,
            ),
    {
        match output {
            Ok(()) => Ok((state.transform_id, emissions)),
            Err(_) => Err(refused("prepare transform input failed")),
        }
    }
}

/// Publishes a transformed emission to the shared output mailbox.
pub struct MeldTransmit;

impl MeldTransmit {
    pub fn emit(state: &MeldState, emission_id: EmissionId) -> (sent: (EmissionId, ObjectId))
        ensures
            sent == (emission_id, state.send_id),
    {
        (emission_id, state.send_id)
    }

    pub fn absorb(output: Result<(), AtomError>) -> (result: Result<(), Failure>)
        ensures
            result is Ok <==> output is Ok,
            output matches Err(error) ==> says(
                result->Err_0,
                "meld transmit failed: "@ + error.text(),
            ),
    {
        match output {
            Ok(()) => Ok(()),
            Err(error) => Err(refused_by("meld transmit failed: ", &error)),
        }
    }
}

/// Receives the outcome of a step on both chains without optimizing.
pub struct WaitForMeldPotentiationAction;

impl WaitForMeldPotentiationAction {
    pub fn emit(state: &MeldState) -> (mailboxes: (ObjectId, ObjectId))
        ensures
            mailboxes == (state.p1_recv_id, state.p2_recv_id),
    {
        (state.p1_recv_id, state.p2_recv_id)
    }

    pub fn absorb(
        state: &mut MeldState,
        output: Result<(ReceivedPotentiation, ReceivedPotentiation), AtomError>,
        losses: &LossTexts,
    ) -> (result: Result<(), Failure>)
        ensures
            output matches Err(error) ==> result is Err && says(
                result->Err_0,
                "wait for meld potentiation failed: "@ + error.text(),
            ),
            output matches Ok(pair) ==> if losses_agree(
                pair.0.potentiation,
                pair.1.potentiation,
            ) {
                &&& result is Ok
                &&& *final(state) == (MeldState {
                    p1_recv_id: pair.0.recv_id,
                    p2_recv_id: pair.1.recv_id,
                    ..*old(state)
                })
            } else {
                result is Err && says(
                    result->Err_0,
                    "meld potentiation losses disagree: "@ + losses.text(),
                )
            },
            result is Err ==> *final(state) == *old(state),
    {
        match output {
            Err(error) => Err(refused_by("wait for meld potentiation failed: ", &error)),
            Ok((p1, p2)) => {
                if p1.potentiation.loss_up_bits != p2.potentiation.loss_up_bits
                    || p1.potentiation.loss_down_bits != p2.potentiation.loss_down_bits {
                    return Err(
                        refused_losses("meld potentiation losses disagree: ", losses),
                    );
                }
                state.p1_recv_id = p1.recv_id;
                state.p2_recv_id = p2.recv_id;
                Ok(())
            },
        }
    }
}

/// The two ports of a meld.
#[derive(Clone, Copy, Debug, PartialEq, Eq, Structural)]
pub enum MeldPort {
    P1,
    P2,
}

/// The error of a wait at one port.
pub fn port_wait_failed(port: MeldPort, error: &str) -> (failed: AtomError)
    ensures
        failed is Transmission,
        failed.cause() == (match port {
            MeldPort::P1 => "wait for meld port P1: "@,
            MeldPort::P2 => "wait for meld port P2: "@,
        }) + error@,
{
    let mut text = match port {
        MeldPort::P1 => "wait for meld port P1: ".to_owned(),
        MeldPort::P2 => "wait for meld port P2: ".to_owned(),
    };
    text.append(error);
    AtomError::Transmission(text)
}

/// Takes one propagation at each port.
pub struct WaitForMeldPropagation;

impl WaitForMeldPropagation {
    /// The payloads of both envelopes, or why one of them is not a
    /// propagation. The first port is looked at first. `shown` is how each
    /// envelope reads in a diagnostic.
    pub fn received(pair: (Transmission, Transmission), shown: (&str, &str)) -> (result: Result<
        (Propagation, Propagation),
        AtomError,
    >)
        ensures
            match pair {
                (
                    Transmission::Propagation { emission_id: e1, recv: r1, send: s1 },
                    Transmission::Propagation { emission_id: e2, recv: r2, send: s2 },
                ) => result == Ok::<(Propagation, Propagation), AtomError>(
                    (
                        Propagation { emission_id: e1, recv_id: r1, send_id: s1 },
                        Propagation { emission_id: e2, recv_id: r2, send_id: s2 },
                    ),
                ),
                (Transmission::Potentiation { .. }, _) => result is Err && result->Err_0
                    is Transmission && result->Err_0.cause()
                    == "expected Propagation on meld port P1, got "@ + shown.0@,
                _ => result is Err && result->Err_0 is Transmission && result->Err_0.cause()
                    == "expected Propagation on meld port P2, got "@ + shown.1@,
            },
    {
        let p1 = match pair.0 {
            Transmission::Propagation { emission_id, recv, send } => Propagation {
                emission_id,
                recv_id: recv,
                send_id: send,
            },
            Transmission::Potentiation { .. } => {
                return Err(
                    unexpected("expected Propagation on meld port P1, got ", shown.0),
                );
            },
        };
        let p2 = match pair.1 {
            Transmission::Propagation { emission_id, recv, send } => Propagation {
                emission_id,
                recv_id: recv,
                send_id: send,
            },
            Transmission::Potentiation { .. } => {
                return Err(
                    unexpected("expected Propagation on meld port P2, got ", shown.1),
                );
            },
        };
        Ok((p1, p2))
    }
}

/// Takes one outcome of a step at each port.
pub struct WaitForMeldPotentiation;

impl WaitForMeldPotentiation {
    /// The payloads of both envelopes, or why one of them is not an outcome.
    /// The first port is looked at first. `shown` is how each envelope reads
    /// in a diagnostic.
    pub fn received(pair: (Transmission, Transmission), shown: (&str, &str)) -> (result: Result<
        (ReceivedPotentiation, ReceivedPotentiation),
        AtomError,
    >)
        ensures
            match pair {
                (
                    Transmission::Potentiation { potentiation: o1, recv: r1 },
                    Transmission::Potentiation { potentiation: o2, recv: r2 },
                ) => result == Ok::<(ReceivedPotentiation, ReceivedPotentiation), AtomError>(
                    (
                        ReceivedPotentiation { potentiation: o1, recv_id: r1 },
                        ReceivedPotentiation { potentiation: o2, recv_id: r2 },
                    ),
                ),
                (Transmission::Propagation { .. }, _) => result is Err && result->Err_0
                    is Transmission && result->Err_0.cause()
                    == "expected Potentiation on meld port P1, got "@ + shown.0@,
                _ => result is Err && result->Err_0 is Transmission && result->Err_0.cause()
                    == "expected Potentiation on meld port P2, got "@ + shown.1@,
            },
    {
        let p1 = match pair.0 {
            Transmission::Potentiation { potentiation, recv } => ReceivedPotentiation {
                potentiation,
                recv_id: recv,
            },
            Transmission::Propagation { .. } => {
                return Err(
                    unexpected("expected Potentiation on meld port P1, got ", shown.0),
                );
            },
        };
        let p2 = match pair.1 {
            Transmission::Potentiation { potentiation, recv } => ReceivedPotentiation {
                potentiation,
                recv_id: recv,
            },
            Transmission::Propagation { .. } => {
                return Err(
                    unexpected("expected Potentiation on meld port P2, got ", shown.1),
                );
            },
        };
        Ok((p1, p2))
    }
}

} // verus!
