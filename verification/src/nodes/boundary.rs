//! Boundaries that keep the id of their warp journey in the state of a cell.

use std::marker::PhantomData;

use vstd::prelude::*;
use vstd::string::*;

use crate::counting::{at_least_one, spec_at_least_one};
use crate::error::AtomError;
use crate::failure::{refused_by, says, Failure};
use crate::ids::ObjectId;
use crate::message::Potentiation;
use crate::nodes::cell::CellState;
use crate::topology::BoundaryInit;

verus! {

/// Takes the first mailbox from the seed, and the warp journey in place of a
/// model instance.
pub struct InitRecvId<S>(pub PhantomData<S>);

impl<S> InitRecvId<S> {
    pub fn absorb(state: &mut CellState<S>, init: BoundaryInit)
        ensures
            *final(state) == (CellState {
                recv_id: init.recv_id,
                grad_steps: spec_at_least_one(init.grad_steps),
                grad_step: 0,
                model_id: init.warp_journey_id,
                ..*old(state)
            }),
    {
        state.recv_id = init.recv_id;
        state.grad_steps = at_least_one(init.grad_steps);
        state.grad_step = 0;
        state.model_id = init.warp_journey_id;
    }
}

/// Awaits the outcome of a step, keeps its seed and moves on to the mailbox it
/// names.
pub struct WaitForPotentiation<S>(pub PhantomData<S>);

impl<S> WaitForPotentiation<S> {
    pub fn emit(state: &CellState<S>) -> (mailbox: ObjectId)
        ensures
            mailbox == state.recv_id,
    {
        state.recv_id
    }

    pub fn absorb(
        state: &mut CellState<S>,
        output: Result<(Potentiation, ObjectId), AtomError>,
    ) -> (result: Result<(), Failure>)
        ensures
            result is Ok <==> output is Ok,
            output matches Err(error) ==> says(
                result->Err_0,
                "wait for boundary potentiation failed: "@ + error.text(),
            ) && *final(state) == *old(state),
            output matches Ok(received) ==> *final(state) == (CellState {
                recv_id: received.1,
                perturbation_seed: received.0.seed,
                ..*old(state)
            }),
    {
        match output {
            Err(error) => Err(refused_by("wait for boundary potentiation failed: ", &error)),
            Ok(received) => {
                state.recv_id = received.1;
                state.perturbation_seed = received.0.seed;
                Ok(())
            },
        }
    }
}

/// Awaits the outcome of a step and hands it on as well.
pub struct WaitForPotentiationForInput<S>(pub PhantomData<S>);

impl<S> WaitForPotentiationForInput<S> {
    pub fn emit(state: &CellState<S>) -> (mailbox: ObjectId)
        ensures
            mailbox == state.recv_id,
    {
        state.recv_id
    }

    pub fn absorb(
        state: &mut CellState<S>,
        output: Result<(Potentiation, ObjectId), AtomError>,
    ) -> (result: Result<Potentiation, Failure>)
        ensures
            result is Ok <==> output is Ok,
            output matches Err(error) ==> says(
                result->Err_0,
                "wait for boundary potentiation failed: "@ + error.text(),
            ) && *final(state) == *old(state),
            output matches Ok(received) ==> result->Ok_0 == received.0 && *final(state) == (CellState {
                recv_id: received.1,
                perturbation_seed: received.0.seed,
                ..*old(state)
            }),
    {
        match output {
            Err(error) => Err(refused_by("wait for boundary potentiation failed: ", &error)),
            Ok(received) => {
                state.recv_id = received.1;
                state.perturbation_seed = received.0.seed;
                Ok(received.0)
            },
        }
    }
}

} // verus!
