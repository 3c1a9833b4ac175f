//! Fusions: nodes that join two inputs.
//!
//! A fusion owns two independent mailbox chains. For each propagation it
//! receives both envelopes, in the order of its ports, checks that they name
//! one shared output mailbox, and transmits once. It then consumes matching
//! outcomes of the step on both chains.

use vstd::prelude::*;

use crate::counting::spec_at_least_one;
use crate::ids::{ObjectId, Uuid};

pub mod action;

verus! {

/// Seed of a node with two input ports.
#[derive(Clone, Copy, Debug, PartialEq, Eq, Structural)]
pub struct FusionSeed {
    /// First mailbox of the first port.
    pub p1_recv_id: ObjectId,
    /// First mailbox of the second port.
    pub p2_recv_id: ObjectId,
    /// Number of propagation microsteps to run per perturbation phase.
    pub grad_steps: usize,
}

/// State of a fusion.
#[derive(Clone, Copy, Debug, PartialEq, Eq, Structural)]
pub struct FusionState {
    /// The id handed to the transform with every pair.
    pub transform_id: Uuid,
    /// The next mailbox of the first port.
    pub p1_recv_id: ObjectId,
    /// The next mailbox of the second port.
    pub p2_recv_id: ObjectId,
    /// The shared output mailbox.
    pub send_id: ObjectId,
    /// Seed of the next upward perturbation.
    pub perturbation_seed: u64,
    /// Number of microsteps per propagation phase.
    pub grad_steps: usize,
    /// Number of completed microsteps in the current phase.
    pub grad_step: usize,
}

impl Default for FusionState {
    fn default() -> (state: FusionState)
        ensures
            state == (FusionState {
                transform_id: Uuid::spec_nil(),
                p1_recv_id: Uuid::spec_nil(),
                p2_recv_id: Uuid::spec_nil(),
                send_id: Uuid::spec_nil(),
                perturbation_seed: 0,
                grad_steps: 0,
                grad_step: 0,
            }),
    {
        FusionState {
            transform_id: Uuid::nil(),
            p1_recv_id: Uuid::nil(),
            p2_recv_id: Uuid::nil(),
            send_id: Uuid::nil(),
            perturbation_seed: 0,
            grad_steps: 0,
            grad_step: 0,
        }
    }
}

impl FusionState {
    /// Microsteps left in the current phase.
    pub open spec fn microsteps_left(self) -> int {
        if self.grad_step < spec_at_least_one(self.grad_steps) {
            spec_at_least_one(self.grad_steps) - self.grad_step
        } else {
            0
        }
    }
}

} // verus!
