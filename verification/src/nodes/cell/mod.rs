//! Cells: nodes with one input port that own one model instance.

use vstd::prelude::*;

use crate::counting::spec_at_least_one;
use crate::ids::{ObjectId, Uuid};

pub mod action;
pub mod effect;

verus! {

/// Seed of a cell.
#[derive(Clone, Copy, Debug, PartialEq, Eq, Structural)]
pub struct Init {
    /// First mailbox that the cell should await.
    pub recv_id: ObjectId,
    /// Number of propagation microsteps to run per perturbation phase.
    pub grad_steps: usize,
}

impl Default for Init {
    fn default() -> (init: Init)
        ensures
            init == (Init { recv_id: Uuid::spec_nil(), grad_steps: 1 }),
    {
        Init { recv_id: Uuid::nil(), grad_steps: 1 }
    }
}

/// When and where the cells of a process save checkpoints.
pub struct CheckpointSettings {
    /// Save every this many optimization steps; zero disables it.
    pub steps: usize,
    /// The directory the checkpoints go to.
    pub directory: Option<String>,
}

impl CheckpointSettings {
    /// Settings that keep the directory only where checkpoints are saved.
    pub fn new(steps: usize, directory: Option<String>) -> (settings: CheckpointSettings)
        ensures
            settings == (CheckpointSettings {
                steps,
                directory: if steps > 0 {
                    directory
                } else {
                    None
                },
            }),
    {
        if steps > 0 {
            CheckpointSettings { steps, directory }
        } else {
            CheckpointSettings { steps, directory: None }
        }
    }
}

impl Default for CheckpointSettings {
    fn default() -> (settings: CheckpointSettings)
        ensures
            settings == (CheckpointSettings { steps: 0, directory: None }),
    {
        CheckpointSettings { steps: 0, directory: None }
    }
}

/// Whether a checkpoint is to be saved after `step` optimization steps, where
/// one is saved every `every` steps and none if `every` is zero.
pub fn checkpoint_due(step: usize, every: usize) -> (due: bool)
    ensures
        due == (every != 0 && step % every == 0),
{
    every != 0 && step % every == 0
}

/// State carried by a cell, with room for the state of its user.
pub struct CellState<S> {
    /// The model instance this cell owns.
    pub model_id: Uuid,
    /// The mailbox of the next message to await.
    pub recv_id: ObjectId,
    /// The mailbox for the next output.
    pub send_id: ObjectId,
    /// Seed of the next upward perturbation.
    pub perturbation_seed: u64,
    /// Whether the model instance was last known to be frozen.
    pub is_frozen: bool,
    /// Number of microsteps per perturbation phase.
    pub grad_steps: usize,
    /// Number of completed microsteps in the current phase.
    pub grad_step: usize,
    /// Number of completed optimization steps.
    pub optimization_step: usize,
    /// Save a checkpoint every this many optimization steps; zero disables it.
    pub checkpoint_steps: usize,
    /// The directory checkpoints are written to when enabled.
    pub checkpoint_dir: Option<String>,
    pub inner: S,
}

impl<S: Default> Default for CellState<S> {
    fn default() -> (state: Self)
        ensures
            state == (CellState {
                model_id: Uuid::spec_nil(),
                recv_id: Uuid::spec_nil(),
                send_id: Uuid::spec_nil(),
                perturbation_seed: 0,
                is_frozen: false,
                grad_steps: 0,
                grad_step: 0,
                optimization_step: 0,
                checkpoint_steps: 0,
                checkpoint_dir: None,
                inner: state.inner,
            }),
            call_ensures(S::default, (), state.inner),
    {
        CellState {
            model_id: Uuid::nil(),
            recv_id: Uuid::nil(),
            send_id: Uuid::nil(),
            perturbation_seed: 0,
            is_frozen: false,
            grad_steps: 0,
            grad_step: 0,
            optimization_step: 0,
            checkpoint_steps: 0,
            checkpoint_dir: None,
            inner: S::default(),
        }
    }
}

impl<S> CellState<S> {
    /// Microsteps left in the current phase.
    pub open spec fn microsteps_left(self) -> int {
        if self.grad_step < spec_at_least_one(self.grad_steps) {
            spec_at_least_one(self.grad_steps) - self.grad_step
        } else {
            0
        }
    }
}

} // verus!
