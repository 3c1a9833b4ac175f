//! First-in-first-out pipeline-parallel reverse-mode training.
//!
//! Each stage owns its forward graphs and optimizer state. The scheduler
//! transports only activations and boundary gradients, warms each stage by its
//! pipeline depth, and then gives ready backward work priority: one forward,
//! one backward.

use std::collections::HashMap;

use vstd::prelude::*;

use crate::compile::{SunStateView, SunTopologyState};
use crate::ids::ObjectId;
use crate::message::ArtifactDelivery;
use crate::topology::appearance::shows_topology;
use crate::topology::{SunAppearance, SunTopology};

pub mod action;
pub mod command;
pub mod data_parallel;
pub mod history;
pub mod lane;
pub mod program;
pub mod protocol;
pub mod run;

verus! {

broadcast use vstd::std_specs::hash::group_hash_axioms;

/// A command to one stage. The identity of the micro-batch travels here, on
/// the control plane, and leaves the tensor payloads alone.
#[derive(Clone, Copy, Debug, PartialEq, Eq, Structural)]
pub enum PipelineCommand {
    Forward { micro_batch: usize, emission_id: ObjectId, reply: ObjectId },
    Backward {
        micro_batch: usize,
        gradient_emission_id: ObjectId,
        seed_from_forward: bool,
        reply: ObjectId,
    },
    Step { reply: ObjectId, step: usize },
}

impl PipelineCommand {
    /// The mailbox for the answer.
    pub open spec fn reply_view(self) -> ObjectId {
        match self {
            PipelineCommand::Forward { reply, .. } => reply,
            PipelineCommand::Backward { reply, .. } => reply,
            PipelineCommand::Step { reply, .. } => reply,
        }
    }

    pub fn reply(&self) -> (reply: ObjectId)
        ensures
            reply == self.reply_view(),
    {
        match self {
            PipelineCommand::Forward { reply, .. } => *reply,
            PipelineCommand::Backward { reply, .. } => *reply,
            PipelineCommand::Step { reply, .. } => *reply,
        }
    }

    /// The micro-batch of tensor work.
    pub open spec fn micro_batch_view(self) -> Option<usize> {
        match self {
            PipelineCommand::Forward { micro_batch, .. } => Some(micro_batch),
            PipelineCommand::Backward { micro_batch, .. } => Some(micro_batch),
            PipelineCommand::Step { .. } => None,
        }
    }

    pub fn micro_batch(&self) -> (micro_batch: Option<usize>)
        ensures
            micro_batch == self.micro_batch_view(),
    {
        match self {
            PipelineCommand::Forward { micro_batch, .. } => Some(*micro_batch),
            PipelineCommand::Backward { micro_batch, .. } => Some(*micro_batch),
            PipelineCommand::Step { .. } => None,
        }
    }
}

/// What a stage answers to a command.
#[allow(inconsistent_fields)]
#[derive(Debug)]
pub enum PipelineResponse {
    Artifact { micro_batch: usize, emission_id: ObjectId },
    Stepped,
    Failed { micro_batch: Option<usize>, message: String },
}

/// A control message, with the mailbox the receiver should await next.
#[derive(Clone, Copy, Debug, PartialEq, Eq, Structural)]
pub struct OperationalControl<C> {
    pub control: C,
    pub recv: ObjectId,
}

/// State of a pipeline-parallel Sun.
pub struct PipelineBackwardState<S> {
    pub topology: SunTopology,
    pub inner: S,
    /// The current command inbox of each operation input port.
    pub inboxes: HashMap<u32, ObjectId>,
    pub micro_batches: Vec<ArtifactDelivery>,
    pub step: usize,
}

impl<S: Default> Default for PipelineBackwardState<S> {
    fn default() -> (state: Self)
        ensures
            state.topology.is_empty(),
            state.topology.well_formed(),
            state.inboxes@ == Map::<u32, ObjectId>::empty(),
            state.micro_batches@.len() == 0,
            state.step == 0,
            call_ensures(S::default, (), state.inner),
    {
        PipelineBackwardState {
            topology: SunTopology::default(),
            inner: S::default(),
            inboxes: HashMap::new(),
            micro_batches: Vec::new(),
            step: 0,
        }
    }
}

impl<S> SunTopologyState for PipelineBackwardState<S> {
    open spec fn topology_view(self) -> SunTopology {
        self.topology
    }

    open spec fn same_runtime(self, other: Self) -> bool {
        self == (PipelineBackwardState { topology: self.topology, ..other })
    }

    fn topology(&self) -> (topology: &SunTopology) {
        &self.topology
    }

    fn topology_mut(&mut self) -> (topology: &mut SunTopology) {
        &mut self.topology
    }
}

impl<S> PipelineBackwardState<S> {
    /// A deterministic view of the resolved graph.
    pub fn appearance(&self) -> (shown: SunAppearance)
        ensures
            shows_topology(self.topology, shown),
    {
        self.topology.appearance()
    }
}

impl<S> SunStateView for PipelineBackwardState<S> {
    open spec fn shows(self, shown: SunAppearance) -> bool {
        shows_topology(self.topology, shown)
    }

    fn sun_appearance(&self) -> (shown: SunAppearance) {
        self.appearance()
    }
}

/// The outcome of one training step.
pub struct PipelineStepResult {
    pub step: usize,
    pub outputs: Vec<ArtifactDelivery>,
}

/// Everything a training step needs to know of the state.
pub struct RunPipelineInput {
    pub nodes: Vec<u32>,
    /// The input ports of each pipeline stage, ordered by replica.
    pub ports: Vec<Vec<u32>>,
    pub replicas: usize,
    pub linear: bool,
    pub inboxes: HashMap<u32, ObjectId>,
    pub micro_batches: Vec<ArtifactDelivery>,
    pub step: usize,
}

/// What a completed training step leaves behind.
pub struct RunPipelineOutput {
    pub inboxes: HashMap<u32, ObjectId>,
    pub outputs: Vec<ObjectId>,
    pub step: usize,
}

impl RunPipelineInput {
    /// The number of replicas, at least one.
    pub open spec fn width(self) -> nat {
        if self.replicas == 0 {
            1
        } else {
            self.replicas as nat
        }
    }

    /// A linear chain has one port for each stage and replica.
    pub open spec fn well_formed(self) -> bool {
        self.linear ==> {
            &&& self.ports@.len() == self.nodes@.len()
            &&& forall|s: int|
                0 <= s < self.ports@.len() ==> (#[trigger] self.ports@[s])@.len() == self.width()
        }
    }
}

} // verus!
