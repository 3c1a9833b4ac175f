//! Neutral dependency-aware forward execution.
//!
//! A forward pass schedules a contract-validated graph once per artifact: seed
//! the roots, process ready nodes as they complete, and rotate inboxes for the
//! next request. A forward pipeline keeps a bounded window of artifacts in
//! flight. No propagation or potentiation semantics are involved.

use std::collections::{HashMap, HashSet, VecDeque};

use vstd::prelude::*;

use crate::compile::{SunStateView, SunTopologyState};
use crate::ids::ObjectId;
use crate::message::ArtifactDelivery;
use crate::topology::appearance::shows_topology;
use crate::topology::{SunAppearance, SunTopology};

pub mod effect;
pub mod laws;
pub mod pass;
pub mod pipeline;
pub mod protocol;
pub mod routing;

verus! {

broadcast use vstd::std_specs::hash::group_hash_axioms;

/// Scheduler state of forward programs.
pub struct ForwardRuntime<S> {
    /// Payload of the program's user.
    pub inner: S,
    /// Unfinished nodes and their unresolved incoming-edge counts.
    pub pending: HashMap<u32, usize>,
    /// Unfinished nodes whose incoming edges have all completed.
    pub ready: HashSet<u32>,
    /// Current mailbox of each input port.
    pub inputs: HashMap<u32, ObjectId>,
    /// Mailbox of each input port for the next request.
    pub next_inputs: HashMap<u32, ObjectId>,
    /// Output mailbox of each node.
    pub outputs: HashMap<u32, ObjectId>,
    /// Sink of the finalized graph.
    pub sink_id: Option<u32>,
    /// Artifacts of the current pipeline window.
    pub pipeline_inputs: Vec<ArtifactDelivery>,
    /// Sink outputs of the current window, oldest first.
    pub completed_outputs: VecDeque<ArtifactDelivery>,
    /// Most artifacts in one window.
    pub pipeline_window: usize,
    /// Mailbox of each input port, per artifact of the window.
    pub pipeline_input_ids: Vec<HashMap<u32, ObjectId>>,
    /// Output mailbox of each node, per artifact of the window.
    pub pipeline_output_ids: Vec<HashMap<u32, ObjectId>>,
    /// Artifacts of the window that each node has completed.
    pub node_completed: HashMap<u32, usize>,
    /// Artifacts of the window already sent to each root.
    pub root_sent: HashMap<u32, usize>,
    /// Completions of a node on an artifact so far.
    pub pipeline_completions: usize,
    /// Completions expected of the window.
    pub pipeline_target_completions: usize,
}

/// Nothing scheduled and no mailbox allocated.
pub open spec fn runtime_empty<S>(runtime: ForwardRuntime<S>) -> bool {
    &&& runtime.pending@ == Map::<u32, usize>::empty()
    &&& runtime.ready@ == Set::<u32>::empty()
    &&& runtime.inputs@ == Map::<u32, ObjectId>::empty()
    &&& runtime.next_inputs@ == Map::<u32, ObjectId>::empty()
    &&& runtime.outputs@ == Map::<u32, ObjectId>::empty()
    &&& runtime.sink_id is None
    &&& runtime.pipeline_inputs@ == Seq::<ArtifactDelivery>::empty()
    &&& runtime.completed_outputs@ == Seq::<ArtifactDelivery>::empty()
    &&& runtime.pipeline_window == 0
    &&& runtime.pipeline_input_ids@ == Seq::<HashMap<u32, ObjectId>>::empty()
    &&& runtime.pipeline_output_ids@ == Seq::<HashMap<u32, ObjectId>>::empty()
    &&& runtime.node_completed@ == Map::<u32, usize>::empty()
    &&& runtime.root_sent@ == Map::<u32, usize>::empty()
    &&& runtime.pipeline_completions == 0
    &&& runtime.pipeline_target_completions == 0
}

impl<S: Default> Default for ForwardRuntime<S> {
    fn default() -> (runtime: ForwardRuntime<S>)
        ensures
            runtime_empty(runtime),
            call_ensures(S::default, (), runtime.inner),
    {
        ForwardRuntime {
            inner: S::default(),
            pending: HashMap::new(),
            ready: HashSet::new(),
            inputs: HashMap::new(),
            next_inputs: HashMap::new(),
            outputs: HashMap::new(),
            sink_id: None,
            pipeline_inputs: Vec::new(),
            completed_outputs: VecDeque::new(),
            pipeline_window: 0,
            pipeline_input_ids: Vec::new(),
            pipeline_output_ids: Vec::new(),
            node_completed: HashMap::new(),
            root_sent: HashMap::new(),
            pipeline_completions: 0,
            pipeline_target_completions: 0,
        }
    }
}

/// State for forward programs; it contains no two-sided strategy fields.
pub struct ForwardSunState<S> {
    pub topology: SunTopology,
    pub runtime: ForwardRuntime<S>,
}

impl<S: Default> Default for ForwardSunState<S> {
    fn default() -> (state: ForwardSunState<S>)
        ensures
            state.topology.is_empty(),
            state.topology.well_formed(),
            runtime_empty(state.runtime),
            call_ensures(S::default, (), state.runtime.inner),
    {
        ForwardSunState { topology: SunTopology::default(), runtime: ForwardRuntime::default() }
    }
}

impl<S> SunTopologyState for ForwardSunState<S> {
    open spec fn topology_view(self) -> SunTopology {
        self.topology
    }

    open spec fn same_runtime(self, other: Self) -> bool {
        self.runtime == other.runtime
    }

    fn topology(&self) -> (topology: &SunTopology) {
        &self.topology
    }

    fn topology_mut(&mut self) -> (topology: &mut SunTopology) {
        &mut self.topology
    }
}

impl<S> ForwardSunState<S> {
    /// The view of this state for observers.
    pub fn appearance(&self) -> (shown: SunAppearance)
        ensures
            shows_topology(self.topology, shown),
    {
        neutral_appearance(&self.topology)
    }
}

impl<S> SunStateView for ForwardSunState<S> {
    open spec fn shows(self, shown: SunAppearance) -> bool {
        shows_topology(self.topology, shown)
    }

    fn sun_appearance(&self) -> (shown: SunAppearance) {
        self.appearance()
    }
}

/// State for programs that only need a compiled topology and private payload.
pub struct NeutralSunState<S> {
    pub topology: SunTopology,
    pub inner: S,
}

impl<S: Default> Default for NeutralSunState<S> {
    fn default() -> (state: NeutralSunState<S>)
        ensures
            state.topology.is_empty(),
            state.topology.well_formed(),
            call_ensures(S::default, (), state.inner),
    {
        NeutralSunState { topology: SunTopology::default(), inner: S::default() }
    }
}

impl<S> SunTopologyState for NeutralSunState<S> {
    open spec fn topology_view(self) -> SunTopology {
        self.topology
    }

    open spec fn same_runtime(self, other: Self) -> bool {
        self.inner == other.inner
    }

    fn topology(&self) -> (topology: &SunTopology) {
        &self.topology
    }

    fn topology_mut(&mut self) -> (topology: &mut SunTopology) {
        &mut self.topology
    }
}

impl<S> NeutralSunState<S> {
    /// The view of this state for observers.
    pub fn appearance(&self) -> (shown: SunAppearance)
        ensures
            shows_topology(self.topology, shown),
    {
        neutral_appearance(&self.topology)
    }
}

impl<S> SunStateView for NeutralSunState<S> {
    open spec fn shows(self, shown: SunAppearance) -> bool {
        shows_topology(self.topology, shown)
    }

    fn sun_appearance(&self) -> (shown: SunAppearance) {
        self.appearance()
    }
}

/// The view of a topology without strategy detail.
fn neutral_appearance(topology: &SunTopology) -> (shown: SunAppearance)
    ensures
        shows_topology(*topology, shown),
{
    topology.appearance()
}

/// Whether a forward pass still has unfinished nodes.
pub struct PendingForwardWork;

impl PendingForwardWork {
    pub fn eval<S>(state: &ForwardSunState<S>) -> (pending: bool)
        ensures
            pending == (state.runtime.pending@.dom().len() > 0),
    {
        !state.runtime.pending.is_empty()
    }
}

/// Whether the current pipeline window has room for another artifact.
pub struct PendingForwardPipelineInputs;

impl PendingForwardPipelineInputs {
    pub fn eval<S>(state: &ForwardSunState<S>) -> (room: bool)
        ensures
            room == (state.runtime.pipeline_inputs@.len() < state.runtime.pipeline_window),
    {
        state.runtime.pipeline_inputs.len() < state.runtime.pipeline_window
    }
}

} // verus!
