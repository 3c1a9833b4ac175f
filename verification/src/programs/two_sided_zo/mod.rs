//! The two-sided zeroth-order training strategy.
//!
//! Owns the propagation branch states ([`PropA`] / [`PropB`]), the shared
//! bookkeeping ([`TwoSidedZoInner`]), and the program entrypoints.

use std::collections::{HashMap, HashSet, VecDeque};

use vstd::prelude::*;

use crate::collections::{ascending, sorted_keys};
use crate::compile::{SunStateView, SunTopologyState};
use crate::ids::ObjectId;
use crate::message::Transmission;
use crate::programs::two_sided_zo::phase::{book, clock, state_of, step_now, steps_in};
use crate::topology::appearance::{edge_appearances, node_appearance, shows_edges, shows_vertex};
use crate::topology::{SunAppearance, SunNodeAppearance, SunNodeState, SunTopology};

pub mod branch;
pub mod effect;
pub mod epoch;
pub mod finalize;
pub mod laws;
pub mod phase;
pub mod pipeline;
pub mod program;
pub mod protocol;
pub mod routing;
pub mod schedule;
pub mod shown;

verus! {

broadcast use vstd::std_specs::hash::group_hash_axioms;

/// State of the first propagation branch.
pub struct PropA {
    /// Unfinished nodes and their unresolved incoming-edge counts.
    pub pending: HashMap<u32, usize>,
    /// Unfinished nodes whose incoming edges have all completed.
    pub ready: HashSet<u32>,
}

/// State of the second propagation branch.
pub struct PropB {
    /// Unfinished nodes and their unresolved incoming-edge counts.
    pub pending: HashMap<u32, usize>,
    /// Unfinished nodes whose incoming edges have all completed.
    pub ready: HashSet<u32>,
}

/// Bookkeeping shared by both propagation branches.
pub struct TwoSidedZoInner {
    /// Latest observable orchestration phase reached by each vertex.
    pub node_states: HashMap<u32, SunNodeState>,
    /// 1-based gradient accumulation step associated with each vertex.
    pub node_grad_steps: HashMap<u32, usize>,
    /// Nodes whose first-pass output has been received in the current epoch.
    pub p1_completed: HashSet<u32>,
    /// Nodes whose second pass has been sent in the current epoch.
    pub p2_sent: HashSet<u32>,
    /// Number of propagation microsteps per optimization epoch.
    pub grad_steps: usize,
    /// Current microstep index (0-based) inside the accumulation epoch.
    pub active_micro_step: usize,
    /// First-pass input endpoints keyed by port id.
    pub p1_tx: HashMap<u32, ObjectId>,
    /// Next first-pass endpoints, used between microsteps.
    pub next_p1_tx: HashMap<u32, ObjectId>,
    /// First-pass output endpoints keyed by vertex id.
    pub p1_rx: HashMap<u32, ObjectId>,
    /// Second-pass input endpoints keyed by port id.
    pub p2_tx: HashMap<u32, ObjectId>,
    /// Next second-pass endpoints, used between microsteps.
    pub next_p2_tx: HashMap<u32, ObjectId>,
    /// Second-pass output endpoints keyed by vertex id.
    pub p2_rx: HashMap<u32, ObjectId>,
    /// Potentiation input endpoints keyed by port id.
    pub po_tx: HashMap<u32, ObjectId>,
}

/// Short name of the shared bookkeeping.
pub type SunInner = TwoSidedZoInner;

/// Nothing recorded and no mailbox allocated.
pub open spec fn inner_empty(inner: TwoSidedZoInner) -> bool {
    &&& inner.node_states@ == Map::<u32, SunNodeState>::empty()
    &&& inner.node_grad_steps@ == Map::<u32, usize>::empty()
    &&& inner.p1_completed@ == Set::<u32>::empty()
    &&& inner.p2_sent@ == Set::<u32>::empty()
    &&& inner.grad_steps == 0
    &&& inner.active_micro_step == 0
    &&& inner.p1_tx@ == Map::<u32, ObjectId>::empty()
    &&& inner.next_p1_tx@ == Map::<u32, ObjectId>::empty()
    &&& inner.p1_rx@ == Map::<u32, ObjectId>::empty()
    &&& inner.p2_tx@ == Map::<u32, ObjectId>::empty()
    &&& inner.next_p2_tx@ == Map::<u32, ObjectId>::empty()
    &&& inner.p2_rx@ == Map::<u32, ObjectId>::empty()
    &&& inner.po_tx@ == Map::<u32, ObjectId>::empty()
}

impl Default for TwoSidedZoInner {
    fn default() -> (inner: TwoSidedZoInner)
        ensures
            inner_empty(inner),
    {
        TwoSidedZoInner {
            node_states: HashMap::new(),
            node_grad_steps: HashMap::new(),
            p1_completed: HashSet::new(),
            p2_sent: HashSet::new(),
            grad_steps: 0,
            active_micro_step: 0,
            p1_tx: HashMap::new(),
            next_p1_tx: HashMap::new(),
            p1_rx: HashMap::new(),
            p2_tx: HashMap::new(),
            next_p2_tx: HashMap::new(),
            p2_rx: HashMap::new(),
            po_tx: HashMap::new(),
        }
    }
}

/// Runtime state of a two-sided Sun.
pub struct SunStateWithInner<S> {
    /// Program-neutral graph and observation data.
    pub topology: SunTopology,
    /// Bookkeeping shared by both branches.
    pub shared: TwoSidedZoInner,
    /// First propagation branch.
    pub a: PropA,
    /// Second propagation branch.
    pub b: PropB,
    /// User-provided state threaded through Sun actions and flows.
    pub inner: S,
    /// Generated second-pass root transmissions.
    pub propagation_down_inputs: VecDeque<Transmission>,
    /// Generated first-pass root transmissions, one per accumulation step.
    pub propagation_up_inputs: Vec<Transmission>,
    /// First-pass sink outputs.
    pub propagation_up_outputs: Vec<Transmission>,
    /// Sink outputs of both passes, one pair per accumulation step.
    pub propagation_pairs: Vec<(Transmission, Transmission)>,
    /// First-pass input mailbox of each port, per step.
    pub p1_step_tx: Vec<HashMap<u32, ObjectId>>,
    /// Second-pass input mailbox of each port, per step.
    pub p2_step_tx: Vec<HashMap<u32, ObjectId>>,
    /// First-pass output mailbox of each node, per step.
    pub p1_step_rx: Vec<HashMap<u32, ObjectId>>,
    /// Second-pass output mailbox of each node, per step.
    pub p2_step_rx: Vec<HashMap<u32, ObjectId>>,
    /// Completed first-pass steps per node.
    pub node_p1_completed: HashMap<u32, usize>,
    /// Completed second-pass steps per node.
    pub node_p2_completed: HashMap<u32, usize>,
    /// First-pass steps already sent to each root.
    pub root_p1_sent: HashMap<u32, usize>,
    /// Second-pass steps already sent to each root.
    pub root_p2_sent: HashMap<u32, usize>,
    /// Steps of a pass completed by a node so far.
    pub pipeline_completions: usize,
    /// Steps of a pass that the nodes complete in one epoch.
    pub pipeline_target_completions: usize,
    /// Sink of the finalized graph.
    pub sink_id: Option<u32>,
}

/// No epoch is under way.
pub open spec fn epoch_empty<S>(state: SunStateWithInner<S>) -> bool {
    &&& state.propagation_down_inputs@ == Seq::<Transmission>::empty()
    &&& state.propagation_up_inputs@ == Seq::<Transmission>::empty()
    &&& state.propagation_up_outputs@ == Seq::<Transmission>::empty()
    &&& state.propagation_pairs@ == Seq::<(Transmission, Transmission)>::empty()
    &&& state.p1_step_tx@ == Seq::<HashMap<u32, ObjectId>>::empty()
    &&& state.p2_step_tx@ == Seq::<HashMap<u32, ObjectId>>::empty()
    &&& state.p1_step_rx@ == Seq::<HashMap<u32, ObjectId>>::empty()
    &&& state.p2_step_rx@ == Seq::<HashMap<u32, ObjectId>>::empty()
    &&& state.node_p1_completed@ == Map::<u32, usize>::empty()
    &&& state.node_p2_completed@ == Map::<u32, usize>::empty()
    &&& state.root_p1_sent@ == Map::<u32, usize>::empty()
    &&& state.root_p2_sent@ == Map::<u32, usize>::empty()
    &&& state.pipeline_completions == 0
    &&& state.pipeline_target_completions == 0
    &&& state.sink_id is None
}

/// State of the two-sided program.
pub type TwoSidedZoState<S> = SunStateWithInner<S>;

/// Short name of the two-sided state.
pub type SunState<S> = TwoSidedZoState<S>;

/// Both states are at the same point of the same epoch.
pub open spec fn same_epoch<S>(a: SunStateWithInner<S>, b: SunStateWithInner<S>) -> bool {
    &&& a.propagation_down_inputs == b.propagation_down_inputs
    &&& a.propagation_up_inputs == b.propagation_up_inputs
    &&& a.propagation_up_outputs == b.propagation_up_outputs
    &&& a.propagation_pairs == b.propagation_pairs
    &&& a.p1_step_tx == b.p1_step_tx
    &&& a.p2_step_tx == b.p2_step_tx
    &&& a.p1_step_rx == b.p1_step_rx
    &&& a.p2_step_rx == b.p2_step_rx
    &&& a.node_p1_completed == b.node_p1_completed
    &&& a.node_p2_completed == b.node_p2_completed
    &&& a.root_p1_sent == b.root_p1_sent
    &&& a.root_p2_sent == b.root_p2_sent
    &&& a.pipeline_completions == b.pipeline_completions
    &&& a.pipeline_target_completions == b.pipeline_target_completions
    &&& a.sink_id == b.sink_id
}

impl<S: Default> Default for SunStateWithInner<S> {
    fn default() -> (state: SunStateWithInner<S>)
        ensures
            state.topology.is_empty(),
            state.topology.well_formed(),
            inner_empty(state.shared),
            epoch_empty(state),
            state.a.pending@ == Map::<u32, usize>::empty(),
            state.a.ready@ == Set::<u32>::empty(),
            state.b.pending@ == Map::<u32, usize>::empty(),
            state.b.ready@ == Set::<u32>::empty(),
            call_ensures(S::default, (), state.inner),
    {
        SunStateWithInner {
            topology: SunTopology::default(),
            shared: TwoSidedZoInner::default(),
            a: PropA { pending: HashMap::new(), ready: HashSet::new() },
            b: PropB { pending: HashMap::new(), ready: HashSet::new() },
            inner: S::default(),
            propagation_down_inputs: VecDeque::new(),
            propagation_up_inputs: Vec::new(),
            propagation_up_outputs: Vec::new(),
            propagation_pairs: Vec::new(),
            p1_step_tx: Vec::new(),
            p2_step_tx: Vec::new(),
            p1_step_rx: Vec::new(),
            p2_step_rx: Vec::new(),
            node_p1_completed: HashMap::new(),
            node_p2_completed: HashMap::new(),
            root_p1_sent: HashMap::new(),
            root_p2_sent: HashMap::new(),
            pipeline_completions: 0,
            pipeline_target_completions: 0,
            sink_id: None,
        }
    }
}

impl<S> SunTopologyState for SunStateWithInner<S> {
    open spec fn topology_view(self) -> SunTopology {
        self.topology
    }

    open spec fn same_runtime(self, other: Self) -> bool {
        &&& self.shared == other.shared
        &&& self.a == other.a
        &&& self.b == other.b
        &&& self.inner == other.inner
        &&& same_epoch(self, other)
    }

    fn topology(&self) -> (topology: &SunTopology) {
        &self.topology
    }

    fn topology_mut(&mut self) -> (topology: &mut SunTopology) {
        &mut self.topology
    }
}

/// The accumulation step shown for a node.
pub open spec fn step_shown(inner: TwoSidedZoInner, node: u32) -> usize {
    if inner.node_grad_steps@.contains_key(node) {
        inner.node_grad_steps@[node]
    } else {
        step_now(clock(inner))
    }
}

/// `shown` is the view of a two-sided Sun: every vertex once, by ascending id,
/// in its phase and step, and every edge once.
pub open spec fn shows_sun(
    topology: SunTopology,
    inner: TwoSidedZoInner,
    shown: SunAppearance,
) -> bool {
    &&& shown.finalized == topology.finalized
    &&& shown.grad_steps == steps_in(clock(inner))
    &&& shown.nodes@.len() == ascending(topology.vertices()).len()
    &&& forall|i: int|
        #![trigger shown.nodes@[i]]
        0 <= i < shown.nodes@.len() ==> shows_vertex(
            topology,
            shown.nodes@[i],
            ascending(topology.vertices())[i],
            state_of(book(inner, topology), ascending(topology.vertices())[i]),
            step_shown(inner, ascending(topology.vertices())[i]),
        )
    &&& shows_edges(topology.outgoing_edges(), shown.edges@)
}

impl<S> SunStateWithInner<S> {
    /// Builds a deterministic view of the runtime graph.
    pub fn appearance(&self) -> (shown: SunAppearance)
        ensures
            shows_sun(self.topology, self.shared, shown),
    {
        let ids = sorted_keys(&self.topology.journey_ids);
        let mut nodes: Vec<SunNodeAppearance> = Vec::new();
        let mut i: usize = 0;
        while i < ids.len()
            invariant
                i <= ids.len(),
                nodes.len() == i,
                forall|j: int|
                    #![trigger nodes@[j]]
                    0 <= j < i ==> shows_vertex(
                        self.topology,
                        nodes@[j],
                        ids@[j],
                        state_of(book(self.shared, self.topology), ids@[j]),
                        step_shown(self.shared, ids@[j]),
                    ),
            decreases ids.len() - i,
        {
            let id = ids[i];
            let state = match self.shared.node_states.get(&id) {
                Some(state) => *state,
                None => SunNodeState::Idle,
            };
            let grad_step = match self.shared.node_grad_steps.get(&id) {
                Some(step) => *step,
                None => self.shared.current_grad_step(),
            };
            nodes.push(node_appearance(&self.topology, id, state, grad_step));
            i = i + 1;
        }
        SunAppearance {
            finalized: self.topology.finalized,
            grad_steps: self.shared.steps(),
            nodes,
            edges: edge_appearances(&self.topology),
        }
    }
}

impl<S> SunStateView for SunStateWithInner<S> {
    open spec fn shows(self, shown: SunAppearance) -> bool {
        shows_sun(self.topology, self.shared, shown)
    }

    fn sun_appearance(&self) -> (shown: SunAppearance) {
        self.appearance()
    }
}

impl<S> SunStateWithInner<S> {
    /// Forgets everything of the current epoch.
    pub fn clear_epoch(&mut self)
        ensures
            epoch_empty(*final(self)),
            final(self).topology == old(self).topology,
            final(self).shared == old(self).shared,
            final(self).a == old(self).a,
            final(self).b == old(self).b,
            final(self).inner == old(self).inner,
    {
        self.propagation_down_inputs.clear();
        self.propagation_up_inputs.clear();
        self.propagation_up_outputs.clear();
        self.propagation_pairs.clear();
        self.p1_step_tx.clear();
        self.p2_step_tx.clear();
        self.p1_step_rx.clear();
        self.p2_step_rx.clear();
        self.node_p1_completed.clear();
        self.node_p2_completed.clear();
        self.root_p1_sent.clear();
        self.root_p2_sent.clear();
        self.pipeline_completions = 0;
        self.pipeline_target_completions = 0;
        self.sink_id = None;
    }
}

/// Whether an epoch still needs generated propagations.
pub struct PendingGeneratedPropagationInputs<const N: usize>;

impl<const N: usize> PendingGeneratedPropagationInputs<N> {
    pub fn eval<S>(state: &SunState<S>) -> (pending: bool)
        ensures
            pending == (state.propagation_up_inputs@.len() < N),
    {
        state.propagation_up_inputs.len() < N
    }
}

/// Whether an epoch still awaits completions.
pub struct PendingPipelineWork;

impl PendingPipelineWork {
    pub fn eval<S>(state: &SunState<S>) -> (pending: bool)
        ensures
            pending == (state.pipeline_completions < state.pipeline_target_completions),
    {
        state.pipeline_completions < state.pipeline_target_completions
    }
}

} // verus!
