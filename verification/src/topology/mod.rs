//! Graph descriptors and the neutral runtime topology model.
//!
//! This module is strategy-neutral: it describes what a compiled Sun graph
//! looks like (vertices, typed edges, contracts, ports) and how progress is
//! observed. Strategy-specific state lives in [`crate::programs`].

use std::collections::{HashMap, HashSet};

use vstd::prelude::*;

use crate::contract::ContractDescriptor;
use crate::ids::{ObjectId, Uuid};
use crate::topology::graph::{lists, IncomingEdges, OutgoingEdges};

pub mod appearance;
pub mod display;
pub mod frontier;
pub mod graph;
pub mod laws;
pub mod observe;
pub mod order;
pub mod resolve;
pub mod targets;
pub mod validity;

pub use frontier::{
    advance_frontier, initial_ready_nodes, pending_dependency_counts, port_ids, root_vertex_ids,
    sorted_node_ids, vertex_ids,
};

verus! {

/// Initialization payload for one spawned warp boundary cell.
#[derive(Clone, Copy, Debug, PartialEq, Eq, Structural)]
pub struct BoundaryInit {
    /// First propagation mailbox that this boundary should await.
    pub recv_id: ObjectId,
    /// Number of propagation microsteps to run per perturbation phase.
    pub grad_steps: usize,
    /// Journey id of the nested warp animal associated with this boundary.
    pub warp_journey_id: Uuid,
}

impl Default for BoundaryInit {
    fn default() -> (init: BoundaryInit)
        ensures
            init.recv_id == Uuid::spec_nil(),
            init.grad_steps == 1,
            init.warp_journey_id == Uuid::spec_nil(),
    {
        BoundaryInit { recv_id: Uuid::nil(), grad_steps: 1, warp_journey_id: Uuid::nil() }
    }
}

/// The latest orchestration phase reached by a Sun node.
#[derive(Clone, Copy, Debug, PartialEq, Eq, PartialOrd, Ord, Structural)]
pub enum SunNodeState {
    /// The node has been spawned but has not been sent propagation.
    Idle,
    /// The first propagation pass has been sent to the node.
    Propagation1,
    /// The first pass has emitted and the second pass has been sent to the node.
    Propagation2,
    /// The step's loss has been sent to the node.
    Optimization,
}

impl Default for SunNodeState {
    fn default() -> (state: SunNodeState)
        ensures
            state == SunNodeState::Idle,
    {
        SunNodeState::Idle
    }
}

/// Program-independent execution status for an observable topology node.
#[derive(Clone, Copy, Debug, PartialEq, Eq, Structural)]
pub enum SunOperationalState {
    Queued,
    Running,
    Succeeded,
    Failed,
}

impl Default for SunOperationalState {
    fn default() -> (state: SunOperationalState)
        ensures
            state == SunOperationalState::Queued,
    {
        SunOperationalState::Queued
    }
}

/// One node in the observable Sun topology.
#[derive(Clone, Debug, PartialEq, Eq)]
pub struct SunNodeAppearance {
    pub id: u32,
    /// Journey id of the spawned child workflow represented by this node.
    pub journey_id: Uuid,
    /// Journey id of the nested warp animal when this node is a warp vertex;
    /// nil for ordinary vertices.
    pub warp_journey_id: Uuid,
    pub label: String,
    pub input_ports: Vec<u32>,
    /// Phase of a two-sided program; idle for every other program.
    pub state: SunNodeState,
    /// Monotonic logical phase position, including phases crossed between snapshots.
    pub state_sequence: u64,
    /// 1-based gradient accumulation step currently associated with this node.
    pub grad_step: usize,
    /// Neutral execution state shared by training and serving programs.
    pub operational_state: SunOperationalState,
    /// Optional strategy-selected phase label (for example `forward`).
    pub phase_annotation: Option<String>,
}

/// One port-aware directed edge in the observable Sun topology.
#[derive(Clone, Copy, Debug, PartialEq, Eq, Structural)]
pub struct SunEdgeAppearance {
    pub source: u32,
    pub target: u32,
    pub target_port: u32,
}

/// Projection of a running Sun for observers.
#[derive(Clone, Debug, PartialEq, Eq)]
pub struct SunAppearance {
    /// True after the runtime graph has been resolved and validated.
    pub finalized: bool,
    /// Number of gradient accumulation microsteps per optimization step.
    pub grad_steps: usize,
    pub nodes: Vec<SunNodeAppearance>,
    pub edges: Vec<SunEdgeAppearance>,
}

/// Erased form of a typed edge. Separate binaries and rolling deployments must
/// still agree on these descriptors at run time.
#[derive(Debug)]
pub struct DeclaredEdge {
    pub port_id: u32,
    pub source_contract: ContractDescriptor,
    pub destination_contract: ContractDescriptor,
}

/// A resolved edge target. `port_id` identifies the destination mailbox while
/// `vertex_id` identifies the single animal and output shared by all of its
/// ports.
#[derive(Clone, Copy, Debug, PartialEq, Eq, Structural)]
pub struct PortTarget {
    pub port_id: u32,
    pub vertex_id: u32,
}

/// Mailboxes needed to drive one cell through a propagation pass.
#[derive(Clone, Copy, Debug, PartialEq, Eq, Structural)]
pub struct PropagationTarget {
    /// Internal vertex that owns this destination port.
    pub node_id: u32,
    /// Public destination port whose independent mailbox receives the envelope.
    pub port_id: u32,
    /// Object id where the cell is currently waiting for a transmission.
    pub input_id: ObjectId,
    /// Object id the cell should wait on after this propagation.
    pub next_input_id: ObjectId,
    /// Object id where the cell should publish its output.
    pub output_id: ObjectId,
}

/// Declared and resolved topology with program-neutral observation data.
///
/// Program mailboxes, phase counters, and strategy state deliberately do not
/// live here. They belong to the runtime selected by the program.
#[derive(Debug)]
pub struct SunTopology {
    pub finalized: bool,
    pub journey_ids: HashMap<u32, Uuid>,
    pub warp_journey_ids: HashMap<u32, Uuid>,
    pub node_labels: HashMap<u32, String>,
    pub node_operational_states: HashMap<u32, SunOperationalState>,
    pub node_phase_annotations: HashMap<u32, String>,
    pub node_state_sequences: HashMap<u32, u64>,
    pub vertex_ports: HashMap<u32, Vec<u32>>,
    pub port_vertices: HashMap<u32, u32>,
    pub declared_outputs: HashMap<u32, Vec<u32>>,
    pub node_contracts: HashMap<u32, ContractDescriptor>,
    pub declared_edges: HashMap<u32, Vec<DeclaredEdge>>,
    pub duplicate_ports: HashSet<u32>,
    pub incoming: HashMap<u32, Vec<u32>>,
    pub outgoing: HashMap<u32, Vec<PortTarget>>,
}

impl SunTopology {
    /// The registered vertices.
    pub open spec fn vertices(self) -> Set<u32> {
        self.journey_ids@.dom()
    }

    /// The resolved edges leaving each vertex.
    pub open spec fn outgoing_edges(self) -> OutgoingEdges {
        lists(self.outgoing@)
    }

    /// The resolved sources of each vertex.
    pub open spec fn incoming_edges(self) -> IncomingEdges {
        lists(self.incoming@)
    }

    /// Only registered vertices declare outputs and own ports.
    pub open spec fn well_formed(self) -> bool {
        &&& self.declared_outputs@.dom().subset_of(self.vertices())
        &&& forall|port: u32| #[trigger]
            self.port_vertices@.contains_key(port) ==> self.vertices().contains(
                self.port_vertices@[port],
            )
    }

    /// Nothing registered yet.
    pub open spec fn is_empty(self) -> bool {
        &&& !self.finalized
        &&& self.journey_ids@ == Map::<u32, Uuid>::empty()
        &&& self.warp_journey_ids@ == Map::<u32, Uuid>::empty()
        &&& self.node_labels@ == Map::<u32, String>::empty()
        &&& self.node_operational_states@ == Map::<u32, SunOperationalState>::empty()
        &&& self.node_phase_annotations@ == Map::<u32, String>::empty()
        &&& self.node_state_sequences@ == Map::<u32, u64>::empty()
        &&& self.vertex_ports@ == Map::<u32, Vec<u32>>::empty()
        &&& self.port_vertices@ == Map::<u32, u32>::empty()
        &&& self.declared_outputs@ == Map::<u32, Vec<u32>>::empty()
        &&& self.node_contracts@ == Map::<u32, ContractDescriptor>::empty()
        &&& self.declared_edges@ == Map::<u32, Vec<DeclaredEdge>>::empty()
        &&& self.duplicate_ports@ == Set::<u32>::empty()
        &&& self.incoming@ == Map::<u32, Vec<u32>>::empty()
        &&& self.outgoing@ == Map::<u32, Vec<PortTarget>>::empty()
    }
}

impl Default for SunTopology {
    fn default() -> (topology: SunTopology)
        ensures
            topology.is_empty(),
            topology.well_formed(),
    {
        SunTopology {
            finalized: false,
            journey_ids: HashMap::new(),
            warp_journey_ids: HashMap::new(),
            node_labels: HashMap::new(),
            node_operational_states: HashMap::new(),
            node_phase_annotations: HashMap::new(),
            node_state_sequences: HashMap::new(),
            vertex_ports: HashMap::new(),
            port_vertices: HashMap::new(),
            declared_outputs: HashMap::new(),
            node_contracts: HashMap::new(),
            declared_edges: HashMap::new(),
            duplicate_ports: HashSet::new(),
            incoming: HashMap::new(),
            outgoing: HashMap::new(),
        }
    }
}

} // verus!
