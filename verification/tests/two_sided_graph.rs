use black_hole_flux::compile::register::register_vertex;
use black_hole_flux::contract::{
    ContractDescriptor, DimensionDescriptor, DtypeConstraint, PortDescriptor, TensorDtype,
};
use black_hole_flux::failure::Failure;
use black_hole_flux::ids::Uuid;
use black_hole_flux::message::{EmissionId, Transmission};
use black_hole_flux::programs::two_sided_zo::finalize::FinalizeGraph;
use black_hole_flux::programs::two_sided_zo::pipeline::{ready_nodes, PreparePropagationPipeline};
use black_hole_flux::programs::two_sided_zo::program::DeploymentProgram;
use black_hole_flux::programs::two_sided_zo::SunState;
use black_hole_flux::topology::frontier::{
    advance_frontier, initial_ready_nodes, pending_dependency_counts, sorted_node_ids,
};
use black_hole_flux::topology::{DeclaredEdge, SunEdgeAppearance, SunNodeState};

fn dark_tokens(name: &str) -> PortDescriptor {
    PortDescriptor {
        name: name.to_string(),
        dimensions: vec![DimensionDescriptor::Dynamic, DimensionDescriptor::Static(2)],
        dtype: DtypeConstraint::Exact(TensorDtype::F32),
    }
}

fn descriptor() -> ContractDescriptor {
    ContractDescriptor {
        id: 7,
        version: 1,
        inputs: vec![dark_tokens("tokens")],
        outputs: vec![dark_tokens("tokens")],
    }
}

fn add_vertex(state: &mut SunState<()>, vertex_id: u32, port_ids: &[u32], outputs: &[u32]) {
    let ports: Vec<_> = port_ids
        .iter()
        .map(|&port_id| (port_id, Uuid::new_v4()))
        .collect();
    register_vertex::<DeploymentProgram<(), 1>>(
        state,
        vertex_id,
        format!("Node{vertex_id}"),
        &ports,
        descriptor(),
        outputs
            .iter()
            .map(|&port_id| DeclaredEdge {
                port_id,
                source_contract: descriptor(),
                destination_contract: descriptor(),
            })
            .collect(),
        Uuid::new_v4(),
        None,
    );
}

fn record_sent(state: &mut SunState<()>, nodes: &[u32], phase: SunNodeState) {
    state
        .shared
        .record_propagation_sent(&mut state.topology, &nodes.to_vec(), phase);
}

fn record_completed(state: &mut SunState<()>, node: u32, phase: SunNodeState) {
    state
        .shared
        .record_propagation_completed(&mut state.topology, node, phase);
}

fn record_optimized(state: &mut SunState<()>, nodes: &[u32]) {
    state
        .shared
        .record_optimization_sent(&mut state.topology, &nodes.to_vec());
}

fn finalize(state: &mut SunState<()>) -> Result<(), Failure> {
    FinalizeGraph::<1>::absorb(state, Ok(()))
}

fn finalize_with_steps<const STEPS: usize>(state: &mut SunState<()>) -> Result<(), Failure> {
    FinalizeGraph::<STEPS>::absorb(state, Ok(()))
}

fn propagation(seed: u128) -> Transmission {
    Transmission::Propagation {
        emission_id: EmissionId::new(Uuid::from_u128(seed)),
        recv: Uuid::new_v4(),
        send: Uuid::new_v4(),
    }
}

fn prepare_pipeline_with_steps<const STEPS: usize>(
    state: &mut SunState<()>,
) -> Result<(), Failure> {
    state.propagation_up_inputs = (0..STEPS)
        .map(|step| propagation(100 + step as u128))
        .collect();
    state.propagation_down_inputs = (0..STEPS)
        .map(|step| propagation(200 + step as u128))
        .collect();
    PreparePropagationPipeline::<STEPS>::absorb(state, Ok(()))
}

#[test]
fn sun_state_supports_custom_inner_payload() {
    let mut state = SunState::<(String, String)>::default();
    state.inner.0.push_str("left");
    state.inner.1.push_str("right");
    assert_eq!(state.inner, ("left".to_string(), "right".to_string()));
}

#[test]
fn finalization_rejects_duplicate_port_ownership() {
    let mut state = SunState::default();
    add_vertex(&mut state, 0, &[0], &[]);
    add_vertex(&mut state, 1, &[0], &[]);

    let error = finalize(&mut state).unwrap_err();
    assert!(error.message().contains("duplicate input port ownership"));
    assert_eq!(error.message(), "duplicate input port ownership: [0]");
}

#[test]
fn finalization_rejects_missing_output_ports() {
    let mut state = SunState::default();
    add_vertex(&mut state, 0, &[0], &[9]);

    let error = finalize(&mut state).unwrap_err();
    assert!(error.message().contains("targets missing port 9"));
}

#[test]
fn finalization_rejects_a_destination_contract_changed_after_compilation() {
    let mut state = SunState::default();
    add_vertex(&mut state, 0, &[0], &[1]);
    add_vertex(&mut state, 1, &[1], &[]);

    let mut wrong = descriptor();
    wrong.version += 1;
    state.topology.node_contracts.insert(1, wrong);

    let error = finalize(&mut state).unwrap_err();
    assert!(
        error
            .message()
            .contains("destination contract mismatch for edge 0 -> port 1"),
        "{}",
        error.message()
    );
}

#[test]
fn finalization_rejects_partially_connected_binary_vertices() {
    let mut state = SunState::default();
    add_vertex(&mut state, 0, &[0], &[1]);
    add_vertex(&mut state, 1, &[1, 2], &[]);

    let error = finalize(&mut state).unwrap_err();
    assert!(error.message().contains("incorrect producer counts"));
    assert_eq!(
        error.message(),
        "vertex 1 has incorrect producer counts for ports [1, 2]: [1, 0]"
    );
}

#[test]
fn finalization_rejects_cycles() {
    let mut state = SunState::default();
    add_vertex(&mut state, 0, &[0], &[1]);
    add_vertex(&mut state, 1, &[1], &[0]);

    let error = finalize(&mut state).unwrap_err();
    assert!(error.message().contains("contains a cycle"));
}

#[test]
fn finalization_rejects_multiple_sinks() {
    let mut state = SunState::default();
    add_vertex(&mut state, 0, &[0], &[]);
    add_vertex(&mut state, 1, &[1], &[]);

    let error = finalize(&mut state).unwrap_err();
    assert!(error.message().contains("exactly one sink"));
    assert_eq!(
        error.message(),
        "sun graph must contain exactly one sink; found [0, 1]"
    );
}

#[test]
fn completed_node_immediately_unblocks_deeper_successor() {
    let mut state = SunState::default();
    add_vertex(&mut state, 0, &[0], &[1, 2]);
    add_vertex(&mut state, 1, &[1], &[3]);
    add_vertex(&mut state, 2, &[2], &[4]);
    add_vertex(&mut state, 3, &[3], &[5]);
    add_vertex(&mut state, 4, &[4, 5], &[]);
    finalize(&mut state).unwrap();

    let topology = &state.topology;
    let mut pending = pending_dependency_counts(topology);
    let mut ready = initial_ready_nodes(&pending);
    assert_eq!(sorted_node_ids(&ready), vec![0]);

    advance_frontier(&mut pending, &mut ready, 0, &topology.outgoing[&0]).unwrap();
    assert_eq!(sorted_node_ids(&ready), vec![1, 2]);

    // Node 1 finishes while its same-layer sibling, node 2, is still
    // pending. Its child becomes ready immediately instead of waiting for
    // the rest of the layer to complete.
    advance_frontier(&mut pending, &mut ready, 1, &topology.outgoing[&1]).unwrap();
    assert_eq!(sorted_node_ids(&ready), vec![2, 3]);
}

#[test]
fn pipeline_scheduler_allows_branch_progress_without_global_step_barrier() {
    let mut state = SunState::default();
    add_vertex(&mut state, 0, &[0], &[2]);
    add_vertex(&mut state, 1, &[1], &[3]);
    add_vertex(&mut state, 2, &[2], &[4]);
    add_vertex(&mut state, 3, &[3], &[5]);
    add_vertex(&mut state, 4, &[4, 5], &[]);
    finalize_with_steps::<2>(&mut state).unwrap();
    prepare_pipeline_with_steps::<2>(&mut state).unwrap();

    // Root 0 and its child 2 complete step 1, then root 0 completes step 2
    // while the sibling branch rooted at 1 has not finished step 1 yet.
    state.root_p1_sent.insert(0, 2);
    state.root_p1_sent.insert(1, 1);
    state.node_p1_completed.insert(0, 2);
    state.node_p1_completed.insert(1, 0);
    state.node_p1_completed.insert(2, 1);
    state.node_p1_completed.insert(3, 0);
    state.node_p1_completed.insert(4, 0);

    let ready = ready_nodes(&state);
    assert!(
        ready.contains(&2),
        "node 2 should be ready for p1 step 2 without waiting for branch rooted at node 1"
    );
}

#[test]
fn appearance_contains_deterministic_port_aware_topology() {
    let mut state = SunState::default();
    add_vertex(&mut state, 1, &[1], &[3]);
    add_vertex(&mut state, 0, &[0], &[2]);
    add_vertex(&mut state, 2, &[2, 3], &[]);
    finalize(&mut state).unwrap();

    let appearance = state.appearance();
    assert!(appearance.finalized);
    assert_eq!(appearance.grad_steps, 1);
    assert_eq!(
        appearance
            .nodes
            .iter()
            .map(|node| (
                node.id,
                node.label.as_str(),
                node.input_ports.clone(),
                node.state,
                node.grad_step,
            ))
            .collect::<Vec<_>>(),
        vec![
            (0, "Node0", vec![0], SunNodeState::Idle, 1),
            (1, "Node1", vec![1], SunNodeState::Idle, 1),
            (2, "Node2", vec![2, 3], SunNodeState::Idle, 1),
        ]
    );
    assert!(
        appearance
            .nodes
            .iter()
            .all(|node| node.journey_id != Uuid::nil()),
        "each node should expose its spawned child workflow journey id"
    );
    assert_eq!(
        appearance.edges,
        vec![
            SunEdgeAppearance {
                source: 0,
                target: 2,
                target_port: 2,
            },
            SunEdgeAppearance {
                source: 1,
                target: 2,
                target_port: 3,
            },
        ]
    );
}

#[test]
fn propagation_two_waits_for_propagation_one_completion() {
    let mut state = SunState::default();
    add_vertex(&mut state, 0, &[0], &[]);

    record_sent(&mut state, &[0], SunNodeState::Propagation2);
    record_sent(&mut state, &[0], SunNodeState::Propagation1);
    assert_eq!(
        state.appearance().nodes[0].state,
        SunNodeState::Propagation1,
        "sending propagation 2 must not hide in-flight propagation 1"
    );
    assert_eq!(state.appearance().nodes[0].state_sequence, 1);

    record_completed(&mut state, 0, SunNodeState::Propagation1);
    assert_eq!(
        state.appearance().nodes[0].state,
        SunNodeState::Propagation2,
        "propagation 2 becomes visible after propagation 1 emits"
    );
    assert_eq!(
        state.appearance().nodes[0].state_sequence,
        2,
        "each visible propagation phase advances the sequence"
    );

    record_optimized(&mut state, &[0]);
    assert_eq!(
        state.appearance().nodes[0].state,
        SunNodeState::Optimization
    );
    assert_eq!(state.appearance().nodes[0].state_sequence, 3);

    record_sent(&mut state, &[0], SunNodeState::Propagation1);
    assert_eq!(
        state.appearance().nodes[0].state,
        SunNodeState::Propagation1
    );
    assert_eq!(state.appearance().nodes[0].state_sequence, 4);

    record_sent(&mut state, &[0], SunNodeState::Propagation2);
    assert_eq!(
        state.appearance().nodes[0].state,
        SunNodeState::Propagation1,
        "the prior epoch's completion must not expose propagation 2 early"
    );
    assert_eq!(state.appearance().nodes[0].state_sequence, 4);

    record_completed(&mut state, 0, SunNodeState::Propagation1);
    assert_eq!(
        state.appearance().nodes[0].state,
        SunNodeState::Propagation2
    );
    assert_eq!(state.appearance().nodes[0].state_sequence, 5);
}

#[test]
fn propagation_two_is_exposed_when_sent_after_propagation_one_completes() {
    let mut state = SunState::default();
    add_vertex(&mut state, 0, &[0], &[]);

    record_sent(&mut state, &[0], SunNodeState::Propagation1);
    record_completed(&mut state, 0, SunNodeState::Propagation1);
    record_sent(&mut state, &[0], SunNodeState::Propagation2);

    assert_eq!(
        state.appearance().nodes[0].state,
        SunNodeState::Propagation2
    );
    assert_eq!(state.appearance().nodes[0].state_sequence, 2);
}

#[test]
fn appearance_tracks_per_node_gradient_step() {
    let mut state = SunState::default();
    add_vertex(&mut state, 0, &[0], &[1]);
    add_vertex(&mut state, 1, &[1], &[]);
    finalize_with_steps::<4>(&mut state).unwrap();

    record_sent(&mut state, &[0], SunNodeState::Propagation1);
    let appearance = state.appearance();
    assert_eq!(appearance.grad_steps, 4);
    assert_eq!(
        appearance
            .nodes
            .iter()
            .find(|node| node.id == 0)
            .unwrap()
            .grad_step,
        1
    );
    assert_eq!(
        appearance
            .nodes
            .iter()
            .find(|node| node.id == 1)
            .unwrap()
            .grad_step,
        1
    );

    state.shared.active_micro_step = 2;
    record_sent(&mut state, &[0], SunNodeState::Propagation1);
    record_completed(&mut state, 0, SunNodeState::Propagation1);
    record_sent(&mut state, &[0], SunNodeState::Propagation2);
    let appearance = state.appearance();
    let node0 = appearance.nodes.iter().find(|node| node.id == 0).unwrap();
    assert_eq!(node0.state, SunNodeState::Propagation2);
    assert_eq!(node0.grad_step, 3);

    record_optimized(&mut state, &[0]);
    let appearance = state.appearance();
    let node0 = appearance.nodes.iter().find(|node| node.id == 0).unwrap();
    assert_eq!(node0.state, SunNodeState::Optimization);
    assert_eq!(node0.grad_step, 4);
}
