use black_hole_flux::compile::action::{SpawnBinary, SpawnUnary};
use black_hole_flux::compile::label::{plain_type_label, strip_type_generics};
use black_hole_flux::failure::Failure;
use black_hole_flux::ids::Uuid;
use black_hole_flux::message::Potentiation;
use black_hole_flux::nodes::cell::Init;
use black_hole_flux::nodes::fusion::FusionSeed;
use black_hole_flux::programs::two_sided_zo::effect::{
    BroadcastPotentiationEffect, BroadcastPotentiationResult,
};
use black_hole_flux::programs::two_sided_zo::epoch;
use black_hole_flux::programs::two_sided_zo::program::DeploymentProgram;
use black_hole_flux::programs::two_sided_zo::SunState;
use black_hole_flux::sun::{register_vertex, BroadcastPotentiation, FinalizeGraph};
use black_hole_flux::topology::frontier::{
    advance_frontier, initial_ready_nodes, pending_dependency_counts, sorted_node_ids,
};
use black_hole_flux::topology::{SunEdgeAppearance, SunNodeState};

fn add_vertex(state: &mut SunState<()>, vertex_id: u32, port_ids: &[u32], outputs: &[u32]) {
    let ports: Vec<_> = port_ids
        .iter()
        .map(|&port_id| (port_id, Uuid::new_v4()))
        .collect();
    register_vertex(
        state,
        vertex_id,
        format!("Node{vertex_id}"),
        &ports,
        outputs.to_vec(),
        Uuid::new_v4(),
    );
}

fn finalize(state: &mut SunState<()>) -> Result<(), Failure> {
    FinalizeGraph::absorb(state, Ok(()))
}

#[test]
fn action_sun_state_supports_custom_inner_payload() {
    let mut state = SunState::<(String, String)>::default();
    state.inner.0.push_str("left");
    state.inner.1.push_str("right");
    assert_eq!(state.inner, ("left".to_string(), "right".to_string()));
}

#[test]
fn action_sun_actions_bind_with_custom_state_payload() {
    let state = SunState::<(String, String)>::default();
    let input = epoch::BroadcastPotentiation::emit(
        &state,
        Potentiation {
            loss_up_bits: 0.1f32.to_bits(),
            loss_down_bits: 0.2f32.to_bits(),
            seed: 0,
        },
    );
    assert!(input.port_endpoints.is_empty());
    assert_eq!(input.potentiation.loss_up_bits, 0.1f32.to_bits());

    let seed = Init {
        recv_id: Uuid::new_v4(),
        grad_steps: 1,
    };
    let (effect_seed, _) =
        SpawnUnary::<1>::emit::<DeploymentProgram<(String, String), 1>>(seed);
    assert_eq!(effect_seed, seed);

    let seed = FusionSeed {
        p1_recv_id: Uuid::new_v4(),
        p2_recv_id: Uuid::new_v4(),
        grad_steps: 1,
    };
    let (effect_seed, _) =
        SpawnBinary::<1, 2>::emit::<DeploymentProgram<(String, String), 1>>(seed);
    assert_eq!(effect_seed.p1_recv_id, seed.p1_recv_id);
    assert_eq!(effect_seed.p2_recv_id, seed.p2_recv_id);
}

#[test]
fn short_type_name_omits_generic_arguments() {
    assert_eq!(
        plain_type_label(
            "crate::tests::GenericType<core::result::Result<alloc::string::String, alloc::vec::Vec<u8>>>"
        ),
        "GenericType"
    );
    assert_eq!(
        strip_type_generics("crate::Animal<module::Inner<leaf::Type>>"),
        "crate::Animal"
    );
}

#[test]
fn action_finalization_rejects_duplicate_port_ownership() {
    let mut state = SunState::default();
    add_vertex(&mut state, 0, &[0], &[]);
    add_vertex(&mut state, 1, &[0], &[]);

    let error = finalize(&mut state).unwrap_err();
    assert!(error.message().contains("duplicate input port ownership"));
}

#[test]
fn action_finalization_rejects_missing_output_ports() {
    let mut state = SunState::default();
    add_vertex(&mut state, 0, &[0], &[9]);

    let error = finalize(&mut state).unwrap_err();
    assert!(error.message().contains("targets missing port 9"));
}

#[test]
fn action_finalization_rejects_partially_connected_binary_vertices() {
    let mut state = SunState::default();
    add_vertex(&mut state, 0, &[0], &[1]);
    add_vertex(&mut state, 1, &[1, 2], &[]);

    let error = finalize(&mut state).unwrap_err();
    assert!(error.message().contains("incorrect producer counts"));
}

#[test]
fn action_finalization_rejects_cycles() {
    let mut state = SunState::default();
    add_vertex(&mut state, 0, &[0], &[1]);
    add_vertex(&mut state, 1, &[1], &[0]);

    let error = finalize(&mut state).unwrap_err();
    assert!(error.message().contains("contains a cycle"));
}

#[test]
fn action_finalization_rejects_multiple_sinks() {
    let mut state = SunState::default();
    add_vertex(&mut state, 0, &[0], &[]);
    add_vertex(&mut state, 1, &[1], &[]);

    let error = finalize(&mut state).unwrap_err();
    assert!(error.message().contains("exactly one sink"));
}

#[test]
fn action_completed_node_immediately_unblocks_deeper_successor() {
    let mut state = SunState::default();
    add_vertex(&mut state, 0, &[0], &[1, 2]);
    add_vertex(&mut state, 1, &[1], &[3]);
    add_vertex(&mut state, 2, &[2], &[4]);
    add_vertex(&mut state, 3, &[3], &[5]);
    add_vertex(&mut state, 4, &[4, 5], &[]);
    finalize(&mut state).unwrap();

    let topology = &state.topology;
    let mut pending = pending_dependency_counts(topology);
    let mut ready = initial_ready_nodes(&pending);
    assert_eq!(sorted_node_ids(&ready), vec![0]);

    advance_frontier(&mut pending, &mut ready, 0, &topology.outgoing[&0]).unwrap();
    assert_eq!(sorted_node_ids(&ready), vec![1, 2]);

    // Node 1 finishes while its same-layer sibling, node 2, is still
    // pending. Its child becomes ready immediately instead of waiting for
    // the rest of the layer to complete.
    advance_frontier(&mut pending, &mut ready, 1, &topology.outgoing[&1]).unwrap();
    assert_eq!(sorted_node_ids(&ready), vec![2, 3]);
}

#[test]
fn action_appearance_contains_deterministic_port_aware_topology() {
    let mut state = SunState::default();
    add_vertex(&mut state, 1, &[1], &[3]);
    add_vertex(&mut state, 0, &[0], &[2]);
    add_vertex(&mut state, 2, &[2, 3], &[]);
    finalize(&mut state).unwrap();

    let appearance = state.appearance();
    assert!(appearance.finalized);
    assert_eq!(
        appearance
            .nodes
            .iter()
            .map(|node| (
                node.id,
                node.label.as_str(),
                node.input_ports.clone(),
                node.state
            ))
            .collect::<Vec<_>>(),
        vec![
            (0, "Node0", vec![0], SunNodeState::Idle),
            (1, "Node1", vec![1], SunNodeState::Idle),
            (2, "Node2", vec![2, 3], SunNodeState::Idle),
        ]
    );
    assert!(
        appearance
            .nodes
            .iter()
            .all(|node| node.journey_id != Uuid::nil()),
        "each node should expose its spawned child workflow journey id"
    );
    assert_eq!(
        appearance.edges,
        vec![
            SunEdgeAppearance {
                source: 0,
                target: 2,
                target_port: 2,
            },
            SunEdgeAppearance {
                source: 1,
                target: 2,
                target_port: 3,
            },
        ]
    );
}

#[test]
fn action_propagation_two_waits_for_propagation_one_completion() {
    let mut state = SunState::default();
    add_vertex(&mut state, 0, &[0], &[]);
    let node = vec![0];

    state
        .shared
        .record_propagation_sent(&mut state.topology, &node, SunNodeState::Propagation2);
    state
        .shared
        .record_propagation_sent(&mut state.topology, &node, SunNodeState::Propagation1);
    assert_eq!(
        state.appearance().nodes[0].state,
        SunNodeState::Propagation1,
        "sending propagation 2 must not hide in-flight propagation 1"
    );
    assert_eq!(state.appearance().nodes[0].state_sequence, 1);

    state
        .shared
        .record_propagation_completed(&mut state.topology, 0, SunNodeState::Propagation1);
    assert_eq!(
        state.appearance().nodes[0].state,
        SunNodeState::Propagation2,
        "propagation 2 becomes visible after propagation 1 emits"
    );
    assert_eq!(
        state.appearance().nodes[0].state_sequence,
        2,
        "each visible propagation phase advances the sequence"
    );

    state
        .shared
        .record_optimization_sent(&mut state.topology, &node);
    assert_eq!(
        state.appearance().nodes[0].state,
        SunNodeState::Optimization
    );
    assert_eq!(state.appearance().nodes[0].state_sequence, 3);

    state
        .shared
        .record_propagation_sent(&mut state.topology, &node, SunNodeState::Propagation1);
    assert_eq!(
        state.appearance().nodes[0].state,
        SunNodeState::Propagation1
    );
    assert_eq!(state.appearance().nodes[0].state_sequence, 4);

    state
        .shared
        .record_propagation_sent(&mut state.topology, &node, SunNodeState::Propagation2);
    assert_eq!(
        state.appearance().nodes[0].state,
        SunNodeState::Propagation1,
        "the prior epoch's completion must not expose propagation 2 early"
    );
    assert_eq!(state.appearance().nodes[0].state_sequence, 4);

    state
        .shared
        .record_propagation_completed(&mut state.topology, 0, SunNodeState::Propagation1);
    assert_eq!(
        state.appearance().nodes[0].state,
        SunNodeState::Propagation2
    );
    assert_eq!(state.appearance().nodes[0].state_sequence, 5);
}

#[test]
fn action_propagation_two_is_exposed_when_sent_after_propagation_one_completes() {
    let mut state = SunState::default();
    add_vertex(&mut state, 0, &[0], &[]);
    let node = vec![0];

    state
        .shared
        .record_propagation_sent(&mut state.topology, &node, SunNodeState::Propagation1);
    state
        .shared
        .record_propagation_completed(&mut state.topology, 0, SunNodeState::Propagation1);
    state
        .shared
        .record_propagation_sent(&mut state.topology, &node, SunNodeState::Propagation2);

    assert_eq!(
        state.appearance().nodes[0].state,
        SunNodeState::Propagation2
    );
    assert_eq!(state.appearance().nodes[0].state_sequence, 2);
}

#[test]
fn a_port_claimed_twice_keeps_its_first_inbox() {
    let mut state = SunState::<()>::default();
    let first = Uuid::from_u128(1);
    register_vertex(
        &mut state,
        0,
        "A".to_string(),
        &vec![(0, first)],
        vec![],
        Uuid::from_u128(10),
    );
    register_vertex(
        &mut state,
        1,
        "B".to_string(),
        &vec![(0, Uuid::from_u128(2)), (1, Uuid::from_u128(3))],
        vec![],
        Uuid::from_u128(11),
    );
    assert_eq!(state.shared.p1_tx[&0], first);
    assert_eq!(state.shared.p1_tx[&1], Uuid::from_u128(3));
    assert_eq!(state.topology.port_vertices[&0], 0);
    assert!(state.topology.duplicate_ports.contains(&0));
    assert!(!state.topology.duplicate_ports.contains(&1));
}

#[test]
fn untyped_finalization_allocates_two_mailboxes_for_ports_and_nodes() {
    let mut state = SunState::default();
    add_vertex(&mut state, 0, &[0], &[1]);
    add_vertex(&mut state, 1, &[1], &[]);
    let first = state.shared.p1_tx[&1];
    finalize(&mut state).unwrap();
    assert_eq!(state.shared.p1_tx[&1], first);
    for port in [0, 1] {
        assert!(!state.shared.p2_tx[&port].is_nil());
        assert_ne!(state.shared.p2_tx[&port], state.shared.po_tx[&port]);
        assert_ne!(state.shared.p1_rx[&port], state.shared.p2_rx[&port]);
    }
}

#[test]
fn untyped_broadcast_moves_every_port_to_its_next_inbox() {
    let mut state = SunState::default();
    add_vertex(&mut state, 0, &[0], &[]);
    finalize(&mut state).unwrap();
    let before = state.shared.po_tx[&0];
    let outcome = Potentiation {
        loss_up_bits: 1.5f32.to_bits(),
        loss_down_bits: 1.25f32.to_bits(),
        seed: 3,
    };
    let input = epoch::BroadcastPotentiation::emit(&state, outcome);
    assert_eq!(input.port_endpoints, vec![(0, before)]);
    let (sends, sent) = BroadcastPotentiationEffect::plan(&input);
    assert_eq!(sends.len(), 1);
    let next = sent.next_p1_tx_map[0].1;
    let reported = BroadcastPotentiationResult {
        next_p1_tx_map: sent.next_p1_tx_map.clone(),
    };
    BroadcastPotentiation::absorb(&mut state, Ok(reported)).unwrap();
    assert_eq!(state.shared.p1_tx[&0], next);
    assert_ne!(state.shared.po_tx[&0], before);
    assert_eq!(
        state.appearance().nodes[0].state,
        SunNodeState::Optimization
    );
}
