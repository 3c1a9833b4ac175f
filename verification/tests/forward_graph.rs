use std::collections::HashMap;

use black_hole_flux::compile::action::{
    FinalizeForwardGraph, FinalizeNeutralGraph, GenFusionSeed, GenUuid, SpawnBinary, SpawnUnary,
    SpawnWarpAnimal, SpawnWarpBoundary, VertexDescriptor,
};
use black_hole_flux::compile::label::short_type_label;
use black_hole_flux::compile::register::register_vertex;
use black_hole_flux::contract::{
    ContractDescriptor, DimensionDescriptor, DtypeConstraint, PortDescriptor, TensorDtype,
};
use black_hole_flux::forward::effect::SchedulerDelivery;
use black_hole_flux::forward::pass::{
    CompleteForwardPass, PrepareForwardPass, ProcessForwardNode, SendForwardRoots,
};
use black_hole_flux::forward::pipeline::{
    pipeline_ready_nodes, BeginForwardPipeline, PrepareForwardPipeline,
    ProcessReadyForwardPipelineNode, SendReadyForwardRoots, StoreForwardPipelineInput,
    TakeForwardPipelineOutput,
};
use black_hole_flux::forward::{
    ForwardSunState, NeutralSunState, PendingForwardPipelineInputs, PendingForwardWork,
};
use black_hole_flux::ids::Uuid;
use black_hole_flux::message::{ArtifactDelivery, EmissionId, Potentiation};
use black_hole_flux::nodes::cell::Init;
use black_hole_flux::nodes::fusion::FusionSeed;
use black_hole_flux::programs::driver::{next_serve_step, ServeStep};
use black_hole_flux::programs::forward_only::ForwardOnly;
use black_hole_flux::programs::two_sided_zo::epoch::BroadcastPotentiation;
use black_hole_flux::programs::two_sided_zo::program::DeploymentProgram;
use black_hole_flux::programs::two_sided_zo::SunState;
use black_hole_flux::topology::frontier::sorted_node_ids;
use black_hole_flux::topology::{
    DeclaredEdge, PortTarget, SunNodeState, SunOperationalState, SunTopology,
};

type Payload = (String, String);

fn port(name: &str) -> PortDescriptor {
    PortDescriptor {
        name: name.to_string(),
        dimensions: vec![DimensionDescriptor::Static(3)],
        dtype: DtypeConstraint::Exact(TensorDtype::F32),
    }
}

fn contract(id: u128, input: &str, output: &str) -> ContractDescriptor {
    ContractDescriptor {
        id,
        version: 1,
        inputs: vec![port(input)],
        outputs: vec![port(output)],
    }
}

fn descriptor() -> ContractDescriptor {
    contract(7, "tokens", "tokens")
}

fn add(state: &mut ForwardSunState<()>, vertex_id: u32, port_id: u32, outputs: &[u32]) {
    let ports = vec![(port_id, Uuid::new_v4())];
    register_vertex::<ForwardOnly<()>>(
        state,
        vertex_id,
        format!("Node{vertex_id}"),
        &ports,
        descriptor(),
        outputs
            .iter()
            .map(|&port_id| DeclaredEdge {
                port_id,
                source_contract: descriptor(),
                destination_contract: descriptor(),
            })
            .collect(),
        Uuid::new_v4(),
        None,
    );
}

fn delivery(seed: u128) -> ArtifactDelivery {
    ArtifactDelivery {
        emission_id: EmissionId::new(Uuid::from_u128(seed)),
        recv: Uuid::nil(),
        send: Uuid::nil(),
    }
}

fn begin_pipeline<const MAX_IN_FLIGHT: usize>(state: &mut ForwardSunState<()>) {
    BeginForwardPipeline::<MAX_IN_FLIGHT>::absorb(state, Ok(())).unwrap();
}

#[test]
fn sun_actions_bind_with_custom_state_payload() {
    let state = SunState::<Payload>::default();
    let recv_id = Uuid::new_v4();
    let init = GenUuid::absorb::<DeploymentProgram<Payload, 1>>(Ok(recv_id)).unwrap();
    assert_eq!(init.recv_id, recv_id);

    let drawn = FusionSeed {
        p1_recv_id: Uuid::new_v4(),
        p2_recv_id: Uuid::new_v4(),
        grad_steps: 1,
    };
    let seed = GenFusionSeed::absorb::<DeploymentProgram<Payload, 1>>(Ok(drawn)).unwrap();
    assert_eq!(seed, drawn);

    let broadcast = BroadcastPotentiation::emit(
        &state,
        Potentiation {
            loss_up_bits: 0.1f32.to_bits(),
            loss_down_bits: 0.2f32.to_bits(),
            seed: 7,
        },
    );
    assert_eq!(broadcast.potentiation.seed, 7);

    let seed = Init {
        recv_id: Uuid::new_v4(),
        grad_steps: 1,
    };
    let (effect_seed, _) = SpawnUnary::<1>::emit::<DeploymentProgram<Payload, 1>>(seed);
    assert_eq!(effect_seed, seed);

    let seed = FusionSeed {
        p1_recv_id: Uuid::new_v4(),
        p2_recv_id: Uuid::new_v4(),
        grad_steps: 1,
    };
    let (effect_seed, _) = SpawnBinary::<1, 2>::emit::<DeploymentProgram<Payload, 1>>(seed);
    assert_eq!(effect_seed.p1_recv_id, seed.p1_recv_id);
    assert_eq!(effect_seed.p2_recv_id, seed.p2_recv_id);
}

#[test]
fn warp_actions_seed_boundary_with_spawned_warp_journey() {
    let mut state = SunState::<Payload>::default();
    let init = Init {
        recv_id: Uuid::new_v4(),
        grad_steps: 3,
    };

    let warp_journey_id = Uuid::new_v4();
    let (boundary_init, boundary_carry) =
        SpawnWarpAnimal::absorb::<DeploymentProgram<Payload, 3>>(Ok(warp_journey_id), init)
            .unwrap();
    assert_eq!(boundary_init, init);
    assert_eq!(boundary_carry, warp_journey_id);

    let (boundary_seed, carry) = SpawnWarpBoundary::<1>::emit::<DeploymentProgram<Payload, 3>>((
        boundary_init,
        boundary_carry,
    ));
    assert_eq!(boundary_seed.recv_id, init.recv_id);
    assert_eq!(boundary_seed.grad_steps, init.grad_steps);
    assert_eq!(boundary_seed.warp_journey_id, warp_journey_id);

    let boundary_journey_id = Uuid::new_v4();
    SpawnWarpBoundary::<1>::absorb::<DeploymentProgram<Payload, 3>>(
        &mut state,
        Ok(boundary_journey_id),
        carry,
        "tests::Nested",
        VertexDescriptor {
            animal: "tests::Boundary".to_string(),
            contract: descriptor(),
            edges: vec![],
        },
    )
    .unwrap();

    assert_eq!(
        state.topology.journey_ids.get(&1),
        Some(&boundary_journey_id)
    );
    assert_eq!(
        state.topology.warp_journey_ids.get(&1),
        Some(&warp_journey_id)
    );
    assert_eq!(state.topology.port_vertices.get(&1), Some(&1));
}

#[test]
fn short_type_name_preserves_generic_arguments() {
    assert_eq!(
        short_type_label(
            "crate::tests::GenericType<core::result::Result<alloc::string::String, alloc::vec::Vec<u8>>>"
        ),
        "GenericType<Result<String, Vec<u8>>>"
    );
    assert_eq!(
        short_type_label("my::module::Animal<crate::Inner<leaf::Type>, alloc::vec::Vec<u8>>"),
        "Animal<Inner<Type>, Vec<u8>>"
    );
}

#[test]
fn neutral_forward_pass_routes_typed_artifacts_and_rotates_inboxes() {
    let mut state = ForwardSunState::<()>::default();
    add(&mut state, 0, 0, &[1]);
    add(&mut state, 1, 1, &[]);
    FinalizeForwardGraph::absorb(&mut state, Ok(())).unwrap();

    let delivery = ArtifactDelivery {
        emission_id: EmissionId::new(Uuid::new_v4()),
        recv: Uuid::new_v4(),
        send: Uuid::new_v4(),
    };

    let prepared = PrepareForwardPass::absorb(&mut state, Ok(()), delivery).unwrap();
    assert_eq!(sorted_node_ids(&state.runtime.ready), vec![0]);

    let (root_input, carry) = SendForwardRoots::emit(&state, prepared);
    assert_eq!(root_input.targets.len(), 1);
    assert_eq!(root_input.targets[0].node_id, 0);
    let routed = SendForwardRoots::absorb(&mut state, Ok(vec![0]), carry).unwrap();

    let routed = ProcessForwardNode::absorb(
        &mut state,
        Ok(SchedulerDelivery {
            node_id: 0,
            delivery: routed,
            sent_node_ids: vec![1],
        }),
    )
    .unwrap();
    assert_eq!(sorted_node_ids(&state.runtime.ready), vec![1]);

    let completed = ProcessForwardNode::absorb(
        &mut state,
        Ok(SchedulerDelivery {
            node_id: 1,
            delivery: routed,
            sent_node_ids: vec![],
        }),
    )
    .unwrap();
    assert!(state.runtime.pending.is_empty());

    let next_inboxes = state.runtime.next_inputs.clone();
    CompleteForwardPass::absorb(&mut state, Ok(()), completed).unwrap();

    assert_eq!(state.runtime.inputs, next_inboxes);
    assert_eq!(
        state.topology.node_operational_states.get(&0),
        Some(&SunOperationalState::Succeeded)
    );
    assert_eq!(
        state.topology.node_operational_states.get(&1),
        Some(&SunOperationalState::Succeeded)
    );
    assert_eq!(
        state
            .topology
            .node_phase_annotations
            .get(&1)
            .map(String::as_str),
        Some("forward")
    );
}

#[test]
fn strategy_limit_bounds_generated_pipeline_inputs() {
    let mut state = ForwardSunState::<()>::default();
    state.runtime.pipeline_inputs = vec![delivery(1), delivery(2), delivery(3)];
    state.runtime.completed_outputs.push_back(delivery(4));

    begin_pipeline::<2>(&mut state);

    assert_eq!(state.runtime.pipeline_window, 2);
    assert!(state.runtime.pipeline_inputs.is_empty());
    assert!(state.runtime.completed_outputs.is_empty());
    assert!(PendingForwardPipelineInputs::eval(&state));

    state.runtime.pipeline_inputs = vec![delivery(5), delivery(6)];
    assert!(!PendingForwardPipelineInputs::eval(&state));
}

#[test]
fn zero_strategy_limit_still_allows_one_input() {
    let mut state = ForwardSunState::<()>::default();
    begin_pipeline::<0>(&mut state);
    assert_eq!(state.runtime.pipeline_window, 1);
}

#[test]
fn next_input_enters_root_while_previous_input_advances_downstream() {
    let mut state = ForwardSunState::<()>::default();
    state.topology.journey_ids.insert(0, Uuid::new_v4());
    state.topology.journey_ids.insert(1, Uuid::new_v4());
    state.topology.incoming.insert(0, vec![]);
    state.topology.incoming.insert(1, vec![0]);
    state.topology.outgoing.insert(
        0,
        vec![PortTarget {
            port_id: 1,
            vertex_id: 1,
        }],
    );
    state.topology.outgoing.insert(1, vec![]);
    state.runtime.pipeline_inputs = vec![delivery(1), delivery(2)];
    state.runtime.node_completed = HashMap::from([(0, 1), (1, 0)]);
    state.runtime.root_sent = HashMap::from([(0, 2)]);

    assert_eq!(pipeline_ready_nodes(&state), vec![0, 1]);
}

#[test]
fn root_waits_for_its_previous_input_before_accepting_another() {
    let mut state = ForwardSunState::<()>::default();
    state.topology.journey_ids.insert(0, Uuid::new_v4());
    state.topology.incoming.insert(0, vec![]);
    state.topology.outgoing.insert(0, vec![]);
    state.runtime.pipeline_inputs = vec![delivery(1), delivery(2)];
    state.runtime.node_completed = HashMap::from([(0, 0)]);
    state.runtime.root_sent = HashMap::from([(0, 1)]);

    assert_eq!(pipeline_ready_nodes(&state), vec![0]);

    state.runtime.node_completed.insert(0, 1);
    assert!(pipeline_ready_nodes(&state).is_empty());
}

#[test]
fn pipeline_status_is_published_in_appearance() {
    let mut topology = SunTopology::default();
    topology.journey_ids.insert(4, Uuid::new_v4());

    topology.record_pipeline_started(&vec![4]);
    let appearance = topology.appearance();
    assert_eq!(appearance.nodes[0].state, SunNodeState::Idle);
    assert_eq!(
        appearance.nodes[0].operational_state,
        SunOperationalState::Running
    );
    assert_eq!(
        appearance.nodes[0].phase_annotation.as_deref(),
        Some("pipeline")
    );
    assert_eq!(appearance.nodes[0].state_sequence, 1);

    topology.record_pipeline_completed(4);
    assert_eq!(
        topology.appearance().nodes[0].operational_state,
        SunOperationalState::Succeeded
    );
}

#[test]
fn heterogeneous_forward_graph_compiles_without_two_sided_state() {
    let featurize = contract(0x10, "raw", "features");
    let score = contract(0x20, "features", "scores");
    let mut state = ForwardSunState::<()>::default();
    assert!(state.runtime.inputs.is_empty());
    assert!(state.runtime.next_inputs.is_empty());
    assert!(state.runtime.outputs.is_empty());

    SpawnUnary::<0>::absorb::<ForwardOnly<()>>(
        &mut state,
        Ok(Uuid::new_v4()),
        Init {
            recv_id: Uuid::new_v4(),
            grad_steps: 1,
        },
        VertexDescriptor {
            animal: "tests::FeatureNode".to_string(),
            contract: featurize.clone(),
            edges: vec![DeclaredEdge {
                port_id: 1,
                source_contract: featurize,
                destination_contract: score.clone(),
            }],
        },
    )
    .unwrap();
    SpawnUnary::<1>::absorb::<ForwardOnly<()>>(
        &mut state,
        Ok(Uuid::new_v4()),
        Init {
            recv_id: Uuid::new_v4(),
            grad_steps: 1,
        },
        VertexDescriptor {
            animal: "tests::ScoreNode".to_string(),
            contract: score,
            edges: vec![],
        },
    )
    .unwrap();
    FinalizeForwardGraph::absorb(&mut state, Ok(())).unwrap();
    assert_eq!(state.runtime.sink_id, Some(1));
    assert_eq!(state.appearance().nodes[0].label, "FeatureNode");
}

#[test]
fn checkpoint_evaluate_program_uses_neutral_state() {
    let mut state = NeutralSunState::<()>::default();
    assert!(!state.appearance().finalized);
    let error = FinalizeNeutralGraph::absorb(&mut state, Ok(())).unwrap_err();
    assert_eq!(
        error.message(),
        "sun graph must contain at least one vertex"
    );
}

#[test]
fn an_edge_between_different_bundles_is_refused() {
    let featurize = contract(0x10, "raw", "features");
    let score = contract(0x20, "images", "scores");
    let mut state = ForwardSunState::<()>::default();
    register_vertex::<ForwardOnly<()>>(
        &mut state,
        0,
        "A".to_string(),
        &vec![(0, Uuid::new_v4())],
        featurize.clone(),
        vec![DeclaredEdge {
            port_id: 1,
            source_contract: featurize,
            destination_contract: score.clone(),
        }],
        Uuid::new_v4(),
        None,
    );
    register_vertex::<ForwardOnly<()>>(
        &mut state,
        1,
        "B".to_string(),
        &vec![(1, Uuid::new_v4())],
        score,
        vec![],
        Uuid::new_v4(),
        None,
    );
    let error = FinalizeForwardGraph::absorb(&mut state, Ok(())).unwrap_err();
    assert_eq!(
        error.message(),
        "artifact bundle mismatch for edge 0 -> port 1"
    );
    assert!(!state.topology.finalized);
}

#[test]
fn a_window_flows_through_the_pipeline_in_order() {
    let mut state = ForwardSunState::<()>::default();
    add(&mut state, 0, 0, &[1]);
    add(&mut state, 1, 1, &[]);
    FinalizeForwardGraph::absorb(&mut state, Ok(())).unwrap();
    begin_pipeline::<2>(&mut state);
    for seed in [1, 2] {
        assert!(PendingForwardPipelineInputs::eval(&state));
        StoreForwardPipelineInput::absorb(&mut state, Ok(()), delivery(seed)).unwrap();
    }
    assert!(!PendingForwardPipelineInputs::eval(&state));
    PrepareForwardPipeline::absorb(&mut state, Ok(())).unwrap();
    assert!(!PendingForwardWork::eval(&state));

    // The root accepts the first artifact only; the second follows once it is done.
    let sends = SendReadyForwardRoots::emit(&state);
    assert_eq!(sends.len(), 1);
    assert_eq!(sends[0].delivery.emission_id, delivery(1).emission_id);
    SendReadyForwardRoots::absorb(&mut state, Ok(vec![0])).unwrap();
    assert!(SendReadyForwardRoots::emit(&state).is_empty());
    assert_eq!(pipeline_ready_nodes(&state), vec![0]);

    let step = |state: &mut ForwardSunState<()>, node_id, seed, sent: Vec<u32>| {
        let waiting = ProcessReadyForwardPipelineNode::emit(state);
        assert!(waiting.rx_endpoints.iter().any(|(node, _)| *node == node_id));
        ProcessReadyForwardPipelineNode::absorb(
            state,
            Ok(SchedulerDelivery {
                node_id,
                delivery: delivery(seed),
                sent_node_ids: sent,
            }),
        )
        .unwrap();
    };
    step(&mut state, 0, 11, vec![1]);
    let sends = SendReadyForwardRoots::emit(&state);
    assert_eq!(sends.len(), 1);
    assert_eq!(sends[0].delivery.emission_id, delivery(2).emission_id);
    SendReadyForwardRoots::absorb(&mut state, Ok(vec![0])).unwrap();
    assert_eq!(pipeline_ready_nodes(&state), vec![0, 1]);
    step(&mut state, 0, 12, vec![1]);
    step(&mut state, 1, 21, vec![]);
    step(&mut state, 1, 22, vec![]);
    assert_eq!(
        state.runtime.pipeline_completions,
        state.runtime.pipeline_target_completions
    );
    let first = TakeForwardPipelineOutput::emit(&state);
    assert_eq!(first.emission_id, delivery(21).emission_id);
    let taken = TakeForwardPipelineOutput::absorb(&mut state, Ok(()), first).unwrap();
    assert_eq!(taken.emission_id, delivery(21).emission_id);
    assert_eq!(
        TakeForwardPipelineOutput::emit(&state).emission_id,
        delivery(22).emission_id
    );
}

#[test]
fn serving_processes_nodes_until_none_is_pending() {
    let mut state = ForwardSunState::<()>::default();
    assert_eq!(
        next_serve_step(&state, ServeStep::Finalize),
        ServeStep::Source
    );
    assert_eq!(
        next_serve_step(&state, ServeStep::SendRoots),
        ServeStep::Complete
    );
    state.runtime.pending.insert(3, 0);
    assert_eq!(
        next_serve_step(&state, ServeStep::ProcessNode),
        ServeStep::ProcessNode
    );
    assert_eq!(
        next_serve_step(&state, ServeStep::Conclude),
        ServeStep::Source
    );
}

#[test]
fn contracts_must_agree_at_both_ends_of_an_edge() {
    let build = |source_version: u32, destination: u128| {
        let mut source = contract(1, "a", "b");
        source.version = source_version;
        let mut state = ForwardSunState::<()>::default();
        register_vertex::<ForwardOnly<()>>(
            &mut state,
            0,
            "A".to_string(),
            &vec![(0, Uuid::new_v4())],
            contract(1, "a", "b"),
            vec![DeclaredEdge {
                port_id: 1,
                source_contract: source,
                destination_contract: contract(destination, "b", "c"),
            }],
            Uuid::new_v4(),
            None,
        );
        register_vertex::<ForwardOnly<()>>(
            &mut state,
            1,
            "B".to_string(),
            &vec![(1, Uuid::new_v4())],
            contract(2, "b", "c"),
            vec![],
            Uuid::new_v4(),
            None,
        );
        FinalizeForwardGraph::absorb(&mut state, Ok(()))
    };
    assert!(build(1, 2).is_ok());
    assert_eq!(
        build(9, 2).unwrap_err().message(),
        "source contract mismatch for edge 0 -> port 1"
    );
    assert_eq!(
        build(1, 3).unwrap_err().message(),
        "destination contract mismatch for edge 0 -> port 1"
    );
}

#[test]
fn two_producers_for_one_port_are_refused() {
    let mut state = ForwardSunState::<()>::default();
    add(&mut state, 0, 0, &[2]);
    add(&mut state, 1, 1, &[2]);
    add(&mut state, 2, 2, &[]);
    let error = FinalizeForwardGraph::absorb(&mut state, Ok(())).unwrap_err();
    assert_eq!(
        error.message(),
        "input port 2 has 2 producers; expected at most one"
    );
}

#[test]
fn vertices_without_contracts_are_refused() {
    let mut state = ForwardSunState::<()>::default();
    add(&mut state, 0, 0, &[1]);
    add(&mut state, 1, 1, &[]);
    state.topology.node_contracts.remove(&1);
    let error = FinalizeForwardGraph::absorb(&mut state, Ok(())).unwrap_err();
    assert_eq!(
        error.message(),
        "destination vertex 1 did not register an operation contract"
    );
    state.topology.node_contracts.remove(&0);
    let error = FinalizeForwardGraph::absorb(&mut state, Ok(())).unwrap_err();
    assert_eq!(
        error.message(),
        "vertex 0 did not register an operation contract"
    );
}
