use std::collections::{HashMap, HashSet};

use black_hole_flux::compile::register::register_vertex;
use black_hole_flux::contract::ContractDescriptor;
use black_hole_flux::error::AtomError;
use black_hole_flux::failure::Failure;
use black_hole_flux::ids::{ObjectId, Uuid};
use black_hole_flux::message::{EmissionId, Potentiation, Transmission};
use black_hole_flux::programs::driver::{next_epoch_step, EpochStep};
use black_hole_flux::programs::two_sided_zo::branch::{
    InitializePropagation, PendingNotEmpty, ProcessNextNode, SendRootPropagation,
};
use black_hole_flux::programs::two_sided_zo::effect::{
    send_propagation, BroadcastPotentiationEffect, NodeTransmission, RootPropagationSend,
    SendRootPropagationEffect, SendRootTaskPropagationsEffect, WaitForNodeTransmissionEffect,
};
use black_hole_flux::programs::two_sided_zo::epoch::{
    BeginDownPropagationPhase, BeginGradientAccumulation, BroadcastPotentiation,
    CollectedPropagationPairs, NextDownPropagationInput, RecordDownPropagationOutput,
    RecordUpPropagationOutput, StoreDownPropagationInput, StorePropagationInputPair,
};
use black_hole_flux::programs::two_sided_zo::finalize::{reset_epoch_mailboxes, FinalizeGraph};
use black_hole_flux::programs::two_sided_zo::pipeline::PreparePropagationPipeline;
use black_hole_flux::programs::two_sided_zo::program::DeploymentProgram;
use black_hole_flux::programs::two_sided_zo::schedule::{
    ProcessReadyPipelineNode, SendReadyRootTasks,
};
use black_hole_flux::programs::two_sided_zo::{PropA, SunState};
use black_hole_flux::topology::frontier::advance_frontier;
use black_hole_flux::topology::{DeclaredEdge, PortTarget, PropagationTarget, SunNodeState};

fn contract() -> ContractDescriptor {
    ContractDescriptor {
        id: 1,
        version: 1,
        inputs: vec![],
        outputs: vec![],
    }
}

fn add(state: &mut SunState<()>, vertex: u32, ports: &[u32], outputs: &[u32]) {
    let ports: Vec<_> = ports.iter().map(|&port| (port, Uuid::new_v4())).collect();
    register_vertex::<DeploymentProgram<(), 2>>(
        state,
        vertex,
        format!("Node{vertex}"),
        &ports,
        contract(),
        outputs
            .iter()
            .map(|&port_id| DeclaredEdge {
                port_id,
                source_contract: contract(),
                destination_contract: contract(),
            })
            .collect(),
        Uuid::new_v4(),
        None,
    );
}

fn diamond() -> SunState<()> {
    let mut state = SunState::default();
    add(&mut state, 0, &[0], &[1, 2]);
    add(&mut state, 1, &[1], &[3]);
    add(&mut state, 2, &[2], &[4]);
    add(&mut state, 3, &[3, 4], &[]);
    FinalizeGraph::<2>::absorb(&mut state, Ok(())).unwrap();
    state
}

fn id(bits: u128) -> Uuid {
    Uuid::from_u128(bits)
}

fn propagation(seed: u128) -> Transmission {
    Transmission::Propagation {
        emission_id: EmissionId::new(Uuid::from_u128(seed)),
        recv: Uuid::nil(),
        send: Uuid::nil(),
    }
}

fn emission(transmission: &Transmission) -> u128 {
    transmission.propagation_emission_id().unwrap().id().as_u128()
}

/// Every node of the graph as its mailboxes see it: it awaits a message at
/// the inbox it was last told, and publishes where that message says.
struct World {
    inboxes: HashMap<u32, ObjectId>,
    written: HashMap<ObjectId, Transmission>,
}

impl World {
    fn deliver(&mut self, port: u32, mailbox: ObjectId, transmission: Transmission) {
        assert_eq!(
            self.inboxes[&port], mailbox,
            "a message goes where its port listens"
        );
        let Transmission::Propagation {
            emission_id,
            recv,
            send,
        } = transmission
        else {
            panic!("only propagations are delivered here");
        };
        self.inboxes.insert(port, recv);
        self.written.insert(
            send,
            Transmission::Propagation {
                emission_id: EmissionId::new(Uuid::from_u128(emission_id.id().as_u128() + 1000)),
                recv: Uuid::nil(),
                send: Uuid::nil(),
            },
        );
    }
}

#[test]
fn an_epoch_runs_to_its_broadcast_and_moves_every_port_on() {
    let mut state = diamond();
    let mut world = World {
        inboxes: state.shared.p1_tx.clone(),
        written: HashMap::new(),
    };
    let mut step = EpochStep::Finalize;
    let mut generated = 0;
    let mut processed = 0;
    let mut pairs = Vec::new();
    loop {
        step = next_epoch_step::<(), 2>(&state, step);
        match step {
            EpochStep::Begin => BeginGradientAccumulation::absorb(&mut state, Ok(())).unwrap(),
            EpochStep::Generate => generated += 1,
            EpochStep::Store => StorePropagationInputPair::absorb(
                &mut state,
                Ok(()),
                (propagation(10 + generated), propagation(20 + generated)),
            )
            .unwrap(),
            EpochStep::Prepare => {
                PreparePropagationPipeline::<2>::absorb(&mut state, Ok(())).unwrap()
            }
            EpochStep::SendRoots => {
                let sends = SendReadyRootTasks::emit(&state);
                let shown: Vec<String> = sends.iter().map(|_| String::new()).collect();
                let plan = SendRootTaskPropagationsEffect::plan(&sends, &shown);
                for send in &plan.sends {
                    world.deliver(send.port_id, send.mailbox, send.transmission);
                }
                SendReadyRootTasks::absorb(&mut state, plan.outcome).unwrap();
            }
            EpochStep::ProcessNode => {
                let input = ProcessReadyPipelineNode::emit(&state);
                WaitForNodeTransmissionEffect::begin(&input).unwrap();
                let (node, transmission) = input
                    .rx_endpoints
                    .iter()
                    .find_map(|(node, rx)| world.written.remove(rx).map(|found| (*node, found)))
                    .expect("some ready node has published");
                let plan = WaitForNodeTransmissionEffect::forward(&input, node, transmission, "");
                for send in &plan.sends {
                    world.deliver(send.port_id, send.mailbox, send.transmission);
                }
                let completion =
                    WaitForNodeTransmissionEffect::finish(node, transmission, plan.outcome);
                ProcessReadyPipelineNode::absorb(&mut state, completion).unwrap();
                processed += 1;
            }
            EpochStep::CollectPairs => {
                pairs = CollectedPropagationPairs::<2>::absorb(&state, Ok(())).unwrap()
            }
            EpochStep::Policy => {}
            EpochStep::Broadcast => break,
            EpochStep::Finalize => panic!("a graph is finalized once"),
        }
    }
    assert_eq!(generated, 2);
    let counters = |state: &SunState<()>| {
        (
            state.node_p1_completed.clone(),
            state.node_p2_completed.clone(),
            state.pipeline_completions,
        )
    };
    let spent = counters(&state);
    for node_id in [0, 3, 99] {
        let late = NodeTransmission {
            node_id,
            transmission: propagation(1),
            sent_node_ids: vec![],
        };
        assert!(ProcessReadyPipelineNode::absorb(&mut state, Ok(late)).is_err());
        assert_eq!(counters(&state), spent);
    }
    assert_eq!(processed, 4 * 2 * 2);
    // Three nodes on the way to the sink's output, each adding its mark.
    let shown: Vec<_> = pairs
        .iter()
        .map(|(up, down)| (emission(up), emission(down)))
        .collect();
    assert_eq!(shown, vec![(3011, 3021), (3012, 3022)]);

    let outcome = Potentiation {
        loss_up_bits: 0.75f32.to_bits(),
        loss_down_bits: 0.5f32.to_bits(),
        seed: 9,
    };
    let input = BroadcastPotentiation::emit(&state, outcome);
    assert_eq!(input.port_endpoints.len(), 5);
    for (port, mailbox) in &input.port_endpoints {
        assert_eq!(world.inboxes[port], *mailbox, "the epoch ends where the outcome comes");
    }
    let (sends, sent) = BroadcastPotentiationEffect::plan(&input);
    assert_eq!(sends.len(), 5);
    let next: HashMap<u32, ObjectId> = sent.next_p1_tx_map.iter().copied().collect();
    BroadcastPotentiation::absorb(&mut state, Ok(sent)).unwrap();
    assert_eq!(state.shared.p1_tx, next);
    assert!(state.propagation_pairs.is_empty());
    assert!(state
        .appearance()
        .nodes
        .iter()
        .all(|node| node.state == SunNodeState::Optimization));
    assert_eq!(
        next_epoch_step::<(), 2>(&state, EpochStep::Broadcast),
        EpochStep::Begin
    );
}

#[test]
fn an_unfinished_epoch_has_no_pairs_to_collect() {
    let state = diamond();
    let error = CollectedPropagationPairs::<2>::absorb(&state, Ok(())).unwrap_err();
    assert_eq!(error.message(), "expected 2 propagation pairs, got 0");
}

#[test]
fn an_epoch_needs_its_pairs_before_it_is_prepared() {
    let mut state = diamond();
    let error = PreparePropagationPipeline::<2>::absorb(&mut state, Ok(())).unwrap_err();
    assert!(!error.message().is_empty());
    let error = PreparePropagationPipeline::<2>::absorb(
        &mut state,
        Err(AtomError::Spawn("x".to_string())),
    )
    .unwrap_err();
    assert!(!error.message().is_empty());
}

#[test]
fn accumulation_needs_at_least_one_step() {
    let mut state = SunState::<()>::default();
    add(&mut state, 0, &[0], &[]);
    let error = FinalizeGraph::<0>::absorb(&mut state, Ok(())).unwrap_err();
    assert_eq!(
        error.message(),
        "gradient accumulation steps must be at least 1"
    );
    let error =
        FinalizeGraph::<1>::absorb(&mut state, Err(AtomError::Spawn("x".to_string()))).unwrap_err();
    assert_eq!(error.message(), "finalize graph failed");
}

#[test]
fn a_branch_processes_nodes_as_they_become_ready() {
    let mut state = diamond();
    let carry =
        InitializePropagation::absorb(&mut state.a, &state.topology, propagation(1)).unwrap();
    let (input, carry) =
        SendRootPropagation::emit::<PropA>(&state.topology, &state.shared, carry);
    assert_eq!(input.targets.len(), 1);
    assert_eq!(input.targets[0].input_id, state.shared.p1_tx[&0]);
    assert_eq!(
        input.targets[0].next_input_id,
        state.shared.next_p1_tx[&0]
    );
    assert_eq!(input.targets[0].output_id, state.shared.p1_rx[&0]);
    let plan = SendRootPropagationEffect::plan(&input, "");
    assert_eq!(plan.sends.len(), 1);
    SendRootPropagation::absorb::<PropA>(
        &mut state.topology,
        &mut state.shared,
        plan.outcome,
        carry,
    )
    .unwrap();
    for (node, sent) in [(0, vec![1, 2]), (2, vec![3]), (1, vec![3]), (3, vec![])] {
        assert!(PendingNotEmpty::eval(&state.a));
        ProcessNextNode::absorb::<PropA>(
            &mut state.a,
            &mut state.topology,
            &mut state.shared,
            Ok(NodeTransmission {
                node_id: node,
                transmission: propagation(1),
                sent_node_ids: sent,
            }),
        )
        .unwrap();
    }
    assert!(!PendingNotEmpty::eval(&state.a));
}

#[test]
fn a_frontier_refuses_what_is_not_ready() {
    let target = |vertex_id| PortTarget {
        port_id: vertex_id,
        vertex_id,
    };
    let refused = |pending: &[(u32, usize)], ready: &[u32], node, outgoing: Vec<PortTarget>| {
        let mut pending: HashMap<u32, usize> = pending.iter().copied().collect();
        let mut ready: HashSet<u32> = ready.iter().copied().collect();
        let before = (pending.clone(), ready.clone());
        let error: Failure =
            advance_frontier(&mut pending, &mut ready, node, &outgoing).unwrap_err();
        assert_eq!((pending, ready), before, "a refusal changes nothing");
        error.message()
    };
    assert_eq!(
        refused(&[], &[], 4, vec![]),
        "completed node 4 is not pending"
    );
    assert_eq!(
        refused(&[(4, 2)], &[], 4, vec![]),
        "completed node 4 still has 2 unresolved predecessors"
    );
    assert_eq!(
        refused(&[(4, 0)], &[], 4, vec![]),
        "completed node 4 is not in the ready frontier"
    );
    assert_eq!(
        refused(&[(4, 0)], &[4], 4, vec![target(5)]),
        "downstream node 5 is not pending"
    );
    assert_eq!(
        refused(&[(4, 0), (5, 1)], &[4], 4, vec![target(5), target(5)]),
        "downstream node 5 has 1 unresolved predecessors, cannot resolve 2"
    );
}

#[test]
fn passes_in_turn_rotate_their_mailboxes_and_pair_their_outputs() {
    let mut state = diamond();
    BeginGradientAccumulation::absorb(&mut state, Ok(())).unwrap();
    for step in 0..2u128 {
        let up = StoreDownPropagationInput::absorb(
            &mut state,
            Ok(()),
            (propagation(step), propagation(10 + step)),
        )
        .unwrap();
        assert_eq!(emission(&up), step);
        let next = state.shared.next_p1_tx.clone();
        let inboxes = state.shared.p1_tx.clone();
        RecordUpPropagationOutput::absorb(&mut state, Ok(()), propagation(20 + step)).unwrap();
        if step == 0 {
            assert_eq!(state.shared.p1_tx, next);
            assert_eq!(state.shared.active_micro_step, 1);
            assert!(state.shared.next_p1_tx.is_empty());
        } else {
            assert_eq!(state.shared.p1_tx, inboxes);
        }
    }
    BeginDownPropagationPhase::<2>::absorb(&mut state, Ok(())).unwrap();
    assert_eq!(state.shared.active_micro_step, 0);
    for step in 0..2u128 {
        let down = NextDownPropagationInput::absorb(&mut state, Ok(())).unwrap();
        assert_eq!(emission(&down), 10 + step);
        RecordDownPropagationOutput::absorb(&mut state, Ok(()), propagation(30 + step)).unwrap();
    }
    let pairs = CollectedPropagationPairs::<2>::absorb(&state, Ok(())).unwrap();
    let shown: Vec<_> = pairs
        .iter()
        .map(|(up, down)| (emission(up), emission(down)))
        .collect();
    assert_eq!(shown, vec![(20, 30), (21, 31)]);

    assert_eq!(
        NextDownPropagationInput::absorb(&mut state, Ok(()))
            .unwrap_err()
            .message(),
        "missing queued down propagation input"
    );
    assert_eq!(
        RecordDownPropagationOutput::absorb(&mut state, Ok(()), propagation(1))
            .unwrap_err()
            .message(),
        "missing first-pass output for pair index 2"
    );
    assert_eq!(
        BeginDownPropagationPhase::<2>::absorb(&mut state, Ok(()))
            .unwrap_err()
            .message(),
        "expected 2 queued down inputs, got 0"
    );
}

#[test]
fn an_epoch_can_be_given_fresh_mailboxes() {
    let mut state = diamond();
    let before = state.shared.p2_tx.clone();
    let first = state.shared.p1_tx.clone();
    reset_epoch_mailboxes(&state.topology, &mut state.shared);
    assert_eq!(state.shared.p1_tx, first);
    assert_eq!(state.shared.p2_tx.len(), before.len());
    for (port, mailbox) in &before {
        assert_ne!(state.shared.p2_tx[port], *mailbox);
    }
    assert_eq!(state.shared.p1_rx.len(), 4);
    assert_eq!(state.shared.next_p2_tx.len(), 5);
}

#[test]
fn only_propagations_are_sent_on() {
    let target = PropagationTarget {
        node_id: 4,
        port_id: 5,
        input_id: id(6),
        next_input_id: id(7),
        output_id: id(8),
    };
    let outcome = Transmission::Potentiation {
        potentiation: Potentiation {
            loss_up_bits: 1.5f32.to_bits(),
            loss_down_bits: 2.0f32.to_bits(),
            seed: 3,
        },
        recv: id(9),
    };
    let sends = vec![
        RootPropagationSend {
            target,
            transmission: propagation(1),
        },
        RootPropagationSend {
            target,
            transmission: outcome,
        },
        RootPropagationSend {
            target,
            transmission: propagation(2),
        },
    ];
    let shown = vec!["a".to_string(), "b".to_string(), "c".to_string()];
    let plan = SendRootTaskPropagationsEffect::plan(&sends, &shown);
    assert_eq!(plan.sends.len(), 1);
    assert_eq!(plan.sends[0].mailbox, id(6));
    assert_eq!(
        plan.outcome.unwrap_err().message(),
        "transmission error: expected propagation input, got b"
    );
    assert_eq!(
        send_propagation(&target, &outcome, "loss 1.5")
            .unwrap_err()
            .message(),
        "transmission error: expected propagation input, got loss 1.5"
    );
}
