use black_hole_flux::animal::Progenitor;
use black_hole_flux::error::AtomError;
use black_hole_flux::ids::Uuid;
use black_hole_flux::message::{ArtifactDelivery, EmissionId, Potentiation, Transmission};
use black_hole_flux::model_config::{DefaultConfig, ModelConfig};
use black_hole_flux::nodes::atom::{
    ExtractQuarkInferBackoffResult, InferenceAction, InferenceEvent, MassInfer,
};
use black_hole_flux::nodes::boundary;
use black_hole_flux::nodes::cell::action::{
    AdvanceGradientStep, BeginGradientAccumulation, CheckpointOperation, GenerateModelIdEffect,
    HasPendingGradientStep, InitRecvId, MassInferStep, Optimize, OptimizeOperation, PerturbUp,
    PrepareAtomInput, Propagation, StartModel, StartOperation, Transmit, WaitForArtifact,
    WaitForPotentiation, WaitForPropagation,
};
use black_hole_flux::nodes::cell::effect::{
    MassOptimize, MassStart, WaitForPotentiationEffect, WaitForPropagationEffect,
};
use black_hole_flux::nodes::cell::{checkpoint_due, CellState, CheckpointSettings, Init};
use black_hole_flux::nodes::flow::{next_cell_step, next_step, NodeKind, NodeStep, Phase};
use black_hole_flux::nodes::fusion::action::{
    InitFusion, LossTexts, ReceivedPotentiation, WaitForFusionPotentiationAction,
    WaitForFusionPotentiationForOptimize, WaitForFusionPropagationAction,
};
use black_hole_flux::nodes::fusion::{FusionSeed, FusionState};
use black_hole_flux::nodes::meld::{
    port_wait_failed, InitMeld, MeldPort, MeldSeed, MeldState, WaitForMeldPotentiation,
    WaitForMeldPotentiationAction, WaitForMeldPropagation, WaitForMeldPropagationAction,
};
use black_hole_flux::nodes::twin::{
    stack, LeftStackEffect, RandStackEffect, RightStackEffect, StackSide, Stackable,
};
use black_hole_flux::nodes::warp::{self, BoundaryState, ObserveWarp, PerturbWarp};
use black_hole_flux::ops::{
    arrived, may_wait, pause_before_retry, propagation_of, LONG_POLL_TIMEOUT_MS, POLL_PAUSE_NS,
};
use black_hole_flux::ray::Ray;
use black_hole_flux::topology::BoundaryInit;

fn id(bits: u128) -> Uuid {
    Uuid::from_u128(bits)
}

fn emission(bits: u128) -> EmissionId {
    EmissionId::new(id(bits))
}

fn outcome(up: f32, down: f32, seed: u64) -> Potentiation {
    Potentiation {
        loss_up_bits: up.to_bits(),
        loss_down_bits: down.to_bits(),
        seed,
    }
}

fn losses(p1: (f32, f32), p2: (f32, f32)) -> LossTexts {
    LossTexts {
        p1_up: p1.0.to_string(),
        p1_down: p1.1.to_string(),
        p2_up: p2.0.to_string(),
        p2_down: p2.1.to_string(),
    }
}

fn lost() -> AtomError {
    AtomError::Transmission("lost".to_string())
}

struct FrozenConfig;
impl ModelConfig for FrozenConfig {
    const FROZEN: Option<bool> = Some(true);
}

struct CheckpointConfig;
impl ModelConfig for CheckpointConfig {
    const CHECKPOINT: Option<u128> = Some(42);
}

struct OscillationConfig;
impl ModelConfig for OscillationConfig {
    const OSCILLATION_STEPS: Option<u32> = Some(10);
    const OSCILLATION_OFFSET: Option<u32> = Some(20);
}

#[test]
fn default_config_emits_no_overrides() {
    assert!(DefaultConfig::quark_model_config().is_none());
}

#[test]
fn frozen_override_emits_model_config() {
    let config = FrozenConfig::quark_model_config().expect("expected override config");
    assert_eq!(config.frozen, Some(true));
}

#[test]
fn checkpoint_override_emits_model_config() {
    let config = CheckpointConfig::quark_model_config().expect("expected override config");
    assert_eq!(config.checkpoint_id, Some(Uuid::from_u128(42)));
}

#[test]
fn oscillation_overrides_emit_model_config() {
    let config = OscillationConfig::quark_model_config().expect("expected override config");
    assert_eq!(config.oscillation_steps, Some(10));
    assert_eq!(config.oscillation_offset, Some(20));
}

#[test]
fn progenitor_observe_reports_cell_frozen_state() {
    let mut state = CellState::default();
    state.is_frozen = true;
    assert_eq!(Progenitor::observe(&state), Ray { frozen: true });
}

#[test]
fn a_propagation_gives_back_its_emission() {
    let transmission = Transmission::Propagation {
        emission_id: emission(11),
        recv: Uuid::nil(),
        send: Uuid::nil(),
    };
    assert_eq!(transmission.propagation_emission_id().unwrap(), emission(11));
}

#[test]
fn a_new_propagation_has_no_mailboxes() {
    let transmission = propagation_of(emission(21));
    assert_eq!(transmission.propagation_emission_id().unwrap(), emission(21));
    let Transmission::Propagation { recv, send, .. } = transmission else {
        panic!("expected a propagation");
    };
    assert!(recv.is_nil() && send.is_nil());
}

#[test]
fn a_potentiation_has_no_emission() {
    let transmission = Transmission::Potentiation {
        potentiation: outcome(1.0, 2.0, 3),
        recv: Uuid::nil(),
    };
    assert_eq!(
        transmission.propagation_emission_id().unwrap_err().message(),
        "transmission error: expected propagation transmission"
    );
}

#[test]
fn identifiers_read_as_hyphenated_hexadecimal() {
    assert_eq!(Uuid::nil().to_text(), "00000000-0000-0000-0000-000000000000");
    assert_eq!(
        id(0x0123_4567_89ab_cdef_0011_2233_4455_6677).to_text(),
        "01234567-89ab-cdef-0011-223344556677"
    );
}

#[test]
fn random_identifiers_carry_their_version_and_differ() {
    let a = Uuid::new_v4();
    let b = Uuid::new_v4();
    assert_ne!(a, b);
    assert_eq!((a.as_u128() >> 76) & 0xf, 4);
    assert_eq!((a.as_u128() >> 62) & 0x3, 2);
    assert_eq!(a.to_text().as_bytes()[14], b'4');
    assert!(!GenerateModelIdEffect::effect().is_nil());
}

#[test]
fn a_cell_takes_its_settings_from_its_seed() {
    let mut state = CellState::<()>::default();
    InitRecvId::absorb(
        &mut state,
        Init {
            recv_id: id(1),
            grad_steps: 0,
        },
        CheckpointSettings::new(5, Some("/tmp/c".to_string())),
    );
    assert_eq!(state.recv_id, id(1));
    assert_eq!(state.grad_steps, 1);
    assert_eq!(state.checkpoint_steps, 5);
    let (model, step, every, directory) = CheckpointOperation::emit(&state);
    assert_eq!((model, step, every), (Uuid::nil(), 0, 5));
    assert_eq!(directory.as_deref(), Some("/tmp/c"));
    assert!(CheckpointSettings::new(0, Some("/tmp/c".to_string()))
        .directory
        .is_none());
}

#[test]
fn a_phase_runs_exactly_its_microsteps() {
    let mut state = CellState::<()>::default();
    state.grad_steps = 3;
    state.grad_step = 9;
    BeginGradientAccumulation::absorb(&mut state, Ok(())).unwrap();
    let mut steps = 0;
    while HasPendingGradientStep::eval(&state) {
        AdvanceGradientStep::absorb(&mut state, Ok(())).unwrap();
        steps += 1;
    }
    assert_eq!(steps, 3);
    assert_eq!(
        BeginGradientAccumulation::absorb(&mut state, Err(lost()))
            .unwrap_err()
            .message(),
        "begin accumulation failed"
    );
}

#[test]
fn a_cell_threads_its_mailboxes() {
    let mut state = CellState::<()>::default();
    StartModel::absorb(&mut state, Ok(true), id(8)).unwrap();
    assert!(state.is_frozen);
    assert_eq!(state.model_id, id(8));
    let propagation = WaitForPropagationEffect::received(
        Ok(Transmission::Propagation {
            emission_id: emission(2),
            recv: id(3),
            send: id(4),
        }),
        "",
    )
    .unwrap();
    let received = WaitForPropagation::absorb(&mut state, Ok(propagation)).unwrap();
    assert_eq!(received, emission(2));
    assert_eq!(WaitForPropagation::emit(&state), id(3));
    assert_eq!(
        PrepareAtomInput::absorb(&state, Ok(()), received).unwrap(),
        (id(8), emission(2))
    );
    assert_eq!(Transmit::emit(&state, emission(5)), (emission(5), id(4)));

    let (potentiation, recv) = WaitForPotentiationEffect::received(
        Ok(Transmission::Potentiation {
            potentiation: outcome(0.5, 0.25, 77),
            recv: id(6),
        }),
        "",
    )
    .unwrap();
    WaitForPotentiation::absorb(&mut state, Ok((potentiation, recv))).unwrap();
    assert_eq!(state.recv_id, id(6));
    assert_eq!(PerturbUp::emit(&state), (id(8), 77));
    assert_eq!(Optimize::emit(&state, potentiation), (id(8), potentiation));
    Optimize::absorb(&mut state, Ok(false)).unwrap();
    assert!(!state.is_frozen);
    OptimizeOperation::absorb(&mut state, Ok(())).unwrap();
    assert_eq!(state.optimization_step, 2);

    let emission_id = WaitForArtifact::absorb(
        &mut state,
        Ok(ArtifactDelivery {
            emission_id: emission(9),
            recv: id(10),
            send: id(11),
        }),
    )
    .unwrap();
    assert_eq!(emission_id, emission(9));
    assert_eq!((state.recv_id, state.send_id), (id(10), id(11)));
    StartOperation::absorb(&mut state, Ok(()), id(12)).unwrap();
    assert_eq!(state.model_id, id(12));
}

#[test]
fn cell_failures_name_their_step() {
    let mut state = CellState::<()>::default();
    assert_eq!(
        WaitForPropagation::absorb(&mut state, Err(lost()))
            .unwrap_err()
            .message(),
        "wait for propagation failed: transmission error: lost"
    );
    assert_eq!(
        MassInferStep::<()>::absorb(Err(AtomError::Inference("nan".to_string())))
            .unwrap_err()
            .message(),
        "mass inference failed: mass inference failed: nan"
    );
    assert_eq!(
        WaitForPropagationEffect::received(
            Ok(Transmission::Potentiation {
                potentiation: outcome(0.0, 0.0, 0),
                recv: Uuid::nil(),
            }),
            "Potentiation { loss_up: 0.0 }",
        )
        .unwrap_err()
        .message(),
        "transmission error: expected Propagation, got Potentiation { loss_up: 0.0 }"
    );
    assert_eq!(
        WaitForPotentiationEffect::received(Ok(propagation_of(emission(1))), "Propagation { .. }")
            .unwrap_err()
            .message(),
        "transmission error: expected Potentiation, got Propagation { .. }"
    );
    assert_eq!(
        WaitForPotentiationEffect::received(Err("gone".to_string()), "")
            .unwrap_err()
            .message(),
        "transmission error: gone"
    );
    assert_eq!(
        MassStart::queried(Err("busy".to_string())).unwrap_err().message(),
        "mass model start failed: busy"
    );
    assert_eq!(
        MassOptimize::optimized(Err("busy".to_string()))
            .unwrap_err()
            .message(),
        "mass optimize failed: busy"
    );
}

#[test]
fn every_error_shows_its_context() {
    let text = || "x".to_string();
    let shown: Vec<String> = vec![
        AtomError::ModelStart(text()),
        AtomError::ModelShutdown(text()),
        AtomError::Download(text()),
        AtomError::Inference(text()),
        AtomError::ModelReset(text()),
        AtomError::Upload(text()),
        AtomError::Serialization(text()),
        AtomError::PerturbUp(text()),
        AtomError::PerturbDown(text()),
        AtomError::Optimize(text()),
        AtomError::Transmission(text()),
        AtomError::Spawn(text()),
    ]
    .iter()
    .map(AtomError::message)
    .collect();
    assert_eq!(
        shown,
        vec![
            "mass model start failed: x",
            "mass model shutdown failed: x",
            "void download failed: x",
            "mass inference failed: x",
            "mass model reset failed: x",
            "void upload failed: x",
            "serialization error: x",
            "mass perturb up failed: x",
            "mass perturb down failed: x",
            "mass optimize failed: x",
            "transmission error: x",
            "spawn failed: x",
        ]
    );
}

fn walk(kind: NodeKind, steps: usize) -> Vec<NodeStep> {
    let mut step = NodeStep::Begin(Phase::Up);
    let mut done = 0;
    let mut taken = Vec::new();
    loop {
        taken.push(step);
        match step {
            NodeStep::Begin(_) => done = 0,
            NodeStep::Advance(_) => done += 1,
            _ => {}
        }
        step = next_step(kind, step, done < steps);
        if step == NodeStep::Begin(Phase::Up) {
            return taken;
        }
    }
}

#[test]
fn an_iteration_runs_both_phases_in_full() {
    let cell = walk(NodeKind::Cell, 2);
    assert_eq!(cell.len(), 2 * (2 + 4 * 2) + 2);
    assert_eq!(cell[1], NodeStep::Perturb(Phase::Up));
    assert_eq!(cell[10], NodeStep::Begin(Phase::Down));
    assert_eq!(cell[20..], [NodeStep::Outcome, NodeStep::Apply]);
    let fusion = walk(NodeKind::Fusion, 1);
    assert_eq!(
        fusion,
        vec![
            NodeStep::Begin(Phase::Up),
            NodeStep::Receive(Phase::Up),
            NodeStep::Compute(Phase::Up),
            NodeStep::Transmit(Phase::Up),
            NodeStep::Advance(Phase::Up),
            NodeStep::Begin(Phase::Down),
            NodeStep::Receive(Phase::Down),
            NodeStep::Compute(Phase::Down),
            NodeStep::Transmit(Phase::Down),
            NodeStep::Advance(Phase::Down),
            NodeStep::Outcome,
        ]
    );
    assert_eq!(
        next_step(NodeKind::PassiveBoundary, NodeStep::Outcome, false),
        NodeStep::Begin(Phase::Up)
    );
    assert_eq!(
        next_step(NodeKind::Boundary, NodeStep::Outcome, false),
        NodeStep::Apply
    );
    assert_eq!(
        next_step(NodeKind::QuzoFusion, NodeStep::Start, true),
        NodeStep::Begin(Phase::Up)
    );
}

fn propagation(emission_bits: u128, recv: u128, send: u128) -> Propagation {
    Propagation {
        emission_id: emission(emission_bits),
        recv_id: id(recv),
        send_id: id(send),
    }
}

fn received(up: f32, down: f32, recv: u128) -> ReceivedPotentiation {
    ReceivedPotentiation {
        potentiation: outcome(up, down, 5),
        recv_id: id(recv),
    }
}

#[test]
fn a_fusion_joins_envelopes_with_one_output() {
    let mut state = FusionState::default();
    InitFusion::absorb(
        &mut state,
        Ok(()),
        FusionSeed {
            p1_recv_id: id(1),
            p2_recv_id: id(2),
            grad_steps: 0,
        },
    )
    .unwrap();
    assert_eq!(state.grad_steps, 1);
    assert_eq!(WaitForFusionPropagationAction::emit(&state), (id(1), id(2)));
    let pair = WaitForFusionPropagationAction::absorb(
        &mut state,
        Ok((propagation(10, 3, 9), propagation(11, 4, 9))),
    )
    .unwrap();
    assert_eq!(pair, (emission(10), emission(11)));
    assert_eq!(
        (state.p1_recv_id, state.p2_recv_id, state.send_id),
        (id(3), id(4), id(9))
    );

    let before = state;
    let error = WaitForFusionPropagationAction::absorb(
        &mut state,
        Ok((propagation(10, 5, 1), propagation(11, 6, 2))),
    )
    .unwrap_err();
    assert_eq!(
        error.message(),
        "fusion propagation send addresses disagree: \
         P1=00000000-0000-0000-0000-000000000001, P2=00000000-0000-0000-0000-000000000002"
    );
    assert_eq!(state, before);
}

#[test]
fn a_fusion_refuses_different_losses() {
    let mut state = FusionState::default();
    let potentiation = WaitForFusionPotentiationForOptimize::absorb(
        &mut state,
        Ok((received(1.0, 2.0, 7), received(1.0, 2.0, 8))),
        &losses((1.0, 2.0), (1.0, 2.0)),
    )
    .unwrap();
    assert_eq!(potentiation, outcome(1.0, 2.0, 5));
    assert_eq!((state.p1_recv_id, state.p2_recv_id), (id(7), id(8)));

    // Zero and negative zero are equal numbers with different bits.
    let error = WaitForFusionPotentiationAction::absorb(
        &mut state,
        Ok((received(0.0, 2.0, 1), received(-0.0, 2.0, 2))),
        &losses((0.0, 2.0), (-0.0, 2.0)),
    )
    .unwrap_err();
    assert_eq!(
        error.message(),
        "fusion potentiation losses disagree: P1=(0, 2), P2=(-0, 2)"
    );
    assert_eq!((state.p1_recv_id, state.p2_recv_id), (id(7), id(8)));
}

fn sent_propagation(bits: u128, recv: u128, send: u128) -> Transmission {
    Transmission::Propagation {
        emission_id: emission(bits),
        recv: id(recv),
        send: id(send),
    }
}

fn sent_outcome(up: f32, recv: u128) -> Transmission {
    Transmission::Potentiation {
        potentiation: outcome(up, 0.5, 1),
        recv: id(recv),
    }
}

#[test]
fn a_meld_joins_envelopes_with_one_output() {
    let mut state = MeldState::default();
    InitMeld::absorb(
        &mut state,
        Ok(()),
        MeldSeed {
            p1_recv_id: id(1),
            p2_recv_id: id(2),
        },
    )
    .unwrap();
    let pair = WaitForMeldPropagation::received(
        (sent_propagation(10, 3, 9), sent_propagation(11, 4, 9)),
        ("first", "second"),
    )
    .unwrap();
    assert_eq!(
        WaitForMeldPropagationAction::absorb(&mut state, Ok(pair)).unwrap(),
        (emission(10), emission(11))
    );
    let error = WaitForMeldPropagationAction::absorb(
        &mut state,
        Ok((propagation(10, 5, 1), propagation(11, 6, 2))),
    )
    .unwrap_err();
    assert!(error
        .message()
        .starts_with("meld propagation send addresses disagree: P1="));

    let pair = WaitForMeldPotentiation::received(
        (sent_outcome(1.0, 5), sent_outcome(1.0, 6)),
        ("first", "second"),
    )
    .unwrap();
    let shown = losses((1.0, 0.5), (1.0, 0.5));
    WaitForMeldPotentiationAction::absorb(&mut state, Ok(pair), &shown).unwrap();
    assert_eq!((state.p1_recv_id, state.p2_recv_id), (id(5), id(6)));
    let pair = WaitForMeldPotentiation::received(
        (sent_outcome(1.0, 7), sent_outcome(2.25, 8)),
        ("first", "second"),
    )
    .unwrap();
    let shown = losses((1.0, 0.5), (2.25, 0.5));
    let error =
        WaitForMeldPotentiationAction::absorb(&mut state, Ok(pair), &shown).unwrap_err();
    assert_eq!(
        error.message(),
        "meld potentiation losses disagree: P1=(1, 0.5), P2=(2.25, 0.5)"
    );
    assert_eq!((state.p1_recv_id, state.p2_recv_id), (id(5), id(6)));
}

#[test]
fn a_meld_says_which_port_went_wrong() {
    let message = |result: Result<_, AtomError>| -> String {
        let error: AtomError = match result {
            Ok::<(Propagation, Propagation), AtomError>(_) => panic!("expected an error"),
            Err(error) => error,
        };
        error.message()
    };
    assert_eq!(
        message(WaitForMeldPropagation::received(
            (sent_outcome(1.0, 5), sent_outcome(1.0, 5)),
            ("first", "second")
        )),
        "transmission error: expected Propagation on meld port P1, got first"
    );
    assert_eq!(
        message(WaitForMeldPropagation::received(
            (sent_propagation(1, 2, 3), sent_outcome(1.0, 5)),
            ("first", "second")
        )),
        "transmission error: expected Propagation on meld port P2, got second"
    );
    assert_eq!(
        port_wait_failed(MeldPort::P2, "closed").message(),
        "transmission error: wait for meld port P2: closed"
    );
    assert_eq!(
        WaitForMeldPotentiation::received(
            (sent_propagation(1, 2, 3), sent_outcome(1.0, 5)),
            ("first", "second")
        )
        .unwrap_err()
        .message(),
        "transmission error: expected Potentiation on meld port P1, got first"
    );
    assert_eq!(
        WaitForMeldPotentiation::received(
            (sent_outcome(1.0, 5), sent_propagation(1, 2, 3)),
            ("first", "second")
        )
        .unwrap_err()
        .message(),
        "transmission error: expected Potentiation on meld port P2, got second"
    );
}

#[test]
fn a_boundary_observes_and_perturbs_its_warp_journey() {
    let init = BoundaryInit {
        recv_id: id(1),
        grad_steps: 2,
        warp_journey_id: id(9),
    };
    let mut state = BoundaryState::<u32>::default();
    warp::InitRecvId::absorb(&mut state, init);
    assert_eq!(ObserveWarp::emit(&state, emission(3)), (id(9), emission(3)));
    assert_eq!(
        ObserveWarp::absorb(&mut state, Ok(17), emission(3)).unwrap(),
        emission(3)
    );
    assert_eq!(state.inner, 17);
    assert_eq!(
        PerturbWarp::emit(&state, outcome(1.0, 2.0, 3)),
        (id(9), outcome(1.0, 2.0, 3))
    );
    assert_eq!(
        PerturbWarp::<u32>::absorb(Err(lost())).unwrap_err().message(),
        "perturb warp failed: transmission error: lost"
    );
    assert!(warp::HasPendingGradientStep::eval(&state));
    warp::WaitForPropagation::absorb(&mut state, Ok(propagation(4, 5, 6))).unwrap();
    assert_eq!(warp::Transmit::emit(&state, emission(7)), (emission(7), id(6)));

    let mut cell = CellState::<()>::default();
    boundary::InitRecvId::absorb(&mut cell, init);
    assert_eq!(cell.model_id, id(9));
    boundary::WaitForPotentiation::absorb(&mut cell, Ok((outcome(1.0, 2.0, 33), id(2)))).unwrap();
    assert_eq!((cell.recv_id, cell.perturbation_seed), (id(2), 33));
    let handed =
        boundary::WaitForPotentiationForInput::absorb(&mut cell, Ok((outcome(1.0, 2.0, 34), id(3))))
            .unwrap();
    assert_eq!(handed.seed, 34);
}

#[test]
fn an_inference_resets_the_model_before_it_publishes() {
    let (mut run, action) = MassInfer::begin(id(1), emission(2));
    assert_eq!(
        action,
        InferenceAction::Download {
            emission_id: emission(2)
        }
    );
    assert_eq!(
        run.advance(InferenceEvent::Read {
            metadata: "round 9",
            output_id: id(3)
        })
        .unwrap(),
        InferenceAction::Infer {
            instance_id: id(1),
            input_id: id(3)
        }
    );
    assert_eq!(
        run.advance(InferenceEvent::Made(id(4))).unwrap(),
        InferenceAction::Reset { instance_id: id(1) }
    );
    let mut failing = run;
    assert_eq!(
        failing
            .advance(InferenceEvent::Failed("x".to_string()))
            .unwrap_err()
            .message(),
        "mass model reset failed: x"
    );
    assert_eq!(
        run.advance(InferenceEvent::Done).unwrap(),
        InferenceAction::Upload {
            metadata: "round 9",
            output_id: id(4)
        }
    );
    let mut failing = run;
    assert_eq!(
        failing
            .advance(InferenceEvent::Codec("y".to_string()))
            .unwrap_err()
            .message(),
        "serialization error: y"
    );
    assert_eq!(
        run.advance(InferenceEvent::Made(id(5))).unwrap(),
        InferenceAction::Finish {
            emission_id: emission(5)
        }
    );
    let outcome = ExtractQuarkInferBackoffResult::<()>::absorb((
        3,
        ((id(1), emission(2)), Ok(emission(5))),
    ));
    assert_eq!(outcome.unwrap(), emission(5));
}

#[test]
fn checkpoints_come_every_so_many_steps() {
    assert!(checkpoint_due(4, 2));
    assert!(!checkpoint_due(5, 2));
    assert!(checkpoint_due(3, 1));
    assert!(!checkpoint_due(4, 0));
}

fn stackable(metadata: &str, results: &[u32]) -> Stackable<String, u32> {
    Stackable {
        metadata: metadata.to_string(),
        results: results.to_vec(),
    }
}

#[test]
fn stacks_keep_the_metadata_of_their_base() {
    let left = LeftStackEffect::stack(stackable("l", &[1, 2]), stackable("r", &[3]));
    assert_eq!((left.metadata.as_str(), left.results), ("l", vec![1, 2, 3]));
    let right = RightStackEffect::stack(stackable("l", &[1, 2]), stackable("r", &[3]));
    assert_eq!(
        (right.metadata.as_str(), right.results),
        ("r", vec![3, 1, 2])
    );
    let named = stack(StackSide::Right, stackable("l", &[1]), stackable("r", &[2]));
    assert_eq!(named.results, vec![2, 1]);
}

#[test]
fn a_true_draw_stands_for_the_left_side() {
    assert_eq!(StackSide::of_draw(true), StackSide::Left);
    assert_eq!(StackSide::of_draw(false), StackSide::Right);
}

#[test]
fn random_stacks_take_either_side() {
    let mut left = 0;
    let mut right = 0;
    for _ in 0..200 {
        let stacked = RandStackEffect::stack(stackable("l", &[1]), stackable("r", &[2]));
        if stacked.metadata == "l" {
            assert_eq!(stacked.results, vec![1, 2]);
            left += 1;
        } else {
            assert_eq!(stacked.results, vec![2, 1]);
            right += 1;
        }
    }
    assert!(left > 0 && right > 0);
}

#[test]
fn waits_pause_at_most_a_second_and_end_at_the_deadline() {
    assert_eq!(LONG_POLL_TIMEOUT_MS, 30_000);
    assert!(!may_wait(0));
    assert!(may_wait(1));
    assert_eq!(pause_before_retry(5, 5), None);
    assert_eq!(pause_before_retry(6, 5), None);
    assert_eq!(pause_before_retry(5, 12), Some(7));
    assert_eq!(
        pause_before_retry(5, 5 + 3 * POLL_PAUSE_NS),
        Some(POLL_PAUSE_NS)
    );
    assert_eq!(arrived(Ok(Some(vec![1]))), Some(vec![1]));
    assert_eq!(arrived(Ok(None)), None);
    assert_eq!(arrived(Err("refused".to_string())), None);
}

#[test]
fn a_cell_moves_through_its_phases_by_its_own_count() {
    let mut state = CellState::<()>::default();
    state.grad_steps = 2;
    state.grad_step = 1;
    assert_eq!(
        next_cell_step(&state, NodeStep::Advance(Phase::Up)),
        NodeStep::Receive(Phase::Up)
    );
    state.grad_step = 2;
    assert_eq!(
        next_cell_step(&state, NodeStep::Advance(Phase::Up)),
        NodeStep::Begin(Phase::Down)
    );
    assert_eq!(
        next_cell_step(&state, NodeStep::Advance(Phase::Down)),
        NodeStep::Outcome
    );
}
