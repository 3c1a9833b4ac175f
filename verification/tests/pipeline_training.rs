use std::collections::HashMap;

use black_hole_flux::compile::register::register_vertex;
use black_hole_flux::compile::SunProgram;
use black_hole_flux::contract::ContractDescriptor;
use black_hole_flux::error::AtomError;
use black_hole_flux::ids::{ObjectId, Uuid};
use black_hole_flux::message::{ArtifactDelivery, EmissionId};
use black_hole_flux::nodes::cell::CellState;
use black_hole_flux::nodes::fusion::FusionSeed;
use black_hole_flux::programs::driver::{next_data_parallel_train_step, next_train_step, TrainStep};
use black_hole_flux::programs::pipeline_backward::action::{
    BeginStep, FinalizePipelineGraph, NeedsDataParallelMicroBatches, NeedsMicroBatches,
    RunDataParallelPipeline, RunPipeline, StoreMicroBatch,
};
use black_hole_flux::programs::pipeline_backward::command::{
    CommandAction, CommandEvent, ExecutePipeline, ExecutePipelineCommand, StageFault,
    WaitForPipelineCommand,
};
use black_hole_flux::programs::pipeline_backward::data_parallel::{
    matching_pipeline_commands, DataParallelOperationState, DataParallelPlan,
    ExecuteDataParallelPipelineCommands, InitDataParallelOperation,
    WaitForDataParallelPipelineCommands,
};
use black_hole_flux::programs::pipeline_backward::program::{
    DataParallelPipelineBackward, PipelineBackward,
};
use black_hole_flux::programs::pipeline_backward::run::{
    PipelineAction, PipelineRun, RunPipelineEffect,
};
use black_hole_flux::programs::pipeline_backward::{
    OperationalControl, PipelineBackwardState, PipelineCommand, PipelineResponse, RunPipelineInput,
};
use black_hole_flux::topology::DeclaredEdge;

fn id(bits: u128) -> ObjectId {
    Uuid::from_u128(bits)
}

fn contract() -> ContractDescriptor {
    ContractDescriptor {
        id: 1,
        version: 1,
        inputs: vec![],
        outputs: vec![],
    }
}

fn edge(port_id: u32) -> DeclaredEdge {
    DeclaredEdge {
        port_id,
        source_contract: contract(),
        destination_contract: contract(),
    }
}

fn delivery(seed: u128) -> ArtifactDelivery {
    ArtifactDelivery {
        emission_id: EmissionId::new(id(seed)),
        recv: Uuid::nil(),
        send: Uuid::nil(),
    }
}

fn add(
    state: &mut PipelineBackwardState<()>,
    vertex: u32,
    ports: &[u32],
    outputs: &[u32],
) {
    let ports: Vec<_> = ports.iter().map(|&port| (port, id(1000 + port as u128))).collect();
    register_vertex::<PipelineBackward<(), 2>>(
        state,
        vertex,
        format!("Stage{vertex}"),
        &ports,
        contract(),
        outputs.iter().map(|&port| edge(port)).collect(),
        Uuid::new_v4(),
        None,
    );
}

/// A chain of single-port stages.
fn chain(stages: u32) -> PipelineBackwardState<()> {
    let mut state = PipelineBackwardState::<()>::default();
    for stage in 0..stages {
        if stage + 1 < stages {
            add(&mut state, stage, &[stage], &[stage + 1]);
        } else {
            add(&mut state, stage, &[stage], &[]);
        }
    }
    FinalizePipelineGraph::absorb(&mut state, Ok(())).unwrap();
    state
}

/// A chain of two-port stages, one port for each replica.
fn double_chain(stages: u32) -> PipelineBackwardState<()> {
    let mut state = PipelineBackwardState::<()>::default();
    for stage in 0..stages {
        let ports = [2 * stage, 2 * stage + 1];
        if stage + 1 < stages {
            add(&mut state, 2 * stage, &ports, &[2 * stage + 2, 2 * stage + 3]);
        } else {
            add(&mut state, 2 * stage, &ports, &[]);
        }
    }
    FinalizePipelineGraph::absorb(&mut state, Ok(())).unwrap();
    state
}

/// Runs a step against stages that answer at once, and lists what each inbox
/// port was asked.
fn simulate(mut run: PipelineRun, ports: &[u32]) -> (PipelineRun, HashMap<u32, Vec<PipelineCommand>>) {
    let mut asked: HashMap<u32, Vec<PipelineCommand>> = HashMap::new();
    let mut inboxes: HashMap<ObjectId, u32> = HashMap::new();
    for &port in ports {
        inboxes.insert(id(1000 + port as u128), port);
    }
    let mut replies: HashMap<ObjectId, PipelineResponse> = HashMap::new();
    let mut made: u128 = 50_000;
    for _ in 0..10_000 {
        match run.next_action().unwrap() {
            PipelineAction::Upload {
                inbox,
                command,
                recv,
            } => {
                let port = inboxes.remove(&inbox).expect("a command goes to the current inbox");
                inboxes.insert(recv, port);
                asked.entry(port).or_default().push(command);
                made += 1;
                let response = match command {
                    PipelineCommand::Forward { micro_batch, .. } => PipelineResponse::Artifact {
                        micro_batch,
                        emission_id: id(made),
                    },
                    PipelineCommand::Backward { micro_batch, .. } => PipelineResponse::Artifact {
                        micro_batch,
                        emission_id: id(made),
                    },
                    PipelineCommand::Step { .. } => PipelineResponse::Stepped,
                };
                replies.insert(command.reply(), response);
                run.uploaded(recv, command.reply());
            }
            PipelineAction::Poll { reply } => {
                let response = replies.remove(&reply);
                assert!(response.is_some());
                run.received(response).unwrap();
            }
            PipelineAction::Yield | PipelineAction::Continue => {}
            PipelineAction::Finish => return (run, asked),
        }
    }
    panic!("the step did not come to an end");
}

fn kinds(commands: &[PipelineCommand]) -> String {
    commands
        .iter()
        .map(|command| match command {
            PipelineCommand::Forward { micro_batch, .. } => format!("F{micro_batch}"),
            PipelineCommand::Backward { micro_batch, .. } => format!("B{micro_batch}"),
            PipelineCommand::Step { step, .. } => format!("S{step}"),
        })
        .collect::<Vec<_>>()
        .join(" ")
}

#[test]
fn a_single_replica_runs_every_micro_batch_forward_and_back() {
    let mut state = chain(3);
    state.micro_batches = vec![delivery(1), delivery(2), delivery(3), delivery(4)];
    state.step = 6;
    let input = RunPipeline::emit(&state);
    assert!(input.linear);
    assert_eq!(input.nodes, vec![0, 1, 2]);
    assert_eq!(input.ports, vec![vec![0], vec![1], vec![2]]);
    assert_eq!(input.replicas, 1);
    let run = RunPipelineEffect::begin(input).unwrap();
    let (run, asked) = simulate(run, &[0, 1, 2]);

    // The sink turns round at once; a stage is warm after as many forwards as
    // there are stages from it on.
    assert_eq!(kinds(&asked[&2]), "F0 B0 F1 B1 F2 B2 F3 B3 S7");
    assert!(kinds(&asked[&1]).starts_with("F0 F1"));
    assert!(kinds(&asked[&0]).starts_with("F0 F1 F2"));
    for port in [0, 1, 2] {
        assert_eq!(asked[&port].len(), 9);
    }
    let outputs = run.into_output();
    assert_eq!(outputs.outputs.len(), 4);
    assert_eq!(outputs.step, 6);

    let result = RunPipeline::absorb(&mut state, Ok(outputs)).unwrap();
    assert_eq!(result.step, 6);
    assert_eq!(result.outputs.len(), 4);
    assert!(result.outputs[0].recv.is_nil());
    assert_eq!(state.step, 7);
}

#[test]
fn the_sink_seeds_reverse_mode_from_its_own_output() {
    let mut state = chain(2);
    state.micro_batches = vec![delivery(1)];
    let run = RunPipelineEffect::begin(RunPipeline::emit(&state)).unwrap();
    let (_, asked) = simulate(run, &[0, 1]);
    let PipelineCommand::Forward { emission_id, .. } = asked[&0][0] else {
        panic!("the first command is a forward");
    };
    assert_eq!(emission_id, id(1));
    let PipelineCommand::Backward {
        seed_from_forward, ..
    } = asked[&1][1]
    else {
        panic!("the sink turns round");
    };
    assert!(seed_from_forward);
    let PipelineCommand::Backward {
        seed_from_forward, ..
    } = asked[&0][1]
    else {
        panic!("the source turns round");
    };
    assert!(!seed_from_forward);
}

#[test]
fn two_replicas_split_the_micro_batches() {
    let mut state = double_chain(2);
    state.micro_batches = vec![delivery(1), delivery(2), delivery(3), delivery(4)];
    let input = RunDataParallelPipeline::emit(&state);
    assert!(input.linear);
    assert_eq!(input.ports, vec![vec![0, 1], vec![2, 3]]);
    let run = RunPipelineEffect::begin(input).unwrap();
    let (run, asked) = simulate(run, &[0, 1, 2, 3]);
    let first = |port: u32| match asked[&port][0] {
        PipelineCommand::Forward { emission_id, .. } => emission_id,
        _ => panic!("the first command is a forward"),
    };
    assert_eq!(first(0), id(1));
    assert_eq!(first(1), id(3));
    assert_eq!(kinds(&asked[&2]), "F0 B0 F1 B1 S1");
    assert_eq!(kinds(&asked[&3]), "F0 B0 F1 B1 S1");
    assert_eq!(run.into_output().outputs.len(), 4);
}

#[test]
fn no_micro_batches_only_step() {
    let state = chain(2);
    let run = RunPipelineEffect::begin(RunPipeline::emit(&state)).unwrap();
    let (run, asked) = simulate(run, &[0, 1]);
    assert_eq!(kinds(&asked[&0]), "S1");
    assert_eq!(kinds(&asked[&1]), "S1");
    assert!(run.into_output().outputs.is_empty());
}

fn input(nodes: Vec<u32>, replicas: usize, linear: bool, batches: usize) -> RunPipelineInput {
    let ports = nodes
        .iter()
        .map(|&node| (0..replicas.max(1)).map(|q| node * 10 + q as u32).collect())
        .collect();
    RunPipelineInput {
        nodes,
        ports,
        replicas,
        linear,
        inboxes: HashMap::new(),
        micro_batches: (0..batches).map(|batch| delivery(batch as u128)).collect(),
        step: 0,
    }
}

#[test]
fn a_step_that_cannot_begin_says_why() {
    let refused = |input| RunPipelineEffect::begin(input).err().unwrap();
    assert_eq!(refused(input(vec![], 1, true, 1)), "pipeline graph has no stages");
    assert_eq!(
        refused(input(vec![0], 1, false, 1)),
        "PipelineBackward currently requires one linear unary chain"
    );
    assert_eq!(
        refused(input(vec![0], 2, true, 3)),
        "3 micro-batches cannot be split across 2 pipeline replicas"
    );
}

#[test]
fn a_missing_inbox_ends_the_step() {
    let mut run = RunPipelineEffect::begin(input(vec![0], 1, true, 1)).unwrap();
    assert_eq!(
        run.next_action().unwrap_err(),
        "missing pipeline inbox for port 0"
    );
}

fn waiting_run() -> PipelineRun {
    let mut state = chain(1);
    state.micro_batches = vec![delivery(1)];
    let mut run = RunPipelineEffect::begin(RunPipeline::emit(&state)).unwrap();
    let PipelineAction::Upload { command, recv, .. } = run.next_action().unwrap() else {
        panic!("the first action is an upload");
    };
    run.uploaded(recv, command.reply());
    assert!(matches!(run.next_action().unwrap(), PipelineAction::Continue));
    assert!(matches!(run.next_action().unwrap(), PipelineAction::Poll { .. }));
    run
}

#[test]
fn answers_that_do_not_fit_end_the_step() {
    assert_eq!(
        waiting_run().received(Some(PipelineResponse::Stepped)).unwrap_err(),
        "stage returned step acknowledgement for tensor work"
    );
    assert_eq!(
        waiting_run()
            .received(Some(PipelineResponse::Artifact {
                micro_batch: 3,
                emission_id: id(9),
            }))
            .unwrap_err(),
        "stage returned the wrong micro-batch"
    );
    assert_eq!(
        waiting_run()
            .received(Some(PipelineResponse::Failed {
                micro_batch: Some(0),
                message: "out of memory".to_string(),
            }))
            .unwrap_err(),
        "pipeline replica 0, stage 0 failed for micro-batch Some(0): out of memory"
    );
    assert_eq!(
        waiting_run()
            .received(Some(PipelineResponse::Failed {
                micro_batch: None,
                message: "gone".to_string(),
            }))
            .unwrap_err(),
        "pipeline replica 0, stage 0 failed for micro-batch None: gone"
    );
}

#[test]
fn a_pass_without_answers_yields() {
    let mut run = waiting_run();
    run.received(None).unwrap();
    assert!(matches!(run.next_action().unwrap(), PipelineAction::Yield));
}

fn stepping_run() -> PipelineRun {
    let state = chain(1);
    let mut run = RunPipelineEffect::begin(RunPipeline::emit(&state)).unwrap();
    let PipelineAction::Upload { command, recv, .. } = run.next_action().unwrap() else {
        panic!("the first action is an upload");
    };
    run.uploaded(recv, command.reply());
    assert!(matches!(run.next_action().unwrap(), PipelineAction::Continue));
    assert!(matches!(run.next_action().unwrap(), PipelineAction::Poll { .. }));
    run
}

#[test]
fn acknowledgements_that_do_not_fit_end_the_step() {
    assert_eq!(
        stepping_run()
            .received(Some(PipelineResponse::Failed {
                micro_batch: None,
                message: "diverged".to_string(),
            }))
            .unwrap_err(),
        "pipeline step failed: diverged"
    );
    assert_eq!(
        stepping_run()
            .received(Some(PipelineResponse::Artifact {
                micro_batch: 0,
                emission_id: id(1),
            }))
            .unwrap_err(),
        "stage returned artifact for step"
    );
    let mut run = stepping_run();
    run.received(None).unwrap();
    assert!(matches!(run.next_action().unwrap(), PipelineAction::Yield));
    assert!(matches!(run.next_action().unwrap(), PipelineAction::Poll { .. }));
    run.received(Some(PipelineResponse::Stepped)).unwrap();
    assert!(matches!(run.next_action().unwrap(), PipelineAction::Continue));
    assert!(matches!(run.next_action().unwrap(), PipelineAction::Finish));
}

#[test]
fn branching_graphs_are_not_linear() {
    let mut state = PipelineBackwardState::<()>::default();
    add(&mut state, 0, &[0], &[1, 2]);
    add(&mut state, 1, &[1], &[3]);
    add(&mut state, 2, &[2], &[4]);
    add(&mut state, 3, &[3, 4], &[]);
    FinalizePipelineGraph::absorb(&mut state, Ok(())).unwrap();
    assert!(!RunPipeline::emit(&state).linear);
    assert!(!RunDataParallelPipeline::emit(&state).linear);
    assert!(!RunDataParallelPipeline::emit(&chain(2)).linear);
}

#[test]
fn a_round_collects_its_micro_batches() {
    let mut state = PipelineBackwardState::<()>::default();
    assert_eq!(
        next_train_step::<(), 2>(&state, TrainStep::Finalize),
        TrainStep::Begin
    );
    state.micro_batches = vec![delivery(9)];
    BeginStep::absorb(&mut state, Ok(())).unwrap();
    assert!(state.micro_batches.is_empty());
    assert!(NeedsMicroBatches::<(), 0>::eval(&state));
    for seed in [1, 2] {
        assert!(NeedsMicroBatches::<(), 2>::eval(&state));
        assert_eq!(
            next_train_step::<(), 2>(&state, TrainStep::Begin),
            TrainStep::Source
        );
        StoreMicroBatch::absorb(&mut state, Ok(()), delivery(seed)).unwrap();
    }
    assert!(!NeedsMicroBatches::<(), 2>::eval(&state));
    assert!(NeedsDataParallelMicroBatches::<(), 2>::eval(&state));
    assert_eq!(
        next_train_step::<(), 2>(&state, TrainStep::Store),
        TrainStep::Run
    );
    assert_eq!(
        next_data_parallel_train_step::<(), 2>(&state, TrainStep::Store),
        TrainStep::Source
    );
    assert_eq!(state.micro_batches[1].emission_id, delivery(2).emission_id);
}

#[test]
fn programs_seed_their_nodes_with_the_batch_size() {
    assert_eq!(PipelineBackward::<(), 3>::unary_seed(id(5)).grad_steps, 3);
    assert_eq!(PipelineBackward::<(), 0>::unary_seed(id(5)).grad_steps, 1);
    let seed = DataParallelPipelineBackward::<(), 4>::binary_seed([id(1), id(2)]);
    assert_eq!(seed.grad_steps, 4);
    assert_eq!(
        DataParallelPipelineBackward::<(), 4>::binary_inboxes(&seed),
        [id(1), id(2)]
    );
    let mut state = PipelineBackwardState::<()>::default();
    PipelineBackward::<(), 1>::register_inboxes(&mut state, &vec![(4, id(6))]);
    assert_eq!(state.inboxes[&4], id(6));
}

#[test]
fn a_failed_step_leaves_the_state_alone() {
    let mut state = chain(1);
    let error = RunPipeline::absorb(&mut state, Err("no route".to_string()))
        .err()
        .unwrap();
    assert_eq!(error.message(), "pipeline step failed: no route");
    let error = RunDataParallelPipeline::absorb(&mut state, Err("no route".to_string()))
        .err()
        .unwrap();
    assert_eq!(error.message(), "data-parallel pipeline step failed: no route");
    assert_eq!(state.step, 0);
}

fn forward() -> PipelineCommand {
    PipelineCommand::Forward {
        micro_batch: 2,
        emission_id: id(20),
        reply: id(21),
    }
}

fn backward(seed_from_forward: bool) -> PipelineCommand {
    PipelineCommand::Backward {
        micro_batch: 2,
        gradient_emission_id: id(30),
        seed_from_forward,
        reply: id(31),
    }
}

fn read(tensor: u128) -> CommandEvent<&'static str> {
    CommandEvent::Read {
        metadata: "batch 7",
        output_id: id(tensor),
    }
}

#[test]
fn a_forward_command_is_fetched_run_published_and_answered() {
    let (mut run, action) = ExecutePipelineCommand::begin(id(1), forward(), 0, None);
    assert!(matches!(action, CommandAction::Fetch { emission_id } if emission_id == id(20)));
    let action = run.advance(read(40));
    assert!(matches!(
        action,
        CommandAction::Forward { instance_id, input_id } if instance_id == id(1) && input_id == id(40)
    ));
    let action = run.advance(CommandEvent::Made(id(41)));
    assert!(matches!(
        action,
        CommandAction::Publish { metadata: "batch 7", output_id } if output_id == id(41)
    ));
    let CommandAction::Answer { reply, response } = run.advance(CommandEvent::Made(id(42))) else {
        panic!("the command is answered");
    };
    assert_eq!(reply, id(21));
    assert!(matches!(
        response,
        PipelineResponse::Artifact { micro_batch: 2, emission_id } if emission_id == id(42)
    ));
}

#[test]
fn the_sink_reframes_its_output_before_it_turns_round() {
    let (mut run, _) = ExecutePipelineCommand::begin(id(1), backward(true), 0, None);
    let action = run.advance(read(40));
    assert!(matches!(action, CommandAction::Seed { output_id } if output_id == id(40)));
    let CommandAction::Plant { gradient } = run.advance(CommandEvent::Framed(vec![5, 6])) else {
        panic!("the framed gradient is written");
    };
    assert_eq!(gradient, vec![5, 6]);
    let action = run.advance(CommandEvent::Made(id(43)));
    assert!(matches!(
        action,
        CommandAction::Backward { gradient_id, .. } if gradient_id == id(43)
    ));
    let action = run.advance(CommandEvent::Made(id(44)));
    assert!(matches!(
        action,
        CommandAction::Publish { metadata: "batch 7", output_id } if output_id == id(44)
    ));

    let (mut run, _) = ExecutePipelineCommand::begin(id(1), backward(false), 0, None);
    let action = run.advance(read(40));
    assert!(matches!(
        action,
        CommandAction::Backward { gradient_id, .. } if gradient_id == id(40)
    ));
}

#[test]
fn a_step_command_steps_then_checkpoints() {
    let command = PipelineCommand::Step {
        reply: id(50),
        step: 4,
    };
    let (mut run, action) = ExecutePipelineCommand::<()>::begin(
        id(1),
        command,
        2,
        Some("/checkpoints".to_string()),
    );
    assert!(matches!(action, CommandAction::Step { instance_id } if instance_id == id(1)));
    let CommandAction::Checkpoint {
        step,
        checkpoint_steps,
        checkpoint_dir,
        ..
    } = run.advance(CommandEvent::Done)
    else {
        panic!("a step is followed by a checkpoint");
    };
    assert_eq!(step, 4);
    assert_eq!(checkpoint_steps, 2);
    assert_eq!(checkpoint_dir.as_deref(), Some("/checkpoints"));
    let CommandAction::Answer { reply, response } = run.advance(CommandEvent::Done) else {
        panic!("the command is answered");
    };
    assert_eq!(reply, id(50));
    assert!(matches!(response, PipelineResponse::Stepped));
}

fn failure_of(
    mut run: ExecutePipelineCommand<&'static str>,
    fault: StageFault,
) -> (Option<usize>, String) {
    match run.advance(CommandEvent::Failed(fault)) {
        CommandAction::Answer {
            response:
                PipelineResponse::Failed {
                    micro_batch,
                    message,
                },
            ..
        } => (micro_batch, message),
        _ => panic!("a failure is answered"),
    }
}

#[test]
fn every_failure_of_a_stage_is_answered() {
    let fresh = || ExecutePipelineCommand::begin(id(1), backward(true), 0, None).0;
    let cause = || "x".to_string();
    assert_eq!(
        failure_of(fresh(), StageFault::Effect(cause())),
        (Some(2), "void download failed: x".to_string())
    );
    assert_eq!(
        failure_of(fresh(), StageFault::Codec(cause())).1,
        "serialization error: x"
    );
    let mut seeding = fresh();
    seeding.advance(read(40));
    assert_eq!(
        failure_of(seeding, StageFault::SeedDecode(cause())).1,
        "mass inference failed: invalid sink gradient seed: x"
    );
    let mut seeding = fresh();
    seeding.advance(read(40));
    assert_eq!(
        failure_of(seeding, StageFault::SeedEncode(cause())).1,
        "mass inference failed: encode sink gradient seed: x"
    );
    let mut planting = fresh();
    planting.advance(read(40));
    planting.advance(CommandEvent::Framed(Vec::new()));
    assert_eq!(
        failure_of(planting, StageFault::Effect(cause())).1,
        "void upload failed: x"
    );
    let command = PipelineCommand::Step {
        reply: id(50),
        step: 4,
    };
    assert_eq!(
        failure_of(
            ExecutePipelineCommand::begin(id(1), command, 0, None).0,
            StageFault::Effect(cause())
        ),
        (None, "mass optimize failed: x".to_string())
    );
}

#[test]
fn a_stage_moves_on_to_the_mailbox_of_its_command() {
    let mut state = CellState::<()>::default();
    state.recv_id = id(3);
    state.model_id = id(7);
    assert_eq!(WaitForPipelineCommand::emit(&state), id(3));
    let command = WaitForPipelineCommand::absorb(
        &mut state,
        Ok(OperationalControl {
            control: forward(),
            recv: id(4),
        }),
    )
    .unwrap();
    assert_eq!(command, forward());
    assert_eq!(state.recv_id, id(4));
    assert_eq!(ExecutePipeline::emit(&state, command).0, id(7));
    let error = WaitForPipelineCommand::absorb(
        &mut state,
        Err(AtomError::Transmission("late".to_string())),
    )
    .unwrap_err();
    assert_eq!(
        error.message(),
        "wait for pipeline command failed: transmission error: late"
    );
}

#[test]
fn lanes_must_ask_for_the_same() {
    assert!(matching_pipeline_commands(&[forward(), forward()]));
    assert!(matching_pipeline_commands(&[backward(true), backward(false)]));
    assert!(!matching_pipeline_commands(&[forward(), backward(true)]));
    let step = |reply, step| PipelineCommand::Step {
        reply: id(reply),
        step,
    };
    assert!(matching_pipeline_commands(&[step(1, 4), step(2, 4)]));
    assert!(!matching_pipeline_commands(&[step(1, 4), step(2, 5)]));

    let ids = [id(70), id(71)];
    assert_eq!(
        ExecuteDataParallelPipelineCommands::plan(ids, [step(1, 4), step(2, 4)]).unwrap(),
        DataParallelPlan::StepOnce {
            instance_id: id(70),
            left_reply: id(1),
            right_reply: id(2),
        }
    );
    assert_eq!(
        ExecuteDataParallelPipelineCommands::plan(ids, [forward(), forward()]).unwrap(),
        DataParallelPlan::RunBoth {
            left_id: id(70),
            left: forward(),
            right_id: id(71),
            right: forward(),
        }
    );
    assert_eq!(
        ExecuteDataParallelPipelineCommands::plan(ids, [forward(), step(1, 1)])
            .unwrap_err()
            .message(),
        "mass inference failed: data-parallel stage received mismatched lane commands"
    );
    assert!(matches!(
        ExecuteDataParallelPipelineCommands::step_response(Err("nan".to_string())),
        PipelineResponse::Failed { micro_batch: None, message } if message == "nan"
    ));
}

#[test]
fn a_shared_stage_moves_both_lanes_on() {
    let mut state = DataParallelOperationState::default();
    InitDataParallelOperation::absorb(
        &mut state,
        Ok(()),
        FusionSeed {
            p1_recv_id: id(1),
            p2_recv_id: id(2),
            grad_steps: 1,
        },
    )
    .unwrap();
    assert_eq!(
        WaitForDataParallelPipelineCommands::emit(&state),
        [id(1), id(2)]
    );
    let commands = WaitForDataParallelPipelineCommands::absorb(
        &mut state,
        Ok([
            OperationalControl {
                control: forward(),
                recv: id(3),
            },
            OperationalControl {
                control: backward(false),
                recv: id(4),
            },
        ]),
    )
    .unwrap();
    assert_eq!(commands, [forward(), backward(false)]);
    assert_eq!(state.recv_ids, [id(3), id(4)]);
}
