//! What the actions of a pipeline-parallel Sun and of its stages do, from one
//! action to the next.

use vstd::prelude::*;

use crate::error::AtomError;
use crate::failure::Failure;
use crate::ids::ObjectId;
use crate::message::ArtifactDelivery;
use crate::nodes::cell::CellState;
use crate::programs::pipeline_backward::action::{
    law_completed_step_moves_on, law_double_lane_is_the_chain, law_single_lane_is_the_chain,
    BeginStep, FinalizePipelineGraph, RunDataParallelPipeline, RunPipeline, StoreMicroBatch,
};
use crate::programs::pipeline_backward::command::{
    CommandAction, CommandEvent, ExecutePipeline, ExecutePipelineCommand, WaitForPipelineCommand,
};
use crate::programs::pipeline_backward::data_parallel::{
    DataParallelOperationState, DataParallelPlan, ExecuteDataParallelPipeline,
    ExecuteDataParallelPipelineCommands, GenerateDataParallelModelIds, StartDataParallelOperation,
    WaitForDataParallelPipelineCommands,
};
use crate::programs::pipeline_backward::history::{exchanged, is_history, Exchange};
use crate::programs::pipeline_backward::run::{
    lemma_settled, outputs_below, PipelineAction, PipelineRun, RunPipelineEffect,
};
use crate::programs::pipeline_backward::{
    OperationalControl, PipelineBackwardState, PipelineCommand, PipelineResponse,
    PipelineStepResult, RunPipelineInput, RunPipelineOutput,
};
use crate::topology::validity::{law_exactly_valid_graphs_are_accepted, valid};

verus! {

broadcast use vstd::std_specs::hash::group_hash_axioms;

/// A pipeline-parallel Sun is finalized exactly for a valid typed graph.
pub proof fn law_only_valid_graphs_are_pipelined<S>(
    state: &mut PipelineBackwardState<S>,
    result: Result<(), Failure>,
)
    requires
        mut_ref_current(state).topology.well_formed(),
        call_ensures(
            FinalizePipelineGraph::<S>::absorb,
            (state, Ok::<(), AtomError>(())),
            result,
        ),
    ensures
        result is Ok <==> valid(mut_ref_current(state).topology, true),
        result is Ok <==> mut_ref_future(state).topology.finalized,
        mut_ref_future(state).inboxes == mut_ref_current(state).inboxes,
        mut_ref_future(state).step == mut_ref_current(state).step,
{
    law_exactly_valid_graphs_are_accepted(mut_ref_current(state).topology, true);
}

/// A training step that can begin begins its history.
pub proof fn law_steps_begin_a_history(
    input: RunPipelineInput,
    begun: Result<PipelineRun, String>,
)
    requires
        input.well_formed(),
        input.step < usize::MAX,
        call_ensures(RunPipelineEffect::begin, (input,), begun),
    ensures
        begun is Ok <==> input.nodes@.len() > 0 && input.linear && input.micro_batches@.len()
            % input.width() == 0,
        begun is Ok ==> is_history(input, seq![begun->Ok_0], Seq::empty()),
{
}

/// A command that the step names and that is uploaded as named is the next
/// exchange of its history.
pub proof fn law_uploads_are_exchanges(
    run: &mut PipelineRun,
    next: ObjectId,
    reply: ObjectId,
    named: Result<PipelineAction, String>,
    uploading: &mut PipelineRun,
)
    requires
        mut_ref_current(run).holds(),
        call_ensures(PipelineRun::next_action_with, (run, next, reply), named),
        named matches Ok(PipelineAction::Upload { .. }),
        mut_ref_current(uploading) == mut_ref_future(run),
        call_ensures(PipelineRun::uploaded, (uploading, next, reply), ()),
    ensures
        ({
            let at = mut_ref_future(run).current();
            let inbox = named->Ok_0->inbox;
            let command = named->Ok_0->command;
            exchanged(
                mut_ref_current(run),
                Exchange::Sent {
                    stage: at.stage,
                    replica: at.replica,
                    inbox,
                    command,
                    recv: next,
                },
                mut_ref_future(uploading),
            )
        }),
        named->Ok_0->recv == next,
        mut_ref_future(uploading).holds(),
{
    lemma_settled(mut_ref_current(run));
}

/// An answer that was found where the step looked, and that it takes, is the
/// next exchange of its history.
pub proof fn law_answers_are_exchanges(
    run: &mut PipelineRun,
    next: ObjectId,
    reply: ObjectId,
    named: Result<PipelineAction, String>,
    hearing: &mut PipelineRun,
    response: PipelineResponse,
    result: Result<(), String>,
)
    requires
        mut_ref_current(run).holds(),
        call_ensures(PipelineRun::next_action_with, (run, next, reply), named),
        named matches Ok(PipelineAction::Poll { .. }),
        mut_ref_current(hearing) == mut_ref_future(run),
        call_ensures(PipelineRun::received, (hearing, Some(response)), result),
        result is Ok,
    ensures
        ({
            let at = mut_ref_future(run).current();
            exchanged(
                mut_ref_current(run),
                Exchange::Heard {
                    stage: at.stage,
                    replica: at.replica,
                    mailbox: named->Ok_0->reply,
                    response,
                },
                mut_ref_future(hearing),
            )
        }),
        mut_ref_future(hearing).holds(),
{
    lemma_settled(mut_ref_current(run));
}

/// What a completed step leaves behind is where its ports listen and what its
/// sink answered.
pub proof fn law_completed_step_leaves_its_outputs(run: PipelineRun, output: RunPipelineOutput)
    requires
        run.holds(),
        run.point is Done,
        call_ensures(PipelineRun::into_output, (run,), output),
    ensures
        output.inboxes@ == run.inboxes@,
        output.outputs@ == outputs_below(run.lanes@, run.lanes@.len()),
        output.step == run.step,
{
}

/// A round forgets the micro-batches of the round before and keeps each new one
/// behind the ones before it.
pub proof fn law_micro_batches_are_kept_in_order<S>(
    state: &mut PipelineBackwardState<S>,
    begun: Result<(), Failure>,
    storing: &mut PipelineBackwardState<S>,
    batch: ArtifactDelivery,
    stored: Result<(), Failure>,
)
    requires
        call_ensures(BeginStep::<S>::absorb, (state, Ok::<(), AtomError>(())), begun),
        call_ensures(
            StoreMicroBatch::<S>::absorb,
            (storing, Ok::<(), AtomError>(()), batch),
            stored,
        ),
    ensures
        begun is Ok,
        mut_ref_future(state).micro_batches@.len() == 0,
        mut_ref_future(state).inboxes == mut_ref_current(state).inboxes,
        mut_ref_future(state).step == mut_ref_current(state).step,
        stored is Ok,
        mut_ref_future(storing).micro_batches@ == mut_ref_current(storing).micro_batches@.push(
            batch,
        ),
        mut_ref_future(storing).inboxes == mut_ref_current(storing).inboxes,
        mut_ref_future(storing).step == mut_ref_current(storing).step,
{
}

/// A step of one replica runs the chain of the graph on the micro-batches of the
/// state, and its outcome moves the state on by one step.
pub proof fn law_single_steps_move_the_state_on<S>(
    before: &PipelineBackwardState<S>,
    input: RunPipelineInput,
    state: &mut PipelineBackwardState<S>,
    output: RunPipelineOutput,
    result: Result<PipelineStepResult, Failure>,
    s: int,
    i: int,
)
    requires
        call_ensures(RunPipeline::<S>::emit, (before,), input),
        *before == mut_ref_current(state),
        before.step < usize::MAX,
        call_ensures(
            RunPipeline::<S>::absorb,
            (state, Ok::<RunPipelineOutput, String>(output)),
            result,
        ),
        before.topology.vertices().finite(),
        0 <= i < output.outputs@.len(),
    ensures
        input.micro_batches@ == before.micro_batches@,
        input.inboxes@ == before.inboxes@,
        input.step == before.step,
        input.replicas == 1,
        input.linear && 0 <= s < input.nodes@.len() ==> input.ports@[s]@.len() == 1
            && input.ports@[s]@[0] == before.topology.vertex_ports@[input.nodes@[s]]@[0],
        result is Ok,
        result->Ok_0.outputs@.len() == output.outputs@.len(),
        result->Ok_0.outputs@[i].emission_id.object == output.outputs@[i],
        mut_ref_future(state).step == before.step + 1,
        mut_ref_future(state).inboxes == output.inboxes,
        mut_ref_future(state).topology == before.topology,
{
    if input.linear && 0 <= s < input.nodes@.len() {
        law_single_lane_is_the_chain(*before, input, s);
    }
    law_completed_step_moves_on(
        mut_ref_current(state),
        mut_ref_future(state),
        output,
        result->Ok_0,
        i,
    );
}

/// So does a step of two replicas, with both ports of every stage.
pub proof fn law_double_steps_move_the_state_on<S>(
    before: &PipelineBackwardState<S>,
    input: RunPipelineInput,
    state: &mut PipelineBackwardState<S>,
    output: RunPipelineOutput,
    result: Result<PipelineStepResult, Failure>,
    s: int,
    q: int,
    i: int,
)
    requires
        call_ensures(RunDataParallelPipeline::<S>::emit, (before,), input),
        *before == mut_ref_current(state),
        before.step < usize::MAX,
        call_ensures(
            RunDataParallelPipeline::<S>::absorb,
            (state, Ok::<RunPipelineOutput, String>(output)),
            result,
        ),
        before.topology.vertices().finite(),
        0 <= q < 2,
        0 <= i < output.outputs@.len(),
    ensures
        input.micro_batches@ == before.micro_batches@,
        input.inboxes@ == before.inboxes@,
        input.step == before.step,
        input.replicas == 2,
        input.linear && 0 <= s < input.nodes@.len() ==> input.ports@[s]@.len() == 2
            && input.ports@[s]@[q] == before.topology.vertex_ports@[input.nodes@[s]]@[q],
        result is Ok,
        result->Ok_0.outputs@.len() == output.outputs@.len(),
        result->Ok_0.outputs@[i].emission_id.object == output.outputs@[i],
        mut_ref_future(state).step == before.step + 1,
        mut_ref_future(state).inboxes == output.inboxes,
        mut_ref_future(state).topology == before.topology,
{
    if input.linear && 0 <= s < input.nodes@.len() {
        law_double_lane_is_the_chain(*before, input, s, q);
    }
    law_completed_step_moves_on(
        mut_ref_current(state),
        mut_ref_future(state),
        output,
        result->Ok_0,
        i,
    );
}

/// A stage that receives a command listens next where it says, and runs it on
/// its own instance: it reads the emission the command names, or applies its
/// gradients.
pub proof fn law_stage_takes_its_command_up<S, M>(
    state: &mut CellState<S>,
    command: PipelineCommand,
    recv: ObjectId,
    taken: Result<PipelineCommand, Failure>,
    after: &CellState<S>,
    awaited: ObjectId,
    handed: (ObjectId, PipelineCommand, usize, Option<String>),
    begun: (ExecutePipelineCommand<M>, CommandAction<M>),
)
    requires
        call_ensures(
            WaitForPipelineCommand::<S>::absorb,
            (
                state,
                Ok::<OperationalControl<PipelineCommand>, AtomError>(
                    OperationalControl { control: command, recv },
                ),
            ),
            taken,
        ),
        *after == mut_ref_future(state),
        call_ensures(WaitForPipelineCommand::<S>::emit, (after,), awaited),
        call_ensures(ExecutePipeline::<S>::emit, (after, command), handed),
        call_ensures(
            ExecutePipelineCommand::<M>::begin,
            (handed.0, handed.1, handed.2, handed.3),
            begun,
        ),
    ensures
        taken == Ok::<PipelineCommand, Failure>(command),
        awaited == recv,
        handed.0 == mut_ref_current(state).model_id,
        handed.1 == command,
        handed.2 == mut_ref_current(state).checkpoint_steps,
        begun.0.instance_id == mut_ref_current(state).model_id,
        begun.0.command == command,
        begun.0.well_formed(),
        match command {
            PipelineCommand::Forward { emission_id, .. } => begun.1 == (
            CommandAction::<M>::Fetch { emission_id }) && begun.0.point is Fetching,
            PipelineCommand::Backward { gradient_emission_id, .. } => begun.1 == (
            CommandAction::<M>::Fetch { emission_id: gradient_emission_id })
                && begun.0.point is Fetching,
            PipelineCommand::Step { .. } => begun.1 == (CommandAction::<M>::Step {
                instance_id: mut_ref_current(state).model_id,
            }) && begun.0.point is Stepping,
        },
{
}

/// What a stage does next is what follows the outcome of what it did.
pub proof fn law_stage_goes_on_as_it_follows<M>(
    run: &mut ExecutePipelineCommand<M>,
    event: CommandEvent<M>,
    action: CommandAction<M>,
)
    requires
        mut_ref_current(run).well_formed(),
        mut_ref_current(run).awaits(event),
        call_ensures(ExecutePipelineCommand::<M>::advance, (run, event), action),
    ensures
        mut_ref_current(run).follows(event, mut_ref_future(run), action),
        mut_ref_future(run).well_formed(),
{
}

/// A shared stage takes the commands of both lanes in order, listens next in
/// each lane where its command says, and runs each on the instance of its lane;
/// a step it takes once, for both. Commands that do not match are refused.
pub proof fn law_shared_stage_serves_both_lanes(
    state: &mut DataParallelOperationState,
    ids: [ObjectId; 2],
    kept: Result<(), Failure>,
    after: &DataParallelOperationState,
    started: [ObjectId; 2],
    waiting: &mut DataParallelOperationState,
    messages: [OperationalControl<PipelineCommand>; 2],
    commands: Result<[PipelineCommand; 2], Failure>,
    ready: &DataParallelOperationState,
    awaited: [ObjectId; 2],
    handed: ([ObjectId; 2], [PipelineCommand; 2]),
    plan: Result<DataParallelPlan, AtomError>,
)
    requires
        call_ensures(
            GenerateDataParallelModelIds::absorb,
            (state, Ok::<[ObjectId; 2], AtomError>(ids)),
            kept,
        ),
        *after == mut_ref_future(state),
        call_ensures(StartDataParallelOperation::emit, (after,), started),
        call_ensures(
            WaitForDataParallelPipelineCommands::absorb,
            (waiting, Ok::<[OperationalControl<PipelineCommand>; 2], AtomError>(messages)),
            commands,
        ),
        *ready == mut_ref_future(waiting),
        call_ensures(WaitForDataParallelPipelineCommands::emit, (ready,), awaited),
        commands is Ok ==> call_ensures(
            ExecuteDataParallelPipeline::emit,
            (ready, commands->Ok_0),
            handed,
        ),
        call_ensures(ExecuteDataParallelPipelineCommands::plan, (handed.0, handed.1), plan),
    ensures
        kept is Ok,
        started == ids,
        commands is Ok,
        commands->Ok_0@[0] == messages@[0].control,
        commands->Ok_0@[1] == messages@[1].control,
        awaited@[0] == messages@[0].recv,
        awaited@[1] == messages@[1].recv,
        handed.0 == mut_ref_current(waiting).model_ids,
        handed.1 == commands->Ok_0,
        ({
            let left = messages@[0].control;
            let right = messages@[1].control;
            let here = mut_ref_current(waiting).model_ids@;
            &&& left is Forward && right is Forward ==> (plan is Ok
                <==> left->Forward_micro_batch == right->Forward_micro_batch)
            &&& left is Backward && right is Backward ==> (plan is Ok
                <==> left->Backward_micro_batch == right->Backward_micro_batch)
            &&& left is Step && right is Step ==> (plan is Ok <==> left->step == right->step)
            &&& (left is Forward) != (right is Forward) ==> plan is Err
            &&& (left is Step) != (right is Step) ==> plan is Err
            &&& plan is Ok && left is Step ==> plan->Ok_0 == (DataParallelPlan::StepOnce {
                instance_id: here[0],
                left_reply: left->Step_reply,
                right_reply: right->Step_reply,
            })
            &&& plan is Ok && !(left is Step) ==> plan->Ok_0 == (DataParallelPlan::RunBoth {
                left_id: here[0],
                left,
                right_id: here[1],
                right,
            })
        }),
{
}

/// Both lanes of a shared step get the same answer, and a failure is not lost.
pub proof fn law_shared_steps_are_answered(message: String, done: PipelineResponse, failed: PipelineResponse)
    requires
        call_ensures(
            ExecuteDataParallelPipelineCommands::step_response,
            (Ok::<(), String>(()),),
            done,
        ),
        call_ensures(
            ExecuteDataParallelPipelineCommands::step_response,
            (Err::<(), String>(message),),
            failed,
        ),
    ensures
        done == PipelineResponse::Stepped,
        failed is Failed,
        failed->message == message,
        failed->Failed_micro_batch is None,
{
}

} // verus!
