//! Stages shared by two data-parallel pipeline lanes.

use vstd::prelude::*;
use vstd::string::*;

use crate::error::AtomError;
use crate::failure::{refused, refused_by, says, Failure};
use crate::ids::{ObjectId, Uuid};
use crate::nodes::fusion::FusionSeed;
use crate::programs::pipeline_backward::{
    OperationalControl, PipelineCommand, PipelineResponse,
};

verus! {

/// State of a stage shared by two lanes.
#[derive(Clone, Copy, Debug)]
pub struct DataParallelOperationState {
    pub model_ids: [ObjectId; 2],
    pub recv_ids: [ObjectId; 2],
}

impl Default for DataParallelOperationState {
    fn default() -> (state: DataParallelOperationState)
        ensures
            state.model_ids@ == seq![Uuid::spec_nil(), Uuid::spec_nil()],
            state.recv_ids@ == seq![Uuid::spec_nil(), Uuid::spec_nil()],
    {
        DataParallelOperationState {
            model_ids: [Uuid::nil(), Uuid::nil()],
            recv_ids: [Uuid::nil(), Uuid::nil()],
        }
    }
}

/// Takes the first mailboxes of both lanes from the seed.
pub struct InitDataParallelOperation;

impl InitDataParallelOperation {
    pub fn absorb(
        state: &mut DataParallelOperationState,
        output: Result<(), AtomError>,
        seed: FusionSeed,
    ) -> (result: Result<(), Failure>)
        ensures
            result is Ok <==> output is Ok,
            result matches Err(failure) ==> says(
                failure,
                "initialize data-parallel stage failed"@,
            ) && *final(state) == *old(state),
            result is Ok ==> final(state).recv_ids@ == seq![seed.p1_recv_id, seed.p2_recv_id],
            final(state).model_ids == old(state).model_ids,
    {
        match output {
            Err(_) => Err(refused("initialize data-parallel stage failed")),
            Ok(()) => {
                state.recv_ids = [seed.p1_recv_id, seed.p2_recv_id];
                Ok(())
            },
        }
    }
}

/// Draws the ids of both instances.
pub struct GenerateDataParallelModelIdsEffect;

impl GenerateDataParallelModelIdsEffect {
    pub fn effect() -> (ids: [ObjectId; 2])
        ensures
            ids@[0].is_random(),
            ids@[1].is_random(),
    {
        [Uuid::new_v4(), Uuid::new_v4()]
    }
}

/// Keeps the ids of both instances.
pub struct GenerateDataParallelModelIds;

impl GenerateDataParallelModelIds {
    pub fn absorb(
        state: &mut DataParallelOperationState,
        output: Result<[ObjectId; 2], AtomError>,
    ) -> (result: Result<(), Failure>)
        ensures
            result is Ok <==> output is Ok,
            output matches Err(error) ==> says(
                result->Err_0,
                "generate data-parallel model IDs failed: "@ + error.text(),
            ) && *final(state) == *old(state),
            output matches Ok(ids) ==> final(state).model_ids == ids,
            final(state).recv_ids == old(state).recv_ids,
    {
        match output {
            Err(error) => Err(refused_by("generate data-parallel model IDs failed: ", &error)),
            Ok(ids) => {
                state.model_ids = ids;
                Ok(())
            },
        }
    }
}

/// Starts both instances.
pub struct StartDataParallelOperation;

impl StartDataParallelOperation {
    pub fn emit(state: &DataParallelOperationState) -> (ids: [ObjectId; 2])
        ensures
            ids == state.model_ids,
    {
        state.model_ids
    }

    pub fn absorb(output: Result<(), AtomError>) -> (result: Result<(), Failure>)
        ensures
            result is Ok <==> output is Ok,
            output matches Err(error) ==> says(
                result->Err_0,
                "start data-parallel operation failed: "@ + error.text(),
            ),
    {
        match output {
            Ok(()) => Ok(()),
            Err(error) => Err(refused_by("start data-parallel operation failed: ", &error)),
        }
    }
}

/// Awaits a command of each lane and moves both lanes on.
pub struct WaitForDataParallelPipelineCommands;

impl WaitForDataParallelPipelineCommands {
    pub fn emit(state: &DataParallelOperationState) -> (mailboxes: [ObjectId; 2])
        ensures
            mailboxes == state.recv_ids,
    {
        state.recv_ids
    }

    pub fn absorb(
        state: &mut DataParallelOperationState,
        output: Result<[OperationalControl<PipelineCommand>; 2], AtomError>,
    ) -> (result: Result<[PipelineCommand; 2], Failure>)
        ensures
            result is Ok <==> output is Ok,
            output matches Err(error) ==> says(
                result->Err_0,
                "wait for data-parallel commands failed: "@ + error.text(),
            ) && *final(state) == *old(state),
            output matches Ok(messages) ==> {
                &&& final(state).recv_ids@ == seq![messages@[0].recv, messages@[1].recv]
                &&& result->Ok_0@ == seq![messages@[0].control, messages@[1].control]
            },
            final(state).model_ids == old(state).model_ids,
    {
        match output {
            Err(error) => Err(refused_by("wait for data-parallel commands failed: ", &error)),
            Ok(messages) => {
                state.recv_ids = [messages[0].recv, messages[1].recv];
                Ok([messages[0].control, messages[1].control])
            },
        }
    }
}

/// Both lanes ask for the same: work of one kind on one micro-batch, or one
/// step.
pub open spec fn matching(left: PipelineCommand, right: PipelineCommand) -> bool {
    match (left, right) {
        (
            PipelineCommand::Forward { micro_batch: a, .. },
            PipelineCommand::Forward { micro_batch: b, .. },
        ) => a == b,
        (
            PipelineCommand::Backward { micro_batch: a, .. },
            PipelineCommand::Backward { micro_batch: b, .. },
        ) => a == b,
        (PipelineCommand::Step { step: a, .. }, PipelineCommand::Step { step: b, .. }) => a == b,
        _ => false,
    }
}

pub fn matching_pipeline_commands(commands: &[PipelineCommand; 2]) -> (matches: bool)
    ensures
        matches == matching(commands@[0], commands@[1]),
{
    match (&commands[0], &commands[1]) {
        (
            PipelineCommand::Forward { micro_batch: a, .. },
            PipelineCommand::Forward { micro_batch: b, .. },
        ) => *a == *b,
        (
            PipelineCommand::Backward { micro_batch: a, .. },
            PipelineCommand::Backward { micro_batch: b, .. },
        ) => *a == *b,
        (PipelineCommand::Step { step: a, .. }, PipelineCommand::Step { step: b, .. }) => *a == *b,
        _ => false,
    }
}

/// What to do with the commands of both lanes.
#[derive(Clone, Copy, Debug, PartialEq, Eq, Structural)]
pub enum DataParallelPlan {
    /// Step the shared instance once and answer both lanes alike.
    StepOnce { instance_id: ObjectId, left_reply: ObjectId, right_reply: ObjectId },
    /// Run each lane's command on its own instance, without checkpoints.
    RunBoth {
        left_id: ObjectId,
        left: PipelineCommand,
        right_id: ObjectId,
        right: PipelineCommand,
    },
}

/// Runs the commands of both lanes.
pub struct ExecuteDataParallelPipelineCommands;

impl ExecuteDataParallelPipelineCommands {
    /// Joins the commands of both lanes.
    pub fn plan(ids: [ObjectId; 2], commands: [PipelineCommand; 2]) -> (result: Result<
        DataParallelPlan,
        AtomError,
    >)
        ensures
            result is Ok <==> matching(commands@[0], commands@[1]),
            result matches Err(error) ==> error is Inference && error.cause()
                == "data-parallel stage received mismatched lane commands"@,
            result matches Ok(plan) ==> plan == if commands@[0] is Step {
                DataParallelPlan::StepOnce {
                    instance_id: ids@[0],
                    left_reply: commands@[0].reply_view(),
                    right_reply: commands@[1].reply_view(),
                }
            } else {
                DataParallelPlan::RunBoth {
                    left_id: ids@[0],
                    left: commands@[0],
                    right_id: ids@[1],
                    right: commands@[1],
                }
            },
    {
        if !matching_pipeline_commands(&commands) {
            return Err(
                AtomError::Inference(
                    "data-parallel stage received mismatched lane commands".to_owned(),
                ),
            );
        }
        match commands[0] {
            PipelineCommand::Step { reply, .. } => Ok(
                DataParallelPlan::StepOnce {
                    instance_id: ids[0],
                    left_reply: reply,
                    right_reply: commands[1].reply(),
                },
            ),
            _ => Ok(
                DataParallelPlan::RunBoth {
                    left_id: ids[0],
                    left: commands[0],
                    right_id: ids[1],
                    right: commands[1],
                },
            ),
        }
    }

    /// The answer both lanes get to a shared step.
    pub fn step_response(stepped: Result<(), String>) -> (response: PipelineResponse)
        ensures
            response == match stepped {
                Ok(()) => PipelineResponse::Stepped,
                Err(message) => PipelineResponse::Failed { micro_batch: None, message },
            },
    {
        match stepped {
            Ok(()) => PipelineResponse::Stepped,
            Err(message) => PipelineResponse::Failed { micro_batch: None, message },
        }
    }
}

/// Hands the commands of both lanes on and takes the outcome.
pub struct ExecuteDataParallelPipeline;

impl ExecuteDataParallelPipeline {
    pub fn emit(state: &DataParallelOperationState, commands: [PipelineCommand; 2]) -> (sent: (
        [ObjectId; 2],
        [PipelineCommand; 2],
    ))
        ensures
            sent == (state.model_ids, commands),
    {
        (state.model_ids, commands)
    }

    pub fn absorb(output: Result<(), AtomError>) -> (result: Result<(), Failure>)
        ensures
            result is Ok <==> output is Ok,
            output matches Err(error) ==> says(
                result->Err_0,
                "data-parallel pipeline operation failed: "@ + error.text(),
            ),
    {
        match output {
            Ok(()) => Ok(()),
            Err(error) => Err(refused_by("data-parallel pipeline operation failed: ", &error)),
        }
    }
}

/// Lanes that ask for the same in either order match.
pub proof fn law_matching_is_symmetric(left: PipelineCommand, right: PipelineCommand)
    ensures
        matching(left, right) == matching(right, left),
        matching(left, left),
{
}

/// The lanes of a shared stage go together only on the same work: both forward
/// or both backward on one micro-batch, or both on one step.
pub proof fn law_lanes_go_together_on_the_same_work(left: PipelineCommand, right: PipelineCommand)
    ensures
        matching(left, right) ==> (left is Forward <==> right is Forward) && (left is Backward
            <==> right is Backward),
        left is Forward && right is Forward ==> (matching(left, right)
            <==> left->Forward_micro_batch == right->Forward_micro_batch),
        left is Backward && right is Backward ==> (matching(left, right)
            <==> left->Backward_micro_batch == right->Backward_micro_batch),
        left is Step && right is Step ==> (matching(left, right) <==> left->step == right->step),
        left is Step && !(right is Step) ==> !matching(left, right),
{
}

} // verus!
