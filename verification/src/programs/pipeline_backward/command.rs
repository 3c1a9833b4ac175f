//! What a stage does with a command, as a machine that names the next piece of
//! outside work and takes its outcome.

use std::marker::PhantomData;

use vstd::prelude::*;
use vstd::string::*;

use crate::error::AtomError;
use crate::failure::{refused_by, says, Failure};
use crate::ids::ObjectId;
use crate::nodes::cell::CellState;
use crate::nodes::cell::action::{copy_text, same_text};
use crate::programs::pipeline_backward::lane::Work;
use crate::programs::pipeline_backward::run::{answer_refused, command_of, PipelineRun};
use crate::programs::pipeline_backward::{
    OperationalControl, PipelineCommand, PipelineResponse,
};

verus! {

/// Awaits a command and moves on to the mailbox it names.
pub struct WaitForPipelineCommand<S>(pub PhantomData<S>);

impl<S> WaitForPipelineCommand<S> {
    pub fn emit(state: &CellState<S>) -> (mailbox: ObjectId)
        ensures
            mailbox == state.recv_id,
    {
        state.recv_id
    }

    pub fn absorb(
        state: &mut CellState<S>,
        output: Result<OperationalControl<PipelineCommand>, AtomError>,
    ) -> (result: Result<PipelineCommand, Failure>)
        ensures
            result is Ok <==> output is Ok,
            output matches Err(error) ==> says(
                result->Err_0,
                "wait for pipeline command failed: "@ + error.text(),
            ) && *final(state) == *old(state),
            output matches Ok(message) ==> result->Ok_0 == message.control && *final(state) == (
            CellState { recv_id: message.recv, ..*old(state) }),
    {
        match output {
            Err(error) => Err(refused_by("wait for pipeline command failed: ", &error)),
            Ok(message) => {
                state.recv_id = message.recv;
                Ok(message.control)
            },
        }
    }
}

/// How far a command has come.
#[derive(Clone, Copy, Debug, PartialEq, Eq, Structural)]
pub enum CommandPoint {
    /// Reading the emission to work on.
    Fetching,
    /// Reading the forward output of the sink and framing it as a gradient.
    Seeding,
    /// Writing the framed gradient.
    Planting,
    /// Running the operation.
    Computing,
    /// Writing the emission that was made.
    Publishing,
    /// Applying the gradients.
    Stepping,
    /// Saving a checkpoint, where one is due.
    Checkpointing,
    Answered,
}

/// What has to happen outside before the command can go on.
pub enum CommandAction<M> {
    /// Read an emission and decode it.
    Fetch { emission_id: ObjectId },
    /// Read a forward output and frame it under the reverse descriptor.
    Seed { output_id: ObjectId },
    /// Write a framed gradient.
    Plant { gradient: Vec<u8> },
    /// Run the operation forward.
    Forward { instance_id: ObjectId, input_id: ObjectId },
    /// Run the operation in reverse.
    Backward { instance_id: ObjectId, gradient_id: ObjectId },
    /// Write an emission of this tensor with this metadata.
    Publish { metadata: M, output_id: ObjectId },
    /// Apply the gradients.
    Step { instance_id: ObjectId },
    /// Save a checkpoint if `step` is due.
    Checkpoint {
        instance_id: ObjectId,
        step: usize,
        checkpoint_steps: usize,
        checkpoint_dir: Option<String>,
    },
    /// Put the answer into its mailbox.
    Answer { reply: ObjectId, response: PipelineResponse },
}

/// How outside work can fail.
pub enum StageFault {
    /// The work itself failed.
    Effect(String),
    /// A value could not be encoded or decoded.
    Codec(String),
    /// The forward output of the sink could not be decoded.
    SeedDecode(String),
    /// The gradient of the sink could not be framed.
    SeedEncode(String),
}

/// The outcome of outside work.
pub enum CommandEvent<M> {
    Done,
    /// An emission was read: its metadata, and the tensor it refers to.
    Read { metadata: M, output_id: ObjectId },
    /// A gradient was framed.
    Framed(Vec<u8>),
    Made(ObjectId),
    Failed(StageFault),
}

/// A command under way at one stage.
pub struct ExecutePipelineCommand<M> {
    pub instance_id: ObjectId,
    pub command: PipelineCommand,
    pub checkpoint_steps: usize,
    pub checkpoint_dir: Option<String>,
    pub point: CommandPoint,
    /// The metadata of the emission that was read, until it is written again.
    pub metadata: Option<M>,
}

/// What is said of a fault at `point`.
pub open spec fn fault_text(point: CommandPoint, fault: StageFault) -> Seq<char> {
    match fault {
        StageFault::Effect(cause) => (match point {
            CommandPoint::Fetching | CommandPoint::Seeding => "void download failed: "@,
            CommandPoint::Planting | CommandPoint::Publishing => "void upload failed: "@,
            CommandPoint::Computing => "mass inference failed: "@,
            CommandPoint::Stepping | CommandPoint::Checkpointing => "mass optimize failed: "@,
            CommandPoint::Answered => "transmission error: "@,
        }) + cause@,
        StageFault::Codec(cause) => "serialization error: "@ + cause@,
        StageFault::SeedDecode(cause) => "mass inference failed: "@ + (
        "invalid sink gradient seed: "@ + cause@),
        StageFault::SeedEncode(cause) => "mass inference failed: "@ + (
        "encode sink gradient seed: "@ + cause@),
    }
}

fn error_of(point: CommandPoint, fault: StageFault) -> (error: AtomError)
    ensures
        error.text() == fault_text(point, fault),
{
    match fault {
        StageFault::Effect(cause) => match point {
            CommandPoint::Fetching | CommandPoint::Seeding => AtomError::Download(cause),
            CommandPoint::Planting | CommandPoint::Publishing => AtomError::Upload(cause),
            CommandPoint::Computing => AtomError::Inference(cause),
            CommandPoint::Stepping | CommandPoint::Checkpointing => AtomError::Optimize(cause),
            CommandPoint::Answered => AtomError::Transmission(cause),
        },
        StageFault::Codec(cause) => AtomError::Serialization(cause),
        StageFault::SeedDecode(cause) => {
            let mut text = "invalid sink gradient seed: ".to_owned();
            text.append(cause.as_str());
            AtomError::Inference(text)
        },
        StageFault::SeedEncode(cause) => {
            let mut text = "encode sink gradient seed: ".to_owned();
            text.append(cause.as_str());
            AtomError::Inference(text)
        },
    }
}

impl<M> ExecutePipelineCommand<M> {
    /// Work must come to the kind of outcome it was named for, or fail.
    pub open spec fn awaits(self, event: CommandEvent<M>) -> bool {
        match event {
            CommandEvent::Failed(_) => !(self.point is Answered),
            CommandEvent::Done => self.point is Stepping || self.point is Checkpointing,
            CommandEvent::Read { .. } => self.point is Fetching,
            CommandEvent::Framed(_) => self.point is Seeding,
            CommandEvent::Made(_) => self.point is Planting || self.point is Computing
                || self.point is Publishing,
        }
    }

    /// Only reverse work is seeded, only applying gradients is a step, and
    /// what was read is held until it is written again.
    pub open spec fn well_formed(self) -> bool {
        match self.point {
            CommandPoint::Fetching | CommandPoint::Publishing => !(self.command is Step),
            CommandPoint::Computing => !(self.command is Step) && self.metadata is Some,
            CommandPoint::Seeding | CommandPoint::Planting => self.command is Backward
                && self.metadata is Some,
            CommandPoint::Stepping | CommandPoint::Checkpointing => self.command is Step,
            CommandPoint::Answered => true,
        }
    }

    /// The operation is run on `id`.
    pub open spec fn computes(self, id: ObjectId) -> CommandAction<M> {
        if self.command is Forward {
            CommandAction::Forward { instance_id: self.instance_id, input_id: id }
        } else {
            CommandAction::Backward { instance_id: self.instance_id, gradient_id: id }
        }
    }

    pub open spec fn at(self, point: CommandPoint) -> ExecutePipelineCommand<M> {
        ExecutePipelineCommand { point, ..self }
    }

    /// `action` and the point it leads to are what follows `event`.
    pub open spec fn follows(
        self,
        event: CommandEvent<M>,
        after: ExecutePipelineCommand<M>,
        action: CommandAction<M>,
    ) -> bool {
        match event {
            CommandEvent::Failed(fault) => {
                &&& after == self.at(CommandPoint::Answered)
                &&& action matches CommandAction::Answer { reply, response }
                &&& reply == self.command.reply_view()
                &&& response matches PipelineResponse::Failed { micro_batch, message }
                &&& micro_batch == self.command.micro_batch_view()
                &&& message@ == fault_text(self.point, fault)
            },
            CommandEvent::Done => if self.point is Stepping {
                &&& after == self.at(CommandPoint::Checkpointing)
                &&& action matches CommandAction::Checkpoint {
                    instance_id,
                    step,
                    checkpoint_steps,
                    checkpoint_dir,
                }
                &&& instance_id == self.instance_id
                &&& step == self.command->step
                &&& checkpoint_steps == self.checkpoint_steps
                &&& same_text(checkpoint_dir, self.checkpoint_dir)
            } else {
                &&& after == self.at(CommandPoint::Answered)
                &&& action == CommandAction::<M>::Answer {
                    reply: self.command.reply_view(),
                    response: PipelineResponse::Stepped,
                }
            },
            CommandEvent::Read { metadata, output_id } => {
                let kept = ExecutePipelineCommand { metadata: Some(metadata), ..self };
                if self.command matches PipelineCommand::Backward { seed_from_forward: true, .. } {
                    &&& after == kept.at(CommandPoint::Seeding)
                    &&& action == CommandAction::<M>::Seed { output_id }
                } else {
                    &&& after == kept.at(CommandPoint::Computing)
                    &&& action == self.computes(output_id)
                }
            },
            CommandEvent::Framed(gradient) => {
                &&& after == self.at(CommandPoint::Planting)
                &&& action == CommandAction::<M>::Plant { gradient }
            },
            CommandEvent::Made(id) => match self.point {
                CommandPoint::Planting => {
                    &&& after == self.at(CommandPoint::Computing)
                    &&& action == self.computes(id)
                },
                CommandPoint::Computing => {
                    &&& after == (ExecutePipelineCommand { metadata: None, ..self }).at(
                        CommandPoint::Publishing,
                    )
                    &&& action == CommandAction::<M>::Publish {
                        metadata: self.metadata->0,
                        output_id: id,
                    }
                },
                _ => {
                    &&& after == self.at(CommandPoint::Answered)
                    &&& action == CommandAction::<M>::Answer {
                        reply: self.command.reply_view(),
                        response: PipelineResponse::Artifact {
                            micro_batch: self.command.micro_batch_view()->0,
                            emission_id: id,
                        },
                    }
                },
            },
        }
    }

    /// Takes up a command.
    pub fn begin(
        instance_id: ObjectId,
        command: PipelineCommand,
        checkpoint_steps: usize,
        checkpoint_dir: Option<String>,
    ) -> (begun: (ExecutePipelineCommand<M>, CommandAction<M>))
        ensures
            begun.0 == (ExecutePipelineCommand::<M> {
                instance_id,
                command,
                checkpoint_steps,
                checkpoint_dir,
                point: if command is Step {
                    CommandPoint::Stepping
                } else {
                    CommandPoint::Fetching
                },
                metadata: None,
            }),
            begun.0.well_formed(),
            begun.1 == match command {
                PipelineCommand::Forward { emission_id, .. } => CommandAction::<M>::Fetch {
                    emission_id,
                },
                PipelineCommand::Backward { gradient_emission_id, .. } => CommandAction::Fetch {
                    emission_id: gradient_emission_id,
                },
                PipelineCommand::Step { .. } => CommandAction::Step { instance_id },
            },
    {
        let (point, action) = match command {
            PipelineCommand::Forward { emission_id, .. } => (
                CommandPoint::Fetching,
                CommandAction::Fetch { emission_id },
            ),
            PipelineCommand::Backward { gradient_emission_id, .. } => (
                CommandPoint::Fetching,
                CommandAction::Fetch { emission_id: gradient_emission_id },
            ),
            PipelineCommand::Step { .. } => (
                CommandPoint::Stepping,
                CommandAction::Step { instance_id },
            ),
        };
        (
            ExecutePipelineCommand {
                instance_id,
                command,
                checkpoint_steps,
                checkpoint_dir,
                point,
                metadata: None,
            },
            action,
        )
    }

    /// Takes the outcome of the work named last and names the next. Any
    /// failure is answered, not lost.
    pub fn advance(&mut self, event: CommandEvent<M>) -> (action: CommandAction<M>)
        requires
            old(self).well_formed(),
            old(self).awaits(event),
        ensures
            final(self).well_formed(),
            old(self).follows(event, *final(self), action),
    {
        let reply = self.command.reply();
        match event {
            CommandEvent::Failed(fault) => {
                let error = error_of(self.point, fault);
                let message = error.message();
                self.point = CommandPoint::Answered;
                CommandAction::Answer {
                    reply,
                    response: PipelineResponse::Failed {
                        micro_batch: self.command.micro_batch(),
                        message,
                    },
                }
            },
            CommandEvent::Done => match self.command {
                PipelineCommand::Step { step, .. } if self.point == CommandPoint::Stepping => {
                    self.point = CommandPoint::Checkpointing;
                    CommandAction::Checkpoint {
                        instance_id: self.instance_id,
                        step,
                        checkpoint_steps: self.checkpoint_steps,
                        checkpoint_dir: copy_text(&self.checkpoint_dir),
                    }
                },
                _ => {
                    self.point = CommandPoint::Answered;
                    CommandAction::Answer { reply, response: PipelineResponse::Stepped }
                },
            },
            CommandEvent::Read { metadata, output_id } => {
                self.metadata = Some(metadata);
                match self.command {
                    PipelineCommand::Backward { seed_from_forward: true, .. } => {
                        self.point = CommandPoint::Seeding;
                        CommandAction::Seed { output_id }
                    },
                    _ => self.compute(output_id),
                }
            },
            CommandEvent::Framed(gradient) => {
                self.point = CommandPoint::Planting;
                CommandAction::Plant { gradient }
            },
            CommandEvent::Made(id) => match self.point {
                CommandPoint::Planting => self.compute(id),
                CommandPoint::Computing => {
                    self.point = CommandPoint::Publishing;
                    let metadata = self.metadata.take().unwrap();
                    CommandAction::Publish { metadata, output_id: id }
                },
                _ => {
                    self.point = CommandPoint::Answered;
                    let micro_batch = match self.command.micro_batch() {
                        Some(micro_batch) => micro_batch,
                        None => 0,
                    };
                    CommandAction::Answer {
                        reply,
                        response: PipelineResponse::Artifact { micro_batch, emission_id: id },
                    }
                },
            },
        }
    }

    /// Goes on to run the operation on `id`.
    fn compute(&mut self, id: ObjectId) -> (action: CommandAction<M>)
        ensures
            *final(self) == old(self).at(CommandPoint::Computing),
            action == old(self).computes(id),
    {
        self.point = CommandPoint::Computing;
        match self.command {
            PipelineCommand::Forward { .. } => CommandAction::Forward {
                instance_id: self.instance_id,
                input_id: id,
            },
            _ => CommandAction::Backward { instance_id: self.instance_id, gradient_id: id },
        }
    }
}

/// Runs the command of a stage and hands on the outcome of its answer.
pub struct ExecutePipeline<S>(pub PhantomData<S>);

impl<S> ExecutePipeline<S> {
    pub fn emit(state: &CellState<S>, command: PipelineCommand) -> (sent: (
        ObjectId,
        PipelineCommand,
        usize,
        Option<String>,
    ))
        ensures
            sent.0 == state.model_id,
            sent.1 == command,
            sent.2 == state.checkpoint_steps,
            same_text(sent.3, state.checkpoint_dir),
    {
        (state.model_id, command, state.checkpoint_steps, copy_text(&state.checkpoint_dir))
    }

    pub fn absorb(output: Result<(), AtomError>) -> (result: Result<(), Failure>)
        ensures
            result is Ok <==> output is Ok,
            output matches Err(error) ==> says(
                result->Err_0,
                "pipeline operation failed: "@ + error.text(),
            ),
    {
        match output {
            Ok(()) => Ok(()),
            Err(error) => Err(refused_by("pipeline operation failed: ", &error)),
        }
    }
}

/// The number of pieces of outside work before the answer.
pub open spec fn work_ahead(point: CommandPoint) -> nat {
    match point {
        CommandPoint::Fetching => 5,
        CommandPoint::Seeding => 4,
        CommandPoint::Planting => 3,
        CommandPoint::Computing => 2,
        CommandPoint::Publishing => 1,
        CommandPoint::Stepping => 2,
        CommandPoint::Checkpointing => 1,
        CommandPoint::Answered => 0,
    }
}

/// Every command is answered, and in its own mailbox: each outcome brings the
/// answer nearer, and the last action is the answer.
pub proof fn law_every_command_is_answered<M>(
    before: ExecutePipelineCommand<M>,
    event: CommandEvent<M>,
    after: ExecutePipelineCommand<M>,
    action: CommandAction<M>,
)
    requires
        before.well_formed(),
        before.awaits(event),
        before.follows(event, after, action),
    ensures
        work_ahead(after.point) < work_ahead(before.point),
        after.point is Answered <==> action is Answer,
        action matches CommandAction::Answer { reply, .. } ==> reply
            == before.command.reply_view(),
        after.command == before.command,
{
}

/// The metadata of the emission that was read is held unchanged, and is the
/// metadata of the emission that is written.
pub proof fn law_metadata_is_carried_through<M>(
    before: ExecutePipelineCommand<M>,
    event: CommandEvent<M>,
    after: ExecutePipelineCommand<M>,
    action: CommandAction<M>,
)
    requires
        before.well_formed(),
        before.awaits(event),
        before.follows(event, after, action),
        !(event is Failed),
    ensures
        event matches CommandEvent::Read { metadata, .. } ==> after.metadata == Some(metadata),
        !(event is Read) && !(action is Publish) ==> after.metadata == before.metadata,
        action matches CommandAction::Publish { metadata, output_id } ==> before.metadata == Some(
            metadata,
        ) && event == CommandEvent::<M>::Made(output_id),
        action is Publish <==> before.point is Computing,
{
}

/// What a stage answers to the work a slot was asked is never mistaken for the
/// answer to other work.
pub proof fn law_answer_fits_work<M>(
    run: PipelineRun,
    work: Work,
    reply: ObjectId,
    before: ExecutePipelineCommand<M>,
    event: CommandEvent<M>,
    after: ExecutePipelineCommand<M>,
    response: PipelineResponse,
)
    requires
        run.holds(),
        run.point is Waiting,
        run.expects_answer(),
        ({
            let at = run.current();
            let pending = run.lanes@[at.replica as int].busy@[at.stage as int]->0;
            &&& pending.kind == work.kind_view()
            &&& pending.reply == reply
            &&& command_of(work, reply).micro_batch_view() == Some(pending.micro_batch)
        }),
        before.command == command_of(work, reply),
        before.well_formed(),
        before.awaits(event),
        before.follows(event, after, CommandAction::Answer { reply, response }),
        !(event is Failed),
    ensures
        answer_refused(run, response) is None,
{
}

/// A stage runs a forward command on the tensor of the emission it was handed,
/// writes what came out with the metadata that came in, and answers with that
/// emission for that micro-batch where it was asked to.
pub proof fn law_forward_command_runs_through<M>(
    instance: ObjectId,
    micro_batch: usize,
    emission_id: ObjectId,
    reply: ObjectId,
    metadata: M,
    tensor: ObjectId,
    made: ObjectId,
    written: ObjectId,
    states: Seq<ExecutePipelineCommand<M>>,
    actions: Seq<CommandAction<M>>,
)
    requires
        states.len() == 4,
        actions.len() == 3,
        states[0].instance_id == instance,
        states[0].command == (PipelineCommand::Forward { micro_batch, emission_id, reply }),
        states[0].point is Fetching,
        states[0].follows(
            CommandEvent::Read { metadata, output_id: tensor },
            states[1],
            actions[0],
        ),
        states[1].follows(CommandEvent::Made(made), states[2], actions[1]),
        states[2].follows(CommandEvent::Made(written), states[3], actions[2]),
    ensures
        actions[0] == (CommandAction::<M>::Forward { instance_id: instance, input_id: tensor }),
        actions[1] == (CommandAction::<M>::Publish { metadata, output_id: made }),
        actions[2] == (CommandAction::<M>::Answer {
            reply,
            response: PipelineResponse::Artifact { micro_batch, emission_id: written },
        }),
        states[3].point is Answered,
{
}

/// A stage runs a backward command on the gradient it was handed; the sink
/// first frames its own output as one and runs on what it framed.
pub proof fn law_backward_command_runs_through<M>(
    instance: ObjectId,
    micro_batch: usize,
    gradient_emission_id: ObjectId,
    reply: ObjectId,
    metadata: M,
    tensor: ObjectId,
    framed: Vec<u8>,
    planted: ObjectId,
    made: ObjectId,
    written: ObjectId,
    states: Seq<ExecutePipelineCommand<M>>,
    actions: Seq<CommandAction<M>>,
    seeded: Seq<ExecutePipelineCommand<M>>,
    seeding: Seq<CommandAction<M>>,
)
    requires
        states.len() == 4,
        actions.len() == 3,
        states[0].instance_id == instance,
        states[0].command == (PipelineCommand::Backward {
            micro_batch,
            gradient_emission_id,
            seed_from_forward: false,
            reply,
        }),
        states[0].point is Fetching,
        states[0].follows(
            CommandEvent::Read { metadata, output_id: tensor },
            states[1],
            actions[0],
        ),
        states[1].follows(CommandEvent::Made(made), states[2], actions[1]),
        states[2].follows(CommandEvent::Made(written), states[3], actions[2]),
        seeded.len() == 6,
        seeding.len() == 5,
        seeded[0].instance_id == instance,
        seeded[0].command == (PipelineCommand::Backward {
            micro_batch,
            gradient_emission_id,
            seed_from_forward: true,
            reply,
        }),
        seeded[0].point is Fetching,
        seeded[0].follows(
            CommandEvent::Read { metadata, output_id: tensor },
            seeded[1],
            seeding[0],
        ),
        seeded[1].follows(CommandEvent::Framed(framed), seeded[2], seeding[1]),
        seeded[2].follows(CommandEvent::Made(planted), seeded[3], seeding[2]),
        seeded[3].follows(CommandEvent::Made(made), seeded[4], seeding[3]),
        seeded[4].follows(CommandEvent::Made(written), seeded[5], seeding[4]),
    ensures
        actions[0] == (CommandAction::<M>::Backward {
            instance_id: instance,
            gradient_id: tensor,
        }),
        actions[1] == (CommandAction::<M>::Publish { metadata, output_id: made }),
        actions[2] == (CommandAction::<M>::Answer {
            reply,
            response: PipelineResponse::Artifact { micro_batch, emission_id: written },
        }),
        seeding[0] == (CommandAction::<M>::Seed { output_id: tensor }),
        seeding[1] == (CommandAction::<M>::Plant { gradient: framed }),
        seeding[2] == (CommandAction::<M>::Backward {
            instance_id: instance,
            gradient_id: planted,
        }),
        seeding[3] == (CommandAction::<M>::Publish { metadata, output_id: made }),
        seeding[4] == (CommandAction::<M>::Answer {
            reply,
            response: PipelineResponse::Artifact { micro_batch, emission_id: written },
        }),
{
}

/// A stage that is asked to step applies its gradients, saves a checkpoint
/// where the cell has its own, and acknowledges where it was asked to.
pub proof fn law_step_command_runs_through<M>(
    reply: ObjectId,
    step: usize,
    states: Seq<ExecutePipelineCommand<M>>,
    actions: Seq<CommandAction<M>>,
)
    requires
        states.len() == 3,
        actions.len() == 2,
        states[0].command == (PipelineCommand::Step { reply, step }),
        states[0].point is Stepping,
        states[0].follows(CommandEvent::Done, states[1], actions[0]),
        states[1].follows(CommandEvent::Done, states[2], actions[1]),
    ensures
        actions[0] is Checkpoint,
        actions[0]->Checkpoint_instance_id == states[0].instance_id,
        actions[0]->Checkpoint_step == step,
        actions[0]->Checkpoint_checkpoint_steps == states[0].checkpoint_steps,
        states[0].checkpoint_dir matches Some(dir) ==> actions[0]->Checkpoint_checkpoint_dir
            matches Some(there) && there@ == dir@,
        states[0].checkpoint_dir is None ==> actions[0]->Checkpoint_checkpoint_dir is None,
        actions[1] == (CommandAction::<M>::Answer { reply, response: PipelineResponse::Stepped }),
        states[2].point is Answered,
{
}

/// A stage that fails says so where it was asked to answer, names the
/// micro-batch if the work had one, and says what went wrong.
pub proof fn law_failures_are_answered<M>(
    before: ExecutePipelineCommand<M>,
    cause: String,
    after: ExecutePipelineCommand<M>,
    action: CommandAction<M>,
)
    requires
        before.well_formed(),
        before.awaits(CommandEvent::Failed(StageFault::Effect(cause))),
        before.follows(CommandEvent::Failed(StageFault::Effect(cause)), after, action),
    ensures
        action is Answer,
        action->response is Failed,
        action->reply == match before.command {
            PipelineCommand::Forward { reply, .. } => reply,
            PipelineCommand::Backward { reply, .. } => reply,
            PipelineCommand::Step { reply, .. } => reply,
        },
        action->response->Failed_micro_batch == match before.command {
            PipelineCommand::Forward { micro_batch, .. } => Some(micro_batch),
            PipelineCommand::Backward { micro_batch, .. } => Some(micro_batch),
            PipelineCommand::Step { .. } => None,
        },
        action->response->message@ == match before.point {
            CommandPoint::Fetching | CommandPoint::Seeding => "void download failed: "@ + cause@,
            CommandPoint::Planting | CommandPoint::Publishing => "void upload failed: "@ + cause@,
            CommandPoint::Computing => "mass inference failed: "@ + cause@,
            _ => "mass optimize failed: "@ + cause@,
        },
        after.point is Answered,
{
}

} // verus!
