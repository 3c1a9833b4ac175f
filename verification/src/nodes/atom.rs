//! Atoms: one inference between an input flow and an output flow.

use std::marker::PhantomData;

use vstd::prelude::*;

use crate::error::AtomError;
use crate::failure::{refused_by, says, Failure};
use crate::ids::{ObjectId, Uuid};
use crate::message::EmissionId;

verus! {

/// Takes the outcome of inference that was retried.
pub struct ExtractQuarkInferBackoffResult<S>(pub PhantomData<S>);

impl<S> ExtractQuarkInferBackoffResult<S> {
    pub fn absorb(carry: (u32, ((Uuid, EmissionId), Result<EmissionId, Failure>))) -> (result:
        Result<EmissionId, Failure>)
        ensures
            result == carry.1.1,
    {
        carry.1.1
    }
}

/// Runs an operation on an emission.
pub struct OperationMassInferStep<S>(pub PhantomData<S>);

impl<S> OperationMassInferStep<S> {
    pub fn absorb(output: Result<EmissionId, AtomError>) -> (result: Result<EmissionId, Failure>)
        ensures
            output matches Ok(id) ==> result == Ok::<EmissionId, Failure>(id),
            output matches Err(error) ==> result is Err && says(
                result->Err_0,
                "operation inference failed: "@ + error.text(),
            ),
    {
        match output {
            Ok(id) => Ok(id),
            Err(error) => Err(refused_by("operation inference failed: ", &error)),
        }
    }
}

/// What has to happen outside before an inference can go on.
#[derive(Clone, Copy, Debug, PartialEq, Eq)]
pub enum InferenceAction<M> {
    /// Read an emission and find the object it refers to.
    Download { emission_id: EmissionId },
    /// Run the instance on an object.
    Infer { instance_id: Uuid, input_id: ObjectId },
    /// Reset the runtime state of the instance.
    Reset { instance_id: Uuid },
    /// Write an emission of this object with this metadata.
    Upload { metadata: M, output_id: ObjectId },
    /// The inference is complete.
    Finish { emission_id: EmissionId },
}

/// How far an inference has come.
#[derive(Clone, Copy, Debug, PartialEq, Eq, Structural)]
pub enum InferencePoint {
    Downloading,
    Inferring,
    Resetting { output_id: ObjectId },
    Uploading,
    Finished,
}

/// The outcome of outside work.
pub enum InferenceEvent<M> {
    /// An emission was read: its metadata, and the object it refers to.
    Read { metadata: M, output_id: ObjectId },
    Made(ObjectId),
    Done,
    /// The work failed.
    Failed(String),
    /// The emission could not be encoded or decoded.
    Codec(String),
}

/// One inference under way: read the emission, run the instance, reset it,
/// and write the emission of the result.
#[derive(Clone, Copy, Debug, PartialEq, Eq)]
pub struct MassInfer<M> {
    pub instance_id: Uuid,
    pub point: InferencePoint,
    /// The metadata of the emission that was read, until it is written again.
    pub metadata: Option<M>,
}

/// Inference of an operation runs the same way.
pub type OperationMassInfer<M> = MassInfer<M>;

impl<M> MassInfer<M> {
    /// Work must come to the kind of outcome it was named for, or fail. Only
    /// emissions are encoded and decoded.
    pub open spec fn awaits(self, event: InferenceEvent<M>) -> bool {
        match event {
            InferenceEvent::Failed(_) => !(self.point is Finished),
            InferenceEvent::Codec(_) => self.point is Downloading || self.point is Uploading,
            InferenceEvent::Done => self.point is Resetting,
            InferenceEvent::Read { .. } => self.point is Downloading,
            InferenceEvent::Made(_) => self.point is Inferring || self.point is Uploading,
        }
    }

    /// What was read is held until it is written again.
    pub open spec fn well_formed(self) -> bool {
        self.point is Inferring || self.point is Resetting ==> self.metadata is Some
    }

    /// The error a failure at this point is.
    pub open spec fn error_of(self, cause: String) -> AtomError {
        match self.point {
            InferencePoint::Downloading => AtomError::Download(cause),
            InferencePoint::Inferring => AtomError::Inference(cause),
            InferencePoint::Resetting { .. } => AtomError::ModelReset(cause),
            _ => AtomError::Upload(cause),
        }
    }

    /// The state and the work that follow the work named last, if it did not
    /// fail.
    pub open spec fn next(self, event: InferenceEvent<M>) -> (MassInfer<M>, InferenceAction<M>)
        recommends
            self.well_formed(),
            self.awaits(event),
            !(event is Failed || event is Codec),
    {
        match (self.point, event) {
            (InferencePoint::Downloading, InferenceEvent::Read { metadata, output_id }) => (
                MassInfer {
                    point: InferencePoint::Inferring,
                    metadata: Some(metadata),
                    ..self
                },
                InferenceAction::Infer { instance_id: self.instance_id, input_id: output_id },
            ),
            (InferencePoint::Inferring, InferenceEvent::Made(id)) => (
                MassInfer { point: InferencePoint::Resetting { output_id: id }, ..self },
                InferenceAction::Reset { instance_id: self.instance_id },
            ),
            (InferencePoint::Resetting { output_id }, _) => (
                MassInfer { point: InferencePoint::Uploading, metadata: None, ..self },
                InferenceAction::Upload { metadata: self.metadata->0, output_id },
            ),
            (_, InferenceEvent::Made(id)) => (
                MassInfer { point: InferencePoint::Finished, ..self },
                InferenceAction::Finish { emission_id: EmissionId { object: id } },
            ),
            (_, _) => (self, InferenceAction::Reset { instance_id: self.instance_id }),
        }
    }

    /// Takes up an inference of one instance on one emission.
    pub fn begin(instance_id: Uuid, emission_id: EmissionId) -> (begun: (
        MassInfer<M>,
        InferenceAction<M>,
    ))
        ensures
            begun.0 == (MassInfer::<M> {
                instance_id,
                point: InferencePoint::Downloading,
                metadata: None,
            }),
            begun.0.well_formed(),
            begun.1 == (InferenceAction::<M>::Download { emission_id }),
    {
        (
            MassInfer { instance_id, point: InferencePoint::Downloading, metadata: None },
            InferenceAction::Download { emission_id },
        )
    }

    /// Takes the outcome of the work named last and names the next.
    pub fn advance(&mut self, event: InferenceEvent<M>) -> (result: Result<
        InferenceAction<M>,
        AtomError,
    >)
        requires
            old(self).well_formed(),
            old(self).awaits(event),
        ensures
            final(self).well_formed(),
            match event {
                InferenceEvent::Failed(cause) => result == Err::<InferenceAction<M>, AtomError>(
                    old(self).error_of(cause),
                ) && *final(self) == *old(self),
                InferenceEvent::Codec(cause) => result == Err::<InferenceAction<M>, AtomError>(
                    AtomError::Serialization(cause),
                ) && *final(self) == *old(self),
                _ => result == Ok::<InferenceAction<M>, AtomError>(old(self).next(event).1)
                    && *final(self) == old(self).next(event).0,
            },
    {
        let instance_id = self.instance_id;
        match event {
            InferenceEvent::Failed(cause) => match self.point {
                InferencePoint::Downloading => Err(AtomError::Download(cause)),
                InferencePoint::Inferring => Err(AtomError::Inference(cause)),
                InferencePoint::Resetting { .. } => Err(AtomError::ModelReset(cause)),
                _ => Err(AtomError::Upload(cause)),
            },
            InferenceEvent::Codec(cause) => Err(AtomError::Serialization(cause)),
            InferenceEvent::Done => match self.point {
                InferencePoint::Resetting { output_id } => {
                    self.point = InferencePoint::Uploading;
                    let metadata = self.metadata.take().unwrap();
                    Ok(InferenceAction::Upload { metadata, output_id })
                },
                _ => Ok(InferenceAction::Reset { instance_id }),
            },
            InferenceEvent::Read { metadata, output_id } => {
                self.point = InferencePoint::Inferring;
                self.metadata = Some(metadata);
                Ok(InferenceAction::Infer { instance_id, input_id: output_id })
            },
            InferenceEvent::Made(id) => match self.point {
                InferencePoint::Inferring => {
                    self.point = InferencePoint::Resetting { output_id: id };
                    Ok(InferenceAction::Reset { instance_id })
                },
                _ => {
                    self.point = InferencePoint::Finished;
                    Ok(InferenceAction::Finish { emission_id: EmissionId::new(id) })
                },
            },
        }
    }
}

/// An inference reads the emission, runs the instance on what it refers to,
/// resets the instance, and writes an emission that refers to what the
/// instance made and carries the metadata that was read.
pub proof fn law_inference_keeps_metadata<M>(
    instance_id: Uuid,
    metadata: M,
    input_id: ObjectId,
    made: ObjectId,
    written: ObjectId,
)
    ensures
        ({
            let begun = MassInfer::<M> {
                instance_id,
                point: InferencePoint::Downloading,
                metadata: None,
            };
            let (inferring, infer) = begun.next(
                InferenceEvent::Read { metadata, output_id: input_id },
            );
            let (resetting, reset) = inferring.next(InferenceEvent::Made(made));
            let (uploading, upload) = resetting.next(InferenceEvent::Done);
            let (finished, finish) = uploading.next(InferenceEvent::Made(written));
            &&& infer == InferenceAction::<M>::Infer { instance_id, input_id }
            &&& reset == InferenceAction::<M>::Reset { instance_id }
            &&& upload == InferenceAction::<M>::Upload { metadata, output_id: made }
            &&& finish == InferenceAction::<M>::Finish {
                emission_id: EmissionId { object: written },
            }
            &&& finished.point is Finished
        }),
{
}

/// An inference that goes through reads the emission it was given, runs its own
/// instance on what that refers to, resets the instance, writes what was made
/// with the metadata that was read, and ends with the emission that was written.
pub proof fn law_inferences_run_through<M>(
    instance_id: Uuid,
    emission_id: EmissionId,
    begun: (MassInfer<M>, InferenceAction<M>),
    metadata: M,
    input_id: ObjectId,
    made: ObjectId,
    written: ObjectId,
    a: &mut MassInfer<M>,
    infer: Result<InferenceAction<M>, AtomError>,
    b: &mut MassInfer<M>,
    reset: Result<InferenceAction<M>, AtomError>,
    c: &mut MassInfer<M>,
    upload: Result<InferenceAction<M>, AtomError>,
    d: &mut MassInfer<M>,
    finish: Result<InferenceAction<M>, AtomError>,
)
    requires
        call_ensures(MassInfer::<M>::begin, (instance_id, emission_id), begun),
        mut_ref_current(a) == begun.0,
        call_ensures(
            MassInfer::<M>::advance,
            (a, InferenceEvent::Read { metadata, output_id: input_id }),
            infer,
        ),
        mut_ref_current(b) == mut_ref_future(a),
        call_ensures(MassInfer::<M>::advance, (b, InferenceEvent::<M>::Made(made)), reset),
        mut_ref_current(c) == mut_ref_future(b),
        call_ensures(MassInfer::<M>::advance, (c, InferenceEvent::<M>::Done), upload),
        mut_ref_current(d) == mut_ref_future(c),
        call_ensures(MassInfer::<M>::advance, (d, InferenceEvent::<M>::Made(written)), finish),
    ensures
        begun.1 == (InferenceAction::<M>::Download { emission_id }),
        infer == Ok::<InferenceAction<M>, AtomError>(
            InferenceAction::Infer { instance_id, input_id },
        ),
        reset == Ok::<InferenceAction<M>, AtomError>(InferenceAction::Reset { instance_id }),
        upload == Ok::<InferenceAction<M>, AtomError>(
            InferenceAction::Upload { metadata, output_id: made },
        ),
        finish is Ok,
        finish->Ok_0 is Finish,
        finish->Ok_0->Finish_emission_id.object == written,
{
}

/// An inference that fails ends at once and says which work failed.
pub proof fn law_failed_inferences_say_where<M>(
    run: &mut MassInfer<M>,
    cause: String,
    result: Result<InferenceAction<M>, AtomError>,
)
    requires
        call_ensures(MassInfer::<M>::advance, (run, InferenceEvent::<M>::Failed(cause)), result),
    ensures
        mut_ref_current(run).point is Downloading ==> result == Err::<
            InferenceAction<M>,
            AtomError,
        >(AtomError::Download(cause)),
        mut_ref_current(run).point is Inferring ==> result == Err::<
            InferenceAction<M>,
            AtomError,
        >(AtomError::Inference(cause)),
        mut_ref_current(run).point is Resetting ==> result == Err::<
            InferenceAction<M>,
            AtomError,
        >(AtomError::ModelReset(cause)),
        mut_ref_current(run).point is Uploading ==> result == Err::<
            InferenceAction<M>,
            AtomError,
        >(AtomError::Upload(cause)),
{
}

} // verus!
