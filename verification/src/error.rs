//! Why an effect failed.

use vstd::prelude::*;
use vstd::string::*;

verus! {

/// A failed effect, with the text of its cause.
#[derive(Debug)]
pub enum AtomError {
    /// A model instance did not start.
    ModelStart(String),
    /// A model instance did not shut down.
    ModelShutdown(String),
    /// An object could not be read from void.
    Download(String),
    /// Inference failed.
    Inference(String),
    /// A model instance could not be reset.
    ModelReset(String),
    /// An object could not be written to void.
    Upload(String),
    /// A value could not be encoded or decoded.
    Serialization(String),
    /// The weights could not be perturbed upward.
    PerturbUp(String),
    /// The weights could not be perturbed downward.
    PerturbDown(String),
    /// The optimization update failed.
    Optimize(String),
    /// A message was not the expected one or did not get through.
    Transmission(String),
    /// An animal could not be spawned.
    Spawn(String),
    /// A warp journey could not be observed.
    ObserveWarp(String),
    /// A warp journey could not be perturbed.
    PerturbWarp(String),
}

impl AtomError {
    /// What went before the text of the cause.
    pub open spec fn context(self) -> Seq<char> {
        match self {
            AtomError::ModelStart(_) => "mass model start failed: "@,
            AtomError::ModelShutdown(_) => "mass model shutdown failed: "@,
            AtomError::Download(_) => "void download failed: "@,
            AtomError::Inference(_) => "mass inference failed: "@,
            AtomError::ModelReset(_) => "mass model reset failed: "@,
            AtomError::Upload(_) => "void upload failed: "@,
            AtomError::Serialization(_) => "serialization error: "@,
            AtomError::PerturbUp(_) => "mass perturb up failed: "@,
            AtomError::PerturbDown(_) => "mass perturb down failed: "@,
            AtomError::Optimize(_) => "mass optimize failed: "@,
            AtomError::Transmission(_) => "transmission error: "@,
            AtomError::Spawn(_) => "spawn failed: "@,
            AtomError::ObserveWarp(_) => "warp observation failed: "@,
            AtomError::PerturbWarp(_) => "warp perturbation failed: "@,
        }
    }

    /// The text of the cause.
    pub open spec fn cause(self) -> Seq<char> {
        match self {
            AtomError::ModelStart(cause) => cause@,
            AtomError::ModelShutdown(cause) => cause@,
            AtomError::Download(cause) => cause@,
            AtomError::Inference(cause) => cause@,
            AtomError::ModelReset(cause) => cause@,
            AtomError::Upload(cause) => cause@,
            AtomError::Serialization(cause) => cause@,
            AtomError::PerturbUp(cause) => cause@,
            AtomError::PerturbDown(cause) => cause@,
            AtomError::Optimize(cause) => cause@,
            AtomError::Transmission(cause) => cause@,
            AtomError::Spawn(cause) => cause@,
            AtomError::ObserveWarp(cause) => cause@,
            AtomError::PerturbWarp(cause) => cause@,
        }
    }

    /// The text shown for this error.
    pub open spec fn text(self) -> Seq<char> {
        self.context() + self.cause()
    }

    /// Renders the error for a reader.
    pub fn message(&self) -> (text: String)
        ensures
            text@ == self.text(),
    {
        let (context, cause): (&str, &String) = match self {
            AtomError::ModelStart(cause) => ("mass model start failed: ", cause),
            AtomError::ModelShutdown(cause) => ("mass model shutdown failed: ", cause),
            AtomError::Download(cause) => ("void download failed: ", cause),
            AtomError::Inference(cause) => ("mass inference failed: ", cause),
            AtomError::ModelReset(cause) => ("mass model reset failed: ", cause),
            AtomError::Upload(cause) => ("void upload failed: ", cause),
            AtomError::Serialization(cause) => ("serialization error: ", cause),
            AtomError::PerturbUp(cause) => ("mass perturb up failed: ", cause),
            AtomError::PerturbDown(cause) => ("mass perturb down failed: ", cause),
            AtomError::Optimize(cause) => ("mass optimize failed: ", cause),
            AtomError::Transmission(cause) => ("transmission error: ", cause),
            AtomError::Spawn(cause) => ("spawn failed: ", cause),
            AtomError::ObserveWarp(cause) => ("warp observation failed: ", cause),
            AtomError::PerturbWarp(cause) => ("warp perturbation failed: ", cause),
        };
        let mut text = context.to_owned();
        text.append(cause.as_str());
        text
    }
}

/// An error says which work failed and why.
pub proof fn law_errors_say_what_failed(cause: String)
    ensures
        AtomError::ModelStart(cause).text() == "mass model start failed: "@ + cause@,
        AtomError::ModelShutdown(cause).text() == "mass model shutdown failed: "@ + cause@,
        AtomError::Download(cause).text() == "void download failed: "@ + cause@,
        AtomError::Inference(cause).text() == "mass inference failed: "@ + cause@,
        AtomError::ModelReset(cause).text() == "mass model reset failed: "@ + cause@,
        AtomError::Upload(cause).text() == "void upload failed: "@ + cause@,
        AtomError::Serialization(cause).text() == "serialization error: "@ + cause@,
        AtomError::PerturbUp(cause).text() == "mass perturb up failed: "@ + cause@,
        AtomError::PerturbDown(cause).text() == "mass perturb down failed: "@ + cause@,
        AtomError::Optimize(cause).text() == "mass optimize failed: "@ + cause@,
        AtomError::Transmission(cause).text() == "transmission error: "@ + cause@,
        AtomError::Spawn(cause).text() == "spawn failed: "@ + cause@,
{
}

} // verus!
