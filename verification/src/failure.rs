//! Why an orchestration step was refused.

use vstd::prelude::*;
use vstd::string::*;

use crate::error::AtomError;
use crate::text::{
    counts_as_nats, counts_string, decimal, decimal_string, ids_as_nats, ids_string, listing,
};

verus! {

/// The reason a step was refused, with the ids a reader needs to find it.
#[derive(Debug)]
pub enum Failure {
    /// A reason that comes with its own text.
    Message(String),
    /// A node was completed that is not pending.
    NotPending { node: u32 },
    /// A node was completed before all of its predecessors.
    UnresolvedPredecessors { node: u32, unresolved: usize },
    /// A node was completed that is not in the ready frontier.
    NotReady { node: u32 },
    /// A completed node feeds a node that is not pending.
    DownstreamNotPending { node: u32 },
    /// A completed node resolves more predecessors than its target awaits.
    DownstreamOverResolved { node: u32, unresolved: usize, decrement: usize },
    /// Several vertices claim the same input ports.
    DuplicatePorts { ports: Vec<u32> },
    /// The graph has no vertex.
    NoVertices,
    /// A vertex with outputs did not register a contract.
    MissingContract { vertex: u32 },
    /// An output leads to a port that no vertex owns.
    MissingPort { vertex: u32, port: u32 },
    /// An output was declared without its contract descriptor.
    MissingEdgeDescriptor { vertex: u32, port: u32 },
    /// The vertex behind an output did not register a contract.
    MissingDestinationContract { vertex: u32 },
    /// The source registered another contract than its edge declares.
    SourceContractMismatch { vertex: u32, port: u32 },
    /// The destination registered another contract than the edge declares.
    DestinationContractMismatch { vertex: u32, port: u32 },
    /// The source's output bundle is not the destination's input bundle.
    ArtifactBundleMismatch { vertex: u32, port: u32 },
    /// Several outputs lead to one input port.
    TooManyProducers { port: u32, count: usize },
    /// A vertex has some but not all of its input ports connected.
    ProducerCounts { vertex: u32, ports: Vec<u32>, counts: Vec<usize> },
    /// The graph contains a directed cycle.
    Cycle,
    /// The graph does not have exactly one sink.
    Sinks { sinks: Vec<u32> },
}

/// Text between a prefix, a number and a suffix.
pub open spec fn one_number(before: Seq<char>, n: nat, after: Seq<char>) -> Seq<char> {
    before + decimal(n) + after
}

/// Text around two numbers.
pub open spec fn two_numbers(
    before: Seq<char>,
    a: nat,
    between: Seq<char>,
    b: nat,
    after: Seq<char>,
) -> Seq<char> {
    before + decimal(a) + between + decimal(b) + after
}

/// `failure` carries its own text.
pub open spec fn says(failure: Failure, text: Seq<char>) -> bool {
    failure matches Failure::Message(message) && message@ == text
}

/// A failure with the given text.
pub fn refused(text: &str) -> (failure: Failure)
    ensures
        says(failure, text@),
{
    Failure::Message(text.to_owned())
}

/// A failure that names the step and the error it came from.
pub fn refused_by(step: &str, error: &AtomError) -> (failure: Failure)
    ensures
        says(failure, step@ + error.text()),
{
    let mut text = step.to_owned();
    text.append(error.message().as_str());
    Failure::Message(text)
}

/// A failure that names the step and the text of its cause.
pub fn refused_with(step: &str, cause: &str) -> (failure: Failure)
    ensures
        says(failure, step@ + cause@),
{
    let mut text = step.to_owned();
    text.append(cause);
    Failure::Message(text)
}

/// A failure whose text holds a number.
pub fn refused_at(before: &str, n: u64, after: &str) -> (failure: Failure)
    ensures
        says(failure, one_number(before@, n as nat, after@)),
{
    Failure::Message(with_number(before, n, after))
}

/// A failure whose text holds two numbers.
pub fn refused_between(before: &str, a: u64, between: &str, b: u64, after: &str) -> (failure:
    Failure)
    ensures
        says(failure, two_numbers(before@, a as nat, between@, b as nat, after@)),
{
    Failure::Message(with_numbers(before, a, between, b, after))
}

/// Text between a prefix, a number and a suffix.
pub fn with_number(before: &str, n: u64, after: &str) -> (text: String)
    ensures
        text@ == one_number(before@, n as nat, after@),
{
    let mut text = before.to_owned();
    text.append(decimal_string(n).as_str());
    text.append(after);
    text
}

/// Text around two numbers.
pub fn with_numbers(before: &str, a: u64, between: &str, b: u64, after: &str) -> (text: String)
    ensures
        text@ == two_numbers(before@, a as nat, between@, b as nat, after@),
{
    let mut text = before.to_owned();
    text.append(decimal_string(a).as_str());
    text.append(between);
    text.append(decimal_string(b).as_str());
    text.append(after);
    text
}

impl Failure {
    /// The text shown for this failure.
    pub open spec fn text(self) -> Seq<char> {
        match self {
            Failure::Message(text) => text@,
            Failure::NotPending { node } => one_number(
                "completed node "@,
                node as nat,
                " is not pending"@,
            ),
            Failure::UnresolvedPredecessors { node, unresolved } => two_numbers(
                "completed node "@,
                node as nat,
                " still has "@,
                unresolved as nat,
                " unresolved predecessors"@,
            ),
            Failure::NotReady { node } => one_number(
                "completed node "@,
                node as nat,
                " is not in the ready frontier"@,
            ),
            Failure::DownstreamNotPending { node } => one_number(
                "downstream node "@,
                node as nat,
                " is not pending"@,
            ),
            Failure::DownstreamOverResolved { node, unresolved, decrement } => two_numbers(
                "downstream node "@,
                node as nat,
                " has "@,
                unresolved as nat,
                " unresolved predecessors, cannot resolve "@,
            ) + decimal(decrement as nat),
            Failure::DuplicatePorts { ports } => "duplicate input port ownership: "@ + listing(
                ids_as_nats(ports@),
            ),
            Failure::NoVertices => "sun graph must contain at least one vertex"@,
            Failure::MissingContract { vertex } => one_number(
                "vertex "@,
                vertex as nat,
                " did not register an operation contract"@,
            ),
            Failure::MissingPort { vertex, port } => two_numbers(
                "output from vertex "@,
                vertex as nat,
                " targets missing port "@,
                port as nat,
                ""@,
            ),
            Failure::MissingEdgeDescriptor { vertex, port } => two_numbers(
                "output from vertex "@,
                vertex as nat,
                " to port "@,
                port as nat,
                " has no contract descriptor"@,
            ),
            Failure::MissingDestinationContract { vertex } => one_number(
                "destination vertex "@,
                vertex as nat,
                " did not register an operation contract"@,
            ),
            Failure::SourceContractMismatch { vertex, port } => two_numbers(
                "source contract mismatch for edge "@,
                vertex as nat,
                " -> port "@,
                port as nat,
                ""@,
            ),
            Failure::DestinationContractMismatch { vertex, port } => two_numbers(
                "destination contract mismatch for edge "@,
                vertex as nat,
                " -> port "@,
                port as nat,
                ""@,
            ),
            Failure::ArtifactBundleMismatch { vertex, port } => two_numbers(
                "artifact bundle mismatch for edge "@,
                vertex as nat,
                " -> port "@,
                port as nat,
                ""@,
            ),
            Failure::TooManyProducers { port, count } => two_numbers(
                "input port "@,
                port as nat,
                " has "@,
                count as nat,
                " producers; expected at most one"@,
            ),
            Failure::ProducerCounts { vertex, ports, counts } => one_number(
                "vertex "@,
                vertex as nat,
                " has incorrect producer counts for ports "@,
            ) + listing(ids_as_nats(ports@)) + ": "@ + listing(counts_as_nats(counts@)),
            Failure::Cycle => "sun graph contains a cycle"@,
            Failure::Sinks { sinks } => "sun graph must contain exactly one sink; found "@ + listing(
                ids_as_nats(sinks@),
            ),
        }
    }

    /// Renders the failure for a reader.
    pub fn message(&self) -> (text: String)
        ensures
            text@ == self.text(),
    {
        match self {
            Failure::Message(text) => text.clone(),
            Failure::NotPending { node } => {
                with_number("completed node ", *node as u64, " is not pending")
            },
            Failure::UnresolvedPredecessors { node, unresolved } => with_numbers(
                "completed node ",
                *node as u64,
                " still has ",
                *unresolved as u64,
                " unresolved predecessors",
            ),
            Failure::NotReady { node } => {
                with_number("completed node ", *node as u64, " is not in the ready frontier")
            },
            Failure::DownstreamNotPending { node } => {
                with_number("downstream node ", *node as u64, " is not pending")
            },
            Failure::DownstreamOverResolved { node, unresolved, decrement } => {
                let mut text = with_numbers(
                    "downstream node ",
                    *node as u64,
                    " has ",
                    *unresolved as u64,
                    " unresolved predecessors, cannot resolve ",
                );
                text.append(decimal_string(*decrement as u64).as_str());
                text
            },
            Failure::DuplicatePorts { ports } => {
                let mut text = "duplicate input port ownership: ".to_owned();
                text.append(ids_string(ports).as_str());
                text
            },
            Failure::NoVertices => "sun graph must contain at least one vertex".to_owned(),
            Failure::MissingContract { vertex } => {
                with_number("vertex ", *vertex as u64, " did not register an operation contract")
            },
            Failure::MissingPort { vertex, port } => with_numbers(
                "output from vertex ",
                *vertex as u64,
                " targets missing port ",
                *port as u64,
                "",
            ),
            Failure::MissingEdgeDescriptor { vertex, port } => with_numbers(
                "output from vertex ",
                *vertex as u64,
                " to port ",
                *port as u64,
                " has no contract descriptor",
            ),
            Failure::MissingDestinationContract { vertex } => with_number(
                "destination vertex ",
                *vertex as u64,
                " did not register an operation contract",
            ),
            Failure::SourceContractMismatch { vertex, port } => with_numbers(
                "source contract mismatch for edge ",
                *vertex as u64,
                " -> port ",
                *port as u64,
                "",
            ),
            Failure::DestinationContractMismatch { vertex, port } => with_numbers(
                "destination contract mismatch for edge ",
                *vertex as u64,
                " -> port ",
                *port as u64,
                "",
            ),
            Failure::ArtifactBundleMismatch { vertex, port } => with_numbers(
                "artifact bundle mismatch for edge ",
                *vertex as u64,
                " -> port ",
                *port as u64,
                "",
            ),
            Failure::TooManyProducers { port, count } => with_numbers(
                "input port ",
                *port as u64,
                " has ",
                *count as u64,
                " producers; expected at most one",
            ),
            Failure::ProducerCounts { vertex, ports, counts } => {
                let mut text = with_number(
                    "vertex ",
                    *vertex as u64,
                    " has incorrect producer counts for ports ",
                );
                text.append(ids_string(ports).as_str());
                text.append(": ");
                text.append(counts_string(counts).as_str());
                text
            },
            Failure::Cycle => "sun graph contains a cycle".to_owned(),
            Failure::Sinks { sinks } => {
                let mut text = "sun graph must contain exactly one sink; found ".to_owned();
                text.append(ids_string(sinks).as_str());
                text
            },
        }
    }
}

/// A failure names the ids a reader needs, where the sentence has its gaps.
pub proof fn law_failures_name_their_ids(a: u32, b: u32, n: usize, m: usize, text: String)
    ensures
        Failure::Message(text).text() == text@,
        (Failure::NotPending { node: a }).text() == "completed node "@ + decimal(a as nat)
            + " is not pending"@,
        (Failure::UnresolvedPredecessors { node: a, unresolved: n }).text() == "completed node "@
            + decimal(a as nat) + " still has "@ + decimal(n as nat)
            + " unresolved predecessors"@,
        (Failure::NotReady { node: a }).text() == "completed node "@ + decimal(a as nat)
            + " is not in the ready frontier"@,
        (Failure::DownstreamNotPending { node: a }).text() == "downstream node "@ + decimal(
            a as nat,
        ) + " is not pending"@,
        (Failure::DownstreamOverResolved { node: a, unresolved: n, decrement: m }).text()
            == "downstream node "@ + decimal(a as nat) + " has "@ + decimal(n as nat)
            + " unresolved predecessors, cannot resolve "@ + decimal(m as nat),
        Failure::NoVertices.text() == "sun graph must contain at least one vertex"@,
        (Failure::MissingContract { vertex: a }).text() == "vertex "@ + decimal(a as nat)
            + " did not register an operation contract"@,
        (Failure::MissingPort { vertex: a, port: b }).text() == "output from vertex "@ + decimal(
            a as nat,
        ) + " targets missing port "@ + decimal(b as nat) + ""@,
        (Failure::MissingEdgeDescriptor { vertex: a, port: b }).text() == "output from vertex "@
            + decimal(a as nat) + " to port "@ + decimal(b as nat)
            + " has no contract descriptor"@,
        (Failure::MissingDestinationContract { vertex: a }).text() == "destination vertex "@
            + decimal(a as nat) + " did not register an operation contract"@,
        (Failure::SourceContractMismatch { vertex: a, port: b }).text()
            == "source contract mismatch for edge "@ + decimal(a as nat) + " -> port "@ + decimal(
            b as nat,
        ) + ""@,
        (Failure::DestinationContractMismatch { vertex: a, port: b }).text()
            == "destination contract mismatch for edge "@ + decimal(a as nat) + " -> port "@
            + decimal(b as nat) + ""@,
        (Failure::ArtifactBundleMismatch { vertex: a, port: b }).text()
            == "artifact bundle mismatch for edge "@ + decimal(a as nat) + " -> port "@ + decimal(
            b as nat,
        ) + ""@,
        (Failure::TooManyProducers { port: a, count: n }).text() == "input port "@ + decimal(
            a as nat,
        ) + " has "@ + decimal(n as nat) + " producers; expected at most one"@,
        Failure::Cycle.text() == "sun graph contains a cycle"@,
{
}

/// A failure lists the ports, counts or sinks it is about, in order.
pub proof fn law_failures_list_what_they_are_about(
    a: u32,
    ids: Vec<u32>,
    counts: Vec<usize>,
)
    ensures
        (Failure::DuplicatePorts { ports: ids }).text() == "duplicate input port ownership: "@
            + listing(Seq::new(ids@.len(), |i: int| ids@[i] as nat)),
        (Failure::Sinks { sinks: ids }).text() == "sun graph must contain exactly one sink; found "@
            + listing(Seq::new(ids@.len(), |i: int| ids@[i] as nat)),
        (Failure::ProducerCounts { vertex: a, ports: ids, counts }).text() == "vertex "@ + decimal(
            a as nat,
        ) + " has incorrect producer counts for ports "@ + listing(
            Seq::new(ids@.len(), |i: int| ids@[i] as nat),
        ) + ": "@ + listing(Seq::new(counts@.len(), |i: int| counts@[i] as nat)),
{
    assert(ids_as_nats(ids@) =~= Seq::new(ids@.len(), |i: int| ids@[i] as nat));
    assert(counts_as_nats(counts@) =~= Seq::new(counts@.len(), |i: int| counts@[i] as nat));
}

} // verus!
