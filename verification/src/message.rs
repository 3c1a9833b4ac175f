//! Messages that travel between the mailboxes of a graph.

use vstd::prelude::*;

use crate::ids::ObjectId;

verus! {

/// Reference to an emission in void storage.
#[derive(Clone, Copy, Debug, PartialEq, Eq, Structural)]
pub struct EmissionId {
    pub object: ObjectId,
}

impl EmissionId {
    pub fn new(object: ObjectId) -> (id: EmissionId)
        ensures
            id.object == object,
    {
        EmissionId { object }
    }

    pub fn id(&self) -> (object: ObjectId)
        ensures
            object == self.object,
    {
        self.object
    }
}

/// One artifact on its way to a node, with the mailbox the node should await
/// next and the mailbox for its output.
#[derive(Clone, Copy, Debug, PartialEq, Eq, Structural)]
pub struct ArtifactDelivery {
    pub emission_id: EmissionId,
    pub recv: ObjectId,
    pub send: ObjectId,
}

/// Outcome of one optimization step, broadcast to every node. The losses are
/// held as the bits of single-precision numbers.
#[derive(Clone, Copy, Debug, PartialEq, Eq, Structural)]
pub struct Potentiation {
    pub loss_up_bits: u32,
    pub loss_down_bits: u32,
    pub seed: u64,
}

/// A message of the two-sided training protocol.
#[derive(Clone, Copy, Debug, PartialEq, Eq, Structural)]
pub enum Transmission {
    /// An emission to process, with the next mailbox to await and the mailbox
    /// for the output.
    Propagation { emission_id: EmissionId, recv: ObjectId, send: ObjectId },
    /// The outcome of a step, with the next mailbox to await.
    Potentiation { potentiation: Potentiation, recv: ObjectId },
}

} // verus!
