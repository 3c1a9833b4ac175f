//! Topology compilation: registering the vertices of a graph on the state of
//! the program that runs it.

use vstd::prelude::*;

use crate::ids::{ObjectId, Uuid};
use crate::topology::{SunAppearance, SunTopology};

pub mod action;
pub mod label;
pub mod laws;
pub mod register;

verus! {

/// Access to the neutral topology shared by every Sun program state.
pub trait SunTopologyState: Sized {
    /// The topology of this state.
    spec fn topology_view(self) -> SunTopology;

    /// Both states agree in everything but their topology.
    spec fn same_runtime(self, other: Self) -> bool;

    fn topology(&self) -> (topology: &SunTopology)
        ensures
            *topology == self.topology_view(),
    ;

    fn topology_mut(&mut self) -> (topology: &mut SunTopology)
        ensures
            *topology == old(self).topology_view(),
            final(self).topology_view() == *final(topology),
            final(self).same_runtime(*old(self)),
    ;
}

/// A state that observers can look at.
pub trait SunStateView: SunTopologyState {
    /// `shown` is the view of this state.
    spec fn shows(self, shown: SunAppearance) -> bool;

    fn sun_appearance(&self) -> (shown: SunAppearance)
        ensures
            self.shows(shown),
    ;
}

/// Selects the state and the node seeds of a Sun.
pub trait SunProgram {
    type State: SunTopologyState;

    type UnarySeed: Copy;

    type BinarySeed: Copy;

    type WarpSeed: Copy;

    spec fn spec_unary_seed(inbox: ObjectId) -> Self::UnarySeed;

    spec fn spec_unary_inbox(seed: Self::UnarySeed) -> ObjectId;

    spec fn spec_binary_seed(inboxes: [ObjectId; 2]) -> Self::BinarySeed;

    spec fn spec_binary_inboxes(seed: Self::BinarySeed) -> [ObjectId; 2];

    spec fn spec_warp_seed(inbox: ObjectId, warp_journey_id: Uuid) -> Self::WarpSeed;

    /// `after` holds the initial mailboxes of `ports`, and is otherwise
    /// `before`, whatever their topologies are.
    spec fn inboxes_registered(
        before: Self::State,
        after: Self::State,
        ports: Seq<(u32, ObjectId)>,
    ) -> bool;

    fn unary_seed(inbox: ObjectId) -> (seed: Self::UnarySeed)
        ensures
            seed == Self::spec_unary_seed(inbox),
    ;

    fn unary_inbox(seed: &Self::UnarySeed) -> (inbox: ObjectId)
        ensures
            inbox == Self::spec_unary_inbox(*seed),
    ;

    fn binary_seed(inboxes: [ObjectId; 2]) -> (seed: Self::BinarySeed)
        ensures
            seed == Self::spec_binary_seed(inboxes),
    ;

    fn binary_inboxes(seed: &Self::BinarySeed) -> (inboxes: [ObjectId; 2])
        ensures
            inboxes@ == Self::spec_binary_inboxes(*seed)@,
    ;

    fn warp_seed(inbox: ObjectId, warp_journey_id: Uuid) -> (seed: Self::WarpSeed)
        ensures
            seed == Self::spec_warp_seed(inbox, warp_journey_id),
    ;

    fn register_inboxes(state: &mut Self::State, ports: &Vec<(u32, ObjectId)>)
        ensures
            final(state).topology_view() == old(state).topology_view(),
            Self::inboxes_registered(*old(state), *final(state), ports@),
    ;

    /// A unary seed keeps the inbox it was made from.
    proof fn law_unary_inbox_of_seed(inbox: ObjectId)
        ensures
            Self::spec_unary_inbox(Self::spec_unary_seed(inbox)) == inbox,
    ;

    /// A binary seed keeps both inboxes it was made from, in order.
    proof fn law_binary_inboxes_of_seed(inboxes: [ObjectId; 2])
        ensures
            Self::spec_binary_inboxes(Self::spec_binary_seed(inboxes))@ == inboxes@,
    ;

    /// Registering inboxes does not depend on the topology.
    proof fn law_inboxes_ignore_topology(
        a: Self::State,
        b: Self::State,
        after: Self::State,
        ports: Seq<(u32, ObjectId)>,
    )
        requires
            a.same_runtime(b),
            Self::inboxes_registered(a, after, ports),
        ensures
            Self::inboxes_registered(b, after, ports),
    ;
}

} // verus!
