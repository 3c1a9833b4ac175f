//! Checkpoint-then-evaluate programs.

use std::marker::PhantomData;

use vstd::prelude::*;

use crate::compile::SunProgram;
use crate::forward::NeutralSunState;
use crate::ids::{ObjectId, Uuid};
use crate::nodes::cell::Init;
use crate::nodes::fusion::FusionSeed;
use crate::topology::BoundaryInit;

verus! {

broadcast use vstd::std_specs::hash::group_hash_axioms;

/// Compiles a topology and then runs checkpoint and evaluation flows without
/// propagation state.
pub struct CheckpointEvaluate<S>(pub PhantomData<S>);

impl<S> SunProgram for CheckpointEvaluate<S> {
    type State = NeutralSunState<S>;

    type UnarySeed = Init;

    type BinarySeed = FusionSeed;

    type WarpSeed = BoundaryInit;

    open spec fn spec_unary_seed(inbox: ObjectId) -> Init {
        Init { recv_id: inbox, grad_steps: 1 }
    }

    open spec fn spec_unary_inbox(seed: Init) -> ObjectId {
        seed.recv_id
    }

    open spec fn spec_binary_seed(inboxes: [ObjectId; 2]) -> FusionSeed {
        FusionSeed { p1_recv_id: inboxes@[0], p2_recv_id: inboxes@[1], grad_steps: 1 }
    }

    open spec fn spec_binary_inboxes(seed: FusionSeed) -> [ObjectId; 2] {
        [seed.p1_recv_id, seed.p2_recv_id]
    }

    open spec fn spec_warp_seed(inbox: ObjectId, warp_journey_id: Uuid) -> BoundaryInit {
        BoundaryInit { recv_id: inbox, grad_steps: 1, warp_journey_id }
    }

    open spec fn inboxes_registered(
        before: Self::State,
        after: Self::State,
        ports: Seq<(u32, ObjectId)>,
    ) -> bool {
        after.inner == before.inner
    }

    fn unary_seed(inbox: ObjectId) -> (seed: Init) {
        Init { recv_id: inbox, grad_steps: 1 }
    }

    fn unary_inbox(seed: &Init) -> (inbox: ObjectId) {
        seed.recv_id
    }

    fn binary_seed(inboxes: [ObjectId; 2]) -> (seed: FusionSeed) {
        FusionSeed { p1_recv_id: inboxes[0], p2_recv_id: inboxes[1], grad_steps: 1 }
    }

    fn binary_inboxes(seed: &FusionSeed) -> (inboxes: [ObjectId; 2]) {
        [seed.p1_recv_id, seed.p2_recv_id]
    }

    fn warp_seed(inbox: ObjectId, warp_journey_id: Uuid) -> (seed: BoundaryInit) {
        BoundaryInit { recv_id: inbox, grad_steps: 1, warp_journey_id }
    }

    fn register_inboxes(state: &mut Self::State, ports: &Vec<(u32, ObjectId)>) {
    }

    proof fn law_unary_inbox_of_seed(inbox: ObjectId) {
    }

    proof fn law_binary_inboxes_of_seed(inboxes: [ObjectId; 2]) {
        assert(Self::spec_binary_inboxes(Self::spec_binary_seed(inboxes))@ =~= inboxes@);
    }

    proof fn law_inboxes_ignore_topology(
        a: Self::State,
        b: Self::State,
        after: Self::State,
        ports: Seq<(u32, ObjectId)>,
    ) {
    }
}

} // verus!
