//! Pipeline-parallel reverse-mode programs.

use std::marker::PhantomData;

use vstd::prelude::*;

use crate::compile::SunProgram;
use crate::counting::{at_least_one, spec_at_least_one};
use crate::ids::{ObjectId, Uuid};
use crate::mailbox::{extend_mailboxes, extended};
use crate::nodes::cell::Init;
use crate::nodes::fusion::FusionSeed;
use crate::programs::pipeline_backward::PipelineBackwardState;
use crate::topology::BoundaryInit;

verus! {

broadcast use vstd::std_specs::hash::group_hash_axioms;

/// Pipeline-parallel reverse-mode Sun program over `M` micro-batches a step.
pub struct PipelineBackward<S, const M: usize>(pub PhantomData<S>);

impl<S, const M: usize> SunProgram for PipelineBackward<S, M> {
    type State = PipelineBackwardState<S>;

    type UnarySeed = Init;

    type BinarySeed = FusionSeed;

    type WarpSeed = BoundaryInit;

    open spec fn spec_unary_seed(inbox: ObjectId) -> Init {
        Init { recv_id: inbox, grad_steps: spec_at_least_one(M) }
    }

    open spec fn spec_unary_inbox(seed: Init) -> ObjectId {
        seed.recv_id
    }

    open spec fn spec_binary_seed(inboxes: [ObjectId; 2]) -> FusionSeed {
        FusionSeed {
            p1_recv_id: inboxes@[0],
            p2_recv_id: inboxes@[1],
            grad_steps: spec_at_least_one(M),
        }
    }

    open spec fn spec_binary_inboxes(seed: FusionSeed) -> [ObjectId; 2] {
        [seed.p1_recv_id, seed.p2_recv_id]
    }

    open spec fn spec_warp_seed(inbox: ObjectId, warp_journey_id: Uuid) -> BoundaryInit {
        BoundaryInit { recv_id: inbox, grad_steps: spec_at_least_one(M), warp_journey_id }
    }

    open spec fn inboxes_registered(
        before: Self::State,
        after: Self::State,
        ports: Seq<(u32, ObjectId)>,
    ) -> bool {
        &&& after.inboxes@ == extended(before.inboxes@, ports)
        &&& after == (PipelineBackwardState {
            topology: after.topology,
            inboxes: after.inboxes,
            ..before
        })
    }

    fn unary_seed(inbox: ObjectId) -> (seed: Init) {
        Init { recv_id: inbox, grad_steps: at_least_one(M) }
    }

    fn unary_inbox(seed: &Init) -> (inbox: ObjectId) {
        seed.recv_id
    }

    fn binary_seed(inboxes: [ObjectId; 2]) -> (seed: FusionSeed) {
        FusionSeed {
            p1_recv_id: inboxes[0],
            p2_recv_id: inboxes[1],
            grad_steps: at_least_one(M),
        }
    }

    fn binary_inboxes(seed: &FusionSeed) -> (inboxes: [ObjectId; 2]) {
        [seed.p1_recv_id, seed.p2_recv_id]
    }

    fn warp_seed(inbox: ObjectId, warp_journey_id: Uuid) -> (seed: BoundaryInit) {
        BoundaryInit { recv_id: inbox, grad_steps: at_least_one(M), warp_journey_id }
    }

    fn register_inboxes(state: &mut Self::State, ports: &Vec<(u32, ObjectId)>) {
        extend_mailboxes(&mut state.inboxes, ports);
    }

    proof fn law_unary_inbox_of_seed(inbox: ObjectId) {
    }

    proof fn law_binary_inboxes_of_seed(inboxes: [ObjectId; 2]) {
        assert(Self::spec_binary_inboxes(Self::spec_binary_seed(inboxes))@ =~= inboxes@);
    }

    proof fn law_inboxes_ignore_topology(
        a: Self::State,
        b: Self::State,
        after: Self::State,
        ports: Seq<(u32, ObjectId)>,
    ) {
    }
}

/// Backward program for two data-parallel replicas of one pipeline.
///
/// Every vertex must have two ports, which are the corresponding stage in
/// replicas 0 and 1. The node joins matching commands and steps its shared
/// stage only after both replicas have completed all local micro-batches.
pub struct DataParallelPipelineBackward<S, const M: usize>(pub PhantomData<S>);

impl<S, const M: usize> SunProgram for DataParallelPipelineBackward<S, M> {
    type State = PipelineBackwardState<S>;

    type UnarySeed = Init;

    type BinarySeed = FusionSeed;

    type WarpSeed = BoundaryInit;

    open spec fn spec_unary_seed(inbox: ObjectId) -> Init {
        Init { recv_id: inbox, grad_steps: spec_at_least_one(M) }
    }

    open spec fn spec_unary_inbox(seed: Init) -> ObjectId {
        seed.recv_id
    }

    open spec fn spec_binary_seed(inboxes: [ObjectId; 2]) -> FusionSeed {
        FusionSeed {
            p1_recv_id: inboxes@[0],
            p2_recv_id: inboxes@[1],
            grad_steps: spec_at_least_one(M),
        }
    }

    open spec fn spec_binary_inboxes(seed: FusionSeed) -> [ObjectId; 2] {
        [seed.p1_recv_id, seed.p2_recv_id]
    }

    open spec fn spec_warp_seed(inbox: ObjectId, warp_journey_id: Uuid) -> BoundaryInit {
        BoundaryInit { recv_id: inbox, grad_steps: spec_at_least_one(M), warp_journey_id }
    }

    open spec fn inboxes_registered(
        before: Self::State,
        after: Self::State,
        ports: Seq<(u32, ObjectId)>,
    ) -> bool {
        &&& after.inboxes@ == extended(before.inboxes@, ports)
        &&& after == (PipelineBackwardState {
            topology: after.topology,
            inboxes: after.inboxes,
            ..before
        })
    }

    fn unary_seed(inbox: ObjectId) -> (seed: Init) {
        Init { recv_id: inbox, grad_steps: at_least_one(M) }
    }

    fn unary_inbox(seed: &Init) -> (inbox: ObjectId) {
        seed.recv_id
    }

    fn binary_seed(inboxes: [ObjectId; 2]) -> (seed: FusionSeed) {
        FusionSeed {
            p1_recv_id: inboxes[0],
            p2_recv_id: inboxes[1],
            grad_steps: at_least_one(M),
        }
    }

    fn binary_inboxes(seed: &FusionSeed) -> (inboxes: [ObjectId; 2]) {
        [seed.p1_recv_id, seed.p2_recv_id]
    }

    fn warp_seed(inbox: ObjectId, warp_journey_id: Uuid) -> (seed: BoundaryInit) {
        BoundaryInit { recv_id: inbox, grad_steps: at_least_one(M), warp_journey_id }
    }

    fn register_inboxes(state: &mut Self::State, ports: &Vec<(u32, ObjectId)>) {
        extend_mailboxes(&mut state.inboxes, ports);
    }

    proof fn law_unary_inbox_of_seed(inbox: ObjectId) {
    }

    proof fn law_binary_inboxes_of_seed(inboxes: [ObjectId; 2]) {
        assert(Self::spec_binary_inboxes(Self::spec_binary_seed(inboxes))@ =~= inboxes@);
    }

    proof fn law_inboxes_ignore_topology(
        a: Self::State,
        b: Self::State,
        after: Self::State,
        ports: Seq<(u32, ObjectId)>,
    ) {
    }
}

} // verus!
