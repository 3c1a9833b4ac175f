//! Entrypoints of the two-sided strategy as Sun programs.

use std::marker::PhantomData;

use vstd::prelude::*;

use crate::compile::SunProgram;
use crate::counting::{at_least_one, spec_at_least_one};
use crate::ids::{ObjectId, Uuid};
use crate::mailbox::{extend_mailboxes, extended};
use crate::nodes::cell::Init;
use crate::nodes::fusion::FusionSeed;
use crate::programs::two_sided_zo::{same_epoch, SunState, TwoSidedZoInner};
use crate::topology::BoundaryInit;

verus! {

broadcast use vstd::std_specs::hash::group_hash_axioms;

/// The ports listen for their first propagation at the given mailboxes.
pub open spec fn first_inboxes_registered<S>(
    before: SunState<S>,
    after: SunState<S>,
    ports: Seq<(u32, ObjectId)>,
) -> bool {
    &&& after.shared.p1_tx@ == extended(before.shared.p1_tx@, ports)
    &&& after.shared == (TwoSidedZoInner { p1_tx: after.shared.p1_tx, ..before.shared })
    &&& after.a == before.a
    &&& after.b == before.b
    &&& after.inner == before.inner
    &&& same_epoch(before, after)
}

/// Program that only deploys a graph with two-sided state.
pub struct DeploymentProgram<S, const ACCUM_STEPS: usize>(pub PhantomData<S>);

impl<S, const ACCUM_STEPS: usize> SunProgram for DeploymentProgram<S, ACCUM_STEPS> {
    type State = SunState<S>;

    type UnarySeed = Init;

    type BinarySeed = FusionSeed;

    type WarpSeed = BoundaryInit;

    open spec fn spec_unary_seed(inbox: ObjectId) -> Init {
        Init { recv_id: inbox, grad_steps: spec_at_least_one(ACCUM_STEPS) }
    }

    open spec fn spec_unary_inbox(seed: Init) -> ObjectId {
        seed.recv_id
    }

    open spec fn spec_binary_seed(inboxes: [ObjectId; 2]) -> FusionSeed {
        FusionSeed {
            p1_recv_id: inboxes@[0],
            p2_recv_id: inboxes@[1],
            grad_steps: spec_at_least_one(ACCUM_STEPS),
        }
    }

    open spec fn spec_binary_inboxes(seed: FusionSeed) -> [ObjectId; 2] {
        [seed.p1_recv_id, seed.p2_recv_id]
    }

    open spec fn spec_warp_seed(inbox: ObjectId, warp_journey_id: Uuid) -> BoundaryInit {
        BoundaryInit { recv_id: inbox, grad_steps: spec_at_least_one(ACCUM_STEPS), warp_journey_id }
    }

    open spec fn inboxes_registered(
        before: Self::State,
        after: Self::State,
        ports: Seq<(u32, ObjectId)>,
    ) -> bool {
        first_inboxes_registered(before, after, ports)
    }

    fn unary_seed(inbox: ObjectId) -> (seed: Init) {
        Init { recv_id: inbox, grad_steps: at_least_one(ACCUM_STEPS) }
    }

    fn unary_inbox(seed: &Init) -> (inbox: ObjectId) {
        seed.recv_id
    }

    fn binary_seed(inboxes: [ObjectId; 2]) -> (seed: FusionSeed) {
        FusionSeed {
            p1_recv_id: inboxes[0],
            p2_recv_id: inboxes[1],
            grad_steps: at_least_one(ACCUM_STEPS),
        }
    }

    fn binary_inboxes(seed: &FusionSeed) -> (inboxes: [ObjectId; 2]) {
        [seed.p1_recv_id, seed.p2_recv_id]
    }

    fn warp_seed(inbox: ObjectId, warp_journey_id: Uuid) -> (seed: BoundaryInit) {
        BoundaryInit { recv_id: inbox, grad_steps: at_least_one(ACCUM_STEPS), warp_journey_id }
    }

    fn register_inboxes(state: &mut Self::State, ports: &Vec<(u32, ObjectId)>) {
        extend_mailboxes(&mut state.shared.p1_tx, ports);
    }

    proof fn law_unary_inbox_of_seed(inbox: ObjectId) {
    }

    proof fn law_binary_inboxes_of_seed(inboxes: [ObjectId; 2]) {
        assert(Self::spec_binary_inboxes(Self::spec_binary_seed(inboxes))@ =~= inboxes@);
    }

    proof fn law_inboxes_ignore_topology(
        a: Self::State,
        b: Self::State,
        after: Self::State,
        ports: Seq<(u32, ObjectId)>,
    ) {
    }
}

/// The two-sided zeroth-order training schedule as a Sun program.
pub struct TwoSidedZoWithState<S, const ACCUM_STEPS: usize>(pub PhantomData<S>);

impl<S, const ACCUM_STEPS: usize> SunProgram for TwoSidedZoWithState<S, ACCUM_STEPS> {
    type State = SunState<S>;

    type UnarySeed = Init;

    type BinarySeed = FusionSeed;

    type WarpSeed = BoundaryInit;

    open spec fn spec_unary_seed(inbox: ObjectId) -> Init {
        Init { recv_id: inbox, grad_steps: spec_at_least_one(ACCUM_STEPS) }
    }

    open spec fn spec_unary_inbox(seed: Init) -> ObjectId {
        seed.recv_id
    }

    open spec fn spec_binary_seed(inboxes: [ObjectId; 2]) -> FusionSeed {
        FusionSeed {
            p1_recv_id: inboxes@[0],
            p2_recv_id: inboxes@[1],
            grad_steps: spec_at_least_one(ACCUM_STEPS),
        }
    }

    open spec fn spec_binary_inboxes(seed: FusionSeed) -> [ObjectId; 2] {
        [seed.p1_recv_id, seed.p2_recv_id]
    }

    open spec fn spec_warp_seed(inbox: ObjectId, warp_journey_id: Uuid) -> BoundaryInit {
        BoundaryInit { recv_id: inbox, grad_steps: spec_at_least_one(ACCUM_STEPS), warp_journey_id }
    }

    open spec fn inboxes_registered(
        before: Self::State,
        after: Self::State,
        ports: Seq<(u32, ObjectId)>,
    ) -> bool {
        first_inboxes_registered(before, after, ports)
    }

    fn unary_seed(inbox: ObjectId) -> (seed: Init) {
        Init { recv_id: inbox, grad_steps: at_least_one(ACCUM_STEPS) }
    }

    fn unary_inbox(seed: &Init) -> (inbox: ObjectId) {
        seed.recv_id
    }

    fn binary_seed(inboxes: [ObjectId; 2]) -> (seed: FusionSeed) {
        FusionSeed {
            p1_recv_id: inboxes[0],
            p2_recv_id: inboxes[1],
            grad_steps: at_least_one(ACCUM_STEPS),
        }
    }

    fn binary_inboxes(seed: &FusionSeed) -> (inboxes: [ObjectId; 2]) {
        [seed.p1_recv_id, seed.p2_recv_id]
    }

    fn warp_seed(inbox: ObjectId, warp_journey_id: Uuid) -> (seed: BoundaryInit) {
        BoundaryInit { recv_id: inbox, grad_steps: at_least_one(ACCUM_STEPS), warp_journey_id }
    }

    fn register_inboxes(state: &mut Self::State, ports: &Vec<(u32, ObjectId)>) {
        extend_mailboxes(&mut state.shared.p1_tx, ports);
    }

    proof fn law_unary_inbox_of_seed(inbox: ObjectId) {
    }

    proof fn law_binary_inboxes_of_seed(inboxes: [ObjectId; 2]) {
        assert(Self::spec_binary_inboxes(Self::spec_binary_seed(inboxes))@ =~= inboxes@);
    }

    proof fn law_inboxes_ignore_topology(
        a: Self::State,
        b: Self::State,
        after: Self::State,
        ports: Seq<(u32, ObjectId)>,
    ) {
    }
}

/// The schedule without user state.
pub type TwoSidedZo<const ACCUM_STEPS: usize> = TwoSidedZoWithState<(), ACCUM_STEPS>;

/// Bundle of a generator, a policy and a user state.
pub trait Manifest {
    type Generator;

    type Policy;

    type State;
}

/// Bundle of a generator and a policy without user state.
pub struct StatelessManifest<Generator, Policy>(
    pub PhantomData<Generator>,
    pub PhantomData<Policy>,
);

impl<G, P> Manifest for StatelessManifest<G, P> {
    type Generator = G;

    type Policy = P;

    type State = ();
}

/// Runs the schedule of a manifest as a Sun program.
pub struct TwoSidedZoManifest<M: Manifest, const ACCUM_STEPS: usize>(pub PhantomData<M>);

impl<M: Manifest, const ACCUM_STEPS: usize> SunProgram for TwoSidedZoManifest<M, ACCUM_STEPS> {
    type State = SunState<M::State>;

    type UnarySeed = Init;

    type BinarySeed = FusionSeed;

    type WarpSeed = BoundaryInit;

    open spec fn spec_unary_seed(inbox: ObjectId) -> Init {
        Init { recv_id: inbox, grad_steps: spec_at_least_one(ACCUM_STEPS) }
    }

    open spec fn spec_unary_inbox(seed: Init) -> ObjectId {
        seed.recv_id
    }

    open spec fn spec_binary_seed(inboxes: [ObjectId; 2]) -> FusionSeed {
        FusionSeed {
            p1_recv_id: inboxes@[0],
            p2_recv_id: inboxes@[1],
            grad_steps: spec_at_least_one(ACCUM_STEPS),
        }
    }

    open spec fn spec_binary_inboxes(seed: FusionSeed) -> [ObjectId; 2] {
        [seed.p1_recv_id, seed.p2_recv_id]
    }

    open spec fn spec_warp_seed(inbox: ObjectId, warp_journey_id: Uuid) -> BoundaryInit {
        BoundaryInit { recv_id: inbox, grad_steps: spec_at_least_one(ACCUM_STEPS), warp_journey_id }
    }

    open spec fn inboxes_registered(
        before: Self::State,
        after: Self::State,
        ports: Seq<(u32, ObjectId)>,
    ) -> bool {
        first_inboxes_registered(before, after, ports)
    }

    fn unary_seed(inbox: ObjectId) -> (seed: Init) {
        Init { recv_id: inbox, grad_steps: at_least_one(ACCUM_STEPS) }
    }

    fn unary_inbox(seed: &Init) -> (inbox: ObjectId) {
        seed.recv_id
    }

    fn binary_seed(inboxes: [ObjectId; 2]) -> (seed: FusionSeed) {
        FusionSeed {
            p1_recv_id: inboxes[0],
            p2_recv_id: inboxes[1],
            grad_steps: at_least_one(ACCUM_STEPS),
        }
    }

    fn binary_inboxes(seed: &FusionSeed) -> (inboxes: [ObjectId; 2]) {
        [seed.p1_recv_id, seed.p2_recv_id]
    }

    fn warp_seed(inbox: ObjectId, warp_journey_id: Uuid) -> (seed: BoundaryInit) {
        BoundaryInit { recv_id: inbox, grad_steps: at_least_one(ACCUM_STEPS), warp_journey_id }
    }

    fn register_inboxes(state: &mut Self::State, ports: &Vec<(u32, ObjectId)>) {
        extend_mailboxes(&mut state.shared.p1_tx, ports);
    }

    proof fn law_unary_inbox_of_seed(inbox: ObjectId) {
    }

    proof fn law_binary_inboxes_of_seed(inboxes: [ObjectId; 2]) {
        assert(Self::spec_binary_inboxes(Self::spec_binary_seed(inboxes))@ =~= inboxes@);
    }

    proof fn law_inboxes_ignore_topology(
        a: Self::State,
        b: Self::State,
        after: Self::State,
        ports: Seq<(u32, ObjectId)>,
    ) {
    }
}

} // verus!
