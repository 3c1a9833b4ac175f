//! What the programs seed their nodes with, and where they send them their
//! first message.

use vstd::prelude::*;

use crate::compile::SunProgram;
use crate::compile::action::{spawned, VertexDescriptor};
use crate::forward::ForwardSunState;
use crate::ids::{ObjectId, Uuid};
use crate::mailbox::law_last_mailbox_wins;
use crate::nodes::cell::Init;
use crate::nodes::fusion::FusionSeed;
use crate::programs::checkpoint_evaluate::CheckpointEvaluate;
use crate::programs::forward_only::{ForwardOnly, ForwardOnlyWithPolicy};
use crate::programs::pipeline_backward::program::{
    DataParallelPipelineBackward, PipelineBackward,
};
use crate::programs::two_sided_zo::finalize::{sun_finalized, EpochMailboxes};
use crate::programs::two_sided_zo::phase::{clock, steps_in};
use crate::programs::two_sided_zo::program::{
    DeploymentProgram, Manifest, TwoSidedZoManifest, TwoSidedZoWithState,
};
use crate::programs::two_sided_zo::SunState;
use crate::topology::BoundaryInit;

verus! {

broadcast use vstd::std_specs::hash::group_hash_axioms;

/// The seed of a cell: it listens at `inbox` and takes `steps` microsteps in
/// each phase.
pub open spec fn seeds_cell(seed: Init, inbox: ObjectId, steps: int) -> bool {
    seed.recv_id == inbox && seed.grad_steps == steps
}

/// The seed of a fusion: its ports listen at the inboxes in order, and it takes
/// `steps` microsteps in each phase.
pub open spec fn seeds_fusion(seed: FusionSeed, inboxes: [ObjectId; 2], steps: int) -> bool {
    seed.p1_recv_id == inboxes@[0] && seed.p2_recv_id == inboxes@[1] && seed.grad_steps == steps
}

/// The seed of a boundary: as that of a cell, with the journey it stands for.
pub open spec fn seeds_boundary(seed: BoundaryInit, inbox: ObjectId, warp: Uuid, steps: int) -> bool {
    seed.recv_id == inbox && seed.warp_journey_id == warp && seed.grad_steps == steps
}

/// `n`, or one if that is more.
pub open spec fn one_or_more(n: int) -> int {
    if n >= 1 {
        n
    } else {
        1
    }
}

/// A deployed graph is seeded for epochs of `N` steps.
pub proof fn law_deployment_seeds<S, const N: usize>(inbox: ObjectId, inboxes: [ObjectId; 2], warp: Uuid)
    ensures
        seeds_cell(DeploymentProgram::<S, N>::spec_unary_seed(inbox), inbox, one_or_more(N as int)),
        DeploymentProgram::<S, N>::spec_unary_inbox(DeploymentProgram::<S, N>::spec_unary_seed(inbox)) == inbox,
        seeds_fusion(DeploymentProgram::<S, N>::spec_binary_seed(inboxes), inboxes, one_or_more(N as int)),
        seeds_boundary(DeploymentProgram::<S, N>::spec_warp_seed(inbox, warp), inbox, warp, one_or_more(N as int)),
{
}

/// The nodes of a two-sided Sun take as many microsteps in each phase as an
/// epoch of `N` steps sends them propagations in each pass.
pub proof fn law_two_sided_seeds<S, const N: usize>(inbox: ObjectId, inboxes: [ObjectId; 2], warp: Uuid)
    ensures
        seeds_cell(TwoSidedZoWithState::<S, N>::spec_unary_seed(inbox), inbox, one_or_more(N as int)),
        TwoSidedZoWithState::<S, N>::spec_unary_inbox(TwoSidedZoWithState::<S, N>::spec_unary_seed(inbox)) == inbox,
        seeds_fusion(TwoSidedZoWithState::<S, N>::spec_binary_seed(inboxes), inboxes, one_or_more(N as int)),
        seeds_boundary(TwoSidedZoWithState::<S, N>::spec_warp_seed(inbox, warp), inbox, warp, one_or_more(N as int)),
{
}

/// So do those of a two-sided Sun that runs a manifest.
pub proof fn law_manifest_seeds<M: Manifest, const N: usize>(inbox: ObjectId, inboxes: [ObjectId; 2], warp: Uuid)
    ensures
        seeds_cell(TwoSidedZoManifest::<M, N>::spec_unary_seed(inbox), inbox, one_or_more(N as int)),
        TwoSidedZoManifest::<M, N>::spec_unary_inbox(TwoSidedZoManifest::<M, N>::spec_unary_seed(inbox)) == inbox,
        seeds_fusion(TwoSidedZoManifest::<M, N>::spec_binary_seed(inboxes), inboxes, one_or_more(N as int)),
        seeds_boundary(TwoSidedZoManifest::<M, N>::spec_warp_seed(inbox, warp), inbox, warp, one_or_more(N as int)),
{
}

/// The nodes of a pipeline-parallel Sun are seeded for `N` micro-batches.
pub proof fn law_pipeline_seeds<S, const N: usize>(inbox: ObjectId, inboxes: [ObjectId; 2], warp: Uuid)
    ensures
        seeds_cell(PipelineBackward::<S, N>::spec_unary_seed(inbox), inbox, one_or_more(N as int)),
        PipelineBackward::<S, N>::spec_unary_inbox(PipelineBackward::<S, N>::spec_unary_seed(inbox)) == inbox,
        seeds_fusion(PipelineBackward::<S, N>::spec_binary_seed(inboxes), inboxes, one_or_more(N as int)),
        seeds_boundary(PipelineBackward::<S, N>::spec_warp_seed(inbox, warp), inbox, warp, one_or_more(N as int)),
{
}

/// So are those of one with two replicas.
pub proof fn law_data_parallel_seeds<S, const N: usize>(inbox: ObjectId, inboxes: [ObjectId; 2], warp: Uuid)
    ensures
        seeds_cell(DataParallelPipelineBackward::<S, N>::spec_unary_seed(inbox), inbox, one_or_more(N as int)),
        DataParallelPipelineBackward::<S, N>::spec_unary_inbox(DataParallelPipelineBackward::<S, N>::spec_unary_seed(inbox)) == inbox,
        seeds_fusion(DataParallelPipelineBackward::<S, N>::spec_binary_seed(inboxes), inboxes, one_or_more(N as int)),
        seeds_boundary(DataParallelPipelineBackward::<S, N>::spec_warp_seed(inbox, warp), inbox, warp, one_or_more(N as int)),
{
}

/// The nodes of a serving Sun take one step at a time.
pub proof fn law_forward_seeds<S>(inbox: ObjectId, inboxes: [ObjectId; 2], warp: Uuid)
    ensures
        seeds_cell(ForwardOnly::<S>::spec_unary_seed(inbox), inbox, 1),
        ForwardOnly::<S>::spec_unary_inbox(ForwardOnly::<S>::spec_unary_seed(inbox)) == inbox,
        seeds_fusion(ForwardOnly::<S>::spec_binary_seed(inboxes), inboxes, 1),
        seeds_boundary(ForwardOnly::<S>::spec_warp_seed(inbox, warp), inbox, warp, 1),
{
}

/// So do those of a serving Sun with a policy.
pub proof fn law_forward_policy_seeds<S>(inbox: ObjectId, inboxes: [ObjectId; 2], warp: Uuid)
    ensures
        seeds_cell(ForwardOnlyWithPolicy::<S>::spec_unary_seed(inbox), inbox, 1),
        ForwardOnlyWithPolicy::<S>::spec_unary_inbox(ForwardOnlyWithPolicy::<S>::spec_unary_seed(inbox)) == inbox,
        seeds_fusion(ForwardOnlyWithPolicy::<S>::spec_binary_seed(inboxes), inboxes, 1),
        seeds_boundary(ForwardOnlyWithPolicy::<S>::spec_warp_seed(inbox, warp), inbox, warp, 1),
{
}

/// So do those of a Sun that checkpoints and evaluates.
pub proof fn law_checkpoint_seeds<S>(inbox: ObjectId, inboxes: [ObjectId; 2], warp: Uuid)
    ensures
        seeds_cell(CheckpointEvaluate::<S>::spec_unary_seed(inbox), inbox, 1),
        CheckpointEvaluate::<S>::spec_unary_inbox(CheckpointEvaluate::<S>::spec_unary_seed(inbox)) == inbox,
        seeds_fusion(CheckpointEvaluate::<S>::spec_binary_seed(inboxes), inboxes, 1),
        seeds_boundary(CheckpointEvaluate::<S>::spec_warp_seed(inbox, warp), inbox, warp, 1),
{
}

/// A finalized two-sided Sun counts as many steps as its nodes were seeded for.
pub proof fn law_epochs_fit_the_seeds<S, const N: usize>(
    before: SunState<S>,
    after: SunState<S>,
    po_tx: std::collections::HashMap<u32, ObjectId>,
    fresh: EpochMailboxes,
    inbox: ObjectId,
    inboxes: [ObjectId; 2],
    warp: Uuid,
)
    requires
        N > 0,
        sun_finalized(before, after, N, po_tx, fresh),
    ensures
        steps_in(clock(after.shared)) == N,
        seeds_cell(TwoSidedZoWithState::<S, N>::spec_unary_seed(inbox), inbox, steps_in(clock(after.shared)) as int),
        seeds_fusion(
            TwoSidedZoWithState::<S, N>::spec_binary_seed(inboxes),
            inboxes,
            steps_in(clock(after.shared)) as int,
        ),
        seeds_boundary(
            TwoSidedZoWithState::<S, N>::spec_warp_seed(inbox, warp),
            inbox,
            warp,
            steps_in(clock(after.shared)) as int,
        ),
{
    law_two_sided_seeds::<S, N>(inbox, inboxes, warp);
}

/// A two-sided Sun sends a spawned cell its first propagation where the seed
/// told it to listen, and leaves the other ports as they were.
pub proof fn law_first_propagation_reaches_the_cell<S, const N: usize>(
    before: SunState<S>,
    after: SunState<S>,
    vertex: u32,
    label: String,
    seed: Init,
    descriptor: VertexDescriptor,
    journey_id: Uuid,
    warp: Option<Uuid>,
    other: u32,
)
    requires
        spawned::<TwoSidedZoWithState<S, N>>(
            before,
            after,
            vertex,
            label,
            seq![(vertex, TwoSidedZoWithState::<S, N>::spec_unary_inbox(seed))],
            descriptor,
            journey_id,
            warp,
        ),
        other != vertex,
    ensures
        after.shared.p1_tx@.contains_key(vertex),
        after.shared.p1_tx@[vertex] == seed.recv_id,
        after.shared.p1_tx@.contains_key(other) == before.shared.p1_tx@.contains_key(other),
        after.shared.p1_tx@[other] == before.shared.p1_tx@[other] || !before.shared.p1_tx@.contains_key(other),
{
    let ports = seq![(vertex, TwoSidedZoWithState::<S, N>::spec_unary_inbox(seed))];
    law_last_mailbox_wins(before.shared.p1_tx@, ports, 0, vertex);
    law_last_mailbox_wins(before.shared.p1_tx@, ports, 0, other);
}

/// A two-sided Sun sends a spawned fusion its first propagations where the
/// seed told its ports to listen.
pub proof fn law_first_propagations_reach_the_fusion<S, const N: usize>(
    before: SunState<S>,
    after: SunState<S>,
    p1: u32,
    p2: u32,
    label: String,
    seed: FusionSeed,
    descriptor: VertexDescriptor,
    journey_id: Uuid,
)
    requires
        p1 != p2,
        spawned::<TwoSidedZoWithState<S, N>>(
            before,
            after,
            p1,
            label,
            seq![
                (p1, TwoSidedZoWithState::<S, N>::spec_binary_inboxes(seed)@[0]),
                (p2, TwoSidedZoWithState::<S, N>::spec_binary_inboxes(seed)@[1]),
            ],
            descriptor,
            journey_id,
            None,
        ),
    ensures
        after.shared.p1_tx@.contains_key(p1),
        after.shared.p1_tx@[p1] == seed.p1_recv_id,
        after.shared.p1_tx@.contains_key(p2),
        after.shared.p1_tx@[p2] == seed.p2_recv_id,
{
    let boxes = TwoSidedZoWithState::<S, N>::spec_binary_inboxes(seed)@;
    let ports = seq![(p1, boxes[0]), (p2, boxes[1])];
    law_last_mailbox_wins(before.shared.p1_tx@, ports, 0, p1);
    law_last_mailbox_wins(before.shared.p1_tx@, ports, 1, p2);
}

/// A serving Sun sends a spawned cell its first artifact where the seed told
/// it to listen.
pub proof fn law_first_artifact_reaches_the_cell<S>(
    before: ForwardSunState<S>,
    after: ForwardSunState<S>,
    vertex: u32,
    label: String,
    seed: Init,
    descriptor: VertexDescriptor,
    journey_id: Uuid,
    warp: Option<Uuid>,
)
    requires
        spawned::<ForwardOnly<S>>(
            before,
            after,
            vertex,
            label,
            seq![(vertex, ForwardOnly::<S>::spec_unary_inbox(seed))],
            descriptor,
            journey_id,
            warp,
        ),
    ensures
        after.runtime.inputs@.contains_key(vertex),
        after.runtime.inputs@[vertex] == seed.recv_id,
{
    let ports = seq![(vertex, ForwardOnly::<S>::spec_unary_inbox(seed))];
    law_last_mailbox_wins(before.runtime.inputs@, ports, 0, vertex);
}

/// A pipeline-parallel Sun sends a spawned stage its first command where the
/// seed told it to listen.
pub proof fn law_first_command_reaches_the_stage<S, const N: usize>(
    before: crate::programs::pipeline_backward::PipelineBackwardState<S>,
    after: crate::programs::pipeline_backward::PipelineBackwardState<S>,
    vertex: u32,
    label: String,
    seed: Init,
    descriptor: VertexDescriptor,
    journey_id: Uuid,
    warp: Option<Uuid>,
)
    requires
        spawned::<PipelineBackward<S, N>>(
            before,
            after,
            vertex,
            label,
            seq![(vertex, PipelineBackward::<S, N>::spec_unary_inbox(seed))],
            descriptor,
            journey_id,
            warp,
        ),
    ensures
        after.inboxes@.contains_key(vertex),
        after.inboxes@[vertex] == seed.recv_id,
{
    let ports = seq![(vertex, PipelineBackward::<S, N>::spec_unary_inbox(seed))];
    law_last_mailbox_wins(before.inboxes@, ports, 0, vertex);
}

} // verus!
