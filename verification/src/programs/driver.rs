//! The order in which the drivers of the programs take their steps.
//!
//! Each driver finalizes its graph once and then repeats one round for ever.

use vstd::prelude::*;

use crate::counting::spec_at_least_one;
use crate::forward::{ForwardSunState, PendingForwardWork};
use crate::programs::pipeline_backward::PipelineBackwardState;
use crate::programs::pipeline_backward::action::{
    NeedsDataParallelMicroBatches, NeedsMicroBatches,
};
use crate::programs::two_sided_zo::{
    PendingGeneratedPropagationInputs, PendingPipelineWork, SunState,
};

verus! {

broadcast use vstd::std_specs::hash::group_hash_axioms;

/// The steps of a two-sided epoch.
#[derive(Clone, Copy, Debug, PartialEq, Eq, Structural)]
pub enum EpochStep {
    Finalize,
    Begin,
    /// Run the generator.
    Generate,
    /// Keep the pair it made.
    Store,
    Prepare,
    SendRoots,
    ProcessNode,
    CollectPairs,
    /// Let the policy turn the outputs into an outcome.
    Policy,
    Broadcast,
}

/// The step that follows `step`: pairs are collected while `generating`, and
/// the pipeline is driven while it is `working`.
pub open spec fn epoch_step_after(step: EpochStep, generating: bool, working: bool) -> EpochStep {
    match step {
        EpochStep::Finalize | EpochStep::Broadcast => EpochStep::Begin,
        EpochStep::Begin | EpochStep::Store => if generating {
            EpochStep::Generate
        } else {
            EpochStep::Prepare
        },
        EpochStep::Generate => EpochStep::Store,
        EpochStep::Prepare | EpochStep::ProcessNode => if working {
            EpochStep::SendRoots
        } else {
            EpochStep::CollectPairs
        },
        EpochStep::SendRoots => EpochStep::ProcessNode,
        EpochStep::CollectPairs => EpochStep::Policy,
        EpochStep::Policy => EpochStep::Broadcast,
    }
}

/// The next step of a two-sided Sun with `N` pairs an epoch.
pub fn next_epoch_step<S, const N: usize>(state: &SunState<S>, step: EpochStep) -> (next: EpochStep)
    ensures
        next == epoch_step_after(
            step,
            state.propagation_up_inputs@.len() < N,
            state.pipeline_completions < state.pipeline_target_completions,
        ),
{
    match step {
        EpochStep::Finalize | EpochStep::Broadcast => EpochStep::Begin,
        EpochStep::Begin | EpochStep::Store => {
            if PendingGeneratedPropagationInputs::<N>::eval(state) {
                EpochStep::Generate
            } else {
                EpochStep::Prepare
            }
        },
        EpochStep::Generate => EpochStep::Store,
        EpochStep::Prepare | EpochStep::ProcessNode => {
            if PendingPipelineWork::eval(state) {
                EpochStep::SendRoots
            } else {
                EpochStep::CollectPairs
            }
        },
        EpochStep::SendRoots => EpochStep::ProcessNode,
        EpochStep::CollectPairs => EpochStep::Policy,
        EpochStep::Policy => EpochStep::Broadcast,
    }
}

/// The steps of a serving round.
#[derive(Clone, Copy, Debug, PartialEq, Eq, Structural)]
pub enum ServeStep {
    Finalize,
    /// Take the next artifact to serve.
    Source,
    Prepare,
    SendRoots,
    ProcessNode,
    Complete,
    /// Hand the output to the policy, or drop it.
    Conclude,
}

/// The step that follows `step`: nodes are processed while some are `pending`.
pub open spec fn serve_step_after(step: ServeStep, pending: bool) -> ServeStep {
    match step {
        ServeStep::Finalize | ServeStep::Conclude => ServeStep::Source,
        ServeStep::Source => ServeStep::Prepare,
        ServeStep::Prepare => ServeStep::SendRoots,
        ServeStep::SendRoots | ServeStep::ProcessNode => if pending {
            ServeStep::ProcessNode
        } else {
            ServeStep::Complete
        },
        ServeStep::Complete => ServeStep::Conclude,
    }
}

/// The next step of a serving Sun.
pub fn next_serve_step<S>(state: &ForwardSunState<S>, step: ServeStep) -> (next: ServeStep)
    ensures
        next == serve_step_after(step, state.runtime.pending@.dom().len() > 0),
{
    match step {
        ServeStep::Finalize | ServeStep::Conclude => ServeStep::Source,
        ServeStep::Source => ServeStep::Prepare,
        ServeStep::Prepare => ServeStep::SendRoots,
        ServeStep::SendRoots | ServeStep::ProcessNode => {
            if PendingForwardWork::eval(state) {
                ServeStep::ProcessNode
            } else {
                ServeStep::Complete
            }
        },
        ServeStep::Complete => ServeStep::Conclude,
    }
}

/// The steps of a pipeline-parallel training round.
#[derive(Clone, Copy, Debug, PartialEq, Eq, Structural)]
pub enum TrainStep {
    Finalize,
    Begin,
    /// Take the next micro-batch.
    Source,
    /// Keep it for the round.
    Store,
    Run,
    Policy,
}

/// The step that follows `step`: micro-batches are taken while some are
/// `needed`.
pub open spec fn train_step_after(step: TrainStep, needed: bool) -> TrainStep {
    match step {
        TrainStep::Finalize | TrainStep::Policy => TrainStep::Begin,
        TrainStep::Begin | TrainStep::Store => if needed {
            TrainStep::Source
        } else {
            TrainStep::Run
        },
        TrainStep::Source => TrainStep::Store,
        TrainStep::Run => TrainStep::Policy,
    }
}

fn train_step(step: TrainStep, needed: bool) -> (next: TrainStep)
    ensures
        next == train_step_after(step, needed),
{
    match step {
        TrainStep::Finalize | TrainStep::Policy => TrainStep::Begin,
        TrainStep::Begin | TrainStep::Store => {
            if needed {
                TrainStep::Source
            } else {
                TrainStep::Run
            }
        },
        TrainStep::Source => TrainStep::Store,
        TrainStep::Run => TrainStep::Policy,
    }
}

/// The next step of a pipeline-parallel Sun with `M` micro-batches a round.
pub fn next_train_step<S, const M: usize>(state: &PipelineBackwardState<S>, step: TrainStep) -> (
    next: TrainStep)
    ensures
        next == train_step_after(step, state.micro_batches@.len() < spec_at_least_one(M)),
{
    train_step(step, NeedsMicroBatches::<S, M>::eval(state))
}

/// The next step of a Sun with two pipeline replicas and `M` micro-batches
/// for each of them a round.
pub fn next_data_parallel_train_step<S, const M: usize>(
    state: &PipelineBackwardState<S>,
    step: TrainStep,
) -> (next: TrainStep)
    requires
        2 * M <= usize::MAX,
    ensures
        next == train_step_after(step, state.micro_batches@.len() < 2 * spec_at_least_one(M)),
{
    train_step(step, NeedsDataParallelMicroBatches::<S, M>::eval(state))
}

/// How many steps an epoch is at most from its end, with `generate` pairs and
/// `work` completions left before `step` is taken.
pub open spec fn epoch_distance(step: EpochStep, generate: nat, work: nat) -> nat {
    match step {
        EpochStep::Finalize => 6 + 2 * generate + 2 * work,
        EpochStep::Begin => 5 + 2 * generate + 2 * work,
        EpochStep::Generate => 4 + 2 * generate + 2 * work,
        EpochStep::Store => 3 + 2 * generate + 2 * work,
        EpochStep::Prepare => 4 + 2 * work,
        EpochStep::SendRoots => 3 + 2 * work,
        EpochStep::ProcessNode => 2 + 2 * work,
        EpochStep::CollectPairs => 3,
        EpochStep::Policy => 2,
        EpochStep::Broadcast => 1,
    }
}

/// What is left to generate once `step` is taken.
pub open spec fn generate_after(step: EpochStep, generate: nat) -> nat {
    if step is Store {
        (generate - 1) as nat
    } else {
        generate
    }
}

/// What is left to complete once `step` is taken.
pub open spec fn work_after(step: EpochStep, work: nat) -> nat {
    if step is ProcessNode {
        (work - 1) as nat
    } else {
        work
    }
}

/// An epoch in which every kept pair is one less to generate and every
/// processed node one less to complete comes to its broadcast; it prepares
/// only with every pair at hand, and collects only with all work done.
pub proof fn law_epoch_comes_to_an_end(step: EpochStep, generate: nat, work: nat)
    requires
        !(step is Broadcast),
        step is Generate || step is Store ==> generate > 0,
        step is SendRoots || step is ProcessNode ==> work > 0,
    ensures
        ({
            let generate_next = generate_after(step, generate);
            let work_next = work_after(step, work);
            let next = epoch_step_after(step, generate_next > 0, work_next > 0);
            &&& epoch_distance(next, generate_next, work_next) < epoch_distance(
                step,
                generate,
                work,
            )
            &&& next is Generate || next is Store ==> generate_next > 0
            &&& next is SendRoots || next is ProcessNode ==> work_next > 0
            &&& next is Prepare ==> generate_next == 0
            &&& next is CollectPairs ==> work_next == 0
        }),
{
}

/// The first `count` steps of a two-sided driver from `step` on, with
/// `generate` pairs and `work` completions left.
pub open spec fn epoch_walk(step: EpochStep, generate: nat, work: nat, count: nat) -> Seq<EpochStep>
    decreases count,
{
    if count == 0 {
        Seq::empty()
    } else {
        let generate_next = generate_after(step, generate);
        let work_next = work_after(step, work);
        seq![step] + epoch_walk(
            epoch_step_after(step, generate_next > 0, work_next > 0),
            generate_next,
            work_next,
            (count - 1) as nat,
        )
    }
}

/// `count` times the two given steps.
pub open spec fn twice_each<A>(first: A, second: A, count: nat) -> Seq<A>
    decreases count,
{
    if count == 0 {
        Seq::empty()
    } else {
        seq![first, second] + twice_each(first, second, (count - 1) as nat)
    }
}

proof fn lemma_generate_walk(generate: nat, work: nat, more: nat)
    requires
        generate > 0,
    ensures
        epoch_walk(EpochStep::Generate, generate, work, 2 * generate + more) == twice_each(
            EpochStep::Generate,
            EpochStep::Store,
            generate,
        ) + epoch_walk(EpochStep::Prepare, 0, work, more),
    decreases generate,
{
    reveal_with_fuel(epoch_walk, 3);
    let rest = (generate - 1) as nat;
    let count = 2 * generate + more;
    if rest > 0 {
        lemma_generate_walk(rest, work, more);
        assert(2 * rest + more == count - 2);
        assert(epoch_walk(EpochStep::Generate, generate, work, count) =~= seq![
            EpochStep::Generate,
            EpochStep::Store,
        ] + epoch_walk(EpochStep::Generate, rest, work, 2 * rest + more));
    } else {
        assert(epoch_walk(EpochStep::Generate, generate, work, count) =~= seq![
            EpochStep::Generate,
            EpochStep::Store,
        ] + epoch_walk(EpochStep::Prepare, 0, work, more));
        assert(twice_each(EpochStep::Generate, EpochStep::Store, 0) =~= Seq::empty());
    }
    assert(epoch_walk(EpochStep::Generate, generate, work, count) =~= twice_each(
        EpochStep::Generate,
        EpochStep::Store,
        generate,
    ) + epoch_walk(EpochStep::Prepare, 0, work, more));
}

proof fn lemma_work_walk(work: nat, more: nat)
    requires
        work > 0,
    ensures
        epoch_walk(EpochStep::SendRoots, 0, work, 2 * work + more) == twice_each(
            EpochStep::SendRoots,
            EpochStep::ProcessNode,
            work,
        ) + epoch_walk(EpochStep::CollectPairs, 0, 0, more),
    decreases work,
{
    reveal_with_fuel(epoch_walk, 3);
    let rest = (work - 1) as nat;
    let count = 2 * work + more;
    if rest > 0 {
        lemma_work_walk(rest, more);
        assert(2 * rest + more == count - 2);
        assert(epoch_walk(EpochStep::SendRoots, 0, work, count) =~= seq![
            EpochStep::SendRoots,
            EpochStep::ProcessNode,
        ] + epoch_walk(EpochStep::SendRoots, 0, rest, 2 * rest + more));
    } else {
        assert(epoch_walk(EpochStep::SendRoots, 0, work, count) =~= seq![
            EpochStep::SendRoots,
            EpochStep::ProcessNode,
        ] + epoch_walk(EpochStep::CollectPairs, 0, 0, more));
        assert(twice_each(EpochStep::SendRoots, EpochStep::ProcessNode, 0) =~= Seq::empty());
    }
    assert(epoch_walk(EpochStep::SendRoots, 0, work, count) =~= twice_each(
        EpochStep::SendRoots,
        EpochStep::ProcessNode,
        work,
    ) + epoch_walk(EpochStep::CollectPairs, 0, 0, more));
}

/// An epoch generates and keeps each of its pairs, prepares once, seeds the
/// roots before it takes in each completion, and then collects the pairs, runs
/// the policy and broadcasts the outcome, once and in this order; the next
/// epoch begins behind it.
pub proof fn law_epochs_run_in_order(pairs: nat, work: nat)
    requires
        pairs > 0,
        work > 0,
    ensures
        epoch_walk(EpochStep::Begin, pairs, work, 5 + 2 * pairs + 2 * work) == seq![
            EpochStep::Begin,
        ] + twice_each(EpochStep::Generate, EpochStep::Store, pairs) + seq![EpochStep::Prepare]
            + twice_each(EpochStep::SendRoots, EpochStep::ProcessNode, work) + seq![
            EpochStep::CollectPairs,
            EpochStep::Policy,
            EpochStep::Broadcast,
        ],
        epoch_step_after(EpochStep::Broadcast, true, false) == EpochStep::Begin,
        epoch_step_after(EpochStep::Finalize, true, false) == EpochStep::Begin,
{
    let count = 5 + 2 * pairs + 2 * work;
    lemma_generate_walk(pairs, work, 4 + 2 * work);
    lemma_work_walk(work, 3);
    reveal_with_fuel(epoch_walk, 4);
    assert(2 * pairs + (4 + 2 * work) == count - 1);
    assert(epoch_walk(EpochStep::Begin, pairs, work, count) =~= seq![EpochStep::Begin]
        + epoch_walk(EpochStep::Generate, pairs, work, (count - 1) as nat));
    assert(epoch_walk(EpochStep::Prepare, 0, work, 4 + 2 * work) =~= seq![EpochStep::Prepare]
        + epoch_walk(EpochStep::SendRoots, 0, work, 2 * work + 3));
    assert(epoch_walk(EpochStep::CollectPairs, 0, 0, 3) =~= seq![
        EpochStep::CollectPairs,
        EpochStep::Policy,
        EpochStep::Broadcast,
    ]);
    assert(epoch_walk(EpochStep::Begin, pairs, work, count) =~= seq![EpochStep::Begin]
        + twice_each(EpochStep::Generate, EpochStep::Store, pairs) + seq![EpochStep::Prepare]
        + twice_each(EpochStep::SendRoots, EpochStep::ProcessNode, work) + seq![
        EpochStep::CollectPairs,
        EpochStep::Policy,
        EpochStep::Broadcast,
    ]);
}

/// The first `count` steps of a serving driver from `step` on, with `pending`
/// nodes left to process.
pub open spec fn serve_walk(step: ServeStep, pending: nat, count: nat) -> Seq<ServeStep>
    decreases count,
{
    if count == 0 {
        Seq::empty()
    } else {
        let left = if step is ProcessNode {
            (pending - 1) as nat
        } else {
            pending
        };
        seq![step] + serve_walk(serve_step_after(step, left > 0), left, (count - 1) as nat)
    }
}

proof fn lemma_process_walk(pending: nat, more: nat)
    requires
        pending > 0,
    ensures
        serve_walk(ServeStep::ProcessNode, pending, pending + more) == Seq::new(
            pending,
            |i: int| ServeStep::ProcessNode,
        ) + serve_walk(ServeStep::Complete, 0, more),
    decreases pending,
{
    reveal_with_fuel(serve_walk, 2);
    let rest = (pending - 1) as nat;
    if rest > 0 {
        lemma_process_walk(rest, more);
    }
    assert(serve_walk(ServeStep::ProcessNode, pending, pending + more) =~= Seq::new(
        pending,
        |i: int| ServeStep::ProcessNode,
    ) + serve_walk(ServeStep::Complete, 0, more));
}

/// A serving round takes one artifact, prepares the pass, sends it to the
/// roots, processes every node once, completes the pass and hands its output
/// on, in this order; the next round takes the next artifact.
pub proof fn law_serving_rounds_run_in_order(nodes: nat)
    requires
        nodes > 0,
    ensures
        serve_walk(ServeStep::Source, nodes, 5 + nodes) == seq![
            ServeStep::Source,
            ServeStep::Prepare,
            ServeStep::SendRoots,
        ] + Seq::new(nodes, |i: int| ServeStep::ProcessNode) + seq![
            ServeStep::Complete,
            ServeStep::Conclude,
        ],
        serve_step_after(ServeStep::Conclude, false) == ServeStep::Source,
        serve_step_after(ServeStep::Finalize, false) == ServeStep::Source,
{
    lemma_process_walk(nodes, 2);
    reveal_with_fuel(serve_walk, 4);
    assert(serve_walk(ServeStep::Source, nodes, 5 + nodes) =~= seq![
        ServeStep::Source,
        ServeStep::Prepare,
        ServeStep::SendRoots,
    ] + serve_walk(ServeStep::ProcessNode, nodes, nodes + 2));
    assert(serve_walk(ServeStep::Complete, 0, 2) =~= seq![
        ServeStep::Complete,
        ServeStep::Conclude,
    ]);
    assert(serve_walk(ServeStep::Source, nodes, 5 + nodes) =~= seq![
        ServeStep::Source,
        ServeStep::Prepare,
        ServeStep::SendRoots,
    ] + Seq::new(nodes, |i: int| ServeStep::ProcessNode) + seq![
        ServeStep::Complete,
        ServeStep::Conclude,
    ]);
}

/// The first `count` steps of a training driver from `step` on, with `needed`
/// micro-batches left to take.
pub open spec fn train_walk(step: TrainStep, needed: nat, count: nat) -> Seq<TrainStep>
    decreases count,
{
    if count == 0 {
        Seq::empty()
    } else {
        let left = if step is Store {
            (needed - 1) as nat
        } else {
            needed
        };
        seq![step] + train_walk(train_step_after(step, left > 0), left, (count - 1) as nat)
    }
}

proof fn lemma_source_walk(needed: nat, more: nat)
    requires
        needed > 0,
    ensures
        train_walk(TrainStep::Source, needed, 2 * needed + more) == twice_each(
            TrainStep::Source,
            TrainStep::Store,
            needed,
        ) + train_walk(TrainStep::Run, 0, more),
    decreases needed,
{
    reveal_with_fuel(train_walk, 3);
    let rest = (needed - 1) as nat;
    let count = 2 * needed + more;
    if rest > 0 {
        lemma_source_walk(rest, more);
        assert(2 * rest + more == count - 2);
        assert(train_walk(TrainStep::Source, needed, count) =~= seq![
            TrainStep::Source,
            TrainStep::Store,
        ] + train_walk(TrainStep::Source, rest, 2 * rest + more));
    } else {
        assert(train_walk(TrainStep::Source, needed, count) =~= seq![
            TrainStep::Source,
            TrainStep::Store,
        ] + train_walk(TrainStep::Run, 0, more));
        assert(twice_each(TrainStep::Source, TrainStep::Store, 0) =~= Seq::empty());
    }
    assert(train_walk(TrainStep::Source, needed, count) =~= twice_each(
        TrainStep::Source,
        TrainStep::Store,
        needed,
    ) + train_walk(TrainStep::Run, 0, more));
}

/// A training round takes and keeps each of its micro-batches, runs the step
/// and hands its result to the policy, in this order; the next round begins
/// behind it.
pub proof fn law_training_rounds_run_in_order(batches: nat)
    requires
        batches > 0,
    ensures
        train_walk(TrainStep::Begin, batches, 3 + 2 * batches) == seq![TrainStep::Begin]
            + twice_each(TrainStep::Source, TrainStep::Store, batches) + seq![
            TrainStep::Run,
            TrainStep::Policy,
        ],
        train_step_after(TrainStep::Policy, true) == TrainStep::Begin,
        train_step_after(TrainStep::Finalize, true) == TrainStep::Begin,
{
    lemma_source_walk(batches, 2);
    reveal_with_fuel(train_walk, 3);
    assert(train_walk(TrainStep::Begin, batches, 3 + 2 * batches) =~= seq![TrainStep::Begin]
        + train_walk(TrainStep::Source, batches, 2 * batches + 2));
    assert(train_walk(TrainStep::Run, 0, 2) =~= seq![TrainStep::Run, TrainStep::Policy]);
    assert(train_walk(TrainStep::Begin, batches, 3 + 2 * batches) =~= seq![TrainStep::Begin]
        + twice_each(TrainStep::Source, TrainStep::Store, batches) + seq![
        TrainStep::Run,
        TrainStep::Policy,
    ]);
}

/// A two-sided driver generates until it has its pairs, prepares then, drives
/// the pipeline while completions are missing, and collects once none is.
pub proof fn law_epoch_driver_waits_for_its_counts<S, const N: usize>(
    state: &SunState<S>,
    after_store: EpochStep,
    after_begin: EpochStep,
    after_node: EpochStep,
    after_prepare: EpochStep,
)
    requires
        call_ensures(next_epoch_step::<S, N>, (state, EpochStep::Store), after_store),
        call_ensures(next_epoch_step::<S, N>, (state, EpochStep::Begin), after_begin),
        call_ensures(next_epoch_step::<S, N>, (state, EpochStep::ProcessNode), after_node),
        call_ensures(next_epoch_step::<S, N>, (state, EpochStep::Prepare), after_prepare),
    ensures
        state.propagation_up_inputs@.len() < N ==> after_store == EpochStep::Generate,
        state.propagation_up_inputs@.len() >= N ==> after_store == EpochStep::Prepare,
        after_begin == after_store,
        state.pipeline_completions < state.pipeline_target_completions ==> after_node
            == EpochStep::SendRoots,
        state.pipeline_completions >= state.pipeline_target_completions ==> after_node
            == EpochStep::CollectPairs,
        after_prepare == after_node,
{
}

/// A serving driver processes nodes until none is pending.
pub proof fn law_serving_driver_waits_for_its_nodes<S>(
    state: &ForwardSunState<S>,
    node: u32,
    after_roots: ServeStep,
    after_node: ServeStep,
)
    requires
        call_ensures(next_serve_step::<S>, (state, ServeStep::SendRoots), after_roots),
        call_ensures(next_serve_step::<S>, (state, ServeStep::ProcessNode), after_node),
    ensures
        state.runtime.pending@.contains_key(node) ==> after_node == ServeStep::ProcessNode,
        state.runtime.pending@ == Map::<u32, usize>::empty() ==> after_node == ServeStep::Complete,
        after_roots == after_node,
{
    if state.runtime.pending@.contains_key(node) {
        assert(state.runtime.pending@.dom().contains(node));
        assert(state.runtime.pending@.dom().finite());
        if state.runtime.pending@.dom().len() == 0 {
            assert(state.runtime.pending@.dom() =~= Set::empty());
        }
    }
    if state.runtime.pending@ == Map::<u32, usize>::empty() {
        assert(state.runtime.pending@.dom() =~= Set::empty());
    }
}

/// A training driver takes micro-batches until it has as many as a step of one
/// or of two replicas runs, and runs the step then.
pub proof fn law_training_driver_waits_for_its_batches<S, const M: usize>(
    state: &PipelineBackwardState<S>,
    single: TrainStep,
    double: TrainStep,
)
    requires
        2 * M <= usize::MAX,
        call_ensures(next_train_step::<S, M>, (state, TrainStep::Store), single),
        call_ensures(next_data_parallel_train_step::<S, M>, (state, TrainStep::Store), double),
    ensures
        ({
            let each: int = if M > 1 {
                M as int
            } else {
                1
            };
            &&& single == if state.micro_batches@.len() < each {
                TrainStep::Source
            } else {
                TrainStep::Run
            }
            &&& double == if state.micro_batches@.len() < 2 * each {
                TrainStep::Source
            } else {
                TrainStep::Run
            }
        }),
{
}

} // verus!
