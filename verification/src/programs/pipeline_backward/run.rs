//! One training step of the pipeline, as a machine that names the next piece
//! of outside work and takes its outcome.

use std::collections::HashMap;

use vstd::arithmetic::div_mod::lemma_fundamental_div_mod;
use vstd::prelude::*;
use vstd::string::*;

use crate::failure::{one_number, two_numbers, with_number, with_numbers};
use crate::ids::{ObjectId, Uuid};
use crate::message::ArtifactDelivery;
use crate::text::decimal;
use crate::programs::pipeline_backward::lane::{
    law_finished_lane_is_complete, law_lane_never_stalls, rows, warmup, Lane, Work,
};
use crate::programs::pipeline_backward::{
    PipelineCommand, PipelineResponse, RunPipelineInput, RunPipelineOutput,
};

verus! {

broadcast use vstd::std_specs::hash::group_hash_axioms;

/// One stage of one replica, and the port its commands go to.
#[derive(Clone, Copy, Debug, PartialEq, Eq, Structural)]
pub struct Slot {
    pub stage: usize,
    pub replica: usize,
    pub port: u32,
}

/// How far a training step has come.
#[derive(Clone, Copy, Debug, PartialEq, Eq, Structural)]
pub enum RunPoint {
    /// Asking the idle slots from `slot` on.
    Sending { slot: usize },
    /// Collecting answers from the busy slots from `slot` on.
    Waiting { slot: usize, progressed: bool },
    /// Asking every slot to apply its gradients.
    Stepping { sent: usize },
    /// Collecting the acknowledgements.
    Settling { settled: usize, idle: bool },
    Done,
}

/// What has to happen outside before the step can go on.
#[derive(Clone, Copy, Debug, PartialEq, Eq, Structural)]
pub enum PipelineAction {
    /// Put a command, with the next mailbox of the port, into an inbox.
    Upload { inbox: ObjectId, command: PipelineCommand, recv: ObjectId },
    /// Look for an answer.
    Poll { reply: ObjectId },
    /// Let others run for a moment.
    Yield,
    /// Nothing: the step can go on.
    Continue,
    /// The step is complete.
    Finish,
}

/// A training step under way.
pub struct PipelineRun {
    pub stages: usize,
    pub lanes: Vec<Lane>,
    /// Stage by stage, and by replica within a stage.
    pub slots: Vec<Slot>,
    pub inboxes: HashMap<u32, ObjectId>,
    pub step_replies: Vec<ObjectId>,
    pub step: usize,
    pub point: RunPoint,
}

/// The slots of the first `stages` stages.
pub open spec fn slots_below(ports: Seq<Vec<u32>>, width: nat, stages: nat) -> Seq<Slot>
    decreases stages,
{
    if stages == 0 {
        Seq::empty()
    } else {
        slots_below(ports, width, (stages - 1) as nat) + Seq::new(
            width,
            |q: int|
                Slot {
                    stage: (stages - 1) as usize,
                    replica: q as usize,
                    port: ports[stages - 1]@[q],
                },
        )
    }
}

/// The emissions of a list of deliveries.
pub open spec fn emissions(deliveries: Seq<ArtifactDelivery>) -> Seq<ObjectId> {
    deliveries.map_values(|delivery: ArtifactDelivery| delivery.emission_id.object)
}

/// The micro-batches of replica `q`: a run of `count` deliveries.
pub open spec fn share(deliveries: Seq<ArtifactDelivery>, count: nat, q: int) -> Seq<ObjectId> {
    emissions(deliveries).subrange(q * count, q * count + count)
}

/// The first index from `from` on that is `ok`, or `len`.
pub open spec fn first_from(len: nat, from: nat, ok: spec_fn(int) -> bool) -> nat
    decreases len - from,
{
    if from >= len {
        len
    } else if ok(from as int) {
        from
    } else {
        first_from(len, from + 1, ok)
    }
}

proof fn lemma_first_from(len: nat, from: nat, ok: spec_fn(int) -> bool)
    requires
        from <= len,
    ensures
        from <= first_from(len, from, ok) <= len,
        first_from(len, from, ok) < len ==> ok(first_from(len, from, ok) as int),
        forall|k: int| from <= k < first_from(len, from, ok) ==> !#[trigger] ok(k),
    decreases len - from,
{
    if from < len && !ok(from as int) {
        lemma_first_from(len, from + 1, ok);
    }
}

/// The command that asks for `work`.
pub open spec fn command_of(work: Work, reply: ObjectId) -> PipelineCommand {
    match work {
        Work::Forward { micro_batch, emission_id } => PipelineCommand::Forward {
            micro_batch,
            emission_id,
            reply,
        },
        Work::Backward { micro_batch, gradient_emission_id, seed_from_forward } => {
            PipelineCommand::Backward {
                micro_batch,
                gradient_emission_id,
                seed_from_forward,
                reply,
            }
        },
    }
}

fn command_for(work: Work, reply: ObjectId) -> (command: PipelineCommand)
    ensures
        command == command_of(work, reply),
{
    match work {
        Work::Forward { micro_batch, emission_id } => PipelineCommand::Forward {
            micro_batch,
            emission_id,
            reply,
        },
        Work::Backward { micro_batch, gradient_emission_id, seed_from_forward } => {
            PipelineCommand::Backward {
                micro_batch,
                gradient_emission_id,
                seed_from_forward,
                reply,
            }
        },
    }
}

impl PipelineRun {
    pub open spec fn micro_batches(self) -> nat {
        self.lanes@[0].micro_batches()
    }

    pub open spec fn work_at(self, k: int) -> Option<Work> {
        self.lanes@[self.slots@[k].replica as int].work(self.slots@[k].stage as int)
    }

    pub open spec fn has_work(self) -> spec_fn(int) -> bool {
        |k: int| self.work_at(k) is Some
    }

    pub open spec fn busy_at(self, k: int) -> bool {
        self.lanes@[self.slots@[k].replica as int].busy@[self.slots@[k].stage as int] is Some
    }

    pub open spec fn is_busy(self) -> spec_fn(int) -> bool {
        |k: int| self.busy_at(k)
    }

    /// Every replica has run every micro-batch forward and back.
    pub open spec fn finished(self) -> bool {
        forall|q: int| 0 <= q < self.lanes@.len() ==> (#[trigger] self.lanes@[q]).finished()
    }

    pub open spec fn lanes_hold(self) -> bool {
        &&& self.stages >= 1
        &&& self.lanes@.len() >= 1
        &&& forall|q: int|
            #![trigger self.lanes@[q]]
            0 <= q < self.lanes@.len() ==> self.lanes@[q].holds() && self.lanes@[q].stages()
                == self.stages && self.lanes@[q].micro_batches() == self.micro_batches()
    }

    /// The slots are all the stages of all the replicas.
    pub open spec fn slots_hold(self) -> bool {
        &&& forall|k: int|
            #![trigger self.slots@[k]]
            0 <= k < self.slots@.len() ==> self.slots@[k].stage < self.stages
                && self.slots@[k].replica < self.lanes@.len()
        &&& forall|s: int, q: int|
            0 <= s < self.stages && 0 <= q < self.lanes@.len() ==> #[trigger] has_slot(
                self.slots@,
                s,
                q,
            )
    }

    pub open spec fn point_holds(self) -> bool {
        let n = self.slots@.len();
        match self.point {
            RunPoint::Sending { slot } => slot <= n && self.step_replies@.len() == 0,
            RunPoint::Waiting { slot, .. } => slot <= n && self.step_replies@.len() == 0,
            RunPoint::Stepping { sent } => sent <= n && self.step_replies@.len() == sent
                && self.finished(),
            RunPoint::Settling { settled, .. } => settled <= n && self.step_replies@.len() == n
                && self.finished(),
            RunPoint::Done => self.finished(),
        }
    }

    pub open spec fn holds(self) -> bool {
        &&& self.lanes_hold()
        &&& self.slots_hold()
        &&& self.point_holds()
        &&& self.step < usize::MAX
    }

    /// The step waits for a command to be uploaded.
    pub open spec fn expects_upload(self) -> bool {
        match self.point {
            RunPoint::Sending { slot } => slot < self.slots@.len() && self.work_at(
                slot as int,
            ) is Some,
            RunPoint::Stepping { sent } => sent < self.slots@.len(),
            _ => false,
        }
    }

    /// The step waits for the outcome of a look into a mailbox.
    pub open spec fn expects_answer(self) -> bool {
        match self.point {
            RunPoint::Waiting { slot, .. } => slot < self.slots@.len() && self.busy_at(
                slot as int,
            ),
            RunPoint::Settling { settled, .. } => settled < self.slots@.len(),
            _ => false,
        }
    }
}

pub open spec fn slot_is(slot: Slot, s: int, q: int) -> bool {
    slot.stage == s && slot.replica == q
}

/// Stage `s` of replica `q` is among the slots.
pub open spec fn has_slot(slots: Seq<Slot>, s: int, q: int) -> bool {
    exists|k: int| 0 <= k < slots.len() && #[trigger] slot_is(slots[k], s, q)
}

/// While some backward is left and no stage owes an answer, a pass over the
/// slots finds one to ask: a step never waits for nothing.
pub proof fn law_step_never_stalls(run: PipelineRun)
    requires
        run.holds(),
        !run.finished(),
        forall|k: int| 0 <= k < run.slots@.len() ==> !#[trigger] run.busy_at(k),
    ensures
        first_from(run.slots@.len(), 0, run.has_work()) < run.slots@.len(),
{
    let q = choose|q: int| 0 <= q < run.lanes@.len() && !(#[trigger] run.lanes@[q]).finished();
    let lane = run.lanes@[q];
    assert forall|s: int|
        #![trigger lane.busy@[s]]
        0 <= s < lane.stages() implies lane.busy@[s] is None by {
        assert(has_slot(run.slots@, s, q));
        let k = choose|k: int|
            0 <= k < run.slots@.len() && #[trigger] slot_is(run.slots@[k], s, q);
        assert(!run.busy_at(k));
    }
    let s = law_lane_never_stalls(lane);
    assert(has_slot(run.slots@, s, q));
    let k = choose|k: int| 0 <= k < run.slots@.len() && #[trigger] slot_is(run.slots@[k], s, q);
    assert((run.has_work())(k));
    lemma_first_from(run.slots@.len(), 0, run.has_work());
}

/// The slots of a chain are all its stages in all replicas.
proof fn lemma_slots_below(ports: Seq<Vec<u32>>, width: nat, stages: nat)
    requires
        width <= usize::MAX,
        stages <= usize::MAX,
    ensures
        forall|k: int|
            #![trigger slots_below(ports, width, stages)[k]]
            0 <= k < slots_below(ports, width, stages).len() ==> slots_below(
                ports,
                width,
                stages,
            )[k].stage < stages && slots_below(ports, width, stages)[k].replica < width,
        forall|s: int, q: int|
            0 <= s < stages && 0 <= q < width ==> #[trigger] has_slot(
                slots_below(ports, width, stages),
                s,
                q,
            ),
    decreases stages,
{
    if stages > 0 {
        let before = slots_below(ports, width, (stages - 1) as nat);
        let all = slots_below(ports, width, stages);
        lemma_slots_below(ports, width, (stages - 1) as nat);
        assert forall|k: int| #![trigger all[k]] 0 <= k < all.len() implies all[k].stage < stages
            && all[k].replica < width by {
            if k < before.len() {
                assert(all[k] == before[k]);
            }
        }
        assert forall|s: int, q: int|
            0 <= s < stages && 0 <= q < width implies #[trigger] has_slot(all, s, q) by {
            if s + 1 < stages {
                assert(has_slot(before, s, q));
                let k = choose|k: int| 0 <= k < before.len() && #[trigger] slot_is(before[k], s, q);
                assert(slot_is(all[k], s, q));
            } else {
                assert(slot_is(all[before.len() + q], s, q));
            }
        }
    }
}

fn list_slots(ports: &Vec<Vec<u32>>, width: usize, stages: usize) -> (slots: Vec<Slot>)
    requires
        stages <= ports@.len(),
        forall|s: int| 0 <= s < stages ==> (#[trigger] ports@[s])@.len() == width,
    ensures
        slots@ == slots_below(ports@, width as nat, stages as nat),
{
    let mut slots: Vec<Slot> = Vec::new();
    let mut stage: usize = 0;
    while stage < stages
        invariant
            stage <= stages,
            stages <= ports@.len(),
            forall|s: int| 0 <= s < stages ==> (#[trigger] ports@[s])@.len() == width,
            slots@ == slots_below(ports@, width as nat, stage as nat),
        decreases stages - stage,
    {
        let ghost before = slots@;
        let ghost full = |q: int|
            Slot { stage: stage, replica: q as usize, port: ports@[stage as int]@[q] };
        let mut replica: usize = 0;
        while replica < width
            invariant
                stage < stages,
                stages <= ports@.len(),
                replica <= width,
                ports@[stage as int]@.len() == width,
                full == (|q: int|
                    Slot { stage: stage, replica: q as usize, port: ports@[stage as int]@[q] }),
                slots@ == before + Seq::new(replica as nat, full),
            decreases width - replica,
        {
            slots.push(Slot { stage, replica, port: ports[stage][replica] });
            replica = replica + 1;
            assert(slots@ =~= before + Seq::new(replica as nat, full));
        }
        proof {
            let whole = slots_below(ports@, width as nat, (stage + 1) as nat);
            assert(whole =~= before + Seq::new(width as nat, full));
        }
        stage = stage + 1;
    }
    slots
}

/// Deals the micro-batches out to the replicas, `count` in a row to each.
fn deal(
    deliveries: &Vec<ArtifactDelivery>,
    width: usize,
    count: usize,
    stages: usize,
) -> (lanes: Vec<Lane>)
    requires
        deliveries@.len() == width * count,
    ensures
        lanes@.len() == width,
        forall|q: int|
            #![trigger lanes@[q]]
            0 <= q < width ==> lanes@[q].holds() && lanes@[q].untouched(
                share(deliveries@, count as nat, q),
                stages as nat,
            ),
{
    let mut lanes: Vec<Lane> = Vec::new();
    let mut at: usize = 0;
    while lanes.len() < width
        invariant
            lanes@.len() <= width,
            deliveries@.len() == width * count,
            at == lanes@.len() * count,
            forall|q: int|
                #![trigger lanes@[q]]
                0 <= q < lanes@.len() ==> lanes@[q].holds() && lanes@[q].untouched(
                    share(deliveries@, count as nat, q),
                    stages as nat,
                ),
        decreases width - lanes@.len(),
    {
        let ghost q = lanes@.len() as int;
        assert(q * count + count <= width * count) by (nonlinear_arith)
            requires
                q + 1 <= width,
        ;
        let mut inputs: Vec<ObjectId> = Vec::new();
        let start = at;
        while inputs.len() < count
            invariant
                inputs@.len() <= count,
                start + count <= deliveries@.len(),
                at == start + inputs@.len(),
                inputs@ == emissions(deliveries@).subrange(start as int, at as int),
            decreases count - inputs@.len(),
        {
            assert(deliveries.len() == deliveries@.len());
            inputs.push(deliveries[at].emission_id.id());
            at = at + 1;
            assert(inputs@ =~= emissions(deliveries@).subrange(start as int, at as int));
        }
        assert(at == (q + 1) * count) by (nonlinear_arith)
            requires
                at == q * count + count,
        ;
        lanes.push(Lane::new(inputs, stages));
    }
    lanes
}

/// Why a training step cannot begin.
pub open spec fn unplannable(input: RunPipelineInput) -> Option<Seq<char>> {
    if input.nodes@.len() == 0 {
        Some("pipeline graph has no stages"@)
    } else if !input.linear {
        Some("PipelineBackward currently requires one linear unary chain"@)
    } else if input.micro_batches@.len() % input.width() != 0 {
        Some(
            two_numbers(
                ""@,
                input.micro_batches@.len(),
                " micro-batches cannot be split across "@,
                input.width(),
                " pipeline replicas"@,
            ),
        )
    } else {
        None
    }
}

/// A step with its micro-batches dealt out and nothing asked yet.
pub open spec fn planned(input: RunPipelineInput, run: PipelineRun) -> bool {
    let count = input.micro_batches@.len() / input.width();
    &&& run.stages == input.nodes@.len()
    &&& run.lanes@.len() == input.width()
    &&& forall|q: int|
        #![trigger run.lanes@[q]]
        0 <= q < run.lanes@.len() ==> run.lanes@[q].untouched(
            share(input.micro_batches@, count, q),
            input.nodes@.len(),
        )
    &&& run.slots@ == slots_below(input.ports@, input.width(), input.nodes@.len())
    &&& run.inboxes@ == input.inboxes@
    &&& run.step_replies@.len() == 0
    &&& run.step == input.step
    &&& run.point == if count == 0 {
        RunPoint::Stepping { sent: 0 }
    } else {
        RunPoint::Sending { slot: 0 }
    }
}

/// Runs one training step.
pub struct RunPipelineEffect;

impl RunPipelineEffect {
    /// Begins a training step.
    pub fn begin(input: RunPipelineInput) -> (result: Result<PipelineRun, String>)
        requires
            input.well_formed(),
            input.step < usize::MAX,
        ensures
            result is Err <==> unplannable(input) is Some,
            result is Err ==> result->Err_0@ == unplannable(input)->0,
            result is Ok ==> planned(input, result->Ok_0) && result->Ok_0.holds(),
    {
        if input.nodes.len() == 0 {
            return Err("pipeline graph has no stages".to_owned());
        }
        if !input.linear {
            return Err("PipelineBackward currently requires one linear unary chain".to_owned());
        }
        let width = if input.replicas == 0 {
            1
        } else {
            input.replicas
        };
        let total = input.micro_batches.len();
        if total % width != 0 {
            return Err(
                with_numbers(
                    "",
                    total as u64,
                    " micro-batches cannot be split across ",
                    width as u64,
                    " pipeline replicas",
                ),
            );
        }
        let stages = input.nodes.len();
        let count = total / width;
        proof {
            lemma_fundamental_div_mod(total as int, width as int);
            assert(total == width * count);
            lemma_slots_below(input.ports@, width as nat, stages as nat);
        }
        let lanes = deal(&input.micro_batches, width, count, stages);
        let slots = list_slots(&input.ports, width, stages);
        let point = if count == 0 {
            RunPoint::Stepping { sent: 0 }
        } else {
            RunPoint::Sending { slot: 0 }
        };
        let run = PipelineRun {
            stages,
            lanes,
            slots,
            inboxes: input.inboxes,
            step_replies: Vec::new(),
            step: input.step,
            point,
        };
        proof {
            assert forall|q: int|
                #![trigger run.lanes@[q]]
                0 <= q < run.lanes@.len() implies run.lanes@[q].holds() && run.lanes@[q].stages()
                == run.stages && run.lanes@[q].micro_batches() == count by {
                assert(0 <= q * count) by (nonlinear_arith)
                    requires
                        0 <= q,
                ;
                assert(q * count + count <= width * count) by (nonlinear_arith)
                    requires
                        q + 1 <= width,
                ;
                assert(share(input.micro_batches@, count as nat, q).len() == count);
            }
            assert(run.lanes@[0].micro_batches() == count);
        }
        Ok(run)
    }
}

/// What the text of a missing inbox says.
pub open spec fn missing_inbox(port: u32) -> Seq<char> {
    one_number("missing pipeline inbox for port "@, port as nat, ""@)
}

/// What is shown of a micro-batch that may be unknown.
pub open spec fn optional(n: Option<usize>) -> Seq<char> {
    match n {
        Some(n) => one_number("Some("@, n as nat, ")"@),
        None => "None"@,
    }
}

fn optional_string(n: Option<usize>) -> (text: String)
    ensures
        text@ == optional(n),
{
    match n {
        Some(n) => with_number("Some(", n as u64, ")"),
        None => "None".to_owned(),
    }
}

/// What a step says of a stage that failed.
pub open spec fn stage_failed(
    replica: usize,
    stage: usize,
    micro_batch: Option<usize>,
    message: Seq<char>,
) -> Seq<char> {
    two_numbers(
        "pipeline replica "@,
        replica as nat,
        ", stage "@,
        stage as nat,
        " failed for micro-batch "@,
    ) + optional(micro_batch) + ": "@ + message
}

/// Why an answer ends the step, if it does.
pub open spec fn answer_refused(run: PipelineRun, response: PipelineResponse) -> Option<Seq<char>> {
    match run.point {
        RunPoint::Waiting { slot, .. } => {
            let at = run.slots@[slot as int];
            let pending = run.lanes@[at.replica as int].busy@[at.stage as int]->0;
            match response {
                PipelineResponse::Artifact { micro_batch, .. } => if micro_batch
                    != pending.micro_batch {
                    Some("stage returned the wrong micro-batch"@)
                } else {
                    None
                },
                PipelineResponse::Failed { micro_batch, message } => Some(
                    stage_failed(at.replica, at.stage, micro_batch, message@),
                ),
                PipelineResponse::Stepped => Some(
                    "stage returned step acknowledgement for tensor work"@,
                ),
            }
        },
        _ => match response {
            PipelineResponse::Artifact { .. } => Some("stage returned artifact for step"@),
            PipelineResponse::Failed { message, .. } => Some("pipeline step failed: "@ + message@),
            PipelineResponse::Stepped => None,
        },
    }
}

impl PipelineRun {
    fn next_sendable(&self, from: usize) -> (k: usize)
        requires
            self.holds(),
            from <= self.slots@.len(),
        ensures
            k == first_from(self.slots@.len(), from as nat, self.has_work()),
            k <= self.slots@.len(),
            k < self.slots@.len() ==> self.work_at(k as int) is Some,
    {
        let mut k = from;
        while k < self.slots.len()
            invariant
                self.holds(),
                k <= self.slots@.len(),
                first_from(self.slots@.len(), from as nat, self.has_work()) == first_from(
                    self.slots@.len(),
                    k as nat,
                    self.has_work(),
                ),
            decreases self.slots@.len() - k,
        {
            let slot = self.slots[k];
            assert(self.lanes@[slot.replica as int].holds());
            if self.lanes[slot.replica].next_work(slot.stage).is_some() {
                return k;
            }
            k = k + 1;
        }
        k
    }

    fn next_busy(&self, from: usize) -> (k: usize)
        requires
            self.holds(),
            from <= self.slots@.len(),
        ensures
            k == first_from(self.slots@.len(), from as nat, self.is_busy()),
            k <= self.slots@.len(),
            k < self.slots@.len() ==> self.busy_at(k as int),
    {
        let mut k = from;
        while k < self.slots.len()
            invariant
                self.holds(),
                k <= self.slots@.len(),
                first_from(self.slots@.len(), from as nat, self.is_busy()) == first_from(
                    self.slots@.len(),
                    k as nat,
                    self.is_busy(),
                ),
            decreases self.slots@.len() - k,
        {
            let slot = self.slots[k];
            assert(self.lanes@[slot.replica as int].holds());
            if self.lanes[slot.replica].busy[slot.stage].is_some() {
                return k;
            }
            k = k + 1;
        }
        k
    }

    pub fn is_finished(&self) -> (finished: bool)
        requires
            self.lanes_hold(),
        ensures
            finished == self.finished(),
    {
        let mut q: usize = 0;
        while q < self.lanes.len()
            invariant
                self.lanes_hold(),
                q <= self.lanes@.len(),
                forall|i: int| 0 <= i < q ==> (#[trigger] self.lanes@[i]).finished(),
            decreases self.lanes@.len() - q,
        {
            assert(self.lanes@[q as int].holds());
            if !self.lanes[q].is_finished() {
                return false;
            }
            q = q + 1;
        }
        true
    }

    /// The inbox of a port, to be answered with `command`.
    fn upload(&self, port: u32, command: PipelineCommand, recv: ObjectId) -> (result: Result<
        PipelineAction,
        String,
    >)
        ensures
            !self.inboxes@.contains_key(port) ==> result is Err && result->Err_0@ == missing_inbox(
                port,
            ),
            self.inboxes@.contains_key(port) ==> result == Ok::<PipelineAction, String>(
                PipelineAction::Upload { inbox: self.inboxes@[port], command, recv },
            ),
    {
        match self.inboxes.get(&port) {
            Some(inbox) => Ok(PipelineAction::Upload { inbox: *inbox, command, recv }),
            None => Err(with_number("missing pipeline inbox for port ", port as u64, "")),
        }
    }

    /// Where the step stands once it looked for its next piece of work.
    pub open spec fn settled_point(self) -> RunPoint {
        let n = self.slots@.len();
        match self.point {
            RunPoint::Sending { slot } => {
                let k = first_from(n, slot as nat, self.has_work());
                if k < n {
                    RunPoint::Sending { slot: k as usize }
                } else {
                    RunPoint::Waiting { slot: 0, progressed: false }
                }
            },
            RunPoint::Waiting { slot, progressed } => {
                let k = first_from(n, slot as nat, self.is_busy());
                if k < n {
                    RunPoint::Waiting { slot: k as usize, progressed }
                } else if self.finished() {
                    RunPoint::Stepping { sent: 0 }
                } else {
                    RunPoint::Sending { slot: 0 }
                }
            },
            RunPoint::Stepping { sent } => if sent < n {
                self.point
            } else {
                RunPoint::Settling { settled: 0, idle: false }
            },
            RunPoint::Settling { settled, idle } => if idle {
                RunPoint::Settling { settled, idle: false }
            } else if settled < n {
                self.point
            } else {
                RunPoint::Done
            },
            RunPoint::Done => RunPoint::Done,
        }
    }

    /// The next piece of outside work: ask every idle slot that has work, in
    /// order, then look for an answer at every busy slot, and so on until all
    /// micro-batches have been run forward and back; then ask every slot to
    /// step, and collect the acknowledgements.
    pub open spec fn action(self, next: ObjectId, reply: ObjectId) -> PipelineAction {
        let n = self.slots@.len();
        match self.point {
            RunPoint::Sending { slot } => {
                let k = first_from(n, slot as nat, self.has_work()) as int;
                if k < n {
                    PipelineAction::Upload {
                        inbox: self.inboxes@[self.slots@[k].port],
                        command: command_of(self.work_at(k)->0, reply),
                        recv: next,
                    }
                } else {
                    PipelineAction::Continue
                }
            },
            RunPoint::Waiting { slot, progressed } => {
                let k = first_from(n, slot as nat, self.is_busy()) as int;
                if k < n {
                    PipelineAction::Poll {
                        reply: self.lanes@[self.slots@[k].replica as int].busy@[self.slots@[k].stage as int]->0.reply,
                    }
                } else if progressed {
                    PipelineAction::Continue
                } else {
                    PipelineAction::Yield
                }
            },
            RunPoint::Stepping { sent } => if sent < n {
                PipelineAction::Upload {
                    inbox: self.inboxes@[self.slots@[sent as int].port],
                    command: PipelineCommand::Step { reply, step: (self.step + 1) as usize },
                    recv: next,
                }
            } else {
                PipelineAction::Continue
            },
            RunPoint::Settling { settled, idle } => if idle {
                PipelineAction::Yield
            } else if settled < n {
                PipelineAction::Poll { reply: self.step_replies@[settled as int] }
            } else {
                PipelineAction::Continue
            },
            RunPoint::Done => PipelineAction::Finish,
        }
    }

    /// The port whose inbox the next action needs.
    pub open spec fn port_needed(self) -> Option<u32> {
        match self.settled_point() {
            RunPoint::Sending { slot } => if self.point is Sending {
                Some(self.slots@[slot as int].port)
            } else {
                None
            },
            RunPoint::Stepping { sent } => if self.point is Stepping {
                Some(self.slots@[sent as int].port)
            } else {
                None
            },
            _ => None,
        }
    }

    /// Moves on to the next piece of outside work. A command would carry the
    /// ids `next`, for the mailbox after it, and `reply`, for its answer.
    pub fn next_action_with(&mut self, next: ObjectId, reply: ObjectId) -> (result: Result<
        PipelineAction,
        String,
    >)
        requires
            old(self).holds(),
        ensures
            final(self).holds(),
            *final(self) == (PipelineRun { point: old(self).settled_point(), ..*old(self) }),
            ({
                let port = old(self).port_needed();
                if port is Some && !old(self).inboxes@.contains_key(port->0) {
                    result is Err && result->Err_0@ == missing_inbox(port->0)
                } else {
                    result == Ok::<PipelineAction, String>(old(self).action(next, reply))
                }
            }),
            result matches Ok(PipelineAction::Upload { .. }) ==> final(self).expects_upload(),
            result matches Ok(PipelineAction::Poll { .. }) ==> final(self).expects_answer(),
    {
        let n = self.slots.len();
        match self.point {
            RunPoint::Sending { slot } => {
                let k = self.next_sendable(slot);
                if k < n {
                    let at = self.slots[k];
                    assert(self.lanes@[at.replica as int].holds());
                    let work = self.lanes[at.replica].next_work(at.stage);
                    self.point = RunPoint::Sending { slot: k };
                    if let Some(work) = work {
                        return self.upload(at.port, command_for(work, reply), next);
                    }
                    Ok(PipelineAction::Continue)
                } else {
                    self.point = RunPoint::Waiting { slot: 0, progressed: false };
                    Ok(PipelineAction::Continue)
                }
            },
            RunPoint::Waiting { slot, progressed } => {
                let k = self.next_busy(slot);
                if k < n {
                    let at = self.slots[k];
                    assert(self.lanes@[at.replica as int].holds());
                    let pending = self.lanes[at.replica].busy[at.stage];
                    self.point = RunPoint::Waiting { slot: k, progressed };
                    if let Some(pending) = pending {
                        return Ok(PipelineAction::Poll { reply: pending.reply });
                    }
                    Ok(PipelineAction::Continue)
                } else {
                    let finished = self.is_finished();
                    self.point = if finished {
                        RunPoint::Stepping { sent: 0 }
                    } else {
                        RunPoint::Sending { slot: 0 }
                    };
                    if progressed {
                        Ok(PipelineAction::Continue)
                    } else {
                        Ok(PipelineAction::Yield)
                    }
                }
            },
            RunPoint::Stepping { sent } => {
                if sent < n {
                    let command = PipelineCommand::Step { reply, step: self.step + 1 };
                    self.upload(self.slots[sent].port, command, next)
                } else {
                    self.point = RunPoint::Settling { settled: 0, idle: false };
                    Ok(PipelineAction::Continue)
                }
            },
            RunPoint::Settling { settled, idle } => {
                if idle {
                    self.point = RunPoint::Settling { settled, idle: false };
                    Ok(PipelineAction::Yield)
                } else if settled < n {
                    Ok(PipelineAction::Poll { reply: self.step_replies[settled] })
                } else {
                    self.point = RunPoint::Done;
                    Ok(PipelineAction::Continue)
                }
            },
            RunPoint::Done => Ok(PipelineAction::Finish),
        }
    }

    /// The slot whose turn it is.
    pub open spec fn current(self) -> Slot {
        match self.point {
            RunPoint::Sending { slot } => self.slots@[slot as int],
            RunPoint::Waiting { slot, .. } => self.slots@[slot as int],
            RunPoint::Stepping { sent } => self.slots@[sent as int],
            RunPoint::Settling { settled, .. } => self.slots@[settled as int],
            RunPoint::Done => self.slots@[0],
        }
    }

    /// The command named last was uploaded with the ids `next` and `reply`.
    pub open spec fn after_upload(self, after: PipelineRun, next: ObjectId, reply: ObjectId) -> bool {
        let at = self.current();
        let q = at.replica as int;
        &&& after.inboxes@ == self.inboxes@.insert(at.port, next)
        &&& after.point == match self.point {
            RunPoint::Sending { slot } => RunPoint::Sending { slot: (slot + 1) as usize },
            RunPoint::Stepping { sent } => RunPoint::Stepping { sent: (sent + 1) as usize },
            _ => self.point,
        }
        &&& if self.point is Sending {
            &&& after.step_replies == self.step_replies
            &&& after.lanes@ == self.lanes@.update(q, after.lanes@[q])
            &&& self.lanes@[q].started(
                after.lanes@[q],
                at.stage as int,
                self.lanes@[q].work(at.stage as int)->0.kind_view(),
                reply,
            )
        } else {
            &&& after.step_replies@ == self.step_replies@.push(reply)
            &&& after.lanes == self.lanes
        }
        &&& after.stages == self.stages
        &&& after.slots == self.slots
        &&& after.step == self.step
    }

    /// Records that the command named last was uploaded.
    pub fn uploaded(&mut self, next: ObjectId, reply: ObjectId)
        requires
            old(self).holds(),
            old(self).expects_upload(),
        ensures
            old(self).after_upload(*final(self), next, reply),
            final(self).holds(),
    {
        assert(self.slots.len() == self.slots@.len());
        match self.point {
            RunPoint::Sending { slot } => {
                let at = self.slots[slot];
                assert(self.lanes@[at.replica as int].holds());
                let work = self.lanes[at.replica].next_work(at.stage);
                if let Some(work) = work {
                    let kind = work.kind();
                    self.lanes[at.replica].start(at.stage, kind, reply);
                }
                self.inboxes.insert(at.port, next);
                self.point = RunPoint::Sending { slot: slot + 1 };
                proof {
                    assert(self.lanes@[0].micro_batches() == old(self).lanes@[0].micro_batches());
                }
            },
            RunPoint::Stepping { sent } => {
                let port = self.slots[sent].port;
                self.inboxes.insert(port, next);
                self.step_replies.push(reply);
                self.point = RunPoint::Stepping { sent: sent + 1 };
            },
            _ => {},
        }
    }

    /// The look named last found `emission` for the slot whose turn it is, an
    /// acknowledgement, or nothing.
    pub open spec fn after_answer(
        self,
        after: PipelineRun,
        response: Option<PipelineResponse>,
    ) -> bool {
        let at = self.current();
        let q = at.replica as int;
        &&& match self.point {
            RunPoint::Waiting { slot, progressed } => {
                &&& after.point == RunPoint::Waiting {
                    slot: (slot + 1) as usize,
                    progressed: progressed || response is Some,
                }
                &&& match response {
                    Some(PipelineResponse::Artifact { emission_id, .. }) => {
                        &&& after.lanes@ == self.lanes@.update(q, after.lanes@[q])
                        &&& self.lanes@[q].answered(
                            after.lanes@[q],
                            at.stage as int,
                            emission_id,
                        )
                    },
                    _ => after.lanes == self.lanes,
                }
            },
            RunPoint::Settling { settled, .. } => {
                &&& after.lanes == self.lanes
                &&& after.point == match response {
                    Some(_) => RunPoint::Settling { settled: (settled + 1) as usize, idle: false },
                    None => RunPoint::Settling { settled, idle: true },
                }
            },
            _ => after.point == self.point && after.lanes == self.lanes,
        }
        &&& after.inboxes == self.inboxes
        &&& after.step_replies == self.step_replies
        &&& after.stages == self.stages
        &&& after.slots == self.slots
        &&& after.step == self.step
    }

    /// Takes what the look named last has found. An answer that does not fit
    /// ends the step.
    pub fn received(&mut self, response: Option<PipelineResponse>) -> (result: Result<(), String>)
        requires
            old(self).holds(),
            old(self).expects_answer(),
        ensures
            final(self).holds(),
            result is Err <==> response is Some && answer_refused(*old(self), response->0) is Some,
            result is Err ==> result->Err_0@ == answer_refused(*old(self), response->0)->0
                && *final(self) == *old(self),
            result is Ok ==> old(self).after_answer(*final(self), response),
    {
        assert(self.slots.len() == self.slots@.len());
        match self.point {
            RunPoint::Waiting { slot, progressed } => {
                let at = self.slots[slot];
                assert(self.lanes@[at.replica as int].holds());
                let progressed = match response {
                    None => progressed,
                    Some(response) => {
                        let (micro_batch, emission_id) = match response {
                            PipelineResponse::Artifact { micro_batch, emission_id } => {
                                (micro_batch, emission_id)
                            },
                            PipelineResponse::Failed { micro_batch, message } => {
                                let mut text = with_numbers(
                                    "pipeline replica ",
                                    at.replica as u64,
                                    ", stage ",
                                    at.stage as u64,
                                    " failed for micro-batch ",
                                );
                                text.append(optional_string(micro_batch).as_str());
                                text.append(": ");
                                text.append(message.as_str());
                                return Err(text);
                            },
                            PipelineResponse::Stepped => {
                                return Err(
                                    "stage returned step acknowledgement for tensor work".to_owned(),
                                );
                            },
                        };
                        if let Some(pending) = self.lanes[at.replica].busy[at.stage] {
                            if micro_batch != pending.micro_batch {
                                return Err("stage returned the wrong micro-batch".to_owned());
                            }
                        }
                        self.lanes[at.replica].answer(at.stage, emission_id);
                        true
                    },
                };
                self.point = RunPoint::Waiting { slot: slot + 1, progressed };
                proof {
                    assert(self.lanes@[0].micro_batches() == old(self).lanes@[0].micro_batches());
                }
                Ok(())
            },
            RunPoint::Settling { settled, .. } => {
                match response {
                    None => {
                        self.point = RunPoint::Settling { settled, idle: true };
                        Ok(())
                    },
                    Some(PipelineResponse::Stepped) => {
                        self.point = RunPoint::Settling { settled: settled + 1, idle: false };
                        Ok(())
                    },
                    Some(PipelineResponse::Failed { message, .. }) => {
                        let mut text = "pipeline step failed: ".to_owned();
                        text.append(message.as_str());
                        Err(text)
                    },
                    Some(PipelineResponse::Artifact { .. }) => {
                        Err("stage returned artifact for step".to_owned())
                    },
                }
            },
            _ => Ok(()),
        }
    }
}

/// Looking for the next piece of work stops at a slot that has it.
pub(crate) proof fn lemma_settled(run: PipelineRun)
    requires
        run.holds(),
    ensures
        ({
            let n = run.slots@.len();
            match run.point {
                RunPoint::Sending { slot } => {
                    let k = first_from(n, slot as nat, run.has_work());
                    &&& slot <= k <= n
                    &&& k < n ==> run.work_at(k as int) is Some
                },
                RunPoint::Waiting { slot, .. } => {
                    let k = first_from(n, slot as nat, run.is_busy());
                    &&& slot <= k <= n
                    &&& k < n ==> run.busy_at(k as int)
                },
                _ => true,
            }
        }),
        run.slots@.len() <= usize::MAX,
{
    assert(run.slots.len() == run.slots@.len());
    match run.point {
        RunPoint::Sending { slot } => lemma_first_from(
            run.slots@.len(),
            slot as nat,
            run.has_work(),
        ),
        RunPoint::Waiting { slot, .. } => lemma_first_from(
            run.slots@.len(),
            slot as nat,
            run.is_busy(),
        ),
        _ => {},
    }
}

/// The sink activations of the first `replicas` replicas, in order.
pub open spec fn outputs_below(lanes: Seq<Lane>, replicas: nat) -> Seq<ObjectId>
    decreases replicas,
{
    if replicas == 0 {
        Seq::empty()
    } else {
        let lane = lanes[replicas - 1];
        outputs_below(lanes, (replicas - 1) as nat) + Seq::new(
            lane.micro_batches(),
            |b: int| lane.activation(b, lane.stages() - 1)->0,
        )
    }
}

fn sink_outputs(lane: &Lane, outputs: &mut Vec<ObjectId>)
    requires
        lane.holds(),
        lane.finished(),
        lane.stages() >= 1,
    ensures
        final(outputs)@ == old(outputs)@ + Seq::new(
            lane.micro_batches(),
            |b: int| lane.activation(b, lane.stages() - 1)->0,
        ),
{
    let ghost wanted = |b: int| lane.activation(b, lane.stages() - 1)->0;
    let sink = lane.busy.len() - 1;
    let mut b: usize = 0;
    while b < lane.inputs.len()
        invariant
            lane.holds(),
            lane.finished(),
            lane.stages() >= 1,
            sink == lane.stages() - 1,
            b <= lane.micro_batches(),
            wanted == (|b: int| lane.activation(b, lane.stages() - 1)->0),
            outputs@ == old(outputs)@ + Seq::new(b as nat, wanted),
        decreases lane.inputs@.len() - b,
    {
        proof {
            law_finished_lane_is_complete(*lane, b as int, sink as int);
            assert(rows(lane.forward)[b as int].len() == lane.stages());
        }
        if let Some(emission_id) = lane.forward[b][sink] {
            outputs.push(emission_id);
        }
        b = b + 1;
        assert(outputs@ =~= old(outputs)@ + Seq::new(b as nat, wanted));
    }
}

impl PipelineRun {
    /// Draws the ids for a command and moves on to the next piece of outside
    /// work.
    pub fn next_action(&mut self) -> (result: Result<PipelineAction, String>)
        requires
            old(self).holds(),
        ensures
            final(self).holds(),
            *final(self) == (PipelineRun { point: old(self).settled_point(), ..*old(self) }),
            ({
                let port = old(self).port_needed();
                if port is Some && !old(self).inboxes@.contains_key(port->0) {
                    result is Err && result->Err_0@ == missing_inbox(port->0)
                } else {
                    exists|next: ObjectId, reply: ObjectId|
                        next.is_random() && reply.is_random() && result == Ok::<
                            PipelineAction,
                            String,
                        >(#[trigger] old(self).action(next, reply))
                }
            }),
            result matches Ok(PipelineAction::Upload { .. }) ==> final(self).expects_upload(),
            result matches Ok(PipelineAction::Poll { .. }) ==> final(self).expects_answer(),
    {
        let next = Uuid::new_v4();
        let reply = Uuid::new_v4();
        let ghost named = self.action(next, reply);
        self.next_action_with(next, reply)
    }

    /// What a completed step leaves behind: the mailboxes, and the sink
    /// activation of every micro-batch, replica by replica.
    pub fn into_output(self) -> (output: RunPipelineOutput)
        requires
            self.holds(),
            self.point is Done,
        ensures
            output.inboxes@ == self.inboxes@,
            output.outputs@ == outputs_below(self.lanes@, self.lanes@.len()),
            output.step == self.step,
    {
        let mut outputs: Vec<ObjectId> = Vec::new();
        let mut q: usize = 0;
        while q < self.lanes.len()
            invariant
                self.holds(),
                self.point is Done,
                q <= self.lanes@.len(),
                outputs@ == outputs_below(self.lanes@, q as nat),
            decreases self.lanes@.len() - q,
        {
            assert(self.lanes@[q as int].holds() && self.lanes@[q as int].finished());
            sink_outputs(&self.lanes[q], &mut outputs);
            q = q + 1;
        }
        RunPipelineOutput { inboxes: self.inboxes, outputs, step: self.step }
    }
}

/// What is left to do at the first `stages` stages of a lane: two for a
/// command not sent, one for an answer not received.
pub open spec fn lane_left(lane: Lane, stages: nat) -> int
    decreases stages,
{
    if stages == 0 {
        0
    } else {
        let s = stages - 1;
        lane_left(lane, s as nat) + 2 * (lane.micro_batches() - lane.next_fwd@[s]) + 2 * (
        lane.micro_batches() - lane.next_bwd@[s]) + if lane.busy@[s] is Some {
            1int
        } else {
            0
        }
    }
}

/// What is left to do in the first `replicas` lanes.
pub open spec fn left_below(lanes: Seq<Lane>, replicas: nat) -> int
    decreases replicas,
{
    if replicas == 0 {
        0
    } else {
        left_below(lanes, (replicas - 1) as nat) + lane_left(
            lanes[replicas - 1],
            lanes[replicas - 1].stages(),
        )
    }
}

impl PipelineRun {
    /// What is left to do before the gradients can be applied.
    pub open spec fn left(self) -> int {
        left_below(self.lanes@, self.lanes@.len())
    }
}

proof fn lemma_lane_left(before: Lane, after: Lane, s: int, stages: nat)
    requires
        0 <= s,
        after.micro_batches() == before.micro_batches(),
        after.stages() == before.stages(),
        stages <= before.stages(),
        forall|t: int|
            #![trigger after.busy@[t]]
            0 <= t < before.stages() && t != s ==> after.busy@[t] == before.busy@[t]
                && after.next_fwd@[t] == before.next_fwd@[t] && after.next_bwd@[t]
                == before.next_bwd@[t],
        2 * after.next_fwd@[s] + 2 * after.next_bwd@[s] - (if after.busy@[s] is Some {
            1int
        } else {
            0
        }) == 1 + 2 * before.next_fwd@[s] + 2 * before.next_bwd@[s] - (if before.busy@[s] is Some {
            1int
        } else {
            0
        }),
    ensures
        lane_left(after, stages) == lane_left(before, stages) - if s < stages {
            1int
        } else {
            0
        },
    decreases stages,
{
    if stages > 0 {
        let t = stages - 1;
        lemma_lane_left(before, after, s, t as nat);
        assert(t != s ==> after.busy@[t] == before.busy@[t]);
    }
}

proof fn lemma_left_below(before: Seq<Lane>, lane: Lane, q: int, replicas: nat)
    requires
        0 <= q < before.len(),
        replicas <= before.len(),
        lane_left(lane, lane.stages()) == lane_left(before[q], before[q].stages()) - 1,
    ensures
        left_below(before.update(q, lane), replicas) == left_below(before, replicas) - if q
            < replicas {
            1int
        } else {
            0
        },
    decreases replicas,
{
    if replicas > 0 {
        lemma_left_below(before, lane, q, (replicas - 1) as nat);
    }
}

proof fn lemma_lane_left_bound(lane: Lane, stages: nat)
    requires
        lane.holds(),
        stages <= lane.stages(),
    ensures
        lane_left(lane, stages) >= 0,
        lane_left(lane, stages) == 0 ==> forall|s: int|
            #![trigger lane.busy@[s]]
            0 <= s < stages ==> lane.busy@[s] is None && lane.next_bwd@[s] == lane.micro_batches(),
    decreases stages,
{
    if stages > 0 {
        lemma_lane_left_bound(lane, (stages - 1) as nat);
        assert(lane.stage_holds(stages - 1));
    }
}

proof fn lemma_left_below_bound(run: PipelineRun, replicas: nat)
    requires
        run.lanes_hold(),
        replicas <= run.lanes@.len(),
    ensures
        left_below(run.lanes@, replicas) >= 0,
        left_below(run.lanes@, replicas) == 0 ==> forall|q: int|
            0 <= q < replicas ==> (#[trigger] run.lanes@[q]).finished(),
    decreases replicas,
{
    if replicas > 0 {
        let lane = run.lanes@[replicas - 1];
        lemma_left_below_bound(run, (replicas - 1) as nat);
        assert(lane.holds());
        lemma_lane_left_bound(lane, lane.stages());
    }
}

/// Each command sent to a stage leaves one less to do.
pub proof fn law_upload_makes_progress(
    before: PipelineRun,
    after: PipelineRun,
    next: ObjectId,
    reply: ObjectId,
)
    requires
        before.holds(),
        before.point is Sending,
        before.expects_upload(),
        before.after_upload(after, next, reply),
    ensures
        after.left() == before.left() - 1,
{
    let at = before.current();
    let q = at.replica as int;
    let lane = before.lanes@[q];
    assert(lane.holds() && lane.stage_holds(at.stage as int));
    assert(lane.inputs.len() == lane.micro_batches());
    lemma_lane_left(lane, after.lanes@[q], at.stage as int, lane.stages());
    lemma_left_below(before.lanes@, after.lanes@[q], q, before.lanes@.len());
}

/// Each emission received from a stage leaves one less to do.
pub proof fn law_answer_makes_progress(
    before: PipelineRun,
    after: PipelineRun,
    response: PipelineResponse,
)
    requires
        before.holds(),
        before.point is Waiting,
        before.expects_answer(),
        answer_refused(before, response) is None,
        before.after_answer(after, Some(response)),
    ensures
        after.left() == before.left() - 1,
{
    let at = before.current();
    let q = at.replica as int;
    let lane = before.lanes@[q];
    assert(lane.holds());
    lemma_lane_left(lane, after.lanes@[q], at.stage as int, lane.stages());
    lemma_left_below(before.lanes@, after.lanes@[q], q, before.lanes@.len());
}

/// With nothing left to do, every micro-batch has been run forward and back.
pub proof fn law_nothing_left_is_finished(run: PipelineRun)
    requires
        run.holds(),
    ensures
        run.left() >= 0,
        run.left() == 0 ==> run.finished(),
{
    lemma_left_below_bound(run, run.lanes@.len());
}

/// A stage turns round only once it is warm, and a backward that can start
/// goes before any forward.
pub proof fn law_backward_has_priority(run: PipelineRun, k: int)
    requires
        run.holds(),
        0 <= k < run.slots@.len(),
        run.work_at(k) is Some,
    ensures
        ({
            let at = run.slots@[k];
            let lane = run.lanes@[at.replica as int];
            let s = at.stage as int;
            &&& run.work_at(k)->0 is Backward <==> lane.backward_ready(s)
            &&& run.work_at(k)->0 is Backward ==> lane.next_fwd@[s] >= warmup(
                run.micro_batches() as int,
                run.stages as int,
                s,
            )
        }),
{
    assert(run.lanes@[run.slots@[k].replica as int].holds());
}

/// A command names the mailbox of the next one: after it is sent, that is
/// where its port is asked, and no other port is disturbed.
pub proof fn law_next_command_goes_to_named_mailbox(
    before: PipelineRun,
    after: PipelineRun,
    next: ObjectId,
    reply: ObjectId,
    port: u32,
)
    requires
        before.after_upload(after, next, reply),
        before.inboxes@.contains_key(port),
    ensures
        after.inboxes@.contains_key(port),
        after.inboxes@[port] == if port == before.current().port {
            next
        } else {
            before.inboxes@[port]
        },
{
}

proof fn lemma_outputs_below(run: PipelineRun, replicas: nat, q: int, b: int)
    requires
        run.lanes_hold(),
        replicas <= run.lanes@.len(),
        0 <= q < replicas,
        0 <= b < run.micro_batches(),
    ensures
        outputs_below(run.lanes@, replicas).len() == replicas * run.micro_batches(),
        0 <= q * run.micro_batches() + b < replicas * run.micro_batches(),
        outputs_below(run.lanes@, replicas)[q * run.micro_batches() + b]
            == run.lanes@[q].activation(b, run.stages - 1)->0,
    decreases replicas,
{
    let m = run.micro_batches();
    let rest = (replicas - 1) as nat;
    let lane = run.lanes@[rest as int];
    assert(lane.holds());
    assert(replicas * m == rest * m + m) by (nonlinear_arith)
        requires
            replicas == rest + 1,
    ;
    lemma_outputs_len(run, rest);
    assert(q * m + m <= replicas * m) by (nonlinear_arith)
        requires
            q + 1 <= replicas,
    ;
    assert(0 <= q * m) by (nonlinear_arith)
        requires
            0 <= q,
    ;
    if q < rest {
        lemma_outputs_below(run, rest, q, b);
    }
}

proof fn lemma_outputs_len(run: PipelineRun, replicas: nat)
    requires
        run.lanes_hold(),
        replicas <= run.lanes@.len(),
    ensures
        outputs_below(run.lanes@, replicas).len() == replicas * run.micro_batches(),
    decreases replicas,
{
    let m = run.micro_batches();
    if replicas > 0 {
        let rest = (replicas - 1) as nat;
        assert(run.lanes@[rest as int].holds());
        lemma_outputs_len(run, rest);
        assert(replicas * m == rest * m + m) by (nonlinear_arith)
            requires
                replicas == rest + 1,
        ;
    } else {
        assert(0 * m == 0) by (nonlinear_arith);
    }
}

/// A completed step hands out what the sink emitted for every micro-batch of
/// every replica, in the order the micro-batches came.
pub proof fn law_every_micro_batch_has_its_output(run: PipelineRun, q: int, b: int)
    requires
        run.holds(),
        run.finished(),
        0 <= q < run.lanes@.len(),
        0 <= b < run.micro_batches(),
    ensures
        ({
            let outputs = outputs_below(run.lanes@, run.lanes@.len());
            let at = q * run.micro_batches() + b;
            &&& outputs.len() == run.lanes@.len() * run.micro_batches()
            &&& 0 <= at < outputs.len()
            &&& run.lanes@[q].activation(b, run.stages - 1) == Some(outputs[at])
        }),
{
    lemma_outputs_below(run, run.lanes@.len(), q, b);
    assert(run.lanes@[q].holds() && run.lanes@[q].finished());
    law_finished_lane_is_complete(run.lanes@[q], b, run.stages - 1);
}

/// While tensor work is awaited, only an emission for the micro-batch that was
/// asked for is taken; while steps are awaited, only an acknowledgement.
/// Whatever else comes ends the step.
pub proof fn law_only_fitting_answers_are_taken(run: PipelineRun, response: PipelineResponse)
    requires
        run.holds(),
        run.expects_answer(),
    ensures
        run.point is Waiting ==> {
            let at = run.current();
            let pending = run.lanes@[at.replica as int].busy@[at.stage as int]->0;
            &&& answer_refused(run, response) is None <==> response is Artifact
                && response->Artifact_micro_batch == pending.micro_batch
            &&& response is Failed ==> answer_refused(run, response)->0 == "pipeline replica "@
                + decimal(at.replica as nat) + ", stage "@ + decimal(at.stage as nat)
                + " failed for micro-batch "@ + optional(response->Failed_micro_batch) + ": "@
                + response->message@
        },
        run.point is Settling ==> {
            &&& answer_refused(run, response) is None <==> response is Stepped
            &&& response is Failed ==> answer_refused(run, response)->0
                == "pipeline step failed: "@ + response->message@
        },
{
}

/// A step is planned exactly for a chain with stages whose micro-batches can be
/// dealt out evenly.
pub proof fn law_plannable_steps(input: RunPipelineInput)
    ensures
        unplannable(input) is None <==> input.nodes@.len() > 0 && input.linear
            && input.micro_batches@.len() % (if input.replicas == 0 {
            1nat
        } else {
            input.replicas as nat
        }) == 0,
{
}

} // verus!
