//! One replica of the pipeline: what each stage has been asked and has
//! answered.

use vstd::prelude::*;

use crate::ids::ObjectId;

verus! {

/// Whether a stage runs forward or in reverse.
#[derive(Clone, Copy, Debug, PartialEq, Eq, Structural)]
pub enum WorkKind {
    Forward,
    Backward,
}

/// The answer a busy stage owes.
#[derive(Clone, Copy, Debug, PartialEq, Eq, Structural)]
pub struct PendingReply {
    pub kind: WorkKind,
    pub micro_batch: usize,
    pub reply: ObjectId,
}

/// Work that a stage can start at once.
#[derive(Clone, Copy, Debug, PartialEq, Eq, Structural)]
pub enum Work {
    Forward { micro_batch: usize, emission_id: ObjectId },
    Backward { micro_batch: usize, gradient_emission_id: ObjectId, seed_from_forward: bool },
}

impl Work {
    pub open spec fn kind_view(self) -> WorkKind {
        match self {
            Work::Forward { .. } => WorkKind::Forward,
            Work::Backward { .. } => WorkKind::Backward,
        }
    }

    pub fn kind(&self) -> (kind: WorkKind)
        ensures
            kind == self.kind_view(),
    {
        match self {
            Work::Forward { .. } => WorkKind::Forward,
            Work::Backward { .. } => WorkKind::Backward,
        }
    }
}

/// The progress of one pipeline replica. Emissions are indexed by micro-batch
/// and then by stage.
pub struct Lane {
    pub inputs: Vec<ObjectId>,
    pub forward: Vec<Vec<Option<ObjectId>>>,
    pub backward: Vec<Vec<Option<ObjectId>>>,
    /// The next micro-batch each stage runs forward.
    pub next_fwd: Vec<usize>,
    /// The next micro-batch each stage runs in reverse.
    pub next_bwd: Vec<usize>,
    pub busy: Vec<Option<PendingReply>>,
}

/// The rows of a table of emissions.
pub open spec fn rows(table: Vec<Vec<Option<ObjectId>>>) -> Seq<Seq<Option<ObjectId>>> {
    table@.map_values(|row: Vec<Option<ObjectId>>| row@)
}

/// A table of `height` rows of `width` entries.
pub open spec fn sized(table: Seq<Seq<Option<ObjectId>>>, height: nat, width: nat) -> bool {
    &&& table.len() == height
    &&& forall|i: int| 0 <= i < height ==> (#[trigger] table[i]).len() == width
}

/// A table of `height` rows of `width` entries with nothing in them.
pub open spec fn blank(height: nat, width: nat) -> Seq<Seq<Option<ObjectId>>> {
    Seq::new(height, |i: int| Seq::new(width, |j: int| None::<ObjectId>))
}

/// Forwards a stage must have started before its first backward: one for each
/// stage from it to the sink, or all there are.
pub open spec fn warmup(micro_batches: int, stages: int, stage: int) -> int {
    if stages - stage < micro_batches {
        stages - stage
    } else {
        micro_batches
    }
}

impl Lane {
    pub open spec fn micro_batches(self) -> nat {
        self.inputs@.len()
    }

    pub open spec fn stages(self) -> nat {
        self.busy@.len()
    }

    /// What stage `s` emitted for micro-batch `b` on the way forward.
    pub open spec fn activation(self, b: int, s: int) -> Option<ObjectId> {
        rows(self.forward)[b][s]
    }

    /// What stage `s` emitted for micro-batch `b` on the way back.
    pub open spec fn gradient(self, b: int, s: int) -> Option<ObjectId> {
        rows(self.backward)[b][s]
    }

    pub open spec fn waits(self, s: int, kind: WorkKind) -> bool {
        self.busy@[s] is Some && self.busy@[s]->0.kind == kind
    }

    /// How many forwards stage `s` has answered.
    pub open spec fn forwards_done(self, s: int) -> int {
        self.next_fwd@[s] - if self.waits(s, WorkKind::Forward) {
            1int
        } else {
            0
        }
    }

    /// How many backwards stage `s` has answered.
    pub open spec fn backwards_done(self, s: int) -> int {
        self.next_bwd@[s] - if self.waits(s, WorkKind::Backward) {
            1int
        } else {
            0
        }
    }

    pub open spec fn shaped(self) -> bool {
        &&& sized(rows(self.forward), self.micro_batches(), self.stages())
        &&& sized(rows(self.backward), self.micro_batches(), self.stages())
        &&& self.next_fwd@.len() == self.stages()
        &&& self.next_bwd@.len() == self.stages()
    }

    /// A stage runs its micro-batches in order and one at a time; each forward
    /// needs the stage before, each backward its own forward and the stage
    /// behind, and none comes before the stage is warm.
    pub open spec fn stage_holds(self, s: int) -> bool {
        let m = self.micro_batches();
        let p = self.stages();
        &&& self.next_fwd@[s] <= m
        &&& self.next_bwd@[s] <= m
        &&& self.waits(s, WorkKind::Forward) ==> self.busy@[s]->0.micro_batch + 1
            == self.next_fwd@[s]
        &&& self.waits(s, WorkKind::Backward) ==> self.busy@[s]->0.micro_batch + 1
            == self.next_bwd@[s]
        &&& forall|b: int|
            #![trigger self.activation(b, s)]
            0 <= b < m ==> (self.activation(b, s) is Some <==> b < self.forwards_done(s))
        &&& forall|b: int|
            #![trigger self.gradient(b, s)]
            0 <= b < m ==> (self.gradient(b, s) is Some <==> b < self.backwards_done(s))
        &&& s > 0 ==> self.next_fwd@[s] <= self.forwards_done(s - 1)
        &&& self.next_bwd@[s] <= self.forwards_done(s)
        &&& s + 1 < p ==> self.next_bwd@[s] <= self.backwards_done(s + 1)
        &&& self.next_bwd@[s] > 0 ==> self.next_fwd@[s] >= warmup(m as int, p as int, s)
    }

    pub open spec fn holds(self) -> bool {
        &&& self.shaped()
        &&& forall|s: int| 0 <= s < self.stages() ==> #[trigger] self.stage_holds(s)
    }

    /// The next backward of stage `s` can start.
    pub open spec fn backward_ready(self, s: int) -> bool {
        let b = self.next_bwd@[s] as int;
        &&& b < self.micro_batches()
        &&& self.next_fwd@[s] >= warmup(self.micro_batches() as int, self.stages() as int, s)
        &&& self.activation(b, s) is Some
        &&& s + 1 == self.stages() || self.gradient(b, s + 1) is Some
    }

    /// The next forward of stage `s` can start.
    pub open spec fn forward_ready(self, s: int) -> bool {
        let f = self.next_fwd@[s] as int;
        &&& f < self.micro_batches()
        &&& s == 0 || self.activation(f, s - 1) is Some
    }

    /// What stage `s` does next: its backward if that is ready, else its
    /// forward. The sink turns round on what it emitted itself.
    pub open spec fn work(self, s: int) -> Option<Work> {
        let b = self.next_bwd@[s];
        let f = self.next_fwd@[s];
        if self.busy@[s] is Some {
            None
        } else if self.backward_ready(s) {
            Some(
                Work::Backward {
                    micro_batch: b,
                    gradient_emission_id: if s + 1 == self.stages() {
                        self.activation(b as int, s)->0
                    } else {
                        self.gradient(b as int, s + 1)->0
                    },
                    seed_from_forward: s + 1 == self.stages(),
                },
            )
        } else if self.forward_ready(s) {
            Some(
                Work::Forward {
                    micro_batch: f,
                    emission_id: if s == 0 {
                        self.inputs@[f as int]
                    } else {
                        self.activation(f as int, s - 1)->0
                    },
                },
            )
        } else {
            None
        }
    }

    /// Every backward was started and no stage owes an answer.
    pub open spec fn finished(self) -> bool {
        forall|s: int|
            #![trigger self.busy@[s]]
            0 <= s < self.stages() ==> self.next_bwd@[s] >= self.micro_batches()
                && self.busy@[s] is None
    }

    /// A stage started its next work.
    pub open spec fn started(self, after: Lane, s: int, kind: WorkKind, reply: ObjectId) -> bool {
        &&& after.inputs@ == self.inputs@
        &&& rows(after.forward) == rows(self.forward)
        &&& rows(after.backward) == rows(self.backward)
        &&& after.next_fwd@ == match kind {
            WorkKind::Forward => self.next_fwd@.update(s, (self.next_fwd@[s] + 1) as usize),
            WorkKind::Backward => self.next_fwd@,
        }
        &&& after.next_bwd@ == match kind {
            WorkKind::Forward => self.next_bwd@,
            WorkKind::Backward => self.next_bwd@.update(s, (self.next_bwd@[s] + 1) as usize),
        }
        &&& after.busy@ == self.busy@.update(
            s,
            Some(
                PendingReply {
                    kind,
                    micro_batch: match kind {
                        WorkKind::Forward => self.next_fwd@[s],
                        WorkKind::Backward => self.next_bwd@[s],
                    },
                    reply,
                },
            ),
        )
    }

    /// A busy stage answered with an emission.
    pub open spec fn answered(self, after: Lane, s: int, emission_id: ObjectId) -> bool {
        let pending = self.busy@[s]->0;
        let b = pending.micro_batch as int;
        let put = |table: Seq<Seq<Option<ObjectId>>>|
            table.update(b, table[b].update(s, Some(emission_id)));
        &&& after.inputs@ == self.inputs@
        &&& rows(after.forward) == match pending.kind {
            WorkKind::Forward => put(rows(self.forward)),
            WorkKind::Backward => rows(self.forward),
        }
        &&& rows(after.backward) == match pending.kind {
            WorkKind::Forward => rows(self.backward),
            WorkKind::Backward => put(rows(self.backward)),
        }
        &&& after.next_fwd@ == self.next_fwd@
        &&& after.next_bwd@ == self.next_bwd@
        &&& after.busy@ == self.busy@.update(s, None)
    }
}

/// Starting the work a stage is due keeps the lane in order.
pub proof fn law_start_keeps_lane(before: Lane, after: Lane, s: int, reply: ObjectId)
    requires
        before.holds(),
        0 <= s < before.stages(),
        before.work(s) is Some,
        before.started(after, s, before.work(s)->0.kind_view(), reply),
    ensures
        after.holds(),
{
    assert(before.inputs.len() == before.micro_batches());
    assert(before.stage_holds(s));
    assert forall|t: int| 0 <= t < after.stages() implies #[trigger] after.stage_holds(t) by {
        assert(before.stage_holds(t));
        if t > 0 {
            assert(before.stage_holds(t - 1));
        }
        if t + 1 < before.stages() {
            assert(before.stage_holds(t + 1));
        }
        if s > 0 {
            assert(before.stage_holds(s - 1));
        }
        if s + 1 < before.stages() {
            assert(before.stage_holds(s + 1));
        }
        assert forall|b: int|
            #![trigger after.activation(b, t)]
            0 <= b < after.micro_batches() implies (after.activation(b, t) is Some <==> b
            < after.forwards_done(t)) by {
            assert(after.activation(b, t) == before.activation(b, t));
        }
        assert forall|b: int|
            #![trigger after.gradient(b, t)]
            0 <= b < after.micro_batches() implies (after.gradient(b, t) is Some <==> b
            < after.backwards_done(t)) by {
            assert(after.gradient(b, t) == before.gradient(b, t));
        }
    }
}

/// An answer from a busy stage keeps the lane in order.
pub proof fn law_answer_keeps_lane(before: Lane, after: Lane, s: int, emission_id: ObjectId)
    requires
        before.holds(),
        0 <= s < before.stages(),
        before.busy@[s] is Some,
        before.answered(after, s, emission_id),
    ensures
        after.holds(),
{
    let mb = before.busy@[s]->0.micro_batch as int;
    assert(before.stage_holds(s));
    assert forall|t: int| 0 <= t < after.stages() implies #[trigger] after.stage_holds(t) by {
        assert(before.stage_holds(t));
        if t > 0 {
            assert(before.stage_holds(t - 1));
        }
        if t + 1 < before.stages() {
            assert(before.stage_holds(t + 1));
        }
        assert forall|b: int|
            #![trigger after.activation(b, t)]
            0 <= b < after.micro_batches() implies (after.activation(b, t) is Some <==> b
            < after.forwards_done(t)) by {
            assert(before.activation(b, t) is Some <==> b < before.forwards_done(t));
        }
        assert forall|b: int|
            #![trigger after.gradient(b, t)]
            0 <= b < after.micro_batches() implies (after.gradient(b, t) is Some <==> b
            < after.backwards_done(t)) by {
            assert(before.gradient(b, t) is Some <==> b < before.backwards_done(t));
        }
    }
}

/// A lane that is not finished and owes no answer has work at some stage: the
/// schedule never stalls.
pub proof fn law_lane_never_stalls(lane: Lane) -> (stage: int)
    requires
        lane.holds(),
        !lane.finished(),
        forall|s: int|
            #![trigger lane.busy@[s]]
            0 <= s < lane.stages() ==> lane.busy@[s] is None,
    ensures
        0 <= stage < lane.stages(),
        lane.work(stage) is Some,
{
    let m = lane.micro_batches();
    let unfinished = choose|s: int|
        #![trigger lane.busy@[s]]
        0 <= s < lane.stages() && !(lane.next_bwd@[s] >= m && lane.busy@[s] is None);
    if exists|s: int| 0 <= s < lane.stages() && #[trigger] lane.next_fwd@[s] < m {
        let late = choose|s: int| 0 <= s < lane.stages() && #[trigger] lane.next_fwd@[s] < m;
        lemma_earliest_late(lane, late)
    } else {
        assert(lane.busy@[unfinished] is None);
        lemma_last_unturned(lane, unfinished)
    }
}

/// The earliest stage with forwards left can run one.
proof fn lemma_earliest_late(lane: Lane, s: int) -> (stage: int)
    requires
        lane.holds(),
        0 <= s < lane.stages(),
        lane.next_fwd@[s] < lane.micro_batches(),
        forall|t: int|
            #![trigger lane.busy@[t]]
            0 <= t < lane.stages() ==> lane.busy@[t] is None,
    ensures
        0 <= stage < lane.stages(),
        lane.work(stage) is Some,
    decreases s,
{
    assert(lane.busy@[s] is None);
    if s > 0 && lane.next_fwd@[s - 1] < lane.micro_batches() {
        lemma_earliest_late(lane, s - 1)
    } else {
        if s > 0 {
            assert(lane.stage_holds(s - 1));
            assert(lane.busy@[s - 1] is None);
            assert(lane.activation(lane.next_fwd@[s] as int, s - 1) is Some);
        }
        s
    }
}

/// With all forwards run, the last stage with backwards left can run one.
proof fn lemma_last_unturned(lane: Lane, s: int) -> (stage: int)
    requires
        lane.holds(),
        0 <= s < lane.stages(),
        lane.next_bwd@[s] < lane.micro_batches(),
        forall|t: int|
            #![trigger lane.busy@[t]]
            0 <= t < lane.stages() ==> lane.busy@[t] is None,
        forall|t: int|
            #![trigger lane.next_fwd@[t]]
            0 <= t < lane.stages() ==> lane.next_fwd@[t] >= lane.micro_batches(),
    ensures
        0 <= stage < lane.stages(),
        lane.work(stage) is Some,
    decreases lane.stages() - s,
{
    let b = lane.next_bwd@[s] as int;
    assert(lane.busy@[s] is None);
    if s + 1 < lane.stages() && lane.next_bwd@[s + 1] < lane.micro_batches() {
        lemma_last_unturned(lane, s + 1)
    } else {
        assert(lane.stage_holds(s));
        assert(lane.next_fwd@[s] >= lane.micro_batches());
        assert(lane.activation(b, s) is Some);
        if s + 1 < lane.stages() {
            assert(lane.stage_holds(s + 1));
            assert(lane.busy@[s + 1] is None);
            assert(lane.gradient(b, s + 1) is Some);
        }
        s
    }
}

/// A finished lane has every activation and every gradient.
pub proof fn law_finished_lane_is_complete(lane: Lane, b: int, s: int)
    requires
        lane.holds(),
        lane.finished(),
        0 <= b < lane.micro_batches(),
        0 <= s < lane.stages(),
    ensures
        lane.activation(b, s) is Some,
        lane.gradient(b, s) is Some,
{
    assert(lane.busy@[s] is None);
    assert(lane.stage_holds(s));
}

fn blank_row(width: usize) -> (row: Vec<Option<ObjectId>>)
    ensures
        row@ == Seq::new(width as nat, |j: int| None::<ObjectId>),
{
    let mut row: Vec<Option<ObjectId>> = Vec::new();
    let mut at: usize = 0;
    while at < width
        invariant
            at <= width,
            row@ == Seq::new(at as nat, |j: int| None::<ObjectId>),
        decreases width - at,
    {
        row.push(None);
        at = at + 1;
    }
    row
}

fn blank_table(height: usize, width: usize) -> (table: Vec<Vec<Option<ObjectId>>>)
    ensures
        rows(table) == blank(height as nat, width as nat),
{
    let mut table: Vec<Vec<Option<ObjectId>>> = Vec::new();
    let mut at: usize = 0;
    while at < height
        invariant
            at <= height,
            rows(table) == blank(at as nat, width as nat),
        decreases height - at,
    {
        let ghost before = table;
        let row = blank_row(width);
        table.push(row);
        proof {
            assert(rows(table) =~= rows(before).push(row@));
            assert(blank((at + 1) as nat, width as nat) =~= blank(at as nat, width as nat).push(
                row@,
            ));
        }
        at = at + 1;
    }
    table
}

fn zeros(length: usize) -> (list: Vec<usize>)
    ensures
        list@ == Seq::new(length as nat, |j: int| 0usize),
{
    let mut list: Vec<usize> = Vec::new();
    let mut at: usize = 0;
    while at < length
        invariant
            at <= length,
            list@ == Seq::new(at as nat, |j: int| 0usize),
        decreases length - at,
    {
        list.push(0);
        at = at + 1;
    }
    list
}

fn idle(length: usize) -> (list: Vec<Option<PendingReply>>)
    ensures
        list@ == Seq::new(length as nat, |j: int| None::<PendingReply>),
{
    let mut list: Vec<Option<PendingReply>> = Vec::new();
    let mut at: usize = 0;
    while at < length
        invariant
            at <= length,
            list@ == Seq::new(at as nat, |j: int| None::<PendingReply>),
        decreases length - at,
    {
        list.push(None);
        at = at + 1;
    }
    list
}

impl Lane {
    /// A lane that has been asked nothing.
    pub open spec fn untouched(self, inputs: Seq<ObjectId>, stages: nat) -> bool {
        &&& self.inputs@ == inputs
        &&& rows(self.forward) == blank(inputs.len(), stages)
        &&& rows(self.backward) == blank(inputs.len(), stages)
        &&& self.next_fwd@ == Seq::new(stages, |s: int| 0usize)
        &&& self.next_bwd@ == Seq::new(stages, |s: int| 0usize)
        &&& self.busy@ == Seq::new(stages, |s: int| None::<PendingReply>)
    }

    pub fn new(inputs: Vec<ObjectId>, stages: usize) -> (lane: Lane)
        ensures
            lane.untouched(inputs@, stages as nat),
            lane.holds(),
    {
        let height = inputs.len();
        let lane = Lane {
            inputs,
            forward: blank_table(height, stages),
            backward: blank_table(height, stages),
            next_fwd: zeros(stages),
            next_bwd: zeros(stages),
            busy: idle(stages),
        };
        assert forall|s: int| 0 <= s < lane.stages() implies #[trigger] lane.stage_holds(s) by {
            assert forall|b: int|
                #![trigger lane.activation(b, s)]
                0 <= b < lane.micro_batches() implies (lane.activation(b, s) is Some <==> b
                < lane.forwards_done(s)) by {
                assert(rows(lane.forward)[b] == Seq::new(stages as nat, |j: int| None::<ObjectId>));
            }
            assert forall|b: int|
                #![trigger lane.gradient(b, s)]
                0 <= b < lane.micro_batches() implies (lane.gradient(b, s) is Some <==> b
                < lane.backwards_done(s)) by {
                assert(rows(lane.backward)[b] == Seq::new(
                    stages as nat,
                    |j: int| None::<ObjectId>,
                ));
            }
        }
        lane
    }

    /// The work stage `s` can start at once.
    pub fn next_work(&self, s: usize) -> (work: Option<Work>)
        requires
            self.shaped(),
            s < self.stages(),
        ensures
            work == self.work(s as int),
    {
        if self.busy[s].is_some() {
            return None;
        }
        let m = self.inputs.len();
        let p = self.busy.len();
        let b = self.next_bwd[s];
        let warm = if p - s < m {
            p - s
        } else {
            m
        };
        if b < m && self.next_fwd[s] >= warm {
            assert(rows(self.forward)[b as int].len() == p);
            assert(rows(self.backward)[b as int].len() == p);
            let own = self.forward[b][s];
            if s + 1 == p {
                if let Some(gradient_emission_id) = own {
                    return Some(
                        Work::Backward {
                            micro_batch: b,
                            gradient_emission_id,
                            seed_from_forward: true,
                        },
                    );
                }
            } else if own.is_some() {
                if let Some(gradient_emission_id) = self.backward[b][s + 1] {
                    return Some(
                        Work::Backward {
                            micro_batch: b,
                            gradient_emission_id,
                            seed_from_forward: false,
                        },
                    );
                }
            }
        }
        let f = self.next_fwd[s];
        if f < m {
            if s == 0 {
                return Some(Work::Forward { micro_batch: f, emission_id: self.inputs[f] });
            }
            assert(rows(self.forward)[f as int].len() == p);
            if let Some(emission_id) = self.forward[f][s - 1] {
                return Some(Work::Forward { micro_batch: f, emission_id });
            }
        }
        None
    }

    /// Records that stage `s` was asked the work it is due.
    pub fn start(&mut self, s: usize, kind: WorkKind, reply: ObjectId)
        requires
            old(self).holds(),
            s < old(self).stages(),
            old(self).work(s as int) is Some,
            old(self).work(s as int)->0.kind_view() == kind,
        ensures
            old(self).started(*final(self), s as int, kind, reply),
            final(self).holds(),
    {
        assert(self.inputs.len() == self.micro_batches());
        match kind {
            WorkKind::Forward => {
                let micro_batch = self.next_fwd[s];
                self.next_fwd.set(s, micro_batch + 1);
                self.busy.set(s, Some(PendingReply { kind, micro_batch, reply }));
            },
            WorkKind::Backward => {
                let micro_batch = self.next_bwd[s];
                self.next_bwd.set(s, micro_batch + 1);
                self.busy.set(s, Some(PendingReply { kind, micro_batch, reply }));
            },
        }
        proof {
            law_start_keeps_lane(*old(self), *self, s as int, reply);
        }
    }

    /// Records what busy stage `s` emitted.
    pub fn answer(&mut self, s: usize, emission_id: ObjectId)
        requires
            old(self).holds(),
            s < old(self).stages(),
            old(self).busy@[s as int] is Some,
        ensures
            old(self).answered(*final(self), s as int, emission_id),
            final(self).holds(),
    {
        assert(self.stage_holds(s as int));
        if let Some(pending) = self.busy[s] {
            let b = pending.micro_batch;
            match pending.kind {
                WorkKind::Forward => {
                    assert(rows(self.forward)[b as int].len() == self.stages());
                    self.forward[b].set(s, Some(emission_id));
                    assert(rows(self.forward) =~= rows(old(self).forward).update(
                        b as int,
                        rows(old(self).forward)[b as int].update(s as int, Some(emission_id)),
                    ));
                },
                WorkKind::Backward => {
                    assert(rows(self.backward)[b as int].len() == self.stages());
                    self.backward[b].set(s, Some(emission_id));
                    assert(rows(self.backward) =~= rows(old(self).backward).update(
                        b as int,
                        rows(old(self).backward)[b as int].update(s as int, Some(emission_id)),
                    ));
                },
            }
            self.busy.set(s, None);
        }
        proof {
            law_answer_keeps_lane(*old(self), *self, s as int, emission_id);
        }
    }

    pub fn is_finished(&self) -> (finished: bool)
        requires
            self.shaped(),
        ensures
            finished == self.finished(),
    {
        let mut at: usize = 0;
        while at < self.busy.len()
            invariant
                self.shaped(),
                at <= self.busy@.len(),
                forall|s: int|
                    #![trigger self.busy@[s]]
                    0 <= s < at ==> self.next_bwd@[s] >= self.micro_batches() && self.busy@[s] is None,
            decreases self.busy@.len() - at,
        {
            if self.next_bwd[at] < self.inputs.len() || self.busy[at].is_some() {
                assert(self.busy@[at as int] is Some || self.next_bwd@[at as int]
                    < self.micro_batches());
                return false;
            }
            at = at + 1;
        }
        true
    }
}

} // verus!
