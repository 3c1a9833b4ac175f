//! Progress recorded on a topology, and the view of it for observers.

use vstd::prelude::*;

use crate::collections::sorted_keys;
use crate::ids::Uuid;
use crate::topology::graph::{lemma_occurrences_positive, lemma_occurrences_push, occurrences};
use crate::topology::{SunOperationalState, SunTopology};

verus! {

broadcast use vstd::std_specs::hash::group_hash_axioms;

/// The phase position recorded for `id`, zero when none is.
pub open spec fn sequence_at(sequences: Map<u32, u64>, id: u32) -> u64 {
    if sequences.contains_key(id) {
        sequences[id]
    } else {
        0
    }
}

/// The execution status recorded for `id`, queued when none is.
pub open spec fn status_at(states: Map<u32, SunOperationalState>, id: u32) -> SunOperationalState {
    if states.contains_key(id) {
        states[id]
    } else {
        SunOperationalState::Queued
    }
}

/// The identifier stored under `id`, nil when none is.
pub open spec fn uuid_at(ids: Map<u32, Uuid>, id: u32) -> Uuid {
    if ids.contains_key(id) {
        ids[id]
    } else {
        Uuid::spec_nil()
    }
}

/// Every listed id is mapped to `value`; nothing else changed.
pub open spec fn all_set<T>(before: Map<u32, T>, after: Map<u32, T>, ids: Seq<u32>, value: T) -> bool {
    &&& forall|id: u32| #[trigger]
        after.contains_key(id) <==> before.contains_key(id) || ids.contains(id)
    &&& forall|id: u32| #[trigger]
        after.contains_key(id) ==> after[id] == if ids.contains(id) {
            value
        } else {
            before[id]
        }
}

/// Every listed id carries the annotation `text`; nothing else changed.
pub open spec fn all_annotated(
    before: Map<u32, String>,
    after: Map<u32, String>,
    ids: Seq<u32>,
    text: Seq<char>,
) -> bool {
    &&& forall|id: u32| #[trigger]
        after.contains_key(id) <==> before.contains_key(id) || ids.contains(id)
    &&& forall|id: u32| #[trigger]
        after.contains_key(id) ==> after[id]@ == if ids.contains(id) {
            text
        } else {
            before[id]@
        }
}

/// No phase position overflows when `ids` are recorded.
pub open spec fn sequences_fit(sequences: Map<u32, u64>, ids: Seq<u32>) -> bool {
    forall|i: int|
        #![trigger ids[i]]
        0 <= i < ids.len() ==> sequence_at(sequences, ids[i]) + ids.len() <= u64::MAX
}

proof fn lemma_contains_take(ids: Seq<u32>, i: int, x: u32)
    requires
        0 <= i < ids.len(),
    ensures
        ids.take(i + 1).contains(x) <==> ids.take(i).contains(x) || x == ids[i],
{
    assert(ids.take(i + 1) =~= ids.take(i).push(ids[i]));
    crate::collections::lemma_push_set(ids.take(i), ids[i]);
    assert(ids.take(i + 1).to_set().contains(x) <==> ids.take(i).to_set().contains(x) || x
        == ids[i]);
}

/// Every vertex waits again and carries no annotation; nothing else changed.
pub open spec fn progress_reset(before: SunTopology, after: SunTopology) -> bool {
    &&& after == (SunTopology {
        node_operational_states: after.node_operational_states,
        node_phase_annotations: after.node_phase_annotations,
        ..before
    })
    &&& forall|id: u32| #[trigger]
        after.node_operational_states@.contains_key(id)
            <==> before.node_operational_states@.contains_key(id) || before.vertices().contains(id)
    &&& forall|id: u32| #[trigger]
        after.node_operational_states@.contains_key(id) ==> after.node_operational_states@[id]
            == if before.vertices().contains(id) {
            SunOperationalState::Queued
        } else {
            before.node_operational_states@[id]
        }
    &&& after.node_phase_annotations@ == before.node_phase_annotations@.remove_keys(
        before.vertices(),
    )
}

/// A completed node and the nodes it was forwarded to, as a pass records them.
pub open spec fn completion_recorded(
    before: SunTopology,
    after: SunTopology,
    node_id: u32,
    sent: Seq<u32>,
) -> bool {
    &&& after == (SunTopology {
        node_operational_states: after.node_operational_states,
        node_phase_annotations: after.node_phase_annotations,
        node_state_sequences: after.node_state_sequences,
        ..before
    })
    &&& all_set(
        before.node_operational_states@.insert(node_id, SunOperationalState::Succeeded),
        after.node_operational_states@,
        sent,
        SunOperationalState::Running,
    )
    &&& all_annotated(
        before.node_phase_annotations@,
        after.node_phase_annotations@,
        sent,
        "forward"@,
    )
    &&& forall|id: u32| #[trigger]
        after.node_state_sequences@.contains_key(id) <==> before.node_state_sequences@.contains_key(
            id,
        ) || sent.contains(id)
    &&& forall|id: u32|
        #![trigger sequence_at(after.node_state_sequences@, id)]
        sequence_at(after.node_state_sequences@, id) == sequence_at(
            before.node_state_sequences@,
            id,
        ) + occurrences(sent, id)
}

impl SunTopology {
    /// Puts every vertex back in the queue.
    pub fn reset_progress(&mut self)
        ensures
            progress_reset(*old(self), *final(self)),
    {
        let ids = sorted_keys(&self.journey_ids);
        let mut i: usize = 0;
        assert(ids@.take(0).to_set() =~= Set::empty());
        assert(self.node_phase_annotations@.remove_keys(Set::empty())
            =~= self.node_phase_annotations@);
        while i < ids.len()
            invariant
                i <= ids.len(),
                ids@.to_set() == old(self).vertices(),
                *self == (SunTopology {
                    node_operational_states: self.node_operational_states,
                    node_phase_annotations: self.node_phase_annotations,
                    ..*old(self)
                }),
                all_set(
                    old(self).node_operational_states@,
                    self.node_operational_states@,
                    ids@.take(i as int),
                    SunOperationalState::Queued,
                ),
                self.node_phase_annotations@ == old(self).node_phase_annotations@.remove_keys(
                    ids@.take(i as int).to_set(),
                ),
            decreases ids.len() - i,
        {
            let id = ids[i];
            let ghost before = self.node_phase_annotations@;
            proof {
                crate::collections::lemma_take_next(ids@, i as int);
            }
            self.node_operational_states.insert(id, SunOperationalState::Queued);
            self.node_phase_annotations.remove(&id);
            assert(before.remove(id) =~= old(self).node_phase_annotations@.remove_keys(
                ids@.take(i + 1).to_set(),
            ));
            i = i + 1;
        }
        proof {
            assert(ids@.take(i as int) =~= ids@);
            assert forall|id: u32| ids@.contains(id) <==> old(self).vertices().contains(id) by {
                assert(ids@.to_set().contains(id) <==> old(self).vertices().contains(id));
            }
        }
    }

    /// Records that a pass has left `node_id` and reached the nodes of `sent`.
    pub fn record_completion(&mut self, node_id: u32, sent: &Vec<u32>)
        requires
            sequences_fit(old(self).node_state_sequences@, sent@),
        ensures
            completion_recorded(*old(self), *final(self), node_id, sent@),
    {
        self.record_forward_completed(node_id);
        self.record_forward_started(sent);
    }

    /// Records that a forward pass has reached the listed nodes.
    pub fn record_forward_started(&mut self, node_ids: &Vec<u32>)
        requires
            sequences_fit(old(self).node_state_sequences@, node_ids@),
        ensures
            *final(self) == (SunTopology {
                node_operational_states: final(self).node_operational_states,
                node_phase_annotations: final(self).node_phase_annotations,
                node_state_sequences: final(self).node_state_sequences,
                ..*old(self)
            }),
            all_set(
                old(self).node_operational_states@,
                final(self).node_operational_states@,
                node_ids@,
                SunOperationalState::Running,
            ),
            all_annotated(
                old(self).node_phase_annotations@,
                final(self).node_phase_annotations@,
                node_ids@,
                "forward"@,
            ),
            forall|id: u32| #[trigger]
                final(self).node_state_sequences@.contains_key(id) <==> old(
                    self,
                ).node_state_sequences@.contains_key(id) || node_ids@.contains(id),
            forall|id: u32|
                #![trigger sequence_at(final(self).node_state_sequences@, id)]
                sequence_at(final(self).node_state_sequences@, id) == sequence_at(
                    old(self).node_state_sequences@,
                    id,
                ) + occurrences(node_ids@, id),
    {
        let mut i: usize = 0;
        assert(node_ids@.take(0) =~= Seq::empty());
        while i < node_ids.len()
            invariant
                i <= node_ids.len(),
                sequences_fit(old(self).node_state_sequences@, node_ids@),
                *self == (SunTopology {
                    node_operational_states: self.node_operational_states,
                    node_phase_annotations: self.node_phase_annotations,
                    node_state_sequences: self.node_state_sequences,
                    ..*old(self)
                }),
                all_set(
                    old(self).node_operational_states@,
                    self.node_operational_states@,
                    node_ids@.take(i as int),
                    SunOperationalState::Running,
                ),
                all_annotated(
                    old(self).node_phase_annotations@,
                    self.node_phase_annotations@,
                    node_ids@.take(i as int),
                    "forward"@,
                ),
                forall|id: u32| #[trigger]
                    self.node_state_sequences@.contains_key(id) <==> old(
                        self,
                    ).node_state_sequences@.contains_key(id) || node_ids@.take(i as int).contains(
                        id,
                    ),
                forall|id: u32|
                    #![trigger sequence_at(self.node_state_sequences@, id)]
                    sequence_at(self.node_state_sequences@, id) == sequence_at(
                        old(self).node_state_sequences@,
                        id,
                    ) + occurrences(node_ids@.take(i as int), id),
            decreases node_ids.len() - i,
        {
            let id = node_ids[i];
            let ghost done = node_ids@.take(i as int);
            let ghost before = *self;
            proof {
                assert forall|x: u32|
                    #![trigger node_ids@.take(i + 1).contains(x)]
                    node_ids@.take(i + 1).contains(x) <==> done.contains(x) || x == id by {
                    lemma_contains_take(node_ids@, i as int, x);
                }
                assert(node_ids@.take(i + 1) =~= done.push(id));
                assert forall|x: u32| #[trigger] occurrences(node_ids@.take(i + 1), x)
                    == occurrences(done, x) + if id == x {
                    1nat
                } else {
                    0nat
                } by {
                    lemma_occurrences_push(done, id, x);
                }
                lemma_occurrences_positive(done, id);
                assert(sequence_at(self.node_state_sequences@, id) <= sequence_at(
                    old(self).node_state_sequences@,
                    id,
                ) + i);
                assert(sequence_at(old(self).node_state_sequences@, node_ids@[i as int])
                    + node_ids@.len() <= u64::MAX);
            }
            self.node_operational_states.insert(id, SunOperationalState::Running);
            self.node_phase_annotations.insert(id, "forward".to_owned());
            let sequence: u64 = match self.node_state_sequences.get(&id) {
                Some(sequence) => *sequence,
                None => 0,
            };
            self.node_state_sequences.insert(id, sequence + 1);
            proof {
                assert forall|x: u32|
                    #![trigger sequence_at(self.node_state_sequences@, x)]
                    sequence_at(self.node_state_sequences@, x) == sequence_at(
                        old(self).node_state_sequences@,
                        x,
                    ) + occurrences(node_ids@.take(i + 1), x) by {
                    assert(sequence_at(before.node_state_sequences@, x) == sequence_at(
                        old(self).node_state_sequences@,
                        x,
                    ) + occurrences(done, x));
                }
            }
            i = i + 1;
        }
        assert(node_ids@.take(i as int) =~= node_ids@);
    }

    /// Records that a forward pass has left a node.
    pub fn record_forward_completed(&mut self, node_id: u32)
        ensures
            *final(self) == (SunTopology {
                node_operational_states: final(self).node_operational_states,
                ..*old(self)
            }),
            final(self).node_operational_states@ == old(self).node_operational_states@.insert(
                node_id,
                SunOperationalState::Succeeded,
            ),
    {
        self.node_operational_states.insert(node_id, SunOperationalState::Succeeded);
    }

    /// Records that a pipeline step has begun processing its stages. A stage
    /// that was running already keeps its phase position.
    pub fn record_pipeline_started(&mut self, node_ids: &Vec<u32>)
        requires
            sequences_fit(old(self).node_state_sequences@, node_ids@),
        ensures
            *final(self) == (SunTopology {
                node_operational_states: final(self).node_operational_states,
                node_phase_annotations: final(self).node_phase_annotations,
                node_state_sequences: final(self).node_state_sequences,
                ..*old(self)
            }),
            all_set(
                old(self).node_operational_states@,
                final(self).node_operational_states@,
                node_ids@,
                SunOperationalState::Running,
            ),
            all_annotated(
                old(self).node_phase_annotations@,
                final(self).node_phase_annotations@,
                node_ids@,
                "pipeline"@,
            ),
            forall|id: u32|
                #![trigger final(self).node_state_sequences@.contains_key(id)]
                #![trigger sequence_at(final(self).node_state_sequences@, id)]
                {
                    let fresh = node_ids@.contains(id) && status_at(
                        old(self).node_operational_states@,
                        id,
                    ) != SunOperationalState::Running;
                    &&& final(self).node_state_sequences@.contains_key(id) <==> old(
                        self,
                    ).node_state_sequences@.contains_key(id) || fresh
                    &&& sequence_at(final(self).node_state_sequences@, id) == sequence_at(
                        old(self).node_state_sequences@,
                        id,
                    ) + if fresh {
                        1int
                    } else {
                        0int
                    }
                },
    {
        let mut i: usize = 0;
        assert(node_ids@.take(0) =~= Seq::empty());
        while i < node_ids.len()
            invariant
                i <= node_ids.len(),
                sequences_fit(old(self).node_state_sequences@, node_ids@),
                *self == (SunTopology {
                    node_operational_states: self.node_operational_states,
                    node_phase_annotations: self.node_phase_annotations,
                    node_state_sequences: self.node_state_sequences,
                    ..*old(self)
                }),
                all_set(
                    old(self).node_operational_states@,
                    self.node_operational_states@,
                    node_ids@.take(i as int),
                    SunOperationalState::Running,
                ),
                all_annotated(
                    old(self).node_phase_annotations@,
                    self.node_phase_annotations@,
                    node_ids@.take(i as int),
                    "pipeline"@,
                ),
                forall|id: u32|
                    #![trigger self.node_state_sequences@.contains_key(id)]
                    #![trigger sequence_at(self.node_state_sequences@, id)]
                    {
                        let fresh = node_ids@.take(i as int).contains(id) && status_at(
                            old(self).node_operational_states@,
                            id,
                        ) != SunOperationalState::Running;
                        &&& self.node_state_sequences@.contains_key(id) <==> old(
                            self,
                        ).node_state_sequences@.contains_key(id) || fresh
                        &&& sequence_at(self.node_state_sequences@, id) == sequence_at(
                            old(self).node_state_sequences@,
                            id,
                        ) + if fresh {
                            1int
                        } else {
                            0int
                        }
                    },
            decreases node_ids.len() - i,
        {
            let id = node_ids[i];
            let ghost done = node_ids@.take(i as int);
            let ghost before = *self;
            proof {
                assert forall|x: u32|
                    #![trigger node_ids@.take(i + 1).contains(x)]
                    node_ids@.take(i + 1).contains(x) <==> done.contains(x) || x == id by {
                    lemma_contains_take(node_ids@, i as int, x);
                }
                assert(sequence_at(old(self).node_state_sequences@, node_ids@[i as int])
                    + node_ids@.len() <= u64::MAX);
                assert(self.node_operational_states@.contains_key(id) <==> old(
                    self,
                ).node_operational_states@.contains_key(id) || done.contains(id));
            }
            let was_running: bool = match self.node_operational_states.get(&id) {
                Some(state) => *state == SunOperationalState::Running,
                None => false,
            };
            assert(was_running == (done.contains(id) || status_at(
                old(self).node_operational_states@,
                id,
            ) == SunOperationalState::Running));
            self.node_operational_states.insert(id, SunOperationalState::Running);
            self.node_phase_annotations.insert(id, "pipeline".to_owned());
            if !was_running {
                let sequence: u64 = match self.node_state_sequences.get(&id) {
                    Some(sequence) => *sequence,
                    None => 0,
                };
                assert(sequence == sequence_at(before.node_state_sequences@, id));
                self.node_state_sequences.insert(id, sequence + 1);
            }
            proof {
                assert forall|x: u32|
                    #![trigger self.node_state_sequences@.contains_key(x)]
                    #![trigger sequence_at(self.node_state_sequences@, x)]
                    {
                        let fresh = node_ids@.take(i + 1).contains(x) && status_at(
                            old(self).node_operational_states@,
                            x,
                        ) != SunOperationalState::Running;
                        &&& self.node_state_sequences@.contains_key(x) <==> old(
                            self,
                        ).node_state_sequences@.contains_key(x) || fresh
                        &&& sequence_at(self.node_state_sequences@, x) == sequence_at(
                            old(self).node_state_sequences@,
                            x,
                        ) + if fresh {
                            1int
                        } else {
                            0int
                        }
                    } by {
                    assert(sequence_at(before.node_state_sequences@, x) >= 0);
                }
            }
            i = i + 1;
        }
        assert(node_ids@.take(i as int) =~= node_ids@);
    }

    /// Records that a pipeline step completed processing a stage.
    pub fn record_pipeline_completed(&mut self, node_id: u32)
        ensures
            *final(self) == (SunTopology {
                node_operational_states: final(self).node_operational_states,
                ..*old(self)
            }),
            final(self).node_operational_states@ == old(self).node_operational_states@.insert(
                node_id,
                SunOperationalState::Succeeded,
            ),
    {
        self.node_operational_states.insert(node_id, SunOperationalState::Succeeded);
    }
}

} // verus!
