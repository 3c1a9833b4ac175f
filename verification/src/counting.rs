//! Counts: lower limits, and sums of per-node counters.

use vstd::prelude::*;

use crate::topology::frontier::count_at;

verus! {

/// `n`, but at least one.
pub open spec fn spec_at_least_one(n: usize) -> usize {
    if n > 1 {
        n
    } else {
        1
    }
}

/// `n`, but at least one.
pub fn at_least_one(n: usize) -> (m: usize)
    ensures
        m == spec_at_least_one(n),
{
    if n > 1 {
        n
    } else {
        1
    }
}

/// The sum of the counters of the listed ids.
pub open spec fn total(counts: Map<u32, usize>, ids: Seq<u32>) -> nat
    decreases ids.len(),
{
    if ids.len() == 0 {
        0
    } else {
        total(counts, ids.drop_last()) + count_at(counts, ids.last())
    }
}

pub proof fn lemma_total_zero(counts: Map<u32, usize>, ids: Seq<u32>)
    requires
        forall|id: u32| #[trigger] counts.contains_key(id) ==> counts[id] == 0,
    ensures
        total(counts, ids) == 0,
    decreases ids.len(),
{
    if ids.len() > 0 {
        lemma_total_zero(counts, ids.drop_last());
    }
}

/// Raising one counter raises the sum by as much.
pub proof fn lemma_total_insert(counts: Map<u32, usize>, ids: Seq<u32>, id: u32, value: usize)
    requires
        ids.no_duplicates(),
    ensures
        total(counts.insert(id, value), ids) == if ids.contains(id) {
            (total(counts, ids) - count_at(counts, id) + value) as nat
        } else {
            total(counts, ids)
        },
        ids.contains(id) ==> count_at(counts, id) <= total(counts, ids),
    decreases ids.len(),
{
    if ids.len() > 0 {
        let rest = ids.drop_last();
        assert(rest.no_duplicates());
        lemma_total_insert(counts, rest, id, value);
        if ids.last() == id {
            assert(!rest.contains(id)) by {
                if rest.contains(id) {
                    let i = choose|i: int| 0 <= i < rest.len() && rest[i] == id;
                    assert(ids[i] == ids[ids.len() - 1]);
                }
            }
            assert(ids.contains(id));
        } else {
            if ids.contains(id) {
                let i = choose|i: int| 0 <= i < ids.len() && ids[i] == id;
                assert(rest[i] == id);
            }
            if rest.contains(id) {
                let i = choose|i: int| 0 <= i < rest.len() && rest[i] == id;
                assert(ids[i] == id);
            }
        }
    }
}

/// Counters that are each at most `most` sum to at most that often `most`, and
/// to exactly that when none is below it.
pub proof fn lemma_total_bound(counts: Map<u32, usize>, ids: Seq<u32>, most: nat)
    requires
        forall|i: int| #![trigger ids[i]] 0 <= i < ids.len() ==> count_at(counts, ids[i]) <= most,
    ensures
        total(counts, ids) <= ids.len() * most,
        total(counts, ids) == ids.len() * most <==> forall|i: int|
            #![trigger ids[i]]
            0 <= i < ids.len() ==> count_at(counts, ids[i]) == most,
    decreases ids.len(),
{
    if ids.len() > 0 {
        let rest = ids.drop_last();
        let len = rest.len();
        assert forall|i: int| #![trigger rest[i]] 0 <= i < rest.len() implies count_at(
            counts,
            rest[i],
        ) <= most by {
            assert(rest[i] == ids[i]);
        }
        lemma_total_bound(counts, rest, most);
        assert((len + 1) * most == len * most + most) by (nonlinear_arith);
        assert(ids[ids.len() - 1] == ids.last());
        if forall|i: int|
            #![trigger ids[i]]
            0 <= i < ids.len() ==> count_at(counts, ids[i]) == most {
            assert forall|i: int| #![trigger rest[i]] 0 <= i < rest.len() implies count_at(
                counts,
                rest[i],
            ) == most by {
                assert(rest[i] == ids[i]);
            }
        }
        if total(counts, ids) == ids.len() * most {
            assert forall|i: int| #![trigger ids[i]] 0 <= i < ids.len() implies count_at(
                counts,
                ids[i],
            ) == most by {
                if i < rest.len() {
                    assert(rest[i] == ids[i]);
                }
            }
        }
    } else {
        assert(0 * most == 0) by (nonlinear_arith);
    }
}

} // verus!
