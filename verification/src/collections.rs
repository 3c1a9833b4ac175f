//! Ascending walks over maps and sets keyed by vertex or port ids.

use std::collections::{HashMap, HashSet};

use vstd::prelude::*;
use vstd::std_specs::iter::IteratorSpec;

verus! {

broadcast use vstd::std_specs::hash::group_hash_axioms;

/// Strictly increasing, hence free of duplicates.
pub open spec fn strictly_increasing(ids: Seq<u32>) -> bool {
    forall|i: int, j: int| 0 <= i < j < ids.len() ==> ids[i] < ids[j]
}

/// The members of `ids` in ascending order.
pub open spec fn ascending(ids: Set<u32>) -> Seq<u32> {
    choose|order: Seq<u32>| strictly_increasing(order) && order.to_set() == ids
}

/// There is at most one ascending listing of a set.
pub proof fn lemma_ascending_unique(a: Seq<u32>, b: Seq<u32>)
    requires
        strictly_increasing(a),
        strictly_increasing(b),
        a.to_set() == b.to_set(),
    ensures
        a == b,
    decreases a.len(),
{
    if a.len() == 0 {
        if b.len() > 0 {
            assert(b.to_set().contains(b[0]));
            assert(a.to_set().contains(b[0]));
        }
        assert(a =~= b);
    } else {
        assert(a.to_set().contains(a.last()));
        assert(b.to_set().contains(a.last()));
        assert(b.len() > 0);
        assert(b.to_set().contains(b.last()));
        assert(a.to_set().contains(b.last()));
        let i = choose|i: int| 0 <= i < a.len() && a[i] == b.last();
        let j = choose|j: int| 0 <= j < b.len() && b[j] == a.last();
        assert(a.last() == b.last());
        let a1 = a.drop_last();
        let b1 = b.drop_last();
        assert(a1.to_set() =~= a.to_set().remove(a.last())) by {
            lemma_drop_last_set(a);
        }
        assert(b1.to_set() =~= b.to_set().remove(b.last())) by {
            lemma_drop_last_set(b);
        }
        lemma_ascending_unique(a1, b1);
        assert(a =~= a1.push(a.last()));
        assert(b =~= b1.push(b.last()));
    }
}

proof fn lemma_drop_last_set(a: Seq<u32>)
    requires
        strictly_increasing(a),
        a.len() > 0,
    ensures
        a.drop_last().to_set() == a.to_set().remove(a.last()),
{
    let rest = a.drop_last();
    assert forall|x: u32| rest.to_set().contains(x) == a.to_set().remove(a.last()).contains(x) by {
        if rest.contains(x) {
            let i = choose|i: int| 0 <= i < rest.len() && rest[i] == x;
            assert(a[i] == x);
            assert(a[i] < a[a.len() - 1]);
        }
        if a.to_set().remove(a.last()).contains(x) {
            let i = choose|i: int| 0 <= i < a.len() && a[i] == x;
            assert(rest[i] == x);
        }
    }
    assert(rest.to_set() =~= a.to_set().remove(a.last()));
}

/// A strictly increasing listing of a set is the ascending one.
pub proof fn lemma_ascending(order: Seq<u32>, ids: Set<u32>)
    requires
        strictly_increasing(order),
        order.to_set() == ids,
    ensures
        ascending(ids) == order,
{
    lemma_ascending_unique(ascending(ids), order);
}

/// Puts `id` at its place in a strictly increasing list that lacks it.
pub fn insert_ascending(ids: &mut Vec<u32>, id: u32)
    requires
        strictly_increasing(old(ids)@),
        !old(ids)@.contains(id),
    ensures
        strictly_increasing(final(ids)@),
        final(ids)@.to_set() == old(ids)@.to_set().insert(id),
        final(ids)@.len() == old(ids)@.len() + 1,
{
    let mut at: usize = ids.len();
    while at > 0 && ids[at - 1] > id
        invariant
            at <= ids.len(),
            ids@ == old(ids)@,
            strictly_increasing(ids@),
            forall|i: int| at <= i < ids.len() ==> ids@[i] > id,
        decreases at,
    {
        at = at - 1;
    }
    let ghost before = ids@;
    assert(at > 0 ==> before[at - 1] != id);
    ids.insert(at, id);
    proof {
        let after = ids@;
        assert(after =~= before.subrange(0, at as int).push(id) + before.subrange(
            at as int,
            before.len() as int,
        ));
        assert forall|x: u32| after.to_set().contains(x) == before.to_set().insert(id).contains(
            x,
        ) by {
            if before.contains(x) {
                let i = choose|i: int| 0 <= i < before.len() && before[i] == x;
                if i < at {
                    assert(after[i] == x);
                } else {
                    assert(after[i + 1] == x);
                }
            }
            if x == id {
                assert(after[at as int] == x);
            }
            if after.contains(x) && x != id {
                let i = choose|i: int| 0 <= i < after.len() && after[i] == x;
                if i < at {
                    assert(before[i] == x);
                } else {
                    assert(before[i - 1] == x);
                }
            }
        }
        assert(after.to_set() =~= before.to_set().insert(id));
    }
}

/// Appending one item adds it to the set of items.
pub proof fn lemma_push_set<A>(items: Seq<A>, item: A)
    ensures
        items.push(item).to_set() == items.to_set().insert(item),
        forall|x: A|
            #![trigger items.push(item).contains(x)]
            items.push(item).contains(x) <==> items.contains(x) || x == item,
{
    let after = items.push(item);
    assert forall|x: A| after.to_set().contains(x) == items.to_set().insert(item).contains(x) by {
        if items.contains(x) {
            let i = choose|i: int| 0 <= i < items.len() && items[i] == x;
            assert(after[i] == x);
        }
        if x == item {
            assert(after[items.len() as int] == x);
        }
        if after.contains(x) && x != item {
            let i = choose|i: int| 0 <= i < after.len() && after[i] == x;
            assert(items[i] == x);
        }
    }
    assert(after.to_set() =~= items.to_set().insert(item));
    assert forall|x: A|
        #![trigger after.contains(x)]
        after.contains(x) <==> items.contains(x) || x == item by {
        assert(after.to_set().contains(x) <==> items.to_set().insert(item).contains(x));
    }
}

/// A prefix grows by one item.
pub proof fn lemma_take_next<A>(items: Seq<A>, i: int)
    requires
        0 <= i < items.len(),
    ensures
        items.take(i + 1) == items.take(i).push(items[i]),
        items.take(i + 1).drop_last() == items.take(i),
        items.take(i + 1).last() == items[i],
        items.take(i + 1).to_set() == items.take(i).to_set().insert(items[i]),
        forall|x: A|
            #![trigger items.take(i + 1).contains(x)]
            items.take(i + 1).contains(x) <==> items.take(i).contains(x) || x == items[i],
{
    let before = items.take(i);
    let after = items.take(i + 1);
    assert(after =~= before.push(items[i]));
    assert(after.drop_last() =~= before);
    lemma_push_set(before, items[i]);
    assert forall|x: A|
        #![trigger after.contains(x)]
        after.contains(x) <==> before.contains(x) || x == items[i] by {
        assert(after.to_set().contains(x) <==> before.to_set().contains(x) || x == items[i]);
    }
}

/// The keys of a map in ascending order.
pub fn sorted_keys<V>(map: &HashMap<u32, V>) -> (keys: Vec<u32>)
    ensures
        strictly_increasing(keys@),
        keys@.to_set() == map@.dom(),
        keys@ == ascending(map@.dom()),
        keys@.len() == map@.dom().len(),
{
    let mut keys: Vec<u32> = Vec::new();
    let ghost walked = Seq::<u32>::empty();
    proof {
        assert(keys@.to_set() =~= Set::empty());
        if map@.dom().len() == 0 {
            assert(map@.dom() =~= Set::empty());
        }
    }
    for key in it: map.keys()
        invariant
            walked.len() == it.index(),
            forall|i: int| 0 <= i < it.index() ==> walked[i] == *#[trigger] it.seq()[i],
            it.seq().unref().to_set() == map@.dom(),
            it.seq().no_duplicates(),
            it.seq().len() == map@.dom().len(),
            strictly_increasing(keys@),
            keys@.to_set() == walked.to_set(),
            keys@.len() == walked.len(),
            walked.len() == map@.dom().len() ==> walked.to_set() == map@.dom(),
    {
        proof {
            assert(!walked.contains(*key)) by {
                if walked.contains(*key) {
                    let i = choose|i: int| 0 <= i < walked.len() && walked[i] == *key;
                    assert(it.seq()[i] == it.seq()[it.index() as int]);
                }
            }
            assert(!keys@.to_set().contains(*key));
            lemma_push_set(walked, *key);
            walked = walked.push(*key);
            if walked.len() == map@.dom().len() {
                assert(walked =~= it.seq().unref());
            }
        }
        insert_ascending(&mut keys, *key);
    }
    proof {
        lemma_ascending(keys@, map@.dom());
    }
    keys
}

/// The members of a set in ascending order.
pub fn sorted_members(set: &HashSet<u32>) -> (members: Vec<u32>)
    ensures
        strictly_increasing(members@),
        members@.to_set() == set@,
        members@ == ascending(set@),
        members@.len() == set@.len(),
{
    let mut members: Vec<u32> = Vec::new();
    let ghost walked = Seq::<u32>::empty();
    proof {
        assert(members@.to_set() =~= Set::empty());
        let listed = vstd::std_specs::hash::spec_hash_keys_iter(set).remaining();
        if set@.len() == 0 {
            assert(listed.unref() =~= Seq::empty());
            assert(set@ =~= Set::empty());
        }
    }
    for member in it: set.iter()
        invariant
            walked.len() == it.index(),
            forall|i: int| 0 <= i < it.index() ==> walked[i] == *#[trigger] it.seq()[i],
            it.seq().unref().to_set() == set@,
            it.seq().no_duplicates(),
            it.seq().len() == set@.len(),
            strictly_increasing(members@),
            members@.to_set() == walked.to_set(),
            members@.len() == walked.len(),
            walked.len() == set@.len() ==> walked.to_set() == set@,
    {
        proof {
            assert(!walked.contains(*member)) by {
                if walked.contains(*member) {
                    let i = choose|i: int| 0 <= i < walked.len() && walked[i] == *member;
                    assert(it.seq()[i] == it.seq()[it.index() as int]);
                }
            }
            assert(!members@.to_set().contains(*member));
            lemma_push_set(walked, *member);
            walked = walked.push(*member);
            if walked.len() == set@.len() {
                assert(walked =~= it.seq().unref());
            }
        }
        insert_ascending(&mut members, *member);
    }
    proof {
        lemma_ascending(members@, set@);
    }
    members
}

/// The ascending listing of a finite set lists it.
pub proof fn lemma_ascending_lists(ids: Set<u32>)
    requires
        ids.finite(),
    ensures
        strictly_increasing(ascending(ids)),
        ascending(ids).to_set() == ids,
        ascending(ids).len() == ids.len(),
    decreases ids.len(),
{
    lemma_listing_exists(ids);
    let order = ascending(ids);
    assert(order.no_duplicates());
    order.unique_seq_to_set();
}

proof fn lemma_greatest(ids: Set<u32>) -> (greatest: u32)
    requires
        ids.finite(),
        ids.len() > 0,
    ensures
        ids.contains(greatest),
        forall|id: u32| ids.contains(id) ==> id <= greatest,
    decreases ids.len(),
{
    let id = ids.choose();
    let rest = ids.remove(id);
    if rest.len() == 0 {
        assert forall|other: u32| ids.contains(other) implies other <= id by {
            if other != id {
                assert(rest.contains(other));
            }
        }
        id
    } else {
        let top = lemma_greatest(rest);
        let greatest = if id <= top {
            top
        } else {
            id
        };
        assert forall|other: u32| ids.contains(other) implies other <= greatest by {
            if other != id {
                assert(rest.contains(other));
            }
        }
        greatest
    }
}

proof fn lemma_listing_exists(ids: Set<u32>)
    requires
        ids.finite(),
    ensures
        exists|order: Seq<u32>| strictly_increasing(order) && order.to_set() == ids,
    decreases ids.len(),
{
    if ids.len() == 0 {
        assert(ids =~= Set::empty());
        let order = Seq::<u32>::empty();
        assert(order.to_set() =~= ids);
        assert(strictly_increasing(order));
    } else {
        let top = lemma_greatest(ids);
        let rest = ids.remove(top);
        lemma_listing_exists(rest);
        let before = choose|order: Seq<u32>| strictly_increasing(order) && order.to_set() == rest;
        let order = before.push(top);
        lemma_push_set(before, top);
        assert(order.to_set() =~= ids);
        assert forall|i: int, j: int| 0 <= i < j < order.len() implies order[i] < order[j] by {
            if j == before.len() {
                assert(before.to_set().contains(before[i]));
                assert(rest.contains(before[i]));
                assert(ids.contains(before[i]));
            }
        }
        assert(strictly_increasing(order));
    }
}

} // verus!
