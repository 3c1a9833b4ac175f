//! Allocation of mailboxes.

use std::collections::HashMap;

use vstd::prelude::*;

use crate::collections::lemma_take_next;
use crate::ids::{ObjectId, Uuid};

verus! {

broadcast use vstd::std_specs::hash::group_hash_axioms;

/// Every mailbox is a random identifier.
pub open spec fn all_random(mailboxes: Map<u32, ObjectId>) -> bool {
    forall|id: u32| #[trigger] mailboxes.contains_key(id) ==> mailboxes[id].is_random()
}

/// `mailboxes` gives each listed id the identifier drawn for it.
pub open spec fn assigned(mailboxes: Map<u32, ObjectId>, ids: Seq<u32>, drawn: Seq<Uuid>) -> bool {
    &&& mailboxes.dom() == ids.to_set()
    &&& forall|i: int| #![trigger ids[i]] 0 <= i < ids.len() ==> mailboxes[ids[i]] == drawn[i]
}

/// Draws `count` random identifiers.
pub fn draw_ids(count: usize) -> (drawn: Vec<Uuid>)
    ensures
        drawn@.len() == count,
        forall|i: int| #![trigger drawn@[i]] 0 <= i < count ==> drawn@[i].is_random(),
{
    let mut drawn: Vec<Uuid> = Vec::new();
    let mut i: usize = 0;
    while i < count
        invariant
            i <= count,
            drawn@.len() == i,
            forall|j: int| #![trigger drawn@[j]] 0 <= j < i ==> drawn@[j].is_random(),
        decreases count - i,
    {
        drawn.push(Uuid::new_v4());
        i = i + 1;
    }
    drawn
}

/// Gives each listed id the identifier drawn for it.
pub fn assign_ids(ids: &Vec<u32>, drawn: &Vec<Uuid>) -> (mailboxes: HashMap<u32, ObjectId>)
    requires
        ids@.no_duplicates(),
        drawn@.len() == ids@.len(),
    ensures
        assigned(mailboxes@, ids@, drawn@),
{
    let mut mailboxes: HashMap<u32, ObjectId> = HashMap::new();
    let mut i: usize = 0;
    assert(ids@.take(0).to_set() =~= Set::empty());
    while i < ids.len()
        invariant
            i <= ids.len(),
            ids@.no_duplicates(),
            drawn@.len() == ids@.len(),
            mailboxes@.dom() == ids@.take(i as int).to_set(),
            forall|j: int| #![trigger ids@[j]] 0 <= j < i ==> mailboxes@[ids@[j]] == drawn@[j],
        decreases ids.len() - i,
    {
        mailboxes.insert(ids[i], drawn[i]);
        proof {
            lemma_take_next(ids@, i as int);
        }
        i = i + 1;
    }
    assert(ids@.take(i as int) =~= ids@);
    mailboxes
}

/// Allocates a random mailbox for each listed id.
pub fn fresh_mailboxes(ids: &Vec<u32>) -> (mailboxes: HashMap<u32, ObjectId>)
    requires
        ids@.no_duplicates(),
    ensures
        mailboxes@.dom() == ids@.to_set(),
        all_random(mailboxes@),
{
    let drawn = draw_ids(ids.len());
    let mailboxes = assign_ids(ids, &drawn);
    proof {
        assert forall|id: u32| #[trigger] mailboxes@.contains_key(id) implies mailboxes@[id].is_random() by {
            assert(ids@.to_set().contains(id));
            let i = choose|i: int| 0 <= i < ids@.len() && ids@[i] == id;
            assert(mailboxes@[ids@[i]] == drawn@[i]);
        }
    }
    mailboxes
}

/// A copy of a mailbox map.
pub fn copy_mailboxes(mailboxes: &HashMap<u32, ObjectId>) -> (copy: HashMap<u32, ObjectId>)
    ensures
        copy@ == mailboxes@,
{
    let ids = crate::collections::sorted_keys(mailboxes);
    let mut copy: HashMap<u32, ObjectId> = HashMap::new();
    let mut i: usize = 0;
    assert(ids@.take(0).to_set() =~= Set::empty());
    while i < ids.len()
        invariant
            i <= ids.len(),
            ids@.to_set() == mailboxes@.dom(),
            copy@.dom() == ids@.take(i as int).to_set(),
            forall|id: u32| #[trigger] copy@.contains_key(id) ==> copy@[id] == mailboxes@[id],
        decreases ids.len() - i,
    {
        let id = ids[i];
        proof {
            assert(ids@.contains(id));
            assert(ids@.to_set().contains(id));
            lemma_take_next(ids@, i as int);
        }
        copy.insert(id, *mailboxes.get(&id).unwrap());
        i = i + 1;
    }
    assert(ids@.take(i as int) =~= ids@);
    assert(copy@ =~= mailboxes@);
    copy
}

/// The mailboxes of `ports` were set, the last entry of a port winning; the
/// others stay.
pub open spec fn extended(
    before: Map<u32, ObjectId>,
    ports: Seq<(u32, ObjectId)>,
) -> Map<u32, ObjectId>
    decreases ports.len(),
{
    if ports.len() == 0 {
        before
    } else {
        extended(before, ports.drop_last()).insert(ports.last().0, ports.last().1)
    }
}

/// Setting the mailboxes of some ports changes no other port, and a port that
/// is not set again keeps the mailbox it was set to.
pub proof fn law_last_mailbox_wins(
    before: Map<u32, ObjectId>,
    ports: Seq<(u32, ObjectId)>,
    i: int,
    port: u32,
)
    ensures
        0 <= i < ports.len() && ports[i].0 == port && (forall|j: int|
            i < j < ports.len() ==> (#[trigger] ports[j]).0 != port) ==> extended(
            before,
            ports,
        ).contains_key(port) && extended(before, ports)[port] == ports[i].1,
        (forall|j: int| 0 <= j < ports.len() ==> (#[trigger] ports[j]).0 != port) ==> extended(
            before,
            ports,
        ).contains_key(port) == before.contains_key(port) && extended(before, ports)[port]
            == before[port],
    decreases ports.len(),
{
    if ports.len() > 0 {
        let rest = ports.drop_last();
        law_last_mailbox_wins(before, rest, i, port);
        assert(ports[ports.len() - 1] == ports.last());
        if 0 <= i < rest.len() && ports[i].0 == port && (forall|j: int|
            i < j < ports.len() ==> (#[trigger] ports[j]).0 != port) {
            assert forall|j: int| i < j < rest.len() implies (#[trigger] rest[j]).0 != port by {
                assert(rest[j] == ports[j]);
            }
        }
        if forall|j: int| 0 <= j < ports.len() ==> (#[trigger] ports[j]).0 != port {
            assert forall|j: int| 0 <= j < rest.len() implies (#[trigger] rest[j]).0 != port by {
                assert(rest[j] == ports[j]);
            }
        }
    }
}

/// Sets the mailboxes of `ports`.
pub fn extend_mailboxes(mailboxes: &mut HashMap<u32, ObjectId>, ports: &Vec<(u32, ObjectId)>)
    ensures
        final(mailboxes)@ == extended(old(mailboxes)@, ports@),
{
    let mut i: usize = 0;
    assert(ports@.take(0) =~= Seq::empty());
    while i < ports.len()
        invariant
            i <= ports.len(),
            mailboxes@ == extended(old(mailboxes)@, ports@.take(i as int)),
        decreases ports.len() - i,
    {
        let (port, mailbox) = ports[i];
        mailboxes.insert(port, mailbox);
        proof {
            lemma_take_next(ports@, i as int);
        }
        i = i + 1;
    }
    assert(ports@.take(i as int) =~= ports@);
}

/// Every map has an entry for exactly the given ids.
pub open spec fn all_cover(maps: Seq<HashMap<u32, ObjectId>>, ids: Set<u32>) -> bool {
    forall|i: int| #![trigger maps[i]] 0 <= i < maps.len() ==> maps[i]@.dom() == ids
}

/// Random mailboxes for the listed ids, `count` times over.
pub fn draw_maps(ids: &Vec<u32>, count: usize) -> (maps: Vec<HashMap<u32, ObjectId>>)
    requires
        ids@.no_duplicates(),
    ensures
        maps@.len() == count,
        all_cover(maps@, ids@.to_set()),
        forall|i: int|
            #![trigger maps@[i]]
            0 <= i < maps@.len() ==> all_random(maps@[i]@),
{
    let mut maps: Vec<HashMap<u32, ObjectId>> = Vec::new();
    let mut i: usize = 0;
    while i < count
        invariant
            i <= count,
            ids@.no_duplicates(),
            maps@.len() == i,
            all_cover(maps@, ids@.to_set()),
            forall|j: int|
                #![trigger maps@[j]]
                0 <= j < maps@.len() ==> all_random(maps@[j]@),
        decreases count - i,
    {
        maps.push(fresh_mailboxes(ids));
        i = i + 1;
    }
    maps
}

/// `count` maps without entries.
pub fn empty_maps(count: usize) -> (maps: Vec<HashMap<u32, ObjectId>>)
    ensures
        maps@.len() == count,
        all_cover(maps@, Set::empty()),
{
    let mut maps: Vec<HashMap<u32, ObjectId>> = Vec::new();
    let mut i: usize = 0;
    while i < count
        invariant
            i <= count,
            maps@.len() == i,
            all_cover(maps@, Set::empty()),
        decreases count - i,
    {
        let map: HashMap<u32, ObjectId> = HashMap::new();
        assert(map@.dom() =~= Set::empty());
        maps.push(map);
        i = i + 1;
    }
    maps
}

/// Counters that start at zero for the given ids.
pub open spec fn all_zero(counts: Map<u32, usize>, ids: Set<u32>) -> bool {
    &&& counts.dom() == ids
    &&& forall|id: u32| #[trigger] counts.contains_key(id) ==> counts[id] == 0
}

/// A map from every listed id to zero.
pub fn zero_counts(ids: &Vec<u32>) -> (counts: HashMap<u32, usize>)
    ensures
        all_zero(counts@, ids@.to_set()),
{
    let mut counts: HashMap<u32, usize> = HashMap::new();
    let mut i: usize = 0;
    assert(ids@.take(0).to_set() =~= Set::empty());
    assert(counts@.dom() =~= Set::empty());
    while i < ids.len()
        invariant
            i <= ids.len(),
            all_zero(counts@, ids@.take(i as int).to_set()),
        decreases ids.len() - i,
    {
        counts.insert(ids[i], 0);
        proof {
            lemma_take_next(ids@, i as int);
        }
        i = i + 1;
    }
    assert(ids@.take(i as int) =~= ids@);
    counts
}

/// The members of `ids` below `limit`.
pub open spec fn ids_below(ids: Set<u32>, limit: u32) -> Set<u32> {
    ids.filter(|id: u32| id < limit)
}

/// The smallest port without a current mailbox.
pub open spec fn first_missing(ports: Set<u32>, current: Map<u32, ObjectId>, port: u32) -> bool {
    &&& ports.contains(port)
    &&& !current.contains_key(port)
    &&& forall|other: u32| ports.contains(other) && other < port ==> current.contains_key(other)
}

/// The ports of `done` have a mailbox for every step: for the first the one
/// they listen at now, for the others those of `later`.
pub open spec fn inputs_allocated(
    done: Set<u32>,
    current: Map<u32, ObjectId>,
    later: Seq<HashMap<u32, ObjectId>>,
    input_ids: Seq<HashMap<u32, ObjectId>>,
) -> bool {
    &&& all_cover(input_ids, done)
    &&& forall|port: u32| #[trigger] done.contains(port) ==> input_ids[0]@[port] == current[port]
    &&& forall|i: int, port: u32|
        #![trigger input_ids[i]@[port]]
        1 <= i < input_ids.len() && done.contains(port) ==> input_ids[i]@[port] == later[i
            - 1]@[port]
}

/// Gives one port its mailbox for every step.
fn allocate_port(
    input_ids: &mut Vec<HashMap<u32, ObjectId>>,
    port: u32,
    initial: ObjectId,
    later: &Vec<HashMap<u32, ObjectId>>,
    Ghost(done): Ghost<Set<u32>>,
    Ghost(current): Ghost<Map<u32, ObjectId>>,
)
    requires
        later@.len() + 1 == old(input_ids)@.len(),
        forall|i: int|
            #![trigger later@[i]]
            0 <= i < later@.len() ==> later@[i]@.contains_key(port),
        !done.contains(port),
        current[port] == initial,
        inputs_allocated(done, current, later@, old(input_ids)@),
    ensures
        final(input_ids)@.len() == old(input_ids)@.len(),
        inputs_allocated(done.insert(port), current, later@, final(input_ids)@),
{
    input_ids[0].insert(port, initial);
    let mut i: usize = 1;
    while i < input_ids.len()
        invariant
            1 <= i <= input_ids@.len(),
            input_ids@.len() == old(input_ids)@.len(),
            later@.len() + 1 == input_ids@.len(),
            forall|j: int|
                #![trigger later@[j]]
                0 <= j < later@.len() ==> later@[j]@.contains_key(port),
            input_ids@[0]@ == old(input_ids)@[0]@.insert(port, initial),
            forall|j: int|
                #![trigger input_ids@[j]]
                1 <= j < i ==> input_ids@[j]@ == old(input_ids)@[j]@.insert(
                    port,
                    later@[j - 1]@[port],
                ),
            forall|j: int|
                #![trigger input_ids@[j]]
                i <= j < input_ids@.len() ==> input_ids@[j] == old(input_ids)@[j],
        decreases input_ids@.len() - i,
    {
        assert(later@[i - 1]@.contains_key(port));
        let mailbox = *later[i - 1].get(&port).unwrap();
        input_ids[i].insert(port, mailbox);
        i = i + 1;
    }
    proof {
        assert forall|j: int|
            #![trigger input_ids@[j]]
            0 <= j < input_ids@.len() implies input_ids@[j]@.dom() == done.insert(port) by {
            assert(old(input_ids)@[j]@.dom() == done);
        }
        assert forall|j: int, p: u32|
            #![trigger input_ids@[j]@[p]]
            1 <= j < input_ids@.len() && done.insert(port).contains(p) implies input_ids@[j]@[p]
            == later@[j - 1]@[p] by {
            if p != port {
                assert(old(input_ids)@[j]@[p] == later@[j - 1]@[p]);
            }
        }
    }
}

/// Gives every port its mailbox for every step. Stops at the first port that
/// has no current mailbox, and names it.
pub fn allocate_inputs(
    ports: &Vec<u32>,
    current: &HashMap<u32, ObjectId>,
    later: &Vec<HashMap<u32, ObjectId>>,
) -> (allocated: (Vec<HashMap<u32, ObjectId>>, Option<u32>))
    requires
        crate::collections::strictly_increasing(ports@),
        later@.len() < usize::MAX,
        all_cover(later@, ports@.to_set()),
    ensures
        allocated.0@.len() == later@.len() + 1,
        allocated.1 is None <==> forall|port: u32| #[trigger]
            ports@.contains(port) ==> current@.contains_key(port),
        match allocated.1 {
            None => inputs_allocated(ports@.to_set(), current@, later@, allocated.0@),
            Some(port) => {
                &&& first_missing(ports@.to_set(), current@, port)
                &&& inputs_allocated(
                    ids_below(ports@.to_set(), port),
                    current@,
                    later@,
                    allocated.0@,
                )
            },
        },
{
    let mut input_ids = empty_maps(later.len() + 1);
    let mut i: usize = 0;
    assert(ports@.take(0).to_set() =~= Set::empty());
    while i < ports.len()
        invariant
            i <= ports.len(),
            crate::collections::strictly_increasing(ports@),
            all_cover(later@, ports@.to_set()),
            input_ids@.len() == later@.len() + 1,
            inputs_allocated(ports@.take(i as int).to_set(), current@, later@, input_ids@),
            forall|j: int| #![trigger ports@[j]] 0 <= j < i ==> current@.contains_key(ports@[j]),
        decreases ports.len() - i,
    {
        let port = ports[i];
        let ghost done = ports@.take(i as int).to_set();
        proof {
            lemma_take_next(ports@, i as int);
            assert(ports@.contains(port));
            assert(!done.contains(port)) by {
                if ports@.take(i as int).contains(port) {
                    let k = choose|k: int| 0 <= k < i && ports@.take(i as int)[k] == port;
                    assert(ports@[k] < ports@[i as int]);
                }
            }
            assert forall|k: int|
                #![trigger later@[k]]
                0 <= k < later@.len() implies later@[k]@.contains_key(port) by {
                assert(later@[k]@.dom().contains(port));
            }
        }
        match current.get(&port) {
            Some(initial) => {
                allocate_port(&mut input_ids, port, *initial, later, Ghost(done), Ghost(current@));
            },
            None => {
                proof {
                    assert forall|other: u32|
                        done.contains(other) <==> ids_below(ports@.to_set(), port).contains(
                            other,
                        ) by {
                        if ports@.take(i as int).contains(other) {
                            let k = choose|k: int| 0 <= k < i && ports@.take(i as int)[k] == other;
                            assert(ports@[k] < ports@[i as int]);
                            assert(ports@.contains(other));
                        }
                        if ports@.contains(other) && other < port {
                            let k = choose|k: int| 0 <= k < ports@.len() && ports@[k] == other;
                            if k > i {
                                assert(ports@[i as int] < ports@[k]);
                            }
                            assert(ports@.take(i as int)[k] == other);
                        }
                    }
                    assert(done =~= ids_below(ports@.to_set(), port));
                    assert forall|other: u32|
                        ports@.to_set().contains(other) && other
                            < port implies current@.contains_key(other) by {
                        assert(ids_below(ports@.to_set(), port).contains(other));
                        let k = choose|k: int| 0 <= k < i && ports@.take(i as int)[k] == other;
                        assert(current@.contains_key(ports@[k]));
                    }
                }
                return (input_ids, Some(port));
            },
        }
        i = i + 1;
    }
    assert(ports@.take(i as int) =~= ports@);
    (input_ids, None)
}

/// The entries of a map below `limit`.
pub fn keep_below(mailboxes: &HashMap<u32, ObjectId>, limit: u32) -> (kept: HashMap<u32, ObjectId>)
    ensures
        kept@ == mailboxes@.restrict(ids_below(mailboxes@.dom(), limit)),
{
    let ids = crate::collections::sorted_keys(mailboxes);
    let mut kept: HashMap<u32, ObjectId> = HashMap::new();
    let mut i: usize = 0;
    while i < ids.len()
        invariant
            i <= ids.len(),
            ids@.to_set() == mailboxes@.dom(),
            forall|id: u32| #[trigger]
                kept@.contains_key(id) <==> ids@.take(i as int).contains(id) && id < limit,
            forall|id: u32| #[trigger] kept@.contains_key(id) ==> kept@[id] == mailboxes@[id],
        decreases ids.len() - i,
    {
        let id = ids[i];
        proof {
            assert(ids@.contains(id));
            assert(ids@.to_set().contains(id));
            lemma_take_next(ids@, i as int);
        }
        if id < limit {
            kept.insert(id, *mailboxes.get(&id).unwrap());
        }
        i = i + 1;
    }
    proof {
        assert(ids@.take(i as int) =~= ids@);
        assert forall|id: u32| ids@.contains(id) <==> mailboxes@.dom().contains(id) by {
            assert(ids@.to_set().contains(id) <==> mailboxes@.dom().contains(id));
        }
        assert(kept@ =~= mailboxes@.restrict(ids_below(mailboxes@.dom(), limit)));
    }
    kept
}

} // verus!
