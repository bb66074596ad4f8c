//! Party identifiers and the walk over a party registry.

use std::collections::HashMap;
use vstd::prelude::*;
use vstd::std_specs::hash::*;
use vstd::std_specs::iter::IteratorSpec;

verus! {

/// Identifier of one participant of a run.
pub type PartyID = u16;

/// The identifiers registered in `registry`, each exactly once, in no particular order.
pub fn party_ids<T>(registry: &HashMap<PartyID, T>) -> (ids: Vec<PartyID>)
    ensures
        ids@.no_duplicates(),
        ids@.to_set() == registry@.dom(),
        ids@.len() == registry@.dom().len(),
{
    broadcast use group_hash_axioms;
    let mut ids: Vec<PartyID> = Vec::new();
    let keys = registry.keys();
    let ghost walk = keys.remaining();
    for id in it: keys
        invariant
            it.seq() == walk,
            ids@.len() == it.index(),
            forall|j: int| 0 <= j < ids@.len() ==> ids@[j] == *walk[j],
    {
        ids.push(*id);
    }
    assert(ids@ =~= walk.unref());
    ids
}

/// Some party of `registry`, if there is any; which one is not specified.
pub fn any_party<T>(registry: &HashMap<PartyID, T>) -> (res: Option<PartyID>)
    ensures
        match res {
            Some(party_id) => registry@.contains_key(party_id),
            None => registry@.dom().is_empty(),
        },
{
    let ids = party_ids(registry);
    if ids.len() == 0 {
        assert(ids@.to_set() =~= Set::<PartyID>::empty());
        None
    } else {
        assert(ids@.to_set().contains(ids@[0]));
        Some(ids[0])
    }
}

/// Walking `ids` one step further adds exactly the identifier at position `k` to the
/// parties already passed.
pub proof fn walk_step(ids: Seq<PartyID>, k: int)
    requires
        0 <= k < ids.len(),
    ensures
        ids.take(k + 1).to_set() == ids.take(k).to_set().insert(ids[k]),
{
    let done = ids.take(k);
    let next = ids.take(k + 1);
    assert(next =~= done.push(ids[k]));
    assert forall|party_id: PartyID| next.to_set().contains(party_id) <==> done.to_set().insert(
        ids[k],
    ).contains(party_id) by {
        if done.contains(party_id) {
            let j = choose|j: int| 0 <= j < done.len() && done[j] == party_id;
            assert(next[j] == party_id);
        }
        if next.contains(party_id) {
            let j = choose|j: int| 0 <= j < next.len() && next[j] == party_id;
            if j < k {
                assert(done[j] == party_id);
            }
        }
        assert(next[k] == ids[k]);
    }
    assert(next.to_set() =~= done.to_set().insert(ids[k]));
}

/// A walk over `ids` has passed nobody at its start and everybody at its end.
pub proof fn walk_ends(ids: Seq<PartyID>)
    ensures
        ids.take(0).to_set() == Set::<PartyID>::empty(),
        ids.take(ids.len() as int) == ids,
{
    assert(ids.take(0).to_set() =~= Set::<PartyID>::empty());
    assert(ids.take(ids.len() as int) =~= ids);
}

} // verus!
