//! Reshaping batched data between the party-major and the claim-major layout.
//!
//! Party-major data maps each party to its sequence of per-claim values; claim-major
//! data is a sequence, one entry per claim, of maps from each party to its value for
//! that claim. Every round boundary turns the former into the latter.

use crate::error::Error;
use crate::party::{any_party, party_ids, walk_ends, walk_step, PartyID};
use std::collections::HashMap;
use vstd::prelude::*;
use vstd::std_specs::hash::*;

verus! {

/// Party-major model of a registry of per-claim vectors.
pub open spec fn party_major_view<T>(batches: HashMap<PartyID, Vec<T>>) -> Map<PartyID, Seq<T>> {
    batches@.map_values(|column: Vec<T>| column@)
}

/// Claim-major model of a vector of per-claim sets.
pub open spec fn claim_major_view<T>(sets: Vec<HashMap<PartyID, T>>) -> Seq<Map<PartyID, T>> {
    sets@.map_values(|set: HashMap<PartyID, T>| set@)
}

/// Every party holds exactly `batch_size` values.
pub open spec fn uniform<T>(batches: Map<PartyID, Seq<T>>, batch_size: nat) -> bool {
    forall|party_id: PartyID| #[trigger]
        batches.contains_key(party_id) ==> batches[party_id].len() == batch_size
}

/// The number of values that an arbitrary party of `batches` holds: the batch size, where
/// the parties agree on one.
pub open spec fn batch_size_of<T>(batches: Map<PartyID, Seq<T>>) -> nat {
    batches[batches.dom().choose()].len()
}

/// At least one party, and all parties hold the same number of values.
pub open spec fn well_shaped<T>(batches: Map<PartyID, Seq<T>>) -> bool {
    &&& !batches.dom().is_empty()
    &&& uniform(batches, batch_size_of(batches))
}

/// The claim-major layout of `batches`: entry `claim` maps every party to the value it
/// holds at index `claim`.
pub open spec fn claim_major<T>(batches: Map<PartyID, Seq<T>>, batch_size: nat) -> Seq<
    Map<PartyID, T>,
> {
    Seq::new(batch_size, |claim: int| batches.map_values(|column: Seq<T>| column[claim]))
}

/// Every set holds exactly one value for each of `parties`, and for nobody else.
pub open spec fn complete<T>(sets: Seq<Map<PartyID, T>>, parties: Set<PartyID>) -> bool {
    forall|claim: int| 0 <= claim < sets.len() ==> (#[trigger] sets[claim]).dom() == parties
}

/// The party-major layout of `sets`: every party of the first set is mapped to the
/// values that the sets hold for it, in claim order.
pub open spec fn party_major<T>(sets: Seq<Map<PartyID, T>>) -> Map<PartyID, Seq<T>> {
    if sets.len() == 0 {
        Map::empty()
    } else {
        Map::new(
            |party_id: PartyID| sets[0].contains_key(party_id),
            |party_id: PartyID| Seq::new(sets.len(), |claim: int| sets[claim][party_id]),
        )
    }
}

/// The claim-major layout has one set per claim, and every set holds exactly one value
/// for each party of `batches`, the one that the party holds for that claim: as many
/// entries as there are parties, no party dropped and none added.
pub proof fn claim_major_is_complete<T>(batches: Map<PartyID, Seq<T>>, batch_size: nat)
    ensures
        claim_major(batches, batch_size).len() == batch_size,
        complete(claim_major(batches, batch_size), batches.dom()),
        forall|claim: int|
            0 <= claim < batch_size ==> (#[trigger] claim_major(batches, batch_size)[claim]).len()
                == batches.len(),
        forall|claim: int, party_id: PartyID|
            0 <= claim < batch_size && batches.contains_key(party_id) ==> #[trigger] claim_major(
                batches,
                batch_size,
            )[claim][party_id] == batches[party_id][claim],
{
    assert forall|claim: int| 0 <= claim < batch_size implies (#[trigger] claim_major(
        batches,
        batch_size,
    )[claim]).dom() == batches.dom() by {
        assert(claim_major(batches, batch_size)[claim].dom() =~= batches.dom());
    }
}

/// Transposing party-major data of uniform length to the claim-major layout and back
/// yields the data unchanged. With an empty batch the claim-major layout keeps no trace
/// of the parties, so the law is stated for a batch of at least one claim, or no party.
pub proof fn transpose_round_trip<T>(batches: Map<PartyID, Seq<T>>, batch_size: nat)
    requires
        uniform(batches, batch_size),
        batch_size > 0 || batches.dom() == Set::<PartyID>::empty(),
    ensures
        party_major(claim_major(batches, batch_size)) == batches,
{
    let sets = claim_major(batches, batch_size);
    let back = party_major(sets);
    if batch_size == 0 {
        assert(back =~= batches);
    } else {
        assert forall|party_id: PartyID|
            back.contains_key(party_id) implies #[trigger] back[party_id]
            == batches[party_id] by {
            assert(batches.contains_key(party_id));
            assert(back[party_id] =~= batches[party_id]);
        }
        assert(back =~= batches);
    }
}

/// Transposing claim-major sets over one common party set to the party-major layout
/// and back yields the sets unchanged.
pub proof fn inverse_transpose_round_trip<T>(sets: Seq<Map<PartyID, T>>, parties: Set<PartyID>)
    requires
        complete(sets, parties),
    ensures
        uniform(party_major(sets), sets.len()),
        claim_major(party_major(sets), sets.len()) == sets,
{
    let batches = party_major(sets);
    let back = claim_major(batches, sets.len());
    assert forall|claim: int| 0 <= claim < sets.len() implies #[trigger] back[claim]
        == sets[claim] by {
        assert(sets[0].dom() == parties);
        assert(sets[claim].dom() == parties);
        assert(back[claim] =~= sets[claim]);
    }
    assert(back =~= sets);
}

/// Parties that agree on a number of values agree on the batch size, and on no other
/// number.
pub proof fn batch_size_is_unique<T>(batches: Map<PartyID, Seq<T>>, batch_size: nat)
    requires
        !batches.dom().is_empty(),
        uniform(batches, batch_size),
    ensures
        batch_size == batch_size_of(batches),
        well_shaped(batches),
{
    assert(batches.contains_key(batches.dom().choose())) by {
        if forall|party_id: PartyID| !batches.dom().contains(party_id) {
            assert(batches.dom() =~= Set::<PartyID>::empty());
        }
    }
}

/// Whether `batches` holds `batch_size` values for every party.
pub fn has_batch_size<T>(batches: &HashMap<PartyID, Vec<T>>, batch_size: usize) -> (res: bool)
    ensures
        res == uniform(party_major_view(*batches), batch_size as nat),
{
    broadcast use group_hash_axioms;

    let ids = party_ids(batches);
    let mut k: usize = 0;
    while k < ids.len()
        invariant
            k <= ids@.len(),
            ids@.to_set() == batches@.dom(),
            forall|j: int|
                0 <= j < k ==> (#[trigger] party_major_view(*batches)[ids@[j]]).len()
                    == batch_size,
        decreases ids@.len() - k,
    {
        let party_id: PartyID = ids[k];
        assert(ids@.to_set().contains(party_id));
        match batches.get(&party_id) {
            Some(column) => {
                if column.len() != batch_size {
                    assert(party_major_view(*batches).contains_key(party_id));
                    assert(party_major_view(*batches)[party_id] == column@);
                    return false;
                }
            },
            None => unreached(),
        }
        k += 1;
    }
    assert forall|party_id: PartyID| #[trigger]
        party_major_view(*batches).contains_key(party_id) implies party_major_view(
        *batches,
    )[party_id].len() == batch_size by {
        assert(ids@.to_set().contains(party_id));
        let j = choose|j: int| 0 <= j < ids@.len() && ids@[j] == party_id;
        assert(party_major_view(*batches)[ids@[j]].len() == batch_size);
    }
    true
}

/// The number of claims of the batch, taken from an arbitrary party and held against
/// every other.
///
/// An empty party set is rejected, and so are parties that do not all hold the same
/// number of values.
pub fn batch_size<T, E>(batches: &HashMap<PartyID, Vec<T>>) -> (res: Result<usize, Error<E>>)
    ensures
        match res {
            Ok(batch_size) => {
                &&& well_shaped(party_major_view(*batches))
                &&& batch_size == batch_size_of(party_major_view(*batches))
            },
            Err(Error::EmptyPartySet) => party_major_view(*batches).dom().is_empty(),
            Err(Error::BatchShapeMismatch) => {
                &&& !party_major_view(*batches).dom().is_empty()
                &&& !well_shaped(party_major_view(*batches))
            },
            Err(Error::Transition { .. }) => false,
        },
{
    broadcast use group_hash_axioms;

    let party_id = match any_party(batches) {
        Some(party_id) => party_id,
        None => {
            assert(party_major_view(*batches).dom() =~= batches@.dom());
            return Err(Error::EmptyPartySet);
        },
    };
    assert(party_major_view(*batches).dom().contains(party_id));
    match batches.get(&party_id) {
        Some(column) => {
            let batch_size: usize = column.len();
            if has_batch_size(batches, batch_size) {
                proof {
                    batch_size_is_unique(party_major_view(*batches), batch_size as nat);
                }
                Ok(batch_size)
            } else {
                assert(party_major_view(*batches)[party_id] == column@);
                Err(Error::BatchShapeMismatch)
            }
        },
        None => unreached(),
    }
}

/// Turns party-major `batches` into the claim-major layout, moving every value.
///
/// Succeeds exactly when every party holds `batch_size` values; entry `claim` of the
/// result then maps every party to the value that it held at index `claim`.
pub fn transpose<T>(batches: HashMap<PartyID, Vec<T>>, batch_size: usize) -> (res: Option<
    Vec<HashMap<PartyID, T>>,
>)
    ensures
        res is Some <==> uniform(party_major_view(batches), batch_size as nat),
        res matches Some(sets) ==> claim_major_view(sets) == claim_major(
            party_major_view(batches),
            batch_size as nat,
        ),
{
    broadcast use group_hash_axioms;

    if !has_batch_size(&batches, batch_size) {
        return None;
    }
    let ghost given = party_major_view(batches);
    let ids = party_ids(&batches);
    let mut batches = batches;
    let mut sets: Vec<HashMap<PartyID, T>> = Vec::new();
    let mut claim: usize = 0;
    while claim < batch_size
        invariant
            claim <= batch_size,
            sets@.len() == claim,
            forall|i: int| 0 <= i < claim ==> (#[trigger] sets@[i])@ == Map::<PartyID, T>::empty(),
        decreases batch_size - claim,
    {
        sets.push(HashMap::new());
        claim += 1;
    }
    let mut k: usize = 0;
    proof {
        walk_ends(ids@);
        assert forall|i: int| 0 <= i < batch_size implies (#[trigger] sets@[i])@.dom()
            == ids@.take(0).to_set() by {
            assert(sets@[i]@.dom() =~= Set::<PartyID>::empty());
        }
    }
    while k < ids.len()
        invariant
            k <= ids@.len(),
            ids@.no_duplicates(),
            ids@.to_set() == given.dom(),
            uniform(given, batch_size as nat),
            sets@.len() == batch_size,
            forall|j: int|
                k <= j < ids@.len() ==> batches@.contains_key(#[trigger] ids@[j])
                    && batches@[ids@[j]]@ == given[ids@[j]],
            forall|i: int|
                0 <= i < batch_size ==> (#[trigger] sets@[i])@.dom() == ids@.take(
                    k as int,
                ).to_set(),
            forall|i: int, party_id: PartyID|
                0 <= i < batch_size && #[trigger] sets@[i]@.contains_key(party_id)
                    ==> sets@[i]@[party_id] == given[party_id][i],
        decreases ids@.len() - k,
    {
        let party_id: PartyID = ids[k];
        let ghost before = sets@;
        assert(ids@.to_set().contains(party_id));
        match batches.remove(&party_id) {
            Some(column) => {
                let mut column = column;
                let mut claim: usize = batch_size;
                while claim > 0
                    invariant
                        claim <= batch_size,
                        sets@.len() == batch_size,
                        before.len() == batch_size,
                        column@ == given[party_id].take(claim as int),
                        given[party_id].len() == batch_size,
                        forall|i: int|
                            claim <= i < batch_size ==> (#[trigger] sets@[i])@ == before[i]@.insert(
                                party_id,
                                given[party_id][i],
                            ),
                        forall|i: int| 0 <= i < claim ==> #[trigger] sets@[i] == before[i],
                    decreases claim,
                {
                    claim -= 1;
                    match column.pop() {
                        Some(item) => {
                            sets[claim].insert(party_id, item);
                        },
                        None => unreached(),
                    }
                }
            },
            None => unreached(),
        }
        proof {
            walk_step(ids@, k as int);
            assert forall|i: int| 0 <= i < batch_size implies (#[trigger] sets@[i])@.dom()
                == ids@.take(k as int + 1).to_set() by {
                assert(sets@[i]@.dom() =~= before[i]@.dom().insert(party_id));
            }
        }
        k += 1;
    }
    proof {
        let target = claim_major(given, batch_size as nat);
        walk_ends(ids@);
        assert forall|i: int| 0 <= i < batch_size implies #[trigger] claim_major_view(sets)[i]
            == target[i] by {
            assert(sets@[i]@.dom() == given.dom());
            assert(sets@[i]@ =~= target[i]);
        }
        assert(claim_major_view(sets) =~= target);
    }
    Some(sets)
}

/// Whether `set` holds a value for each of `ids` and for nobody else.
fn has_parties<T>(set: &HashMap<PartyID, T>, ids: &Vec<PartyID>) -> (res: bool)
    requires
        ids@.no_duplicates(),
    ensures
        res == (set@.dom() == ids@.to_set()),
{
    broadcast use group_hash_axioms;

    proof {
        ids@.unique_seq_to_set();
    }
    if set.len() != ids.len() {
        return false;
    }
    let mut k: usize = 0;
    while k < ids.len()
        invariant
            k <= ids@.len(),
            forall|j: int| 0 <= j < k ==> set@.contains_key(#[trigger] ids@[j]),
        decreases ids@.len() - k,
    {
        if !set.contains_key(&ids[k]) {
            assert(ids@.to_set().contains(ids@[k as int]));
            return false;
        }
        k += 1;
    }
    proof {
        assert(ids@.to_set().subset_of(set@.dom())) by {
            assert forall|party_id: PartyID|
                ids@.to_set().contains(party_id) implies set@.dom().contains(party_id) by {
                let j = choose|j: int| 0 <= j < ids@.len() && ids@[j] == party_id;
                assert(set@.contains_key(ids@[j]));
            }
        }
        vstd::set_lib::lemma_subset_equality(ids@.to_set(), set@.dom());
    }
    true
}

/// Turns claim-major `sets` back into the party-major layout, moving every value.
///
/// Succeeds exactly when all sets hold values for the same parties; every such party is
/// then mapped to its values in claim order.
pub fn inverse_transpose<T>(sets: Vec<HashMap<PartyID, T>>) -> (res: Option<
    HashMap<PartyID, Vec<T>>,
>)
    ensures
        res is Some <==> exists|parties: Set<PartyID>| #[trigger]
            complete(claim_major_view(sets), parties),
        res matches Some(batches) ==> party_major_view(batches) == party_major(
            claim_major_view(sets),
        ),
{
    broadcast use group_hash_axioms;

    let ghost given = claim_major_view(sets);
    let mut batches: HashMap<PartyID, Vec<T>> = HashMap::new();
    if sets.len() == 0 {
        assert(complete(given, Set::<PartyID>::empty()));
        assert(party_major_view(batches) =~= party_major(given));
        return Some(batches);
    }
    let ids = party_ids(&sets[0]);
    let mut claim: usize = 0;
    while claim < sets.len()
        invariant
            claim <= sets@.len(),
            ids@.no_duplicates(),
            given == claim_major_view(sets),
            given[0].dom() == ids@.to_set(),
            forall|i: int| 0 <= i < claim ==> (#[trigger] given[i]).dom() == ids@.to_set(),
        decreases sets@.len() - claim,
    {
        if !has_parties(&sets[claim], &ids) {
            assert forall|parties: Set<PartyID>| !#[trigger] complete(given, parties) by {
                if complete(given, parties) {
                    assert(given[0].dom() == parties);
                    assert(given[claim as int].dom() == parties);
                    assert(given[claim as int] == sets@[claim as int]@);
                }
            }
            return None;
        }
        claim += 1;
    }
    assert(complete(given, ids@.to_set()));
    let mut sets = sets;
    let mut k: usize = 0;
    proof {
        walk_ends(ids@);
        assert(batches@.dom() =~= Set::<PartyID>::empty());
        assert forall|i: int| 0 <= i < sets@.len() implies (#[trigger] sets@[i])@.dom()
            == ids@.to_set().difference(ids@.take(0).to_set()) by {
            assert(given[i].dom() == ids@.to_set());
            assert(sets@[i]@.dom() =~= ids@.to_set().difference(ids@.take(0).to_set()));
        }
    }
    while k < ids.len()
        invariant
            k <= ids@.len(),
            ids@.no_duplicates(),
            sets@.len() == given.len(),
            given.len() > 0,
            complete(given, ids@.to_set()),
            forall|i: int|
                0 <= i < sets@.len() ==> (#[trigger] sets@[i])@.dom() == ids@.to_set().difference(
                    ids@.take(k as int).to_set(),
                ),
            forall|i: int, party_id: PartyID|
                0 <= i < sets@.len() && #[trigger] sets@[i]@.contains_key(party_id)
                    ==> sets@[i]@[party_id] == given[i][party_id],
            batches@.dom() == ids@.take(k as int).to_set(),
            forall|party_id: PartyID| #[trigger]
                batches@.contains_key(party_id) ==> batches@[party_id]@ == party_major(
                    given,
                )[party_id],
        decreases ids@.len() - k,
    {
        let party_id: PartyID = ids[k];
        let ghost before = sets@;
        let mut column: Vec<T> = Vec::new();
        let mut claim: usize = 0;
        proof {
            walk_step(ids@, k as int);
            assert(ids@.to_set().contains(party_id));
            assert(!ids@.take(k as int).to_set().contains(party_id)) by {
                if ids@.take(k as int).contains(party_id) {
                    let j = choose|j: int| 0 <= j < k && ids@.take(k as int)[j] == party_id;
                    assert(ids@[j] == ids@[k as int]);
                }
            }
            assert forall|i: int| 0 <= i < before.len() implies (
            #[trigger] before[i])@.contains_key(party_id) && before[i]@[party_id]
                == given[i][party_id] by {
                assert(sets@[i]@.dom().contains(party_id));
            }
        }
        while claim < sets.len()
            invariant
                claim <= sets@.len(),
                sets@.len() == before.len(),
                before.len() == given.len(),
                column@.len() == claim,
                forall|i: int| 0 <= i < claim ==> #[trigger] column@[i] == given[i][party_id],
                forall|i: int|
                    0 <= i < claim ==> (#[trigger] sets@[i])@ == before[i]@.remove(party_id),
                forall|i: int| claim <= i < sets@.len() ==> #[trigger] sets@[i] == before[i],
                forall|i: int|
                    0 <= i < before.len() ==> (#[trigger] before[i])@.contains_key(party_id)
                        && before[i]@[party_id] == given[i][party_id],
            decreases sets@.len() - claim,
        {
            match sets[claim].remove(&party_id) {
                Some(item) => {
                    column.push(item);
                },
                None => unreached(),
            }
            claim += 1;
        }
        batches.insert(party_id, column);
        proof {
            assert(given[0].dom() == ids@.to_set());
            assert(party_major(given).contains_key(party_id));
            assert(column@ =~= party_major(given)[party_id]);
            assert forall|i: int| 0 <= i < sets@.len() implies (#[trigger] sets@[i])@.dom()
                == ids@.to_set().difference(ids@.take(k as int + 1).to_set()) by {
                assert(sets@[i]@.dom() =~= ids@.to_set().difference(
                    ids@.take(k as int + 1).to_set(),
                ));
            }
            assert(batches@.dom() =~= ids@.take(k as int + 1).to_set());
        }
        k += 1;
    }
    proof {
        walk_ends(ids@);
        assert(given[0].dom() == ids@.to_set());
        assert(party_major_view(batches) =~= party_major(given));
    }
    Some(batches)
}

} // verus!
