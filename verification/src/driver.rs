//! The round drivers: each applies the capability of one round to every party and every
//! claim, and keeps what comes out at the party and claim that it came from.

use crate::error::Error;
use crate::party::{party_ids, walk_ends, walk_step, PartyID};
use crate::rounds::{
    CommitmentRoundParty, DecommitmentRoundParty, ProofAggregationRoundParty,
    ProofShareRoundParty,
};
use crate::transpose::{claim_major_view, has_batch_size, party_major_view, uniform};
use rand_core::OsRng;
use std::collections::HashMap;
use vstd::prelude::*;
use vstd::std_specs::hash::*;
use vstd::std_specs::iter::IteratorSpec;

verus! {

/// Two party-major registries hold the same parties with the same number of claims each.
pub open spec fn same_shape<S, T>(
    first: Map<PartyID, Seq<S>>,
    second: Map<PartyID, Seq<T>>,
) -> bool {
    &&& first.dom() == second.dom()
    &&& forall|party_id: PartyID| #[trigger]
        first.contains_key(party_id) ==> first[party_id].len() == second[party_id].len()
}

/// Where a registry has the shape of a second, and the second that of a third, the
/// first has the shape of the third.
pub proof fn same_shape_is_transitive<S, T, U>(
    first: Map<PartyID, Seq<S>>,
    second: Map<PartyID, Seq<T>>,
    third: Map<PartyID, Seq<U>>,
)
    requires
        same_shape(first, second),
        same_shape(second, third),
    ensures
        same_shape(first, third),
{
    assert forall|party_id: PartyID| #[trigger]
        first.contains_key(party_id) implies first[party_id].len() == third[party_id].len() by {
        assert(second.contains_key(party_id));
    }
}

/// Registries of the same shape agree on whether they hold `batch_size` values per party.
pub proof fn same_shape_is_uniform<S, T>(
    first: Map<PartyID, Seq<S>>,
    second: Map<PartyID, Seq<T>>,
    batch_size: nat,
)
    requires
        same_shape(first, second),
        uniform(first, batch_size),
    ensures
        uniform(second, batch_size),
{
    assert forall|party_id: PartyID| #[trigger]
        second.contains_key(party_id) implies second[party_id].len() == batch_size by {
        assert(first.contains_key(party_id));
    }
}

/// The commitment round took every state of `parties` to the commitment and the next
/// state that stand at the same party and claim.
pub open spec fn committed<Output, P: CommitmentRoundParty<Output>>(
    parties: Map<PartyID, Seq<P>>,
    commitments: Map<PartyID, Seq<P::Commitment>>,
    next: Map<PartyID, Seq<P::DecommitmentRoundParty>>,
) -> bool {
    &&& same_shape(parties, commitments)
    &&& same_shape(parties, next)
    &&& forall|party_id: PartyID, claim: int|
        parties.contains_key(party_id) && 0 <= claim < parties[party_id].len() ==> (
        #[trigger] parties[party_id][claim]).may_commit(
            Ok((commitments[party_id][claim], next[party_id][claim])),
        )
}

/// The commitment of `party_id` for `claim` failed with `error`.
pub open spec fn commitment_failed<Output, P: CommitmentRoundParty<Output>>(
    parties: Map<PartyID, Seq<P>>,
    party_id: PartyID,
    claim: int,
    error: P::Error,
) -> bool {
    &&& parties.contains_key(party_id)
    &&& 0 <= claim < parties[party_id].len()
    &&& parties[party_id][claim].may_commit(Err(error))
}

/// Commits for every claim of one party, in claim order, stopping at the first failure.
fn commit_claims<Output, P: CommitmentRoundParty<Output>>(
    party_id: PartyID,
    states: Vec<P>,
    rng: &mut OsRng,
) -> (res: Result<(Vec<P::Commitment>, Vec<P::DecommitmentRoundParty>), Error<P::Error>>)
    ensures
        match res {
            Ok((commitments, next)) => {
                &&& commitments@.len() == states@.len()
                &&& next@.len() == states@.len()
                &&& forall|claim: int|
                    0 <= claim < states@.len() ==> (#[trigger] states@[claim]).may_commit(
                        Ok((commitments@[claim], next@[claim])),
                    )
            },
            Err(Error::Transition { party_id: failed, claim, error }) => {
                &&& failed == party_id
                &&& claim < states@.len()
                &&& states@[claim as int].may_commit(Err(error))
            },
            Err(_) => false,
        },
{
    broadcast use vstd::std_specs::vec::axiom_spec_into_iter;

    let ghost all = states@;
    let mut commitments: Vec<P::Commitment> = Vec::new();
    let mut next: Vec<P::DecommitmentRoundParty> = Vec::new();
    for state in it: states.into_iter()
        invariant
            it.seq() == all,
            commitments@.len() == it.index(),
            next@.len() == it.index(),
            forall|claim: int|
                0 <= claim < it.index() ==> (#[trigger] all[claim]).may_commit(
                    Ok((commitments@[claim], next@[claim])),
                ),
    {
        let claim: usize = commitments.len();
        match state.commit_statements_and_statement_mask(rng) {
            Ok((commitment, successor)) => {
                commitments.push(commitment);
                next.push(successor);
            },
            Err(error) => {
                return Err(Error::Transition { party_id, claim, error });
            },
        }
    }
    Ok((commitments, next))
}

/// The commitment round: every party commits for every one of its claims.
///
/// Each party's claims are taken in claim order; the parties are taken in no particular
/// order. On success the commitments and the states for the decommitment round stand at
/// the party and claim of the state they came from. The first transition that fails
/// ends the round, and nothing but its failure is returned.
pub fn commitment_round<Output, P: CommitmentRoundParty<Output>>(
    parties: HashMap<PartyID, Vec<P>>,
    rng: &mut OsRng,
) -> (res: Result<
    (HashMap<PartyID, Vec<P::Commitment>>, HashMap<PartyID, Vec<P::DecommitmentRoundParty>>),
    Error<P::Error>,
>)
    ensures
        match res {
            Ok((commitments, next)) => committed(
                party_major_view(parties),
                party_major_view(commitments),
                party_major_view(next),
            ),
            Err(Error::Transition { party_id, claim, error }) => commitment_failed(
                party_major_view(parties),
                party_id,
                claim as int,
                error,
            ),
            Err(_) => false,
        },
{
    broadcast use group_hash_axioms;

    let ghost given = party_major_view(parties);
    let ids = party_ids(&parties);
    let mut waiting = parties;
    let mut commitments: HashMap<PartyID, Vec<P::Commitment>> = HashMap::new();
    let mut next: HashMap<PartyID, Vec<P::DecommitmentRoundParty>> = HashMap::new();
    let mut k: usize = 0;
    proof {
        walk_ends(ids@);
    }
    while k < ids.len()
        invariant
            k <= ids@.len(),
            ids@.no_duplicates(),
            ids@.to_set() == given.dom(),
            given == party_major_view(parties),
            forall|j: int|
                k <= j < ids@.len() ==> waiting@.contains_key(#[trigger] ids@[j])
                    && waiting@[ids@[j]]@ == given[ids@[j]],
            commitments@.dom() == ids@.take(k as int).to_set(),
            next@.dom() == ids@.take(k as int).to_set(),
            forall|party_id: PartyID| #[trigger]
                commitments@.contains_key(party_id) ==> {
                    &&& commitments@[party_id]@.len() == given[party_id].len()
                    &&& next@[party_id]@.len() == given[party_id].len()
                },
            forall|party_id: PartyID, claim: int|
                commitments@.contains_key(party_id) && 0 <= claim < given[party_id].len() ==> (
                #[trigger] given[party_id][claim]).may_commit(
                    Ok((commitments@[party_id]@[claim], next@[party_id]@[claim])),
                ),
        decreases ids@.len() - k,
    {
        let party_id: PartyID = ids[k];
        assert(ids@.to_set().contains(party_id));
        proof {
            walk_step(ids@, k as int);
        }
        match waiting.remove(&party_id) {
            Some(states) => {
                assert(given.contains_key(party_id));
                assert(states@ == given[party_id]);
                match commit_claims(party_id, states, rng) {
                    Ok((messages, successors)) => {
                        commitments.insert(party_id, messages);
                        next.insert(party_id, successors);
                    },
                    Err(failure) => {
                        return Err(failure);
                    },
                }
            },
            None => unreached(),
        }
        assert(commitments@.dom() =~= ids@.take(k as int + 1).to_set());
        assert(next@.dom() =~= ids@.take(k as int + 1).to_set());
        k += 1;
    }
    proof {
        assert(party_major_view(commitments).dom() =~= given.dom());
        assert(party_major_view(next).dom() =~= given.dom());
    }
    Ok((commitments, next))
}

/// The decommitment round took every state of `parties`, together with the commitments
/// of its claim, to the decommitment and the next state that stand at the same party and
/// claim.
pub open spec fn decommitted<Output, P: DecommitmentRoundParty<Output>>(
    parties: Map<PartyID, Seq<P>>,
    commitments: Seq<Map<PartyID, P::Commitment>>,
    decommitments: Map<PartyID, Seq<P::Decommitment>>,
    next: Map<PartyID, Seq<P::ProofShareRoundParty>>,
) -> bool {
    &&& uniform(parties, commitments.len())
    &&& same_shape(parties, decommitments)
    &&& same_shape(parties, next)
    &&& forall|party_id: PartyID, claim: int|
        parties.contains_key(party_id) && 0 <= claim < commitments.len() ==> (
        #[trigger] parties[party_id][claim]).may_decommit(
            commitments[claim],
            Ok((decommitments[party_id][claim], next[party_id][claim])),
        )
}

/// The decommitment of `party_id` for `claim` failed with `error`.
pub open spec fn decommitment_failed<Output, P: DecommitmentRoundParty<Output>>(
    parties: Map<PartyID, Seq<P>>,
    commitments: Seq<Map<PartyID, P::Commitment>>,
    party_id: PartyID,
    claim: int,
    error: P::Error,
) -> bool {
    &&& uniform(parties, commitments.len())
    &&& parties.contains_key(party_id)
    &&& 0 <= claim < commitments.len()
    &&& parties[party_id][claim].may_decommit(commitments[claim], Err(error))
}

/// Decommits for every claim of one party, in claim order, handing each transition a copy
/// of the commitments of its claim, and stopping at the first failure.
fn decommit_claims<Output, P: DecommitmentRoundParty<Output>>(
    party_id: PartyID,
    states: Vec<P>,
    commitments: &Vec<HashMap<PartyID, P::Commitment>>,
    rng: &mut OsRng,
) -> (res: Result<(Vec<P::Decommitment>, Vec<P::ProofShareRoundParty>), Error<P::Error>>)
    requires
        states@.len() == commitments@.len(),
    ensures
        match res {
            Ok((decommitments, next)) => {
                &&& decommitments@.len() == states@.len()
                &&& next@.len() == states@.len()
                &&& forall|claim: int|
                    0 <= claim < states@.len() ==> (#[trigger] states@[claim]).may_decommit(
                        commitments@[claim]@,
                        Ok((decommitments@[claim], next@[claim])),
                    )
            },
            Err(Error::Transition { party_id: failed, claim, error }) => {
                &&& failed == party_id
                &&& claim < states@.len()
                &&& states@[claim as int].may_decommit(commitments@[claim as int]@, Err(error))
            },
            Err(_) => false,
        },
{
    broadcast use vstd::std_specs::vec::axiom_spec_into_iter;

    let ghost all = states@;
    let mut decommitments: Vec<P::Decommitment> = Vec::new();
    let mut next: Vec<P::ProofShareRoundParty> = Vec::new();
    for state in it: states.into_iter()
        invariant
            it.seq() == all,
            all.len() == commitments@.len(),
            decommitments@.len() == it.index(),
            next@.len() == it.index(),
            forall|claim: int|
                0 <= claim < it.index() ==> (#[trigger] all[claim]).may_decommit(
                    commitments@[claim]@,
                    Ok((decommitments@[claim], next@[claim])),
                ),
    {
        let claim: usize = decommitments.len();
        match state.decommit_statements_and_statement_mask(commitments[claim].clone(), rng) {
            Ok((message, successor)) => {
                decommitments.push(message);
                next.push(successor);
            },
            Err(error) => {
                return Err(Error::Transition { party_id, claim, error });
            },
        }
    }
    Ok((decommitments, next))
}

/// The decommitment round: every party decommits for every one of its claims, in view
/// of the commitments that all parties broadcast for that claim.
///
/// Nothing is started unless every party holds as many claims as there are sets of
/// commitments. Each party's claims are then taken in claim order; the parties are taken
/// in no particular order. On success the decommitments and the states for the proof
/// share round stand at the party and claim of the state they came from. The first
/// transition that fails ends the round, and nothing but its failure is returned.
pub fn decommitment_round<Output, P: DecommitmentRoundParty<Output>>(
    parties: HashMap<PartyID, Vec<P>>,
    commitments: &Vec<HashMap<PartyID, P::Commitment>>,
    rng: &mut OsRng,
) -> (res: Result<
    (HashMap<PartyID, Vec<P::Decommitment>>, HashMap<PartyID, Vec<P::ProofShareRoundParty>>),
    Error<P::Error>,
>)
    ensures
        match res {
            Ok((decommitments, next)) => decommitted(
                party_major_view(parties),
                claim_major_view(*commitments),
                party_major_view(decommitments),
                party_major_view(next),
            ),
            Err(Error::BatchShapeMismatch) => !uniform(
                party_major_view(parties),
                commitments@.len(),
            ),
            Err(Error::Transition { party_id, claim, error }) => decommitment_failed(
                party_major_view(parties),
                claim_major_view(*commitments),
                party_id,
                claim as int,
                error,
            ),
            Err(Error::EmptyPartySet) => false,
        },
{
    broadcast use group_hash_axioms;

    if !has_batch_size(&parties, commitments.len()) {
        return Err(Error::BatchShapeMismatch);
    }
    let ghost given = party_major_view(parties);
    let ghost sets = claim_major_view(*commitments);
    let ids = party_ids(&parties);
    let mut waiting = parties;
    let mut decommitments: HashMap<PartyID, Vec<P::Decommitment>> = HashMap::new();
    let mut next: HashMap<PartyID, Vec<P::ProofShareRoundParty>> = HashMap::new();
    let mut k: usize = 0;
    proof {
        walk_ends(ids@);
    }
    while k < ids.len()
        invariant
            k <= ids@.len(),
            ids@.no_duplicates(),
            ids@.to_set() == given.dom(),
            given == party_major_view(parties),
            sets == claim_major_view(*commitments),
            uniform(given, sets.len()),
            forall|j: int|
                k <= j < ids@.len() ==> waiting@.contains_key(#[trigger] ids@[j])
                    && waiting@[ids@[j]]@ == given[ids@[j]],
            decommitments@.dom() == ids@.take(k as int).to_set(),
            next@.dom() == ids@.take(k as int).to_set(),
            forall|party_id: PartyID| #[trigger]
                decommitments@.contains_key(party_id) ==> {
                    &&& decommitments@[party_id]@.len() == sets.len()
                    &&& next@[party_id]@.len() == sets.len()
                },
            forall|party_id: PartyID, claim: int|
                decommitments@.contains_key(party_id) && 0 <= claim < sets.len() ==> (
                #[trigger] given[party_id][claim]).may_decommit(
                    sets[claim],
                    Ok((decommitments@[party_id]@[claim], next@[party_id]@[claim])),
                ),
        decreases ids@.len() - k,
    {
        let party_id: PartyID = ids[k];
        assert(ids@.to_set().contains(party_id));
        proof {
            walk_step(ids@, k as int);
        }
        match waiting.remove(&party_id) {
            Some(states) => {
                assert(given.contains_key(party_id));
                assert(states@ == given[party_id]);
                match decommit_claims(party_id, states, commitments, rng) {
                    Ok((messages, successors)) => {
                        decommitments.insert(party_id, messages);
                        next.insert(party_id, successors);
                    },
                    Err(failure) => {
                        return Err(failure);
                    },
                }
            },
            None => unreached(),
        }
        assert(decommitments@.dom() =~= ids@.take(k as int + 1).to_set());
        assert(next@.dom() =~= ids@.take(k as int + 1).to_set());
        k += 1;
    }
    proof {
        assert(party_major_view(decommitments).dom() =~= given.dom());
        assert(party_major_view(next).dom() =~= given.dom());
    }
    Ok((decommitments, next))
}

/// The proof share round took every state of `parties`, together with the decommitments
/// of its claim, to the proof share and the next state that stand at the same party and
/// claim.
pub open spec fn shared<Output, P: ProofShareRoundParty<Output>>(
    parties: Map<PartyID, Seq<P>>,
    decommitments: Seq<Map<PartyID, P::Decommitment>>,
    proof_shares: Map<PartyID, Seq<P::ProofShare>>,
    next: Map<PartyID, Seq<P::ProofAggregationRoundParty>>,
) -> bool {
    &&& uniform(parties, decommitments.len())
    &&& same_shape(parties, proof_shares)
    &&& same_shape(parties, next)
    &&& forall|party_id: PartyID, claim: int|
        parties.contains_key(party_id) && 0 <= claim < decommitments.len() ==> (
        #[trigger] parties[party_id][claim]).may_share(
            decommitments[claim],
            Ok((proof_shares[party_id][claim], next[party_id][claim])),
        )
}

/// The proof share generation of `party_id` for `claim` failed with `error`.
pub open spec fn proof_share_failed<Output, P: ProofShareRoundParty<Output>>(
    parties: Map<PartyID, Seq<P>>,
    decommitments: Seq<Map<PartyID, P::Decommitment>>,
    party_id: PartyID,
    claim: int,
    error: P::Error,
) -> bool {
    &&& uniform(parties, decommitments.len())
    &&& parties.contains_key(party_id)
    &&& 0 <= claim < decommitments.len()
    &&& parties[party_id][claim].may_share(decommitments[claim], Err(error))
}

/// Generates the proof share for every claim of one party, in claim order, handing each
/// transition a copy of the decommitments of its claim, and stopping at the first failure.
fn share_claims<Output, P: ProofShareRoundParty<Output>>(
    party_id: PartyID,
    states: Vec<P>,
    decommitments: &Vec<HashMap<PartyID, P::Decommitment>>,
    rng: &mut OsRng,
) -> (res: Result<(Vec<P::ProofShare>, Vec<P::ProofAggregationRoundParty>), Error<P::Error>>)
    requires
        states@.len() == decommitments@.len(),
    ensures
        match res {
            Ok((proof_shares, next)) => {
                &&& proof_shares@.len() == states@.len()
                &&& next@.len() == states@.len()
                &&& forall|claim: int|
                    0 <= claim < states@.len() ==> (#[trigger] states@[claim]).may_share(
                        decommitments@[claim]@,
                        Ok((proof_shares@[claim], next@[claim])),
                    )
            },
            Err(Error::Transition { party_id: failed, claim, error }) => {
                &&& failed == party_id
                &&& claim < states@.len()
                &&& states@[claim as int].may_share(decommitments@[claim as int]@, Err(error))
            },
            Err(_) => false,
        },
{
    broadcast use vstd::std_specs::vec::axiom_spec_into_iter;

    let ghost all = states@;
    let mut proof_shares: Vec<P::ProofShare> = Vec::new();
    let mut next: Vec<P::ProofAggregationRoundParty> = Vec::new();
    for state in it: states.into_iter()
        invariant
            it.seq() == all,
            all.len() == decommitments@.len(),
            proof_shares@.len() == it.index(),
            next@.len() == it.index(),
            forall|claim: int|
                0 <= claim < it.index() ==> (#[trigger] all[claim]).may_share(
                    decommitments@[claim]@,
                    Ok((proof_shares@[claim], next@[claim])),
                ),
    {
        let claim: usize = proof_shares.len();
        match state.generate_proof_share(decommitments[claim].clone(), rng) {
            Ok((message, successor)) => {
                proof_shares.push(message);
                next.push(successor);
            },
            Err(error) => {
                return Err(Error::Transition { party_id, claim, error });
            },
        }
    }
    Ok((proof_shares, next))
}

/// The proof share round: every party generates its proof share for every one of its
/// claims, in view of the decommitments that all parties broadcast for that claim.
///
/// Nothing is started unless every party holds as many claims as there are sets of
/// decommitments. Each party's claims are then taken in claim order; the parties are
/// taken in no particular order. On success the proof shares and the states for the
/// aggregation round stand at the party and claim of the state they came from. The first
/// transition that fails ends the round, and nothing but its failure is returned.
pub fn proof_share_round<Output, P: ProofShareRoundParty<Output>>(
    parties: HashMap<PartyID, Vec<P>>,
    decommitments: &Vec<HashMap<PartyID, P::Decommitment>>,
    rng: &mut OsRng,
) -> (res: Result<
    (HashMap<PartyID, Vec<P::ProofShare>>, HashMap<PartyID, Vec<P::ProofAggregationRoundParty>>),
    Error<P::Error>,
>)
    ensures
        match res {
            Ok((proof_shares, next)) => shared(
                party_major_view(parties),
                claim_major_view(*decommitments),
                party_major_view(proof_shares),
                party_major_view(next),
            ),
            Err(Error::BatchShapeMismatch) => !uniform(
                party_major_view(parties),
                decommitments@.len(),
            ),
            Err(Error::Transition { party_id, claim, error }) => proof_share_failed(
                party_major_view(parties),
                claim_major_view(*decommitments),
                party_id,
                claim as int,
                error,
            ),
            Err(Error::EmptyPartySet) => false,
        },
{
    broadcast use group_hash_axioms;

    if !has_batch_size(&parties, decommitments.len()) {
        return Err(Error::BatchShapeMismatch);
    }
    let ghost given = party_major_view(parties);
    let ghost sets = claim_major_view(*decommitments);
    let ids = party_ids(&parties);
    let mut waiting = parties;
    let mut proof_shares: HashMap<PartyID, Vec<P::ProofShare>> = HashMap::new();
    let mut next: HashMap<PartyID, Vec<P::ProofAggregationRoundParty>> = HashMap::new();
    let mut k: usize = 0;
    proof {
        walk_ends(ids@);
    }
    while k < ids.len()
        invariant
            k <= ids@.len(),
            ids@.no_duplicates(),
            ids@.to_set() == given.dom(),
            given == party_major_view(parties),
            sets == claim_major_view(*decommitments),
            uniform(given, sets.len()),
            forall|j: int|
                k <= j < ids@.len() ==> waiting@.contains_key(#[trigger] ids@[j])
                    && waiting@[ids@[j]]@ == given[ids@[j]],
            proof_shares@.dom() == ids@.take(k as int).to_set(),
            next@.dom() == ids@.take(k as int).to_set(),
            forall|party_id: PartyID| #[trigger]
                proof_shares@.contains_key(party_id) ==> {
                    &&& proof_shares@[party_id]@.len() == sets.len()
                    &&& next@[party_id]@.len() == sets.len()
                },
            forall|party_id: PartyID, claim: int|
                proof_shares@.contains_key(party_id) && 0 <= claim < sets.len() ==> (
                #[trigger] given[party_id][claim]).may_share(
                    sets[claim],
                    Ok((proof_shares@[party_id]@[claim], next@[party_id]@[claim])),
                ),
        decreases ids@.len() - k,
    {
        let party_id: PartyID = ids[k];
        assert(ids@.to_set().contains(party_id));
        proof {
            walk_step(ids@, k as int);
        }
        match waiting.remove(&party_id) {
            Some(states) => {
                assert(given.contains_key(party_id));
                assert(states@ == given[party_id]);
                match share_claims(party_id, states, decommitments, rng) {
                    Ok((messages, successors)) => {
                        proof_shares.insert(party_id, messages);
                        next.insert(party_id, successors);
                    },
                    Err(failure) => {
                        return Err(failure);
                    },
                }
            },
            None => unreached(),
        }
        assert(proof_shares@.dom() =~= ids@.take(k as int + 1).to_set());
        assert(next@.dom() =~= ids@.take(k as int + 1).to_set());
        k += 1;
    }
    proof {
        assert(party_major_view(proof_shares).dom() =~= given.dom());
        assert(party_major_view(next).dom() =~= given.dom());
    }
    Ok((proof_shares, next))
}

/// The aggregation took every state of `states`, together with the proof shares of its
/// claim, to the output that stands at the same claim.
pub open spec fn aggregated<Output, P: ProofAggregationRoundParty<Output>>(
    states: Seq<P>,
    proof_shares: Seq<Map<PartyID, P::ProofShare>>,
    outputs: Seq<Output>,
) -> bool {
    &&& states.len() == proof_shares.len()
    &&& outputs.len() == proof_shares.len()
    &&& forall|claim: int|
        0 <= claim < proof_shares.len() ==> (#[trigger] states[claim]).may_aggregate(
            proof_shares[claim],
            Ok(outputs[claim]),
        )
}

/// The aggregation for `claim` failed with `error`.
pub open spec fn aggregation_failed<Output, P: ProofAggregationRoundParty<Output>>(
    states: Seq<P>,
    proof_shares: Seq<Map<PartyID, P::ProofShare>>,
    claim: int,
    error: P::Error,
) -> bool {
    &&& states.len() == proof_shares.len()
    &&& 0 <= claim < proof_shares.len()
    &&& states[claim].may_aggregate(proof_shares[claim], Err(error))
}

/// What the aggregation may return is settled by the proof shares alone, whatever the
/// state that performs it.
pub open spec fn aggregation_is_by_shares<Output, P: ProofAggregationRoundParty<Output>>() -> bool {
    forall|
        first: P,
        second: P,
        proof_shares: Map<PartyID, P::ProofShare>,
        first_output: Output,
        second_output: Output,
    |
        #[trigger] first.may_aggregate(proof_shares, Ok(first_output))
            && #[trigger] second.may_aggregate(proof_shares, Ok(second_output)) ==> first_output
            == second_output
}

/// The aggregating party is irrelevant: where the aggregation is settled by the proof
/// shares alone, the states of any two parties aggregate the same proof shares into the
/// same outputs.
pub proof fn aggregator_is_irrelevant<Output, P: ProofAggregationRoundParty<Output>>(
    first: Seq<P>,
    second: Seq<P>,
    proof_shares: Seq<Map<PartyID, P::ProofShare>>,
    first_outputs: Seq<Output>,
    second_outputs: Seq<Output>,
)
    requires
        aggregation_is_by_shares::<Output, P>(),
        aggregated(first, proof_shares, first_outputs),
        aggregated(second, proof_shares, second_outputs),
    ensures
        first_outputs == second_outputs,
{
    assert forall|claim: int| 0 <= claim < proof_shares.len() implies first_outputs[claim]
        == second_outputs[claim] by {
        assert(first[claim].may_aggregate(proof_shares[claim], Ok(first_outputs[claim])));
        assert(second[claim].may_aggregate(proof_shares[claim], Ok(second_outputs[claim])));
    }
    assert(first_outputs =~= second_outputs);
}

/// The proof aggregation round: one party, `party_id`, aggregates for every one of its
/// claims, in claim order, the proof shares that all parties broadcast for that claim.
///
/// Nothing is started unless the party holds as many claims as there are sets of proof
/// shares. On success the outputs stand in claim order. The first aggregation that fails
/// ends the round, and nothing but its failure is returned.
pub fn proof_aggregation_round<Output, P: ProofAggregationRoundParty<Output>>(
    party_id: PartyID,
    states: Vec<P>,
    proof_shares: &Vec<HashMap<PartyID, P::ProofShare>>,
    rng: &mut OsRng,
) -> (res: Result<Vec<Output>, Error<P::Error>>)
    ensures
        match res {
            Ok(outputs) => aggregated(states@, claim_major_view(*proof_shares), outputs@),
            Err(Error::BatchShapeMismatch) => states@.len() != proof_shares@.len(),
            Err(Error::Transition { party_id: failed, claim, error }) => {
                &&& failed == party_id
                &&& aggregation_failed(
                    states@,
                    claim_major_view(*proof_shares),
                    claim as int,
                    error,
                )
            },
            Err(Error::EmptyPartySet) => false,
        },
{
    broadcast use vstd::std_specs::vec::axiom_spec_into_iter;

    if states.len() != proof_shares.len() {
        return Err(Error::BatchShapeMismatch);
    }
    let ghost all = states@;
    let mut outputs: Vec<Output> = Vec::new();
    for state in it: states.into_iter()
        invariant
            it.seq() == all,
            all.len() == proof_shares@.len(),
            outputs@.len() == it.index(),
            forall|claim: int|
                0 <= claim < it.index() ==> (#[trigger] all[claim]).may_aggregate(
                    proof_shares@[claim]@,
                    Ok(outputs@[claim]),
                ),
    {
        let claim: usize = outputs.len();
        match state.aggregate_proof_shares(proof_shares[claim].clone(), rng) {
            Ok(output) => {
                outputs.push(output);
            },
            Err(error) => {
                return Err(Error::Transition { party_id, claim, error });
            },
        }
    }
    Ok(outputs)
}

} // verus!
