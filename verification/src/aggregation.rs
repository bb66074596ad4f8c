//! The four-round pipeline: commit, decommit, generate proof shares, aggregate.
//!
//! A run threads a registry of parties, each holding one state per claim of the batch,
//! through the rounds. Between two rounds the messages that the parties produced are
//! transposed, so that every transition of the next round is handed the messages of all
//! parties for its own claim and for no other.

use crate::driver::{
    aggregated, aggregation_failed, aggregation_is_by_shares, aggregator_is_irrelevant,
    commitment_failed, commitment_round, committed, decommitment_failed, decommitment_round,
    decommitted, proof_aggregation_round, proof_share_failed, proof_share_round,
    same_shape, same_shape_is_transitive, same_shape_is_uniform, shared,
};
use crate::error::{Error, RoundError};
use crate::party::{any_party, party_ids, walk_ends, walk_step, PartyID};
use crate::rounds::{
    entropy_source, CommitmentRoundParty, DecommitmentRoundParty, ProofAggregationRoundParty,
    ProofShareRoundParty,
};
use crate::timing::{duration_nanos, unmeasured};
use crate::transpose::{
    batch_size, batch_size_is_unique, batch_size_of, claim_major, claim_major_is_complete,
    claim_major_view, complete, party_major_view, transpose, well_shaped,
};
use std::collections::HashMap;
use std::time::Duration;
use vstd::prelude::*;
use vstd::std_specs::hash::*;

verus! {

/// The commitment that a party of type `P` broadcasts.
pub type Commitment<Output, P> = <P as CommitmentRoundParty<Output>>::Commitment;

/// The state in which a party of type `P` enters the decommitment round.
pub type Decommitter<Output, P> = <P as CommitmentRoundParty<Output>>::DecommitmentRoundParty;

/// The decommitment that a party of type `P` broadcasts.
pub type Decommitment<Output, P> = <Decommitter<Output, P> as DecommitmentRoundParty<
    Output,
>>::Decommitment;

/// The state in which a party of type `P` enters the proof share round.
pub type Sharer<Output, P> = <Decommitter<Output, P> as DecommitmentRoundParty<
    Output,
>>::ProofShareRoundParty;

/// The proof share that a party of type `P` broadcasts.
pub type ProofShare<Output, P> = <Sharer<Output, P> as ProofShareRoundParty<Output>>::ProofShare;

/// The state in which a party of type `P` enters the proof aggregation round.
pub type Aggregator<Output, P> = <Sharer<Output, P> as ProofShareRoundParty<
    Output,
>>::ProofAggregationRoundParty;

/// The failure of a run of parties of type `P`.
pub type RunError<Output, P> = Error<
    RoundError<
        <P as CommitmentRoundParty<Output>>::Error,
        <Decommitter<Output, P> as DecommitmentRoundParty<Output>>::Error,
        <Sharer<Output, P> as ProofShareRoundParty<Output>>::Error,
        <Aggregator<Output, P> as ProofAggregationRoundParty<Output>>::Error,
    >,
>;

/// What the parties produced on the way through a run: the messages that were broadcast,
/// the states in which the parties entered each round after the first, and the party
/// that aggregated. A run that was abandoned fills the record up to the round that
/// failed.
pub ghost struct Transcript<Output, P: CommitmentRoundParty<Output>> {
    pub commitments: Map<PartyID, Seq<Commitment<Output, P>>>,
    pub decommitters: Map<PartyID, Seq<Decommitter<Output, P>>>,
    pub decommitments: Map<PartyID, Seq<Decommitment<Output, P>>>,
    pub sharers: Map<PartyID, Seq<Sharer<Output, P>>>,
    pub proof_shares: Map<PartyID, Seq<ProofShare<Output, P>>>,
    pub aggregators: Map<PartyID, Seq<Aggregator<Output, P>>>,
    pub aggregator: PartyID,
}

impl<Output, P: CommitmentRoundParty<Output>> Transcript<Output, P> {
    /// The commitments that the decommitment round was handed, one set per claim.
    pub open spec fn commitment_sets(self, parties: Map<PartyID, Seq<P>>) -> Seq<
        Map<PartyID, Commitment<Output, P>>,
    > {
        claim_major(self.commitments, batch_size_of(parties))
    }

    /// The decommitments that the proof share round was handed, one set per claim.
    pub open spec fn decommitment_sets(self, parties: Map<PartyID, Seq<P>>) -> Seq<
        Map<PartyID, Decommitment<Output, P>>,
    > {
        claim_major(self.decommitments, batch_size_of(parties))
    }

    /// The proof shares that the aggregation round was handed, one set per claim.
    pub open spec fn proof_share_sets(self, parties: Map<PartyID, Seq<P>>) -> Seq<
        Map<PartyID, ProofShare<Output, P>>,
    > {
        claim_major(self.proof_shares, batch_size_of(parties))
    }

    /// `parties` were accepted and every one of them committed for every claim.
    pub open spec fn committed(self, parties: Map<PartyID, Seq<P>>) -> bool {
        &&& well_shaped(parties)
        &&& committed(parties, self.commitments, self.decommitters)
    }

    /// Moreover every party decommitted for every claim, in view of the commitments of all
    /// parties for that claim.
    pub open spec fn decommitted(self, parties: Map<PartyID, Seq<P>>) -> bool {
        &&& self.committed(parties)
        &&& decommitted(
            self.decommitters,
            self.commitment_sets(parties),
            self.decommitments,
            self.sharers,
        )
    }

    /// Moreover every party generated its proof share for every claim, in view of the
    /// decommitments of all parties for that claim.
    pub open spec fn shared(self, parties: Map<PartyID, Seq<P>>) -> bool {
        &&& self.decommitted(parties)
        &&& shared(
            self.sharers,
            self.decommitment_sets(parties),
            self.proof_shares,
            self.aggregators,
        )
    }

    /// Moreover one of the parties aggregated, for every claim, the proof shares of all
    /// parties for that claim into `outputs`.
    pub open spec fn aggregated(self, parties: Map<PartyID, Seq<P>>, outputs: Seq<Output>) -> bool {
        &&& self.shared(parties)
        &&& parties.contains_key(self.aggregator)
        &&& aggregated(
            self.aggregators[self.aggregator],
            self.proof_share_sets(parties),
            outputs,
        )
    }
}

/// A run of `parties` may end with `outputs`, one per claim in claim order, having
/// broadcast `decommitments` on the way.
pub open spec fn run_yields<Output, P: CommitmentRoundParty<Output>>(
    parties: Map<PartyID, Seq<P>>,
    decommitments: Map<PartyID, Seq<Decommitment<Output, P>>>,
    outputs: Seq<Output>,
) -> bool {
    exists|transcript: Transcript<Output, P>| #[trigger]
        transcript.aggregated(parties, outputs) && transcript.decommitments == decommitments
}

/// A run of `parties` may end with `outputs`, one per claim in claim order.
pub open spec fn run_outputs<Output, P: CommitmentRoundParty<Output>>(
    parties: Map<PartyID, Seq<P>>,
    outputs: Seq<Output>,
) -> bool {
    exists|transcript: Transcript<Output, P>| #[trigger] transcript.aggregated(parties, outputs)
}

/// A run of `parties` may be abandoned with `error`.
///
/// An empty party set and parties that disagree on the number of claims are rejected
/// before any transition; nothing else is. A transition fails only after every round
/// before it went through, and as its own capability allows.
pub open spec fn run_fails<Output, P: CommitmentRoundParty<Output>>(
    parties: Map<PartyID, Seq<P>>,
    error: RunError<Output, P>,
) -> bool {
    match error {
        Error::EmptyPartySet => parties.dom().is_empty(),
        Error::BatchShapeMismatch => !parties.dom().is_empty() && !well_shaped(parties),
        Error::Transition { party_id, claim, error: RoundError::Commitment(error) } => {
            &&& well_shaped(parties)
            &&& commitment_failed(parties, party_id, claim as int, error)
        },
        Error::Transition { party_id, claim, error: RoundError::Decommitment(error) } => {
            exists|transcript: Transcript<Output, P>| #[trigger]
                transcript.committed(parties) && decommitment_failed(
                    transcript.decommitters,
                    transcript.commitment_sets(parties),
                    party_id,
                    claim as int,
                    error,
                )
        },
        Error::Transition { party_id, claim, error: RoundError::ProofShare(error) } => {
            exists|transcript: Transcript<Output, P>| #[trigger]
                transcript.decommitted(parties) && proof_share_failed(
                    transcript.sharers,
                    transcript.decommitment_sets(parties),
                    party_id,
                    claim as int,
                    error,
                )
        },
        Error::Transition { party_id, claim, error: RoundError::ProofAggregation(error) } => {
            exists|transcript: Transcript<Output, P>| #[trigger]
                transcript.shared(parties) && parties.contains_key(party_id)
                    && aggregation_failed(
                    transcript.aggregators[party_id],
                    transcript.proof_share_sets(parties),
                    claim as int,
                    error,
                )
        },
    }
}

/// The batch of one claim that stands for single states: every party holds its state as
/// its only claim.
pub open spec fn singletons<T>(registry: Map<PartyID, T>) -> Map<PartyID, Seq<T>> {
    registry.map_values(|state: T| seq![state])
}

/// A run over single states is a run over the batch of one claim, and no more: whatever
/// the batch of one claim may end with is exactly one output.
pub proof fn single_claim<Output, P: CommitmentRoundParty<Output>>(
    registry: Map<PartyID, P>,
    outputs: Seq<Output>,
)
    requires
        run_outputs(singletons(registry), outputs),
    ensures
        outputs == seq![outputs[0]],
{
    let parties = singletons(registry);
    let transcript = choose|transcript: Transcript<Output, P>| #[trigger]
        transcript.aggregated(parties, outputs);
    batch_size_is_unique(parties, 1);
    assert(outputs =~= seq![outputs[0]]);
}

/// Every set of messages that a round is handed holds exactly one message of every
/// party of the run, and there is one set per claim: no party is missing from a set,
/// none occurs twice, and no message reaches another claim than its own.
pub proof fn broadcast_sets_are_complete<Output, P: CommitmentRoundParty<Output>>(
    parties: Map<PartyID, Seq<P>>,
    transcript: Transcript<Output, P>,
)
    ensures
        transcript.committed(parties) ==> {
            &&& same_shape(parties, transcript.commitments)
            &&& transcript.commitment_sets(parties).len() == batch_size_of(parties)
            &&& complete(transcript.commitment_sets(parties), parties.dom())
            &&& forall|party_id: PartyID, claim: int|
                parties.contains_key(party_id) && 0 <= claim < batch_size_of(parties)
                    ==> #[trigger] transcript.commitment_sets(parties)[claim][party_id]
                    == transcript.commitments[party_id][claim]
        },
        transcript.decommitted(parties) ==> {
            &&& same_shape(parties, transcript.decommitments)
            &&& transcript.decommitment_sets(parties).len() == batch_size_of(parties)
            &&& complete(transcript.decommitment_sets(parties), parties.dom())
            &&& forall|party_id: PartyID, claim: int|
                parties.contains_key(party_id) && 0 <= claim < batch_size_of(parties)
                    ==> #[trigger] transcript.decommitment_sets(parties)[claim][party_id]
                    == transcript.decommitments[party_id][claim]
        },
        transcript.shared(parties) ==> {
            &&& same_shape(parties, transcript.proof_shares)
            &&& transcript.proof_share_sets(parties).len() == batch_size_of(parties)
            &&& complete(transcript.proof_share_sets(parties), parties.dom())
            &&& forall|party_id: PartyID, claim: int|
                parties.contains_key(party_id) && 0 <= claim < batch_size_of(parties)
                    ==> #[trigger] transcript.proof_share_sets(parties)[claim][party_id]
                    == transcript.proof_shares[party_id][claim]
        },
{
    let batch_size = batch_size_of(parties);
    claim_major_is_complete(transcript.commitments, batch_size);
    claim_major_is_complete(transcript.decommitments, batch_size);
    claim_major_is_complete(transcript.proof_shares, batch_size);
    if transcript.decommitted(parties) {
        same_shape_is_transitive(parties, transcript.decommitters, transcript.decommitments);
        same_shape_is_transitive(parties, transcript.decommitters, transcript.sharers);
    }
    if transcript.shared(parties) {
        same_shape_is_transitive(parties, transcript.sharers, transcript.proof_shares);
    }
}

/// All or nothing: a run ends with outputs only if it ends with one output per claim and
/// every transition of every party succeeded for every claim, each in view of the
/// messages of all parties for that claim.
pub proof fn every_transition_succeeded<Output, P: CommitmentRoundParty<Output>>(
    parties: Map<PartyID, Seq<P>>,
    transcript: Transcript<Output, P>,
    outputs: Seq<Output>,
    party_id: PartyID,
    claim: int,
)
    requires
        transcript.aggregated(parties, outputs),
        parties.contains_key(party_id),
        0 <= claim < batch_size_of(parties),
    ensures
        outputs.len() == batch_size_of(parties),
        parties[party_id][claim].may_commit(
            Ok((transcript.commitments[party_id][claim], transcript.decommitters[party_id][claim])),
        ),
        transcript.decommitters[party_id][claim].may_decommit(
            transcript.commitment_sets(parties)[claim],
            Ok((transcript.decommitments[party_id][claim], transcript.sharers[party_id][claim])),
        ),
        transcript.sharers[party_id][claim].may_share(
            transcript.decommitment_sets(parties)[claim],
            Ok((transcript.proof_shares[party_id][claim], transcript.aggregators[party_id][claim])),
        ),
        transcript.aggregators[transcript.aggregator][claim].may_aggregate(
            transcript.proof_share_sets(parties)[claim],
            Ok(outputs[claim]),
        ),
{
    assert(transcript.decommitters.contains_key(party_id));
    assert(transcript.sharers.contains_key(party_id));
}

/// The aggregating party is irrelevant to a run: where the aggregation is settled by the
/// proof shares alone, two runs that broadcast the same proof shares end with the same
/// outputs, whichever party aggregated in either.
pub proof fn aggregating_party_is_irrelevant<Output, P: CommitmentRoundParty<Output>>(
    parties: Map<PartyID, Seq<P>>,
    first: Transcript<Output, P>,
    second: Transcript<Output, P>,
    first_outputs: Seq<Output>,
    second_outputs: Seq<Output>,
)
    requires
        aggregation_is_by_shares::<Output, Aggregator<Output, P>>(),
        first.aggregated(parties, first_outputs),
        second.aggregated(parties, second_outputs),
        first.proof_shares == second.proof_shares,
    ensures
        first_outputs == second_outputs,
{
    aggregator_is_irrelevant(
        first.aggregators[first.aggregator],
        second.aggregators[second.aggregator],
        first.proof_share_sets(parties),
        first_outputs,
        second_outputs,
    );
}

/// Fatal propagation: where the commitment of a single party for a single claim cannot
/// succeed, the run has no output for any claim.
pub proof fn failed_commitment_is_fatal<Output, P: CommitmentRoundParty<Output>>(
    parties: Map<PartyID, Seq<P>>,
    party_id: PartyID,
    claim: int,
    outputs: Seq<Output>,
)
    requires
        parties.contains_key(party_id),
        0 <= claim < parties[party_id].len(),
        forall|commitment: Commitment<Output, P>, next: Decommitter<Output, P>|
            !#[trigger] parties[party_id][claim].may_commit(Ok((commitment, next))),
    ensures
        !run_outputs(parties, outputs),
{
    if run_outputs(parties, outputs) {
        let transcript = choose|transcript: Transcript<Output, P>| #[trigger]
            transcript.aggregated(parties, outputs);
        every_transition_succeeded(parties, transcript, outputs, party_id, claim);
    }
}

/// None of the five timings of a run was measured: each is zero.
pub open spec fn unmeasured_run(
    commitment_round_time: Duration,
    decommitment_round_time: Duration,
    proof_share_round_time: Duration,
    proof_aggregation_round_time: Duration,
    total_time: Duration,
) -> bool {
    &&& duration_nanos(commitment_round_time) == 0
    &&& duration_nanos(decommitment_round_time) == 0
    &&& duration_nanos(proof_share_round_time) == 0
    &&& duration_nanos(proof_aggregation_round_time) == 0
    &&& duration_nanos(total_time) == 0
}

/// Runs the aggregation over a batch of claims and returns, besides the outputs, the
/// decommitments that the parties broadcast.
///
/// Every party of `commitment_round_parties` holds one state per claim. The result holds
/// the decommitments of every party in claim order, the time taken by the commitment,
/// decommitment, proof share and proof aggregation round and by the whole run, none of
/// which is measured, and the outputs in claim order. All of the outputs are returned,
/// or none: the first failure ends the run.
pub fn aggregates_multiple_with_decommitments<Output, P: CommitmentRoundParty<Output>>(
    commitment_round_parties: HashMap<PartyID, Vec<P>>,
) -> (res: Result<
    (
        HashMap<PartyID, Vec<Decommitment<Output, P>>>,
        Duration,
        Duration,
        Duration,
        Duration,
        Duration,
        Vec<Output>,
    ),
    RunError<Output, P>,
>)
    ensures
        match res {
            Ok(run) => {
                &&& run_yields(
                    party_major_view(commitment_round_parties),
                    party_major_view(run.0),
                    run.6@,
                )
                &&& unmeasured_run(run.1, run.2, run.3, run.4, run.5)
            },
            Err(error) => run_fails(party_major_view(commitment_round_parties), error),
        },
{
    broadcast use group_hash_axioms;

    let ghost parties = party_major_view(commitment_round_parties);
    let batch_size = match batch_size::<P, P::Error>(&commitment_round_parties) {
        Ok(batch_size) => batch_size,
        Err(Error::EmptyPartySet) => {
            return Err(Error::EmptyPartySet);
        },
        Err(Error::BatchShapeMismatch) => {
            return Err(Error::BatchShapeMismatch);
        },
        Err(Error::Transition { .. }) => unreached(),
    };
    let mut rng = entropy_source();

    let (commitments, decommitters) = match commitment_round(commitment_round_parties, &mut rng) {
        Ok(round) => round,
        Err(Error::Transition { party_id, claim, error }) => {
            return Err(
                Error::Transition { party_id, claim, error: RoundError::Commitment(error) },
            );
        },
        Err(_) => unreached(),
    };
    let ghost mut transcript: Transcript<Output, P> = Transcript {
        commitments: party_major_view(commitments),
        decommitters: party_major_view(decommitters),
        decommitments: Map::empty(),
        sharers: Map::empty(),
        proof_shares: Map::empty(),
        aggregators: Map::empty(),
        aggregator: 0,
    };
    assert(transcript.committed(parties));
    proof {
        same_shape_is_uniform(parties, transcript.decommitters, batch_size as nat);
    }
    let commitments = match transpose(commitments, batch_size) {
        Some(sets) => sets,
        None => unreached(),
    };
    assert(commitments@.len() == batch_size) by {
        assert(claim_major_view(commitments).len() == commitments@.len());
    }

    let (decommitments, sharers) = match decommitment_round(decommitters, &commitments, &mut rng) {
        Ok(round) => round,
        Err(Error::Transition { party_id, claim, error }) => {
            return Err(
                Error::Transition { party_id, claim, error: RoundError::Decommitment(error) },
            );
        },
        Err(_) => unreached(),
    };
    proof {
        transcript.decommitments = party_major_view(decommitments);
        transcript.sharers = party_major_view(sharers);
    }
    assert(transcript.decommitted(parties));
    proof {
        same_shape_is_uniform(
            transcript.decommitters,
            transcript.decommitments,
            batch_size as nat,
        );
        same_shape_is_uniform(transcript.decommitters, transcript.sharers, batch_size as nat);
    }
    let decommitments_vecs = decommitments.clone();
    let decommitments = match transpose(decommitments, batch_size) {
        Some(sets) => sets,
        None => unreached(),
    };
    assert(decommitments@.len() == batch_size) by {
        assert(claim_major_view(decommitments).len() == decommitments@.len());
    }

    let (proof_shares, aggregators) = match proof_share_round(sharers, &decommitments, &mut rng) {
        Ok(round) => round,
        Err(Error::Transition { party_id, claim, error }) => {
            return Err(
                Error::Transition { party_id, claim, error: RoundError::ProofShare(error) },
            );
        },
        Err(_) => unreached(),
    };
    proof {
        transcript.proof_shares = party_major_view(proof_shares);
        transcript.aggregators = party_major_view(aggregators);
    }
    assert(transcript.shared(parties));
    proof {
        same_shape_is_uniform(transcript.sharers, transcript.proof_shares, batch_size as nat);
        same_shape_is_uniform(transcript.sharers, transcript.aggregators, batch_size as nat);
    }
    let proof_shares = match transpose(proof_shares, batch_size) {
        Some(sets) => sets,
        None => unreached(),
    };
    assert(proof_shares@.len() == batch_size) by {
        assert(claim_major_view(proof_shares).len() == proof_shares@.len());
    }

    let aggregator = match any_party(&aggregators) {
        Some(party_id) => party_id,
        None => unreached(),
    };
    let mut aggregators = aggregators;
    let states = match aggregators.remove(&aggregator) {
        Some(states) => states,
        None => unreached(),
    };
    proof {
        transcript.aggregator = aggregator;
        assert(transcript.aggregators.contains_key(aggregator));
        assert(states@ == transcript.aggregators[aggregator]);
    }
    let outputs = match proof_aggregation_round(aggregator, states, &proof_shares, &mut rng) {
        Ok(outputs) => outputs,
        Err(Error::Transition { party_id, claim, error }) => {
            return Err(
                Error::Transition { party_id, claim, error: RoundError::ProofAggregation(error) },
            );
        },
        Err(_) => unreached(),
    };
    assert(transcript.aggregated(parties, outputs@));
    Ok(
        (
            decommitments_vecs,
            unmeasured(),
            unmeasured(),
            unmeasured(),
            unmeasured(),
            unmeasured(),
            outputs,
        ),
    )
}

/// Runs the aggregation over a batch of claims and returns the timings and the outputs
/// in claim order, as [`aggregates_multiple_with_decommitments`] does without the
/// decommitments.
pub fn aggregates_multiple<Output, P: CommitmentRoundParty<Output>>(
    commitment_round_parties: HashMap<PartyID, Vec<P>>,
) -> (res: Result<
    (Duration, Duration, Duration, Duration, Duration, Vec<Output>),
    RunError<Output, P>,
>)
    ensures
        match res {
            Ok(run) => {
                &&& run_outputs(party_major_view(commitment_round_parties), run.5@)
                &&& unmeasured_run(run.0, run.1, run.2, run.3, run.4)
            },
            Err(error) => run_fails(party_major_view(commitment_round_parties), error),
        },
{
    match aggregates_multiple_with_decommitments(commitment_round_parties) {
        Ok(
            (
                _,
                commitment_round_time,
                decommitment_round_time,
                proof_share_round_time,
                proof_aggregation_round_time,
                total_time,
                outputs,
            ),
        ) => Ok(
            (
                commitment_round_time,
                decommitment_round_time,
                proof_share_round_time,
                proof_aggregation_round_time,
                total_time,
                outputs,
            ),
        ),
        Err(error) => Err(error),
    }
}

/// Wraps the single state of every party into a batch of one claim.
pub fn singleton_batches<T>(registry: HashMap<PartyID, T>) -> (batches: HashMap<PartyID, Vec<T>>)
    ensures
        party_major_view(batches) == singletons(registry@),
{
    broadcast use group_hash_axioms;

    let ids = party_ids(&registry);
    let mut waiting = registry;
    let mut batches: HashMap<PartyID, Vec<T>> = HashMap::new();
    let mut k: usize = 0;
    proof {
        walk_ends(ids@);
    }
    while k < ids.len()
        invariant
            k <= ids@.len(),
            ids@.no_duplicates(),
            ids@.to_set() == registry@.dom(),
            forall|j: int|
                k <= j < ids@.len() ==> waiting@.contains_key(#[trigger] ids@[j])
                    && waiting@[ids@[j]] == registry@[ids@[j]],
            batches@.dom() == ids@.take(k as int).to_set(),
            forall|party_id: PartyID| #[trigger]
                batches@.contains_key(party_id) ==> batches@[party_id]@ == seq![
                    registry@[party_id],
                ],
        decreases ids@.len() - k,
    {
        let party_id: PartyID = ids[k];
        proof {
            walk_step(ids@, k as int);
        }
        match waiting.remove(&party_id) {
            Some(state) => {
                let mut column: Vec<T> = Vec::new();
                column.push(state);
                assert(column@ =~= seq![registry@[party_id]]);
                batches.insert(party_id, column);
            },
            None => unreached(),
        }
        assert(batches@.dom() =~= ids@.take(k as int + 1).to_set());
        k += 1;
    }
    assert(party_major_view(batches) =~= singletons(registry@));
    batches
}

/// Runs the aggregation over a single claim and returns, besides the output, the
/// decommitments that the parties broadcast.
///
/// The run is that of the batch of one claim in which every party holds its state as its
/// only claim; the decommitments of every party are returned as a vector of one.
pub fn aggregates_with_decommitments<Output, P: CommitmentRoundParty<Output>>(
    commitment_round_parties: HashMap<PartyID, P>,
) -> (res: Result<
    (
        HashMap<PartyID, Vec<Decommitment<Output, P>>>,
        Duration,
        Duration,
        Duration,
        Duration,
        Duration,
        Output,
    ),
    RunError<Output, P>,
>)
    ensures
        match res {
            Ok(run) => {
                &&& run_yields(
                    singletons(commitment_round_parties@),
                    party_major_view(run.0),
                    seq![run.6],
                )
                &&& unmeasured_run(run.1, run.2, run.3, run.4, run.5)
            },
            Err(error) => run_fails(singletons(commitment_round_parties@), error),
        },
{
    let batches = singleton_batches(commitment_round_parties);
    match aggregates_multiple_with_decommitments(batches) {
        Ok(
            (
                decommitments,
                commitment_round_time,
                decommitment_round_time,
                proof_share_round_time,
                proof_aggregation_round_time,
                total_time,
                outputs,
            ),
        ) => {
            let mut outputs = outputs;
            let ghost all = outputs@;
            proof {
                single_claim(commitment_round_parties@, all);
            }
            match outputs.pop() {
                Some(output) => {
                    assert(seq![output] =~= all);
                    Ok(
                        (
                            decommitments,
                            commitment_round_time,
                            decommitment_round_time,
                            proof_share_round_time,
                            proof_aggregation_round_time,
                            total_time,
                            output,
                        ),
                    )
                },
                None => unreached(),
            }
        },
        Err(error) => Err(error),
    }
}

/// Runs the aggregation over a single claim and returns the timings and the output, as
/// [`aggregates_with_decommitments`] does without the decommitments.
pub fn aggregates<Output, P: CommitmentRoundParty<Output>>(
    commitment_round_parties: HashMap<PartyID, P>,
) -> (res: Result<(Duration, Duration, Duration, Duration, Duration, Output), RunError<Output, P>>)
    ensures
        match res {
            Ok(run) => {
                &&& run_outputs(singletons(commitment_round_parties@), seq![run.5])
                &&& unmeasured_run(run.0, run.1, run.2, run.3, run.4)
            },
            Err(error) => run_fails(singletons(commitment_round_parties@), error),
        },
{
    match aggregates_with_decommitments(commitment_round_parties) {
        Ok(
            (
                _,
                commitment_round_time,
                decommitment_round_time,
                proof_share_round_time,
                proof_aggregation_round_time,
                total_time,
                output,
            ),
        ) => Ok(
            (
                commitment_round_time,
                decommitment_round_time,
                proof_share_round_time,
                proof_aggregation_round_time,
                total_time,
                output,
            ),
        ),
        Err(error) => Err(error),
    }
}

} // verus!
