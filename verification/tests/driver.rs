use localagg::driver::{
    commitment_round, decommitment_round, proof_aggregation_round, proof_share_round,
};
use localagg::rounds::{
    CommitmentRoundParty, DecommitmentRoundParty, ProofAggregationRoundParty,
    ProofShareRoundParty,
};
use localagg::{Error, PartyID};
use rand_core::OsRng;
use std::collections::HashMap;

/// A message that says who sent it, in which round, and for which claim.
#[derive(Clone, Debug, PartialEq, Eq)]
struct Note {
    round: u8,
    party: PartyID,
    claim: usize,
}

/// A party state that knows where it stands and who else takes part, and that holds
/// every set it is handed against that.
#[derive(Clone, Debug, PartialEq, Eq)]
struct Probe {
    party: PartyID,
    claim: usize,
    roster: Vec<PartyID>,
    fails_in: Option<u8>,
}

impl Probe {
    fn step(&self, round: u8, handed: Option<&HashMap<PartyID, Note>>) -> Result<Note, String> {
        if self.fails_in == Some(round) {
            return Err(format!("party {} gave up on claim {}", self.party, self.claim));
        }
        if let Some(set) = handed {
            if set.len() != self.roster.len() {
                return Err(format!("{} notes for {} parties", set.len(), self.roster.len()));
            }
            for party in &self.roster {
                let expected = Note { round: round - 1, party: *party, claim: self.claim };
                if set.get(party) != Some(&expected) {
                    return Err(format!("wrong note of party {}", party));
                }
            }
        }
        Ok(Note { round, party: self.party, claim: self.claim })
    }
}

#[derive(Clone, Debug, PartialEq, Eq)]
struct Committer(Probe);
#[derive(Clone, Debug, PartialEq, Eq)]
struct Decommitter(Probe);
#[derive(Clone, Debug, PartialEq, Eq)]
struct Sharer(Probe);
#[derive(Clone, Debug, PartialEq, Eq)]
struct Aggregator(Probe);

type Seen = (usize, Vec<PartyID>);

impl CommitmentRoundParty<Seen> for Committer {
    type Error = String;
    type Commitment = Note;
    type DecommitmentRoundParty = Decommitter;

    fn commit_statements_and_statement_mask(
        self,
        _rng: &mut OsRng,
    ) -> Result<(Note, Decommitter), String> {
        let note = self.0.step(1, None)?;
        Ok((note, Decommitter(self.0)))
    }
}

impl DecommitmentRoundParty<Seen> for Decommitter {
    type Error = String;
    type Commitment = Note;
    type Decommitment = Note;
    type ProofShareRoundParty = Sharer;

    fn decommit_statements_and_statement_mask(
        self,
        commitments: HashMap<PartyID, Note>,
        _rng: &mut OsRng,
    ) -> Result<(Note, Sharer), String> {
        let note = self.0.step(2, Some(&commitments))?;
        Ok((note, Sharer(self.0)))
    }
}

impl ProofShareRoundParty<Seen> for Sharer {
    type Error = String;
    type Decommitment = Note;
    type ProofShare = Note;
    type ProofAggregationRoundParty = Aggregator;

    fn generate_proof_share(
        self,
        decommitments: HashMap<PartyID, Note>,
        _rng: &mut OsRng,
    ) -> Result<(Note, Aggregator), String> {
        let note = self.0.step(3, Some(&decommitments))?;
        Ok((note, Aggregator(self.0)))
    }
}

impl ProofAggregationRoundParty<Seen> for Aggregator {
    type Error = String;
    type ProofShare = Note;

    fn aggregate_proof_shares(
        self,
        proof_shares: HashMap<PartyID, Note>,
        _rng: &mut OsRng,
    ) -> Result<Seen, String> {
        self.0.step(4, Some(&proof_shares))?;
        let mut parties: Vec<PartyID> = proof_shares.keys().copied().collect();
        parties.sort();
        Ok((self.0.claim, parties))
    }
}

const ROSTER: [PartyID; 3] = [2, 5, 9];

fn probe(party: PartyID, claim: usize) -> Probe {
    Probe { party, claim, roster: ROSTER.to_vec(), fails_in: None }
}

fn probes(batch_size: usize) -> HashMap<PartyID, Vec<Probe>> {
    let mut registry = HashMap::new();
    for party in ROSTER {
        registry.insert(party, (0..batch_size).map(|claim| probe(party, claim)).collect());
    }
    registry
}

fn notes(round: u8, batch_size: usize) -> HashMap<PartyID, Vec<Note>> {
    let mut registry = HashMap::new();
    for party in ROSTER {
        registry
            .insert(party, (0..batch_size).map(|claim| Note { round, party, claim }).collect());
    }
    registry
}

fn note_sets(round: u8, batch_size: usize) -> Vec<HashMap<PartyID, Note>> {
    (0..batch_size)
        .map(|claim| {
            ROSTER.iter().map(|party| (*party, Note { round, party: *party, claim })).collect()
        })
        .collect()
}

fn wrap<S, T>(registry: HashMap<PartyID, Vec<S>>, wrapper: fn(S) -> T) -> HashMap<PartyID, Vec<T>> {
    registry
        .into_iter()
        .map(|(party, states)| (party, states.into_iter().map(wrapper).collect()))
        .collect()
}

#[test]
fn commitment_round_commits_for_every_party_and_claim() {
    let (commitments, next) = commitment_round(wrap(probes(2), Committer), &mut OsRng).unwrap();
    assert_eq!(commitments, notes(1, 2));
    assert_eq!(next, wrap(probes(2), Decommitter));
}

#[test]
fn commitment_round_takes_parties_of_any_length() {
    let mut registry = wrap(probes(2), Committer);
    registry.get_mut(&5).unwrap().pop();
    let (commitments, next) = commitment_round(registry, &mut OsRng).unwrap();
    assert_eq!(commitments[&2].len(), 2);
    assert_eq!(commitments[&5], vec![Note { round: 1, party: 5, claim: 0 }]);
    assert_eq!(next[&5], vec![Decommitter(probe(5, 0))]);
}

#[test]
fn commitment_round_of_no_party_is_empty() {
    let registry: HashMap<PartyID, Vec<Committer>> = HashMap::new();
    let (commitments, next) = commitment_round(registry, &mut OsRng).unwrap();
    assert!(commitments.is_empty());
    assert!(next.is_empty());
}

#[test]
fn commitment_round_reports_the_transition_that_failed() {
    let mut registry = wrap(probes(3), Committer);
    registry.get_mut(&5).unwrap()[1].0.fails_in = Some(1);
    assert_eq!(
        commitment_round(registry, &mut OsRng),
        Err(Error::Transition {
            party_id: 5,
            claim: 1,
            error: "party 5 gave up on claim 1".to_string()
        })
    );
}

#[test]
fn decommitment_round_hands_each_claim_its_own_commitments() {
    let (decommitments, next) =
        decommitment_round(wrap(probes(2), Decommitter), &note_sets(1, 2), &mut OsRng).unwrap();
    assert_eq!(decommitments, notes(2, 2));
    assert_eq!(next, wrap(probes(2), Sharer));
}

#[test]
fn decommitment_round_notices_swapped_claims() {
    let mut sets = note_sets(1, 2);
    sets.swap(0, 1);
    let outcome = decommitment_round(wrap(probes(2), Decommitter), &sets, &mut OsRng);
    assert!(matches!(outcome, Err(Error::Transition { .. })));
}

#[test]
fn decommitment_round_rejects_a_wrong_number_of_sets() {
    let outcome = decommitment_round(wrap(probes(2), Decommitter), &note_sets(1, 3), &mut OsRng);
    assert_eq!(outcome, Err(Error::BatchShapeMismatch));
    let mut registry = wrap(probes(2), Decommitter);
    registry.get_mut(&9).unwrap().pop();
    let outcome = decommitment_round(registry, &note_sets(1, 2), &mut OsRng);
    assert_eq!(outcome, Err(Error::BatchShapeMismatch));
}

#[test]
fn decommitment_round_reports_the_transition_that_failed() {
    let mut registry = wrap(probes(2), Decommitter);
    registry.get_mut(&9).unwrap()[0].0.fails_in = Some(2);
    assert_eq!(
        decommitment_round(registry, &note_sets(1, 2), &mut OsRng),
        Err(Error::Transition {
            party_id: 9,
            claim: 0,
            error: "party 9 gave up on claim 0".to_string()
        })
    );
}

#[test]
fn proof_share_round_hands_each_claim_its_own_decommitments() {
    let (proof_shares, next) =
        proof_share_round(wrap(probes(3), Sharer), &note_sets(2, 3), &mut OsRng).unwrap();
    assert_eq!(proof_shares, notes(3, 3));
    assert_eq!(next, wrap(probes(3), Aggregator));
}

#[test]
fn proof_share_round_rejects_a_wrong_number_of_sets() {
    let outcome = proof_share_round(wrap(probes(2), Sharer), &note_sets(2, 1), &mut OsRng);
    assert_eq!(outcome, Err(Error::BatchShapeMismatch));
}

#[test]
fn proof_share_round_reports_the_transition_that_failed() {
    let mut registry = wrap(probes(2), Sharer);
    registry.get_mut(&2).unwrap()[1].0.fails_in = Some(3);
    assert_eq!(
        proof_share_round(registry, &note_sets(2, 2), &mut OsRng),
        Err(Error::Transition {
            party_id: 2,
            claim: 1,
            error: "party 2 gave up on claim 1".to_string()
        })
    );
}

#[test]
fn proof_aggregation_round_aggregates_claim_by_claim() {
    let states = vec![Aggregator(probe(5, 0)), Aggregator(probe(5, 1))];
    assert_eq!(
        proof_aggregation_round(5, states, &note_sets(3, 2), &mut OsRng),
        Ok(vec![(0, vec![2, 5, 9]), (1, vec![2, 5, 9])])
    );
}

#[test]
fn proof_aggregation_round_gives_the_same_outputs_whoever_aggregates() {
    let by = |party: PartyID| {
        let states = vec![Aggregator(probe(party, 0)), Aggregator(probe(party, 1))];
        proof_aggregation_round(party, states, &note_sets(3, 2), &mut OsRng)
    };
    assert_eq!(by(2), by(5));
    assert_eq!(by(5), by(9));
}

#[test]
fn proof_aggregation_round_rejects_a_wrong_number_of_sets() {
    let states = vec![Aggregator(probe(5, 0))];
    assert_eq!(
        proof_aggregation_round(5, states, &note_sets(3, 2), &mut OsRng),
        Err(Error::BatchShapeMismatch)
    );
}

#[test]
fn proof_aggregation_round_reports_the_claim_that_failed() {
    let mut failing = probe(9, 1);
    failing.fails_in = Some(4);
    let states = vec![Aggregator(probe(9, 0)), Aggregator(failing)];
    assert_eq!(
        proof_aggregation_round(9, states, &note_sets(3, 2), &mut OsRng),
        Err(Error::Transition {
            party_id: 9,
            claim: 1,
            error: "party 9 gave up on claim 1".to_string()
        })
    );
}
