use localagg::rounds::{
    CommitmentRoundParty, DecommitmentRoundParty, ProofAggregationRoundParty,
    ProofShareRoundParty,
};
use localagg::{
    aggregates, aggregates_multiple, aggregates_multiple_with_decommitments,
    aggregates_with_decommitments, Error, PartyID, RoundError,
};
use rand_core::OsRng;
use std::cell::Cell;
use std::collections::HashMap;
use std::rc::Rc;
use std::time::Duration;

// Parties that keep a log: every round appends the party's identifier to a fresh log and
// broadcasts it; the aggregation concatenates the logs of all proof shares by party.

type Log = Vec<PartyID>;

struct LogCommitter(PartyID);
struct LogDecommitter(PartyID);
struct LogSharer(PartyID);
struct LogAggregator;

impl CommitmentRoundParty<Log> for LogCommitter {
    type Error = ();
    type Commitment = Log;
    type DecommitmentRoundParty = LogDecommitter;

    fn commit_statements_and_statement_mask(
        self,
        _rng: &mut OsRng,
    ) -> Result<(Log, LogDecommitter), ()> {
        Ok((vec![self.0], LogDecommitter(self.0)))
    }
}

impl DecommitmentRoundParty<Log> for LogDecommitter {
    type Error = ();
    type Commitment = Log;
    type Decommitment = Log;
    type ProofShareRoundParty = LogSharer;

    fn decommit_statements_and_statement_mask(
        self,
        _commitments: HashMap<PartyID, Log>,
        _rng: &mut OsRng,
    ) -> Result<(Log, LogSharer), ()> {
        Ok((vec![self.0], LogSharer(self.0)))
    }
}

impl ProofShareRoundParty<Log> for LogSharer {
    type Error = ();
    type Decommitment = Log;
    type ProofShare = Log;
    type ProofAggregationRoundParty = LogAggregator;

    fn generate_proof_share(
        self,
        _decommitments: HashMap<PartyID, Log>,
        _rng: &mut OsRng,
    ) -> Result<(Log, LogAggregator), ()> {
        Ok((vec![self.0], LogAggregator))
    }
}

impl ProofAggregationRoundParty<Log> for LogAggregator {
    type Error = ();
    type ProofShare = Log;

    fn aggregate_proof_shares(
        self,
        proof_shares: HashMap<PartyID, Log>,
        _rng: &mut OsRng,
    ) -> Result<Log, ()> {
        let mut parties: Vec<PartyID> = proof_shares.keys().copied().collect();
        parties.sort();
        Ok(parties.iter().flat_map(|party| proof_shares[party].clone()).collect())
    }
}

fn three_loggers() -> HashMap<PartyID, Vec<LogCommitter>> {
    HashMap::from([
        (3, vec![LogCommitter(3), LogCommitter(3)]),
        (1, vec![LogCommitter(1), LogCommitter(1)]),
        (2, vec![LogCommitter(2), LogCommitter(2)]),
    ])
}

#[test]
fn three_parties_two_claims_end_to_end() {
    let (decommitments, _, _, _, _, _, outputs) =
        aggregates_multiple_with_decommitments(three_loggers()).unwrap();
    assert_eq!(outputs, vec![vec![1, 2, 3], vec![1, 2, 3]]);
    assert_eq!(
        decommitments,
        HashMap::from([
            (1, vec![vec![1], vec![1]]),
            (2, vec![vec![2], vec![2]]),
            (3, vec![vec![3], vec![3]]),
        ])
    );
}

#[test]
fn three_parties_two_claims_without_decommitments() {
    let (_, _, _, _, _, outputs) = aggregates_multiple(three_loggers()).unwrap();
    assert_eq!(outputs, vec![vec![1, 2, 3], vec![1, 2, 3]]);
}

#[test]
fn no_phase_is_measured() {
    let (_, commitment, decommitment, proof_share, proof_aggregation, total, _) =
        aggregates_multiple_with_decommitments(three_loggers()).unwrap();
    for time in [commitment, decommitment, proof_share, proof_aggregation, total] {
        assert_eq!(time, Duration::ZERO);
        assert_eq!(time.as_nanos(), 0);
    }
    let (commitment, decommitment, proof_share, proof_aggregation, total, _) =
        aggregates(HashMap::from([(1, LogCommitter(1))])).unwrap();
    for time in [commitment, decommitment, proof_share, proof_aggregation, total] {
        assert_eq!(time, Duration::default());
    }
}

// Parties that hold every set they are handed against who takes part and for which
// claim, and that fail where they are told to.

#[derive(Clone, Debug, PartialEq, Eq)]
struct Note {
    round: u8,
    party: PartyID,
    claim: usize,
}

#[derive(Clone, Debug)]
struct Probe {
    party: PartyID,
    claim: usize,
    roster: Vec<PartyID>,
    fails_in: Option<u8>,
    transitions: Rc<Cell<usize>>,
}

impl Probe {
    fn step(&self, round: u8, handed: Option<&HashMap<PartyID, Note>>) -> Result<Note, String> {
        self.transitions.set(self.transitions.get() + 1);
        if self.fails_in == Some(round) {
            return Err(format!("party {} gave up on claim {}", self.party, self.claim));
        }
        if let Some(set) = handed {
            if set.len() != self.roster.len() {
                return Err(format!("{} notes for {} parties", set.len(), self.roster.len()));
            }
            for party in &self.roster {
                let expected = Note { round: round - 1, party: *party, claim: self.claim };
                if set.get(party) != Some(&expected) {
                    return Err(format!("wrong note of party {}", party));
                }
            }
        }
        Ok(Note { round, party: self.party, claim: self.claim })
    }
}

struct Committer(Probe);
struct Decommitter(Probe);
struct Sharer(Probe);
struct Aggregator(Probe);

type Seen = (usize, Vec<PartyID>);

impl CommitmentRoundParty<Seen> for Committer {
    type Error = String;
    type Commitment = Note;
    type DecommitmentRoundParty = Decommitter;

    fn commit_statements_and_statement_mask(
        self,
        _rng: &mut OsRng,
    ) -> Result<(Note, Decommitter), String> {
        let note = self.0.step(1, None)?;
        Ok((note, Decommitter(self.0)))
    }
}

impl DecommitmentRoundParty<Seen> for Decommitter {
    type Error = String;
    type Commitment = Note;
    type Decommitment = Note;
    type ProofShareRoundParty = Sharer;

    fn decommit_statements_and_statement_mask(
        self,
        commitments: HashMap<PartyID, Note>,
        _rng: &mut OsRng,
    ) -> Result<(Note, Sharer), String> {
        let note = self.0.step(2, Some(&commitments))?;
        Ok((note, Sharer(self.0)))
    }
}

impl ProofShareRoundParty<Seen> for Sharer {
    type Error = String;
    type Decommitment = Note;
    type ProofShare = Note;
    type ProofAggregationRoundParty = Aggregator;

    fn generate_proof_share(
        self,
        decommitments: HashMap<PartyID, Note>,
        _rng: &mut OsRng,
    ) -> Result<(Note, Aggregator), String> {
        let note = self.0.step(3, Some(&decommitments))?;
        Ok((note, Aggregator(self.0)))
    }
}

impl ProofAggregationRoundParty<Seen> for Aggregator {
    type Error = String;
    type ProofShare = Note;

    fn aggregate_proof_shares(
        self,
        proof_shares: HashMap<PartyID, Note>,
        _rng: &mut OsRng,
    ) -> Result<Seen, String> {
        self.0.step(4, Some(&proof_shares))?;
        let mut parties: Vec<PartyID> = proof_shares.keys().copied().collect();
        parties.sort();
        Ok((self.0.claim, parties))
    }
}

fn committers(
    roster: &[PartyID],
    batch_size: usize,
    transitions: &Rc<Cell<usize>>,
) -> HashMap<PartyID, Vec<Committer>> {
    let mut registry = HashMap::new();
    for party in roster {
        let states = (0..batch_size)
            .map(|claim| {
                Committer(Probe {
                    party: *party,
                    claim,
                    roster: roster.to_vec(),
                    fails_in: None,
                    transitions: transitions.clone(),
                })
            })
            .collect();
        registry.insert(*party, states);
    }
    registry
}

fn single_committers(
    roster: &[PartyID],
    transitions: &Rc<Cell<usize>>,
) -> HashMap<PartyID, Committer> {
    committers(roster, 1, transitions)
        .into_iter()
        .map(|(party, mut states)| (party, states.pop().unwrap()))
        .collect()
}

type Failure = Error<RoundError<String, String, String, String>>;

fn gave_up(party_id: PartyID, claim: usize) -> String {
    format!("party {} gave up on claim {}", party_id, claim)
}

#[test]
fn every_transition_sees_every_party_of_its_own_claim() {
    let transitions = Rc::new(Cell::new(0));
    let roster = [4, 8, 15, 16, 23];
    let (decommitments, _, _, _, _, _, outputs) =
        aggregates_multiple_with_decommitments(committers(&roster, 3, &transitions)).unwrap();
    assert_eq!(
        outputs,
        vec![(0, roster.to_vec()), (1, roster.to_vec()), (2, roster.to_vec())]
    );
    assert_eq!(decommitments.len(), 5);
    for party in roster {
        let expected: Vec<Note> =
            (0..3).map(|claim| Note { round: 2, party, claim }).collect();
        assert_eq!(decommitments[&party], expected);
    }
    // three rounds for every party and claim, and one aggregation per claim
    assert_eq!(transitions.get(), 3 * 5 * 3 + 3);
}

#[test]
fn a_single_party_aggregates_its_own_share() {
    let transitions = Rc::new(Cell::new(0));
    let (_, _, _, _, _, outputs) = aggregates_multiple(committers(&[7], 2, &transitions)).unwrap();
    assert_eq!(outputs, vec![(0, vec![7]), (1, vec![7])]);
}

#[test]
fn a_single_claim_is_a_batch_of_one() {
    let transitions = Rc::new(Cell::new(0));
    let roster = [1, 2, 3];
    let (single_decommitments, _, _, _, _, _, single) =
        aggregates_with_decommitments(single_committers(&roster, &transitions)).unwrap();
    let (batch_decommitments, _, _, _, _, _, batch) =
        aggregates_multiple_with_decommitments(committers(&roster, 1, &transitions)).unwrap();
    assert_eq!(vec![single.clone()], batch);
    assert_eq!(single, (0, vec![1, 2, 3]));
    assert_eq!(single_decommitments, batch_decommitments);
    assert_eq!(single_decommitments[&2], vec![Note { round: 2, party: 2, claim: 0 }]);

    let (_, _, _, _, _, output) = aggregates(single_committers(&roster, &transitions)).unwrap();
    let (_, _, _, _, _, outputs) =
        aggregates_multiple(committers(&roster, 1, &transitions)).unwrap();
    assert_eq!(vec![output], outputs);
}

#[test]
fn an_empty_batch_has_no_output() {
    let transitions = Rc::new(Cell::new(0));
    let (decommitments, _, _, _, _, _, outputs) =
        aggregates_multiple_with_decommitments(committers(&[1, 2], 0, &transitions)).unwrap();
    assert_eq!(outputs, vec![]);
    assert_eq!(decommitments, HashMap::from([(1, vec![]), (2, vec![])]));
    assert_eq!(transitions.get(), 0);
}

#[test]
fn an_empty_party_set_is_rejected() {
    let nobody: HashMap<PartyID, Vec<Committer>> = HashMap::new();
    assert_eq!(
        aggregates_multiple_with_decommitments(nobody).err(),
        Some(Failure::EmptyPartySet)
    );
    let nobody: HashMap<PartyID, Vec<Committer>> = HashMap::new();
    assert_eq!(aggregates_multiple(nobody).err(), Some(Failure::EmptyPartySet));
    let nobody: HashMap<PartyID, Committer> = HashMap::new();
    assert_eq!(aggregates_with_decommitments(nobody).err(), Some(Failure::EmptyPartySet));
    let nobody: HashMap<PartyID, Committer> = HashMap::new();
    assert_eq!(aggregates(nobody).err(), Some(Failure::EmptyPartySet));
}

#[test]
fn unequal_batches_are_rejected_before_any_transition() {
    let transitions = Rc::new(Cell::new(0));
    let mut short = committers(&[1, 2, 3], 2, &transitions);
    short.get_mut(&2).unwrap().pop();
    assert_eq!(
        aggregates_multiple_with_decommitments(short).err(),
        Some(Failure::BatchShapeMismatch)
    );
    let mut long = committers(&[1, 2, 3], 2, &transitions);
    let extra = committers(&[3], 3, &transitions).remove(&3).unwrap().pop().unwrap();
    long.get_mut(&3).unwrap().push(extra);
    assert_eq!(aggregates_multiple(long).err(), Some(Failure::BatchShapeMismatch));
    assert_eq!(transitions.get(), 0);
}

fn failing_run(round: u8, party_id: PartyID, claim: usize) -> Option<Failure> {
    let transitions = Rc::new(Cell::new(0));
    let mut registry = committers(&[1, 2, 3], 2, &transitions);
    registry.get_mut(&party_id).unwrap()[claim].0.fails_in = Some(round);
    aggregates_multiple_with_decommitments(registry).err()
}

#[test]
fn a_failed_commitment_ends_the_run() {
    assert_eq!(
        failing_run(1, 2, 1),
        Some(Error::Transition {
            party_id: 2,
            claim: 1,
            error: RoundError::Commitment(gave_up(2, 1))
        })
    );
}

#[test]
fn a_failed_decommitment_ends_the_run() {
    assert_eq!(
        failing_run(2, 3, 0),
        Some(Error::Transition {
            party_id: 3,
            claim: 0,
            error: RoundError::Decommitment(gave_up(3, 0))
        })
    );
}

#[test]
fn a_failed_proof_share_ends_the_run() {
    assert_eq!(
        failing_run(3, 1, 1),
        Some(Error::Transition {
            party_id: 1,
            claim: 1,
            error: RoundError::ProofShare(gave_up(1, 1))
        })
    );
}

#[test]
fn a_failed_aggregation_ends_the_run() {
    let transitions = Rc::new(Cell::new(0));
    let mut registry = committers(&[1, 2, 3], 2, &transitions);
    for states in registry.values_mut() {
        states[1].0.fails_in = Some(4);
    }
    match aggregates_multiple(registry) {
        Err(Error::Transition { party_id, claim, error }) => {
            assert!([1, 2, 3].contains(&party_id));
            assert_eq!(claim, 1);
            assert_eq!(error, RoundError::ProofAggregation(gave_up(party_id, 1)));
        }
        other => panic!("the run went on: {:?}", other.map(|run| run.5)),
    }
}

#[test]
fn a_failed_single_claim_has_no_output() {
    let transitions = Rc::new(Cell::new(0));
    let mut registry = single_committers(&[1, 2], &transitions);
    registry.get_mut(&1).unwrap().0.fails_in = Some(2);
    assert_eq!(
        aggregates(registry).err(),
        Some(Error::Transition {
            party_id: 1,
            claim: 0,
            error: RoundError::Decommitment(gave_up(1, 0))
        })
    );
}

#[test]
fn the_output_does_not_depend_on_who_aggregates() {
    // the aggregating party is whichever the registry yields first; with a fresh
    // registry per run that party varies, the outputs do not
    let transitions = Rc::new(Cell::new(0));
    let roster: Vec<PartyID> = (1..=20).collect();
    let first = aggregates_multiple(committers(&roster, 2, &transitions)).unwrap().5;
    for _ in 0..10 {
        let again = aggregates_multiple(committers(&roster, 2, &transitions)).unwrap().5;
        assert_eq!(first, again);
    }
    assert_eq!(first, vec![(0, roster.clone()), (1, roster)]);
}
