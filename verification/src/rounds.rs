//! The four rounds of the aggregation, each as a capability that a party offers.
//!
//! A capability consumes the party's state for one phase and yields the message to
//! broadcast together with the state for the next phase; the last one yields the output.
//! The cryptography behind a transition is not this library's business. What a
//! transition may return is stated by a relation that belongs to the capability, and the
//! library promises its own results in terms of these relations. A relation that is left
//! as it is declared here admits every outcome, so an implementation is bound by no more
//! than it states itself.

use crate::party::PartyID;
use rand_core::OsRng;
use std::collections::HashMap;
use vstd::prelude::*;

verus! {

/// `rand_core::OsRng`, the operating system's random number generator: an opaque value
/// that is handed to every transition.
#[verifier::external_type_specification]
#[verifier::external_body]
pub struct ExOsRng(OsRng);

/// `OsRng`: a handle on the operating system's random number generator.
/// Nothing is claimed of the handle or of what it will yield.
#[verifier::external_body]
pub(crate) fn entropy_source() -> (rng: OsRng) {
    OsRng
}

/// A party that is about to commit to its statements.
pub trait CommitmentRoundParty<Output>: Sized {
    type Error;

    type Commitment: Clone;

    type DecommitmentRoundParty: DecommitmentRoundParty<Output, Commitment = Self::Commitment>;

    /// What the commitment of this party may return. Unless an implementation says
    /// more, every outcome is possible.
    open spec fn may_commit(
        self,
        outcome: Result<(Self::Commitment, Self::DecommitmentRoundParty), Self::Error>,
    ) -> bool {
        true
    }

    /// Commits, yielding the commitment to broadcast and the state for the
    /// decommitment round.
    fn commit_statements_and_statement_mask(self, rng: &mut OsRng) -> (outcome: Result<
        (Self::Commitment, Self::DecommitmentRoundParty),
        Self::Error,
    >)
        ensures
            self.may_commit(outcome),
    ;
}

/// A party that has committed and is about to open its commitment.
pub trait DecommitmentRoundParty<Output>: Sized {
    type Error;

    type Commitment: Clone;

    type Decommitment: Clone;

    type ProofShareRoundParty: ProofShareRoundParty<Output, Decommitment = Self::Decommitment>;

    /// What the decommitment of this party may return when it is handed `commitments`.
    /// Unless an implementation says more, every outcome is possible.
    open spec fn may_decommit(
        self,
        commitments: Map<PartyID, Self::Commitment>,
        outcome: Result<(Self::Decommitment, Self::ProofShareRoundParty), Self::Error>,
    ) -> bool {
        true
    }

    /// Opens the commitment in view of everybody's commitments, yielding the
    /// decommitment to broadcast and the state for the proof share round.
    fn decommit_statements_and_statement_mask(
        self,
        commitments: HashMap<PartyID, Self::Commitment>,
        rng: &mut OsRng,
    ) -> (outcome: Result<(Self::Decommitment, Self::ProofShareRoundParty), Self::Error>)
        ensures
            self.may_decommit(commitments@, outcome),
    ;
}

/// A party that has decommitted and is about to generate its share of the proof.
pub trait ProofShareRoundParty<Output>: Sized {
    type Error;

    type Decommitment: Clone;

    type ProofShare: Clone;

    type ProofAggregationRoundParty: ProofAggregationRoundParty<
        Output,
        ProofShare = Self::ProofShare,
    >;

    /// What the proof share generation of this party may return when it is handed
    /// `decommitments`. Unless an implementation says more, every outcome is possible.
    open spec fn may_share(
        self,
        decommitments: Map<PartyID, Self::Decommitment>,
        outcome: Result<(Self::ProofShare, Self::ProofAggregationRoundParty), Self::Error>,
    ) -> bool {
        true
    }

    /// Generates the proof share in view of everybody's decommitments, yielding the
    /// share to broadcast and the state for the aggregation round.
    fn generate_proof_share(
        self,
        decommitments: HashMap<PartyID, Self::Decommitment>,
        rng: &mut OsRng,
    ) -> (outcome: Result<(Self::ProofShare, Self::ProofAggregationRoundParty), Self::Error>)
        ensures
            self.may_share(decommitments@, outcome),
    ;
}

/// A party that has generated its proof share and is able to aggregate everybody's.
pub trait ProofAggregationRoundParty<Output>: Sized {
    type Error;

    type ProofShare: Clone;

    /// What the aggregation by this party may return when it is handed `proof_shares`.
    /// Unless an implementation says more, every outcome is possible.
    open spec fn may_aggregate(
        self,
        proof_shares: Map<PartyID, Self::ProofShare>,
        outcome: Result<Output, Self::Error>,
    ) -> bool {
        true
    }

    /// Aggregates everybody's proof shares into the final output.
    fn aggregate_proof_shares(
        self,
        proof_shares: HashMap<PartyID, Self::ProofShare>,
        rng: &mut OsRng,
    ) -> (outcome: Result<Output, Self::Error>)
        ensures
            self.may_aggregate(proof_shares@, outcome),
    ;
}

} // verus!
