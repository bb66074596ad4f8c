//! Why a run, or a single round of it, was abandoned.

use crate::party::PartyID;
use vstd::prelude::*;

verus! {

/// The reason for which no result is returned. A failure is never retried and leaves no
/// partial result behind.
#[derive(Clone, Debug, PartialEq, Eq)]
pub enum Error<E> {
    /// No party was supplied.
    EmptyPartySet,
    /// The parties do not all hold the same number of claims.
    BatchShapeMismatch,
    /// The transition of `party_id` for the claim at index `claim` failed with `error`.
    Transition { party_id: PartyID, claim: usize, error: E },
}

/// The failure of a transition, by the round in which it happened.
#[derive(Clone, Debug, PartialEq, Eq)]
pub enum RoundError<C, D, S, A> {
    /// The commitment round failed.
    Commitment(C),
    /// The decommitment round failed.
    Decommitment(D),
    /// The proof share round failed.
    ProofShare(S),
    /// The proof aggregation round failed.
    ProofAggregation(A),
}

} // verus!
