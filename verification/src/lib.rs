//! Local driver for a four-round proof aggregation among co-located parties.
//!
//! A number of parties, all in one process, are taken through the four rounds of an
//! interactive proof aggregation: commit, decommit, generate proof shares, aggregate.
//! Every party holds one state per claim of a batch, and between two rounds the messages
//! of all parties are reshaped so that each transition of the next round sees, for its
//! own claim, the messages of every party.

pub mod aggregation;
pub mod driver;
pub mod error;
pub mod party;
pub mod rounds;
pub mod timing;
pub mod transpose;

pub use aggregation::{
    aggregates, aggregates_multiple, aggregates_multiple_with_decommitments,
    aggregates_with_decommitments,
};
pub use error::{Error, RoundError};
pub use party::PartyID;
