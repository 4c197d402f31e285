//! A time-windowed, one-vote-per-identity election ledger, together with the
//! two identity registries that accompany it.
//!
//! Every operation is a method on a value that owns its records. The caller
//! supplies what only the hosting environment knows: the reading of the ledger
//! clock and whether the acting address has proved its identity.
//!
//! - [`survey_contract`] holds the ledger itself: surveys are created, votes
//!   are recorded, results are reported.
//! - [`ledger`] is its mathematical model: the keyed tables, the outcome of
//!   each call and the ledger after it, and the invariant.
//! - [`history`] and [`laws`] state what holds of every ledger, after any
//!   sequence of calls.
//! - [`decision`] decides each call from the few records it reads.
//! - [`tally`] says what a maintained tally must equal.
//! - [`survey`], [`address`] and [`error`] hold the values that pass through.
//! - [`candidate_registry`] and [`user_registry`] are the two registries.

pub mod address;
mod book;
mod keyed;
pub mod candidate_registry;
pub mod decision;
pub mod error;
pub mod history;
pub mod laws;
pub mod ledger;
pub mod survey;
pub mod survey_contract;
pub mod tally;
pub mod user_registry;

pub use address::Address;
pub use candidate_registry::{Candidate, CandidateRegistry};
pub use error::{RegistryError, SurveyError};
pub use survey::{Survey, SurveyPhase, VoteResult};
pub use survey_contract::SurveyContract;
pub use user_registry::{User, UserRegistry};
