//! Why an operation was refused.

use vstd::prelude::*;

verus! {

/// The reasons for which the survey ledger refuses a call.
///
/// A refused call leaves the ledger exactly as it was.
#[derive(Debug, Clone, Copy, PartialEq, Eq, Structural)]
pub enum SurveyError {
    /// A survey was proposed with an empty candidate list.
    InvalidCandidateSet,
    /// A survey was proposed whose start is not before its end.
    InvalidTimeWindow,
    /// No survey has the given id.
    SurveyNotFound,
    /// The clock is before the survey's start or after its end.
    SurveyNotOpen,
    /// The chosen candidate is not in the survey's list.
    InvalidCandidate,
    /// The voter already has a vote on record in the survey.
    AlreadyVoted,
    /// The acting address did not prove its identity.
    Unauthorized,
    /// A counter of the ledger is at the largest value it can hold.
    CounterExhausted,
}

impl SurveyError {
    /// The sentence that describes this refusal.
    pub open spec fn message_text(self) -> Seq<char> {
        match self {
            SurveyError::InvalidCandidateSet => "Survey must have at least one candidate"@,
            SurveyError::InvalidTimeWindow => "Start date must be before end date"@,
            SurveyError::SurveyNotFound => "Survey not found"@,
            SurveyError::SurveyNotOpen => "Survey is not open"@,
            SurveyError::InvalidCandidate => "Candidate is not in this survey"@,
            SurveyError::AlreadyVoted => "Voter has already voted in this survey"@,
            SurveyError::Unauthorized => "Caller is not authorized"@,
            SurveyError::CounterExhausted => "Counter cannot go any higher"@,
        }
    }

    /// The sentence that describes this refusal.
    pub fn message(&self) -> (text: &'static str)
        ensures
            text@ == self.message_text(),
    {
        match self {
            SurveyError::InvalidCandidateSet => "Survey must have at least one candidate",
            SurveyError::InvalidTimeWindow => "Start date must be before end date",
            SurveyError::SurveyNotFound => "Survey not found",
            SurveyError::SurveyNotOpen => "Survey is not open",
            SurveyError::InvalidCandidate => "Candidate is not in this survey",
            SurveyError::AlreadyVoted => "Voter has already voted in this survey",
            SurveyError::Unauthorized => "Caller is not authorized",
            SurveyError::CounterExhausted => "Counter cannot go any higher",
        }
    }
}

/// The reasons for which a registry refuses a call.
#[derive(Debug, Clone, Copy, PartialEq, Eq, Structural)]
pub enum RegistryError {
    /// The acting address did not prove its identity.
    Unauthorized,
    /// The count of registered wallets is at the largest value it can hold.
    CounterExhausted,
}

impl RegistryError {
    /// The sentence that describes this refusal.
    pub open spec fn message_text(self) -> Seq<char> {
        match self {
            RegistryError::Unauthorized => "Caller is not authorized"@,
            RegistryError::CounterExhausted => "Counter cannot go any higher"@,
        }
    }

    /// The sentence that describes this refusal.
    pub fn message(&self) -> (text: &'static str)
        ensures
            text@ == self.message_text(),
    {
        match self {
            RegistryError::Unauthorized => "Caller is not authorized",
            RegistryError::CounterExhausted => "Counter cannot go any higher",
        }
    }
}

} // verus!
