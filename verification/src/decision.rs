//! What a call is owed, given the records it reads.
//!
//! Each function here takes the few stored values that a call depends on and
//! decides the call: which refusal it gets, or which value is to be written.
//! The ledger kept in memory and a ledger kept in a host's storage decide by
//! the same functions.

use crate::address::{contains_address, identities, Address, Identity};
use crate::error::{RegistryError, SurveyError};
use crate::survey::SurveyPhase;
use vstd::prelude::*;

verus! {

/// The phase of a window when the clock reads `now`.
pub open spec fn phase_at(start_date: u64, end_date: u64, now: u64) -> SurveyPhase {
    if now < start_date {
        SurveyPhase::Created
    } else if now <= end_date {
        SurveyPhase::Open
    } else {
        SurveyPhase::Closed
    }
}

/// The phase of a window when the clock reads `now`.
pub fn phase_of(start_date: u64, end_date: u64, now: u64) -> (phase: SurveyPhase)
    ensures
        phase == phase_at(start_date, end_date, now),
{
    if now < start_date {
        SurveyPhase::Created
    } else if now <= end_date {
        SurveyPhase::Open
    } else {
        SurveyPhase::Closed
    }
}

/// What a call to create a survey is owed when `survey_count` surveys exist:
/// the checks in the order in which they are made, and the id of the new
/// survey where all of them pass. The id is the count moved on by one; where
/// the count is at the largest value an id can hold, the call is refused.
pub open spec fn new_survey_decision(
    survey_count: nat,
    start_date: u64,
    end_date: u64,
    candidates: Seq<Identity>,
    authenticated: bool,
) -> Result<u64, SurveyError> {
    if !authenticated {
        Err(SurveyError::Unauthorized)
    } else if candidates.len() == 0 {
        Err(SurveyError::InvalidCandidateSet)
    } else if start_date >= end_date {
        Err(SurveyError::InvalidTimeWindow)
    } else if survey_count >= u64::MAX {
        Err(SurveyError::CounterExhausted)
    } else {
        Ok((survey_count + 1) as u64)
    }
}

/// Decides a call to create a survey when `survey_count` surveys exist.
pub fn decide_new_survey(
    survey_count: u64,
    start_date: u64,
    end_date: u64,
    candidates: &Vec<Address>,
    authenticated: bool,
) -> (outcome: Result<u64, SurveyError>)
    ensures
        outcome == new_survey_decision(
            survey_count as nat,
            start_date,
            end_date,
            identities(candidates@),
            authenticated,
        ),
{
    if !authenticated {
        Err(SurveyError::Unauthorized)
    } else if candidates.len() == 0 {
        Err(SurveyError::InvalidCandidateSet)
    } else if start_date >= end_date {
        Err(SurveyError::InvalidTimeWindow)
    } else if survey_count == u64::MAX {
        Err(SurveyError::CounterExhausted)
    } else {
        Ok(survey_count + 1)
    }
}

/// What a call to vote is owed: the checks in the order in which they are
/// made, and the candidate's tally after the vote where all of them pass.
///
/// `exists` says whether the survey is stored, and `start_date`, `end_date`
/// and `candidates` are its window and its list. `recorded` says whether the
/// voter has a vote on record in the survey, `tally` is the stored tally of
/// the candidate and `total_votes` the length of the survey's roster. Where
/// one of the two counts is at the largest value it can hold, the call is
/// refused.
pub open spec fn vote_decision(
    exists: bool,
    start_date: u64,
    end_date: u64,
    candidates: Seq<Identity>,
    recorded: bool,
    tally: nat,
    total_votes: nat,
    candidate: Identity,
    now: u64,
    authenticated: bool,
) -> Result<u64, SurveyError> {
    if !authenticated {
        Err(SurveyError::Unauthorized)
    } else if !exists {
        Err(SurveyError::SurveyNotFound)
    } else if !(start_date <= now <= end_date) {
        Err(SurveyError::SurveyNotOpen)
    } else if !candidates.contains(candidate) {
        Err(SurveyError::InvalidCandidate)
    } else if recorded {
        Err(SurveyError::AlreadyVoted)
    } else if tally >= u64::MAX || total_votes >= u64::MAX {
        Err(SurveyError::CounterExhausted)
    } else {
        Ok((tally + 1) as u64)
    }
}

/// Decides a call to vote. Where the survey is not stored, its window and its
/// list are not looked at.
pub fn decide_vote(
    exists: bool,
    start_date: u64,
    end_date: u64,
    candidates: &Vec<Address>,
    recorded: bool,
    tally: u64,
    total_votes: u64,
    candidate: &Address,
    now: u64,
    authenticated: bool,
) -> (outcome: Result<u64, SurveyError>)
    ensures
        outcome == vote_decision(
            exists,
            start_date,
            end_date,
            identities(candidates@),
            recorded,
            tally as nat,
            total_votes as nat,
            candidate@,
            now,
            authenticated,
        ),
{
    if !authenticated {
        Err(SurveyError::Unauthorized)
    } else if !exists {
        Err(SurveyError::SurveyNotFound)
    } else if now < start_date || now > end_date {
        Err(SurveyError::SurveyNotOpen)
    } else if !contains_address(candidates, candidate) {
        Err(SurveyError::InvalidCandidate)
    } else if recorded {
        Err(SurveyError::AlreadyVoted)
    } else if tally == u64::MAX || total_votes == u64::MAX {
        Err(SurveyError::CounterExhausted)
    } else {
        Ok(tally + 1)
    }
}

/// What a call to register is owed when `count` wallets are registered:
/// refused where the wallet did not prove its identity; nothing to do where
/// it is registered already; otherwise the count after the registration, and
/// a refusal where the count is at the largest value it can hold.
pub open spec fn registration_decision(registered: bool, count: nat, authenticated: bool) -> Result<
    Option<u64>,
    RegistryError,
> {
    if !authenticated {
        Err(RegistryError::Unauthorized)
    } else if registered {
        Ok(None)
    } else if count >= u64::MAX {
        Err(RegistryError::CounterExhausted)
    } else {
        Ok(Some((count + 1) as u64))
    }
}

/// Decides a call to register.
pub fn decide_registration(registered: bool, count: u64, authenticated: bool) -> (outcome: Result<
    Option<u64>,
    RegistryError,
>)
    ensures
        outcome == registration_decision(registered, count as nat, authenticated),
{
    if !authenticated {
        Err(RegistryError::Unauthorized)
    } else if registered {
        Ok(None)
    } else if count == u64::MAX {
        Err(RegistryError::CounterExhausted)
    } else {
        Ok(Some(count + 1))
    }
}

/// What a call to register returns: `true` where it registers the wallet,
/// `false` where the wallet is registered already.
pub open spec fn registration_outcome(registered: bool, count: nat, authenticated: bool) -> Result<
    bool,
    RegistryError,
> {
    match registration_decision(registered, count, authenticated) {
        Ok(Some(_)) => Ok(true),
        Ok(None) => Ok(false),
        Err(error) => Err(error),
    }
}

} // verus!
