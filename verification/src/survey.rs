//! Surveys, their phases, and the results reported for them.

use crate::address::{clone_addresses, contains_address, identities, Address, Identity};
use crate::decision::{phase_at, phase_of};
use vstd::prelude::*;

verus! {

/// Where a survey stands relative to the ledger clock.
///
/// The phase is never stored: it is derived from the clock and the survey's
/// bounds each time it is needed.
#[derive(Debug, Clone, Copy, PartialEq, Eq, Structural)]
pub enum SurveyPhase {
    /// The clock is before the survey's start.
    Created,
    /// The clock is inside the window, both ends included: votes are accepted.
    Open,
    /// The clock is past the survey's end.
    Closed,
}

/// The mathematical value of a [`Survey`].
pub struct SurveyView {
    pub survey_id: u64,
    pub creator: Identity,
    pub name: Seq<char>,
    pub description: Seq<char>,
    pub start_date: u64,
    pub end_date: u64,
    pub candidates: Seq<Identity>,
}

impl SurveyView {
    /// The phase of the survey when the clock reads `now`.
    pub open spec fn phase(self, now: u64) -> SurveyPhase {
        phase_at(self.start_date, self.end_date, now)
    }

    /// Whether votes are accepted when the clock reads `now`.
    pub open spec fn is_open(self, now: u64) -> bool {
        self.start_date <= now <= self.end_date
    }

    /// Whether `candidate` may be voted for in this survey.
    pub open spec fn lists(self, candidate: Identity) -> bool {
        self.candidates.contains(candidate)
    }

    /// What every stored survey satisfies: some candidate, and a start before the end.
    pub open spec fn well_formed(self) -> bool {
        &&& self.candidates.len() > 0
        &&& self.start_date < self.end_date
    }
}

/// A time-bounded ballot with a fixed candidate list.
///
/// The candidate list keeps the order and the repetitions it was created with.
#[derive(Debug)]
pub struct Survey {
    pub survey_id: u64,
    pub creator: Address,
    pub name: String,
    pub description: String,
    pub start_date: u64,
    pub end_date: u64,
    pub candidates: Vec<Address>,
}

impl View for Survey {
    type V = SurveyView;

    open spec fn view(&self) -> SurveyView {
        SurveyView {
            survey_id: self.survey_id,
            creator: self.creator@,
            name: self.name@,
            description: self.description@,
            start_date: self.start_date,
            end_date: self.end_date,
            candidates: identities(self.candidates@),
        }
    }
}

impl Clone for Survey {
    fn clone(&self) -> (copy: Survey)
        ensures
            copy@ == self@,
    {
        Survey {
            survey_id: self.survey_id,
            creator: self.creator.clone(),
            name: self.name.clone(),
            description: self.description.clone(),
            start_date: self.start_date,
            end_date: self.end_date,
            candidates: clone_addresses(&self.candidates),
        }
    }
}

impl Survey {
    /// The phase of the survey when the clock reads `now`.
    pub fn phase(&self, now: u64) -> (phase: SurveyPhase)
        ensures
            phase == self@.phase(now),
    {
        phase_of(self.start_date, self.end_date, now)
    }

    /// Whether votes are accepted when the clock reads `now`.
    pub fn is_open(&self, now: u64) -> (open: bool)
        ensures
            open == self@.is_open(now),
            open == (self@.phase(now) == SurveyPhase::Open),
    {
        self.start_date <= now && now <= self.end_date
    }

    /// Whether `candidate` may be voted for in this survey.
    pub fn lists(&self, candidate: &Address) -> (listed: bool)
        ensures
            listed == self@.lists(candidate@),
    {
        contains_address(&self.candidates, candidate)
    }
}

/// The mathematical value of a [`VoteResult`].
pub struct VoteResultView {
    pub candidate: Identity,
    pub votes: nat,
}

/// One line of a survey's results: a candidate and the votes counted for it.
#[derive(Debug)]
pub struct VoteResult {
    pub candidate: Address,
    pub votes: u64,
}

impl View for VoteResult {
    type V = VoteResultView;

    open spec fn view(&self) -> VoteResultView {
        VoteResultView { candidate: self.candidate@, votes: self.votes as nat }
    }
}

impl Clone for VoteResult {
    fn clone(&self) -> (copy: VoteResult)
        ensures
            copy@ == self@,
    {
        VoteResult { candidate: self.candidate.clone(), votes: self.votes }
    }
}

} // verus!
