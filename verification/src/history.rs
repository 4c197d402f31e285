//! Sequences of calls, and what holds of a ledger after any of them.

use crate::address::Identity;
use crate::ledger::{lemma_create_survey_keeps_inv, lemma_fresh_inv, lemma_vote_keeps_inv, LedgerView};
use vstd::prelude::*;

verus! {

/// One call that may change a ledger, with everything the hosting
/// environment contributes to it.
pub enum Call {
    CreateSurvey {
        creator: Identity,
        name: Seq<char>,
        description: Seq<char>,
        start_date: u64,
        end_date: u64,
        candidates: Seq<Identity>,
        authenticated: bool,
    },
    Vote { survey_id: u64, voter: Identity, candidate: Identity, now: u64, authenticated: bool },
}

impl Call {
    /// The ledger after this call.
    pub open spec fn apply(self, ledger: LedgerView) -> LedgerView {
        match self {
            Call::CreateSurvey {
                creator,
                name,
                description,
                start_date,
                end_date,
                candidates,
                authenticated,
            } => ledger.after_create_survey(
                creator,
                name,
                description,
                start_date,
                end_date,
                candidates,
                authenticated,
            ),
            Call::Vote { survey_id, voter, candidate, now, authenticated } => ledger.after_vote(
                survey_id,
                voter,
                candidate,
                now,
                authenticated,
            ),
        }
    }

    /// Whether this call is a vote of `voter` in survey `id` that the ledger
    /// accepts.
    pub open spec fn casts_vote(self, ledger: LedgerView, id: u64, voter: Identity) -> bool {
        match self {
            Call::Vote { survey_id, voter: by, candidate, now, authenticated } => survey_id == id
                && by == voter && ledger.vote_outcome(survey_id, by, candidate, now, authenticated)
                is Ok,
            Call::CreateSurvey { .. } => false,
        }
    }

    /// The id that this call hands out: that of the survey it creates, where
    /// it creates one.
    pub open spec fn issued_id(self, ledger: LedgerView) -> Option<u64> {
        match self {
            Call::CreateSurvey { start_date, end_date, candidates, authenticated, .. } => {
                match ledger.create_survey_outcome(start_date, end_date, candidates, authenticated) {
                    Ok(id) => Some(id),
                    Err(_) => None,
                }
            },
            Call::Vote { .. } => None,
        }
    }
}

/// The ledger after the calls of `calls`, made in order on a fresh ledger.
pub open spec fn ledger_after(calls: Seq<Call>) -> LedgerView
    decreases calls.len(),
{
    if calls.len() == 0 {
        LedgerView::fresh()
    } else {
        calls.last().apply(ledger_after(calls.drop_last()))
    }
}

/// The ids handed out by the calls of `calls`, in the order in which they
/// were handed out.
pub open spec fn issued_ids(calls: Seq<Call>) -> Seq<u64>
    decreases calls.len(),
{
    if calls.len() == 0 {
        Seq::empty()
    } else {
        let earlier = issued_ids(calls.drop_last());
        match calls.last().issued_id(ledger_after(calls.drop_last())) {
            Some(id) => earlier.push(id),
            None => earlier,
        }
    }
}

/// How many of the calls of `calls` are accepted votes of `voter` in survey `id`.
pub open spec fn accepted_votes(calls: Seq<Call>, id: u64, voter: Identity) -> nat
    decreases calls.len(),
{
    if calls.len() == 0 {
        0
    } else {
        accepted_votes(calls.drop_last(), id, voter) + if calls.last().casts_vote(
            ledger_after(calls.drop_last()),
            id,
            voter,
        ) {
            1nat
        } else {
            0nat
        }
    }
}

/// After any sequence of calls the ledger satisfies its invariant, and its
/// counter is the number of ids handed out, which no sequence of calls can
/// push beyond its own length.
pub proof fn lemma_history(calls: Seq<Call>)
    ensures
        ledger_after(calls).inv(),
        ledger_after(calls).survey_count == issued_ids(calls).len(),
        issued_ids(calls).len() <= calls.len(),
    decreases calls.len(),
{
    if calls.len() == 0 {
        lemma_fresh_inv();
    } else {
        let earlier = calls.drop_last();
        let ledger = ledger_after(earlier);
        lemma_history(earlier);
        match calls.last() {
            Call::CreateSurvey {
                creator,
                name,
                description,
                start_date,
                end_date,
                candidates,
                authenticated,
            } => {
                lemma_create_survey_keeps_inv(
                    ledger,
                    creator,
                    name,
                    description,
                    start_date,
                    end_date,
                    candidates,
                    authenticated,
                );
            },
            Call::Vote { survey_id, voter, candidate, now, authenticated } => {
                lemma_vote_keeps_inv(ledger, survey_id, voter, candidate, now, authenticated);
            },
        }
    }
}

} // verus!
