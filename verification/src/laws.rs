//! What holds of every survey ledger.

use crate::address::Identity;
use crate::error::SurveyError;
use crate::history::{accepted_votes, issued_ids, ledger_after, lemma_history, Call};
use crate::ledger::LedgerView;
use crate::ledger::VOTE_FEE_STROOPS;
use crate::tally::{
    distinct, lemma_count_is_cardinality, lemma_count_positive, lemma_distinct,
    lemma_occurs_once, lemma_sum_is_roster_length, occurrences, sum_of_counts, supporters,
    voted_for,
};
use vstd::prelude::*;
use vstd::seq_lib::lemma_seq_contains_after_push;

verus! {

/// The stored tallies in survey `id` of the candidates of `candidates`, taken
/// position by position and added up.
pub open spec fn sum_of_tallies(ledger: LedgerView, id: u64, candidates: Seq<Identity>) -> nat
    decreases candidates.len(),
{
    if candidates.len() == 0 {
        0
    } else {
        sum_of_tallies(ledger, id, candidates.drop_last()) + ledger.tally(id, candidates.last())
    }
}

/// No drift: the stored tally of a candidate is the number of voters whose
/// vote on record names that candidate. This holds for every survey id and
/// every candidate, listed or not, existing or not.
pub proof fn law_tally_is_number_of_votes(ledger: LedgerView, id: u64, candidate: Identity)
    requires
        ledger.inv(),
    ensures
        supporters(ledger.votes, id, candidate).finite(),
        ledger.tally(id, candidate) == supporters(ledger.votes, id, candidate).len(),
{
    let roster = ledger.roster(id);
    assert(roster.no_duplicates()) by {
        if ledger.voter_lists.contains_key(id) {
        } else {
            assert(roster =~= Seq::<Identity>::empty());
        }
    }
    lemma_count_is_cardinality(roster, ledger.votes, id, candidate);
    if !ledger.vote_counts.contains_key((id, candidate)) {
        assert(supporters(ledger.votes, id, candidate) =~= Set::<Identity>::empty()) by {
            assert forall|voter: Identity| !voted_for(ledger.votes, id, voter, candidate) by {
                if ledger.votes.contains_key((id, voter)) {
                    assert(ledger.surveys[id].lists(ledger.votes[(id, voter)]));
                }
            }
        }
    }
}

/// The stored tallies of the candidates of a survey, each candidate taken
/// once, add up to the number of votes accepted, which is the length of its
/// roster. This holds of every survey, also of one that lists a candidate
/// twice.
pub proof fn law_tallies_add_up_to_total(ledger: LedgerView, id: u64)
    requires
        ledger.inv(),
        ledger.surveys.contains_key(id),
    ensures
        sum_of_tallies(ledger, id, distinct(ledger.surveys[id].candidates)) == ledger.total_votes(
            id,
        ),
        ledger.total_votes(id) == ledger.roster(id).len(),
{
    let candidates = distinct(ledger.surveys[id].candidates);
    let roster = ledger.roster(id);
    lemma_distinct(ledger.surveys[id].candidates);
    lemma_sum_of_tallies(ledger, id, candidates);
    assert forall|i: int| 0 <= i < roster.len() implies ledger.votes.contains_key(
        (id, #[trigger] roster[i]),
    ) && occurrences(candidates, ledger.votes[(id, roster[i])]) == 1 by {
        assert(roster.contains(roster[i]));
        assert(ledger.votes.contains_key((id, roster[i])));
        assert(ledger.surveys[id].lists(ledger.votes[(id, roster[i])]));
        lemma_occurs_once(candidates, ledger.votes[(id, roster[i])]);
    }
    lemma_sum_is_roster_length(candidates, roster, ledger.votes, id);
}

/// The stored tallies of the candidates of a survey, taken position by
/// position of its list, add up to the number of votes accepted. This is
/// stated of the surveys in which no candidate that has a vote stands at two
/// positions of the list: such a candidate is reported at both, and its votes
/// would be added twice.
pub proof fn law_reported_tallies_add_up_to_total(ledger: LedgerView, id: u64)
    requires
        ledger.inv(),
        ledger.surveys.contains_key(id),
        forall|candidate: Identity|
            ledger.tally(id, candidate) > 0 ==> #[trigger] occurrences(
                ledger.surveys[id].candidates,
                candidate,
            ) == 1,
    ensures
        sum_of_tallies(ledger, id, ledger.surveys[id].candidates) == ledger.total_votes(id),
{
    let candidates = ledger.surveys[id].candidates;
    let roster = ledger.roster(id);
    lemma_sum_of_tallies(ledger, id, candidates);
    assert forall|i: int| 0 <= i < roster.len() implies ledger.votes.contains_key(
        (id, #[trigger] roster[i]),
    ) && occurrences(candidates, ledger.votes[(id, roster[i])]) == 1 by {
        let choice = ledger.votes[(id, roster[i])];
        assert(roster.contains(roster[i]));
        assert(ledger.votes.contains_key((id, roster[i])));
        assert(ledger.surveys[id].lists(choice));
        assert(ledger.vote_counts.contains_key((id, choice)));
        lemma_count_positive(roster, ledger.votes, id, choice, i);
    }
    lemma_sum_is_roster_length(candidates, roster, ledger.votes, id);
}

/// The stored tallies of listed candidates add up to what the counts over the
/// roster add up to.
proof fn lemma_sum_of_tallies(ledger: LedgerView, id: u64, candidates: Seq<Identity>)
    requires
        ledger.inv(),
        ledger.surveys.contains_key(id),
        forall|candidate: Identity|
            candidates.contains(candidate) ==> ledger.surveys[id].lists(candidate),
    ensures
        sum_of_tallies(ledger, id, candidates) == sum_of_counts(
            candidates,
            ledger.roster(id),
            ledger.votes,
            id,
        ),
    decreases candidates.len(),
{
    broadcast use lemma_seq_contains_after_push;

    if candidates.len() > 0 {
        let front = candidates.drop_last();
        assert(candidates == front.push(candidates.last()));
        assert forall|candidate: Identity| front.contains(candidate) implies ledger.surveys[id].lists(
            candidate,
        ) by {
            assert(front.push(candidates.last()).contains(candidate));
        }
        lemma_sum_of_tallies(ledger, id, front);
        assert(front.push(candidates.last()).contains(candidates.last()));
        assert(ledger.surveys[id].lists(candidates.last()));
        assert(ledger.vote_counts.contains_key((id, candidates.last())));
    }
}

/// One vote for each voter of a survey: once a voter has a vote on record,
/// every further vote of that voter in that survey is refused and changes
/// nothing, and the refusal is `AlreadyVoted` wherever the earlier checks
/// pass.
pub proof fn law_second_vote_is_refused(
    ledger: LedgerView,
    id: u64,
    voter: Identity,
    candidate: Identity,
    now: u64,
    authenticated: bool,
)
    requires
        ledger.inv(),
        ledger.has_voted(id, voter),
    ensures
        ledger.vote_outcome(id, voter, candidate, now, authenticated) is Err,
        ledger.after_vote(id, voter, candidate, now, authenticated) == ledger,
        authenticated && ledger.surveys[id].is_open(now) && ledger.surveys[id].lists(candidate)
            ==> ledger.vote_outcome(id, voter, candidate, now, authenticated) == Err::<
            bool,
            SurveyError,
        >(SurveyError::AlreadyVoted),
{
}

/// An accepted vote is on record afterwards, under its voter and with its
/// candidate.
pub proof fn law_accepted_vote_is_recorded(
    ledger: LedgerView,
    id: u64,
    voter: Identity,
    candidate: Identity,
    now: u64,
    authenticated: bool,
)
    requires
        ledger.vote_outcome(id, voter, candidate, now, authenticated) is Ok,
    ensures
        !ledger.has_voted(id, voter),
        ledger.after_vote(id, voter, candidate, now, authenticated).vote_of(id, voter) == Some(
            candidate,
        ),
        ledger.after_vote(id, voter, candidate, now, authenticated).tally(id, candidate)
            == ledger.tally(id, candidate) + 1,
        ledger.after_vote(id, voter, candidate, now, authenticated).roster(id)
            == ledger.roster(id).push(voter),
        ledger.vote_decision(id, voter, candidate, now, authenticated) == Ok::<u64, SurveyError>(
            ledger.after_vote(id, voter, candidate, now, authenticated).tally(id, candidate) as u64,
        ),
{
}

/// The id of a new survey is the counter after the call, and it was not in
/// use before: no id is handed out twice, and none wraps around. Where the
/// counter cannot go higher the call is refused.
pub proof fn law_new_id_is_unused(
    ledger: LedgerView,
    creator: Identity,
    name: Seq<char>,
    description: Seq<char>,
    start_date: u64,
    end_date: u64,
    candidates: Seq<Identity>,
    authenticated: bool,
)
    requires
        ledger.inv(),
    ensures
        match ledger.create_survey_outcome(start_date, end_date, candidates, authenticated) {
            Ok(id) => {
                &&& id == ledger.survey_count + 1
                &&& !ledger.surveys.contains_key(id)
                &&& ledger.after_create_survey(
                    creator,
                    name,
                    description,
                    start_date,
                    end_date,
                    candidates,
                    authenticated,
                ).survey_count == id
            },
            Err(error) => {
                &&& ledger.after_create_survey(
                    creator,
                    name,
                    description,
                    start_date,
                    end_date,
                    candidates,
                    authenticated,
                ) == ledger
                &&& authenticated && candidates.len() > 0 && start_date < end_date ==> error
                    == SurveyError::CounterExhausted && ledger.survey_count == u64::MAX
            },
        },
{
}

/// A vote on record stays on record, unchanged, whatever is called next.
pub proof fn law_recorded_vote_is_permanent(
    ledger: LedgerView,
    id: u64,
    voter: Identity,
    call: Call,
)
    requires
        ledger.inv(),
        ledger.has_voted(id, voter),
    ensures
        call.apply(ledger).vote_of(id, voter) == ledger.vote_of(id, voter),
{
}

/// A refused call changes nothing.
pub proof fn law_refused_call_changes_nothing(ledger: LedgerView, call: Call)
    ensures
        match call {
            Call::CreateSurvey { start_date, end_date, candidates, authenticated, .. } => {
                ledger.create_survey_outcome(start_date, end_date, candidates, authenticated) is Err
                    ==> call.apply(ledger) == ledger
            },
            Call::Vote { survey_id, voter, candidate, now, authenticated } => {
                ledger.vote_outcome(survey_id, voter, candidate, now, authenticated) is Err
                    ==> call.apply(ledger) == ledger
            },
        },
{
}

/// Outside the window of a survey every vote in it is refused, and the vote
/// records, the tallies and the rosters stay as they were. Where the voter
/// proved its identity and the survey exists, the refusal is `SurveyNotOpen`.
pub proof fn law_vote_outside_window_is_refused(
    ledger: LedgerView,
    id: u64,
    voter: Identity,
    candidate: Identity,
    now: u64,
    authenticated: bool,
)
    requires
        ledger.surveys.contains_key(id) ==> !ledger.surveys[id].is_open(now),
    ensures
        ledger.vote_outcome(id, voter, candidate, now, authenticated) is Err,
        ledger.after_vote(id, voter, candidate, now, authenticated) == ledger,
        authenticated && ledger.surveys.contains_key(id) ==> ledger.vote_outcome(
            id,
            voter,
            candidate,
            now,
            authenticated,
        ) == Err::<bool, SurveyError>(SurveyError::SurveyNotOpen),
{
}

/// Survey ids count up from 1: whatever calls are made on a fresh ledger, and
/// in whatever order, the ids handed out are 1, 2, 3 and so on, with none
/// left out and none handed out twice, and the surveys on record are those
/// with exactly these ids.
pub proof fn law_ids_count_up(calls: Seq<Call>)
    ensures
        forall|k: int| 0 <= k < issued_ids(calls).len() ==> #[trigger] issued_ids(calls)[k] == k + 1,
        ledger_after(calls).survey_count == issued_ids(calls).len(),
        forall|id: u64| #[trigger]
            ledger_after(calls).surveys.contains_key(id) <==> 1 <= id <= issued_ids(calls).len(),
    decreases calls.len(),
{
    lemma_history(calls);
    if calls.len() > 0 {
        let earlier = calls.drop_last();
        law_ids_count_up(earlier);
        lemma_history(earlier);
    }
}

/// One vote for each voter of a survey, over the whole life of a ledger:
/// whatever calls are made on a fresh ledger, at most one of them is an
/// accepted vote of a given voter in a given survey, and one of them is
/// exactly when that voter has a vote on record there.
pub proof fn law_one_vote_per_voter(calls: Seq<Call>, id: u64, voter: Identity)
    ensures
        accepted_votes(calls, id, voter) == if ledger_after(calls).has_voted(id, voter) {
            1nat
        } else {
            0nat
        },
    decreases calls.len(),
{
    if calls.len() > 0 {
        law_one_vote_per_voter(calls.drop_last(), id, voter);
    }
}

/// The vote fee is the configured amount after any sequence of calls.
pub proof fn law_fee_is_fixed(calls: Seq<Call>)
    ensures
        ledger_after(calls).vote_fee == VOTE_FEE_STROOPS,
    decreases calls.len(),
{
    if calls.len() > 0 {
        law_fee_is_fixed(calls.drop_last());
    }
}

/// After any sequence of calls on a fresh ledger the invariant holds: at
/// every point at which the ledger can be observed, its tallies, rosters and
/// vote records agree.
pub proof fn law_invariant_always_holds(calls: Seq<Call>)
    ensures
        ledger_after(calls).inv(),
{
    lemma_history(calls);
}

} // verus!
