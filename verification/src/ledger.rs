//! The mathematical model of the survey ledger.
//!
//! A ledger is six keyed tables: the survey records, the vote records, the
//! per-candidate tallies, the voter rosters, the survey counter and the vote
//! fee. The two operations that change a ledger are given here as functions
//! from a ledger to the outcome of the call and to the ledger after it.

use crate::address::Identity;
use crate::decision::{new_survey_decision, vote_decision};
use crate::error::SurveyError;
use crate::survey::{SurveyView, VoteResultView};
use crate::tally::{count_choices, lemma_count_frame, lemma_count_push, VoteRecords};
use vstd::prelude::*;
use vstd::seq_lib::lemma_seq_contains_after_push;

verus! {

/// The fee for a vote, in the smallest currency unit. The ledger reports it
/// and does not collect it.
pub const VOTE_FEE_STROOPS: i128 = 1_000_000;

/// Everything a survey ledger has on record.
pub struct LedgerView {
    /// The survey created under each id.
    pub surveys: Map<u64, SurveyView>,
    /// The candidate chosen by each voter of each survey.
    pub votes: VoteRecords,
    /// The running tally of each candidate of each survey.
    pub vote_counts: Map<(u64, Identity), nat>,
    /// The voters of each survey, in the order in which their votes were accepted.
    pub voter_lists: Map<u64, Seq<Identity>>,
    /// How many surveys were created.
    pub survey_count: nat,
    /// The configured fee.
    pub vote_fee: i128,
}

impl LedgerView {
    /// The ledger before any survey is created.
    pub open spec fn fresh() -> LedgerView {
        LedgerView {
            surveys: Map::empty(),
            votes: Map::empty(),
            vote_counts: Map::empty(),
            voter_lists: Map::empty(),
            survey_count: 0,
            vote_fee: VOTE_FEE_STROOPS,
        }
    }

    /// The survey stored under `id`, if there is one.
    pub open spec fn survey(self, id: u64) -> Option<SurveyView> {
        if self.surveys.contains_key(id) {
            Some(self.surveys[id])
        } else {
            None
        }
    }

    /// Whether `voter` has a vote on record in survey `id`.
    pub open spec fn has_voted(self, id: u64, voter: Identity) -> bool {
        self.votes.contains_key((id, voter))
    }

    /// The candidate that `voter` chose in survey `id`, if it voted.
    pub open spec fn vote_of(self, id: u64, voter: Identity) -> Option<Identity> {
        if self.votes.contains_key((id, voter)) {
            Some(self.votes[(id, voter)])
        } else {
            None
        }
    }

    /// The stored tally of `candidate` in survey `id`; zero where none is stored.
    pub open spec fn tally(self, id: u64, candidate: Identity) -> nat {
        if self.vote_counts.contains_key((id, candidate)) {
            self.vote_counts[(id, candidate)]
        } else {
            0
        }
    }

    /// The voters of survey `id` in order; empty where the survey does not exist.
    pub open spec fn roster(self, id: u64) -> Seq<Identity> {
        if self.voter_lists.contains_key(id) {
            self.voter_lists[id]
        } else {
            Seq::empty()
        }
    }

    /// The number of votes accepted in survey `id`.
    pub open spec fn total_votes(self, id: u64) -> nat {
        self.roster(id).len()
    }

    /// The number of voters on the roster of survey `id` whose record names `candidate`.
    pub open spec fn votes_cast_for(self, id: u64, candidate: Identity) -> nat {
        count_choices(self.roster(id), self.votes, id, candidate)
    }

    /// The results of survey `id`: one line for each position of its candidate
    /// list, in the order of the list, with the stored tally of that candidate.
    pub open spec fn results(self, id: u64) -> Seq<VoteResultView> {
        Seq::new(
            self.surveys[id].candidates.len(),
            |i: int|
                VoteResultView {
                    candidate: self.surveys[id].candidates[i],
                    votes: self.tally(id, self.surveys[id].candidates[i]),
                },
        )
    }

    /// The id that the next survey receives.
    pub open spec fn next_id(self) -> u64 {
        (self.survey_count + 1) as u64
    }

    /// What a call to create a survey returns: the checks in the order in
    /// which they are made, and the new id where all of them pass.
    pub open spec fn create_survey_outcome(
        self,
        start_date: u64,
        end_date: u64,
        candidates: Seq<Identity>,
        authenticated: bool,
    ) -> Result<u64, SurveyError> {
        new_survey_decision(self.survey_count, start_date, end_date, candidates, authenticated)
    }

    /// The ledger after a call to create a survey: where the call is refused,
    /// the ledger itself; where it is accepted, the ledger with the survey
    /// stored under the next id, an empty roster for it, a zero tally for each
    /// of its candidates, and the counter moved on by one.
    pub open spec fn after_create_survey(
        self,
        creator: Identity,
        name: Seq<char>,
        description: Seq<char>,
        start_date: u64,
        end_date: u64,
        candidates: Seq<Identity>,
        authenticated: bool,
    ) -> LedgerView {
        if self.create_survey_outcome(start_date, end_date, candidates, authenticated) is Ok {
            let id = self.next_id();
            LedgerView {
                surveys: self.surveys.insert(
                    id,
                    SurveyView {
                        survey_id: id,
                        creator,
                        name,
                        description,
                        start_date,
                        end_date,
                        candidates,
                    },
                ),
                votes: self.votes,
                vote_counts: Map::new(
                    |key: (u64, Identity)|
                        self.vote_counts.contains_key(key) || (key.0 == id && candidates.contains(
                            key.1,
                        )),
                    |key: (u64, Identity)|
                        if key.0 == id && candidates.contains(key.1) {
                            0nat
                        } else {
                            self.vote_counts[key]
                        },
                ),
                voter_lists: self.voter_lists.insert(id, Seq::empty()),
                survey_count: self.survey_count + 1,
                vote_fee: self.vote_fee,
            }
        } else {
            self
        }
    }

    /// What the decision of a call to vote is taken on: the records of the
    /// ledger that the call reads.
    pub open spec fn vote_decision(
        self,
        id: u64,
        voter: Identity,
        candidate: Identity,
        now: u64,
        authenticated: bool,
    ) -> Result<u64, SurveyError> {
        vote_decision(
            self.surveys.contains_key(id),
            self.surveys[id].start_date,
            self.surveys[id].end_date,
            self.surveys[id].candidates,
            self.has_voted(id, voter),
            self.tally(id, candidate),
            self.total_votes(id),
            candidate,
            now,
            authenticated,
        )
    }

    /// What a call to vote returns: the checks in the order in which they are
    /// made, and success where all of them pass.
    pub open spec fn vote_outcome(
        self,
        id: u64,
        voter: Identity,
        candidate: Identity,
        now: u64,
        authenticated: bool,
    ) -> Result<bool, SurveyError> {
        match self.vote_decision(id, voter, candidate, now, authenticated) {
            Ok(_) => Ok(true),
            Err(error) => Err(error),
        }
    }

    /// The ledger after a call to vote: where the call is refused, the ledger
    /// itself; where it is accepted, the ledger with the vote on record, the
    /// candidate's tally one higher, and the voter at the end of the roster.
    pub open spec fn after_vote(
        self,
        id: u64,
        voter: Identity,
        candidate: Identity,
        now: u64,
        authenticated: bool,
    ) -> LedgerView {
        if self.vote_outcome(id, voter, candidate, now, authenticated) is Ok {
            LedgerView {
                surveys: self.surveys,
                votes: self.votes.insert((id, voter), candidate),
                vote_counts: self.vote_counts.insert((id, candidate), self.tally(id, candidate) + 1),
                voter_lists: self.voter_lists.insert(id, self.roster(id).push(voter)),
                survey_count: self.survey_count,
                vote_fee: self.vote_fee,
            }
        } else {
            self
        }
    }

    /// What holds of a ledger at every point of its life.
    ///
    /// The survey ids are 1 up to the counter, with nothing missing. Every
    /// survey has a roster, and no voter is on it twice. A voter has a vote on
    /// record exactly when it is on the roster, and the vote names a listed
    /// candidate. A tally is stored exactly for the listed candidates, and it
    /// is the number of voters on the roster whose record names the candidate.
    pub open spec fn inv(self) -> bool {
        &&& self.survey_count <= u64::MAX
        &&& forall|id: u64| #[trigger]
            self.surveys.contains_key(id) <==> 1 <= id <= self.survey_count
        &&& forall|id: u64| #[trigger]
            self.surveys.contains_key(id) ==> self.surveys[id].survey_id == id
                && self.surveys[id].well_formed()
        &&& forall|id: u64| #[trigger]
            self.voter_lists.contains_key(id) <==> self.surveys.contains_key(id)
        &&& forall|id: u64| #[trigger]
            self.voter_lists.contains_key(id) ==> self.voter_lists[id].no_duplicates()
        &&& forall|id: u64, voter: Identity| #[trigger]
            self.votes.contains_key((id, voter)) <==> self.roster(id).contains(voter)
        &&& forall|id: u64, voter: Identity| #[trigger]
            self.votes.contains_key((id, voter)) ==> self.surveys.contains_key(id)
                && self.surveys[id].lists(self.votes[(id, voter)])
        &&& forall|id: u64, candidate: Identity| #[trigger]
            self.vote_counts.contains_key((id, candidate)) <==> self.surveys.contains_key(id)
                && self.surveys[id].lists(candidate)
        &&& forall|id: u64, candidate: Identity| #[trigger]
            self.vote_counts.contains_key((id, candidate)) ==> self.vote_counts[(id, candidate)]
                == self.votes_cast_for(id, candidate)
    }
}

/// The ledger before any survey is created satisfies the invariant.
pub proof fn lemma_fresh_inv()
    ensures
        LedgerView::fresh().inv(),
{
}

/// Creating a survey keeps the invariant.
pub proof fn lemma_create_survey_keeps_inv(
    ledger: LedgerView,
    creator: Identity,
    name: Seq<char>,
    description: Seq<char>,
    start_date: u64,
    end_date: u64,
    candidates: Seq<Identity>,
    authenticated: bool,
)
    requires
        ledger.inv(),
    ensures
        ledger.after_create_survey(
            creator,
            name,
            description,
            start_date,
            end_date,
            candidates,
            authenticated,
        ).inv(),
{
    let after = ledger.after_create_survey(
        creator,
        name,
        description,
        start_date,
        end_date,
        candidates,
        authenticated,
    );
    if ledger.create_survey_outcome(start_date, end_date, candidates, authenticated) is Ok {
        let id = ledger.next_id();
        assert(!ledger.surveys.contains_key(id));
        assert(!ledger.voter_lists.contains_key(id));
        assert forall|i: u64, voter: Identity| #[trigger]
            after.votes.contains_key((i, voter)) <==> after.roster(i).contains(voter) by {
            if i == id {
                assert(after.roster(id) =~= Seq::<Identity>::empty());
                if ledger.votes.contains_key((i, voter)) {
                    assert(ledger.surveys.contains_key(i));
                }
            } else {
                assert(after.roster(i) == ledger.roster(i));
            }
        }
        assert forall|i: u64, candidate: Identity| #[trigger]
            after.vote_counts.contains_key((i, candidate)) <==> after.surveys.contains_key(i)
                && after.surveys[i].lists(candidate) by {
            if ledger.vote_counts.contains_key((i, candidate)) {
                assert(ledger.surveys.contains_key(i));
            }
        }
        assert forall|i: u64, candidate: Identity| #[trigger]
            after.vote_counts.contains_key((i, candidate)) implies after.vote_counts[(i, candidate)]
            == after.votes_cast_for(i, candidate) by {
            if i == id {
                assert(after.roster(id) =~= Seq::<Identity>::empty());
            } else {
                assert(after.roster(i) == ledger.roster(i));
                assert(ledger.vote_counts.contains_key((i, candidate)));
            }
        }
        assert forall|i: u64| #[trigger] after.voter_lists.contains_key(i) implies after.voter_lists[i].no_duplicates() by {
            if i == id {
                assert(after.voter_lists[i] =~= Seq::<Identity>::empty());
            }
        }
    }
}

/// Voting keeps the invariant.
pub proof fn lemma_vote_keeps_inv(
    ledger: LedgerView,
    id: u64,
    voter: Identity,
    candidate: Identity,
    now: u64,
    authenticated: bool,
)
    requires
        ledger.inv(),
    ensures
        ledger.after_vote(id, voter, candidate, now, authenticated).inv(),
{
    broadcast use lemma_seq_contains_after_push;

    let after = ledger.after_vote(id, voter, candidate, now, authenticated);
    if ledger.vote_outcome(id, voter, candidate, now, authenticated) is Ok {
        let roster = ledger.roster(id);
        assert(ledger.voter_lists.contains_key(id));
        assert(!roster.contains(voter));
        assert(after.roster(id) == roster.push(voter));
        assert(ledger.vote_counts.contains_key((id, candidate)));
        assert(roster.push(voter).no_duplicates());
        assert forall|i: u64, v: Identity| #[trigger]
            after.votes.contains_key((i, v)) <==> after.roster(i).contains(v) by {
            if i != id {
                assert(after.roster(i) == ledger.roster(i));
                assert(after.votes.contains_key((i, v)) == ledger.votes.contains_key((i, v)));
            } else {
                assert(after.votes.contains_key((i, v)) == (ledger.votes.contains_key((i, v)) || v
                    == voter));
            }
        }
        assert forall|i: u64, v: Identity| #[trigger]
            after.votes.contains_key((i, v)) implies after.surveys.contains_key(i)
            && after.surveys[i].lists(after.votes[(i, v)]) by {
            if !(i == id && v == voter) {
                assert(ledger.votes.contains_key((i, v)));
            }
        }
        assert forall|i: u64, c: Identity| #[trigger]
            after.vote_counts.contains_key((i, c)) <==> after.surveys.contains_key(i)
                && after.surveys[i].lists(c) by {
            assert(after.vote_counts.contains_key((i, c)) == ledger.vote_counts.contains_key(
                (i, c),
            ));
        }
        assert forall|i: u64, c: Identity| #[trigger]
            after.vote_counts.contains_key((i, c)) implies after.vote_counts[(i, c)]
            == after.votes_cast_for(i, c) by {
            assert(ledger.vote_counts.contains_key((i, c)));
            if i != id {
                assert(after.roster(i) == ledger.roster(i));
                lemma_count_frame(ledger.roster(i), ledger.votes, i, c, (id, voter), candidate);
            } else {
                lemma_count_push(roster, voter, after.votes, id, c);
                lemma_count_frame(roster, ledger.votes, id, c, (id, voter), candidate);
            }
        }
    }
}

} // verus!
