//! The survey ledger: creating surveys, recording votes, reporting results.

use crate::address::{Address, Identity};
use crate::book::{
    books_shaped, ledger_of, lemma_ledger_of_nothing, lemma_ledger_of_opened,
    lemma_ledger_of_vote, lemma_vote_keeps_shape, voter_of, voters, BallotView, BookView,
};
use crate::decision::{decide_new_survey, decide_vote};
use crate::error::SurveyError;
use crate::keyed::{find, lemma_key_absent, lemma_key_present, lemma_latest_at, Keyed};
use crate::ledger::{
    lemma_create_survey_keeps_inv, lemma_fresh_inv, lemma_vote_keeps_inv, LedgerView,
    VOTE_FEE_STROOPS,
};
use crate::survey::{Survey, VoteResult, VoteResultView};
use crate::tally::lemma_count_bounded;
use vstd::prelude::*;

verus! {

/// One accepted vote.
struct Ballot {
    voter: Address,
    candidate: Address,
}

impl View for Ballot {
    type V = BallotView;

    closed spec fn view(&self) -> BallotView {
        BallotView { voter: self.voter@, candidate: self.candidate@ }
    }
}

/// The records of one survey.
struct Book {
    survey: Survey,
    tallies: Vec<u64>,
    ballots: Vec<Ballot>,
}

impl View for Book {
    type V = BookView;

    closed spec fn view(&self) -> BookView {
        BookView {
            survey: self.survey@,
            tallies: self.tallies@.map_values(|tally: u64| tally as nat),
            ballots: self.ballots@.map_values(|ballot: Ballot| ballot@),
        }
    }
}

impl Keyed for Ballot {
    closed spec fn key_view(&self) -> Identity {
        self.voter@
    }

    fn has_key(&self, wanted: &Address) -> (same: bool) {
        self.voter == *wanted
    }
}

impl Book {
    /// The position of the ballot of `voter`, if it has one.
    fn find_ballot(&self, voter: &Address) -> (found: Option<usize>)
        ensures
            match found {
                Some(at) => at < self.ballots.len() && self.ballots[at as int].voter@ == voter@
                    && voters(self@.ballots).contains(voter@),
                None => !voters(self@.ballots).contains(voter@),
            },
    {
        let found = find(&self.ballots, voter);
        proof {
            let views = self@.ballots;
            match found {
                Some(at) => {
                    assert(views[at as int] == self.ballots[at as int]@);
                    lemma_key_present(views, voter_of(), at as int);
                },
                None => {
                    assert forall|j: int| 0 <= j < views.len() implies voter_of()(
                        #[trigger] views[j],
                    ) != voter@ by {
                        assert(views[j] == self.ballots[j]@);
                        assert(self.ballots[j].key_view() != voter@);
                    }
                    lemma_key_absent(views, voter_of(), voter@);
                },
            }
        }
        found
    }

    /// The tally kept for `candidate`; zero where it is not listed.
    fn tally_for(&self, candidate: &Address) -> (tally: u64)
        requires
            self@.shaped(),
        ensures
            tally == if self@.survey.candidates.contains(candidate@) {
                self@.tally_of(candidate@)
            } else {
                0
            },
    {
        let ghost listed = self@.survey.candidates;
        let mut at: usize = 0;
        while at < self.survey.candidates.len()
            invariant
                at <= self.survey.candidates.len(),
                self@.shaped(),
                listed == self@.survey.candidates,
                forall|j: int| 0 <= j < at ==> self.survey.candidates[j]@ != candidate@,
            decreases self.survey.candidates.len() - at,
        {
            if self.survey.candidates[at] == *candidate {
                proof {
                    assert(listed[at as int] == candidate@);
                    let first = listed.index_of(candidate@);
                    assert(listed[first] == listed[at as int]);
                    assert(self@.tallies[at as int] == self.tallies[at as int] as nat);
                }
                return self.tallies[at];
            }
            at += 1;
        }
        assert forall|j: int| 0 <= j < listed.len() implies listed[j] != candidate@ by {
            assert(listed[j] == self.survey.candidates[j]@);
        }
        0
    }

    /// Appends the ballot and raises the tally at every position of the
    /// candidate list that holds its candidate.
    fn record(&mut self, voter: Address, candidate: Address)
        requires
            old(self).tallies.len() == old(self).survey.candidates.len(),
            forall|j: int|
                0 <= j < old(self).tallies.len() ==> old(self).tallies[j] <= old(
                    self,
                ).ballots.len(),
        ensures
            final(self)@ == old(self)@.with_vote(voter@, candidate@),
    {
        let ghost before = self@;
        let ghost old_tallies = self.tallies@;
        let chosen = candidate.clone();
        self.ballots.push(Ballot { voter, candidate });
        let cast = self.ballots.len();
        assert(self@.ballots =~= before.ballots.push(
            BallotView { voter: voter@, candidate: candidate@ },
        ));
        let mut at: usize = 0;
        while at < self.tallies.len()
            invariant
                at <= self.tallies.len(),
                self.tallies.len() == old_tallies.len(),
                self.tallies.len() == self.survey.candidates.len(),
                self.survey == old(self).survey,
                self@.ballots == before.ballots.push(
                    BallotView { voter: voter@, candidate: candidate@ },
                ),
                chosen@ == candidate@,
                cast == before.ballots.len() + 1,
                forall|j: int| 0 <= j < old_tallies.len() ==> old_tallies[j] < cast,
                forall|j: int|
                    0 <= j < at ==> self.tallies[j] == if self.survey.candidates[j]@
                        == candidate@ {
                        old_tallies[j] + 1
                    } else {
                        old_tallies[j] as int
                    },
                forall|j: int| at <= j < old_tallies.len() ==> self.tallies[j] == old_tallies[j],
            decreases self.tallies.len() - at,
        {
            if self.survey.candidates[at] == chosen {
                assert(self.tallies[at as int] == old_tallies[at as int]);
                assert(old_tallies[at as int] < cast);
                let raised: u64 = self.tallies[at] + 1;
                self.tallies.set(at, raised);
            }
            at += 1;
        }
        assert(self@.tallies =~= before.with_vote(voter@, candidate@).tallies) by {
            assert forall|j: int| 0 <= j < self@.tallies.len() implies self@.tallies[j]
                == before.with_vote(voter@, candidate@).tallies[j] by {
                assert(before.survey.candidates[j] == old(self).survey.candidates[j]@);
                assert(before.tallies[j] == old_tallies[j] as nat);
            }
        }
    }
}

/// The views of a list of result lines, in order.
pub open spec fn result_views(lines: Seq<VoteResult>) -> Seq<VoteResultView> {
    lines.map_values(|line: VoteResult| line@)
}

/// The survey ledger.
///
/// It owns the survey records, the vote records, the per-candidate tallies and
/// the voter rosters. Its value as a model is a [`LedgerView`]; what a call
/// returns, and the ledger after it, are the functions of that model.
///
/// A call that changes the ledger holds it exclusively until it returns, and
/// it either makes all of its changes or none: no other call can see a vote
/// without its tally, or a tally without its vote.
pub struct SurveyContract {
    vote_fee: i128,
    books: Vec<Book>,
}

impl View for SurveyContract {
    type V = LedgerView;

    closed spec fn view(&self) -> LedgerView {
        ledger_of(self.vote_fee, self.book_views())
    }
}

impl SurveyContract {
    spec fn book_views(&self) -> Seq<BookView> {
        self.books@.map_values(|book: Book| book@)
    }

    /// Whether the records are consistent with one another. Every ledger that
    /// this library hands out is, and every operation keeps it so.
    pub closed spec fn wf(&self) -> bool {
        &&& books_shaped(self.book_views())
        &&& self@.inv()
    }

    /// A consistent ledger satisfies the invariant of the model.
    pub proof fn lemma_wf_inv(&self)
        requires
            self.wf(),
        ensures
            self@.inv(),
    {
    }

    /// Sets up an empty ledger with the vote fee configured.
    ///
    /// Refused with `Unauthorized` where the administrator did not prove its
    /// identity.
    pub fn initialize(authenticated: bool) -> (outcome: Result<SurveyContract, SurveyError>)
        ensures
            match outcome {
                Ok(contract) => authenticated && contract.wf() && contract@ == LedgerView::fresh(),
                Err(error) => !authenticated && error == SurveyError::Unauthorized,
            },
    {
        if !authenticated {
            return Err(SurveyError::Unauthorized);
        }
        let contract = SurveyContract { vote_fee: VOTE_FEE_STROOPS, books: Vec::new() };
        proof {
            assert(contract.book_views() =~= Seq::<BookView>::empty());
            lemma_ledger_of_nothing(VOTE_FEE_STROOPS);
            lemma_fresh_inv();
        }
        Ok(contract)
    }

    /// Creates a survey and returns its id.
    ///
    /// The checks are made in this order: the creator proved its identity
    /// (`Unauthorized`), the candidate list is not empty
    /// (`InvalidCandidateSet`), the start is before the end
    /// (`InvalidTimeWindow`), the counter can go higher (`CounterExhausted`).
    /// A refused call changes nothing. An accepted call stores the survey
    /// under the next id, with an empty roster and a zero tally for each
    /// candidate. No id is handed out twice, and none wraps around.
    pub fn create_survey(
        &mut self,
        creator: Address,
        name: String,
        description: String,
        start_date: u64,
        end_date: u64,
        candidates: Vec<Address>,
        authenticated: bool,
    ) -> (outcome: Result<u64, SurveyError>)
        requires
            old(self).wf(),
        ensures
            final(self).wf(),
            outcome == old(self)@.create_survey_outcome(
                start_date,
                end_date,
                crate::address::identities(candidates@),
                authenticated,
            ),
            final(self)@ == old(self)@.after_create_survey(
                creator@,
                name@,
                description@,
                start_date,
                end_date,
                crate::address::identities(candidates@),
                authenticated,
            ),
    {
        let decision = decide_new_survey(
            self.books.len() as u64,
            start_date,
            end_date,
            &candidates,
            authenticated,
        );
        let survey_id = match decision {
            Ok(survey_id) => survey_id,
            Err(error) => {
                return Err(error);
            },
        };
        let mut tallies: Vec<u64> = Vec::new();
        let mut at: usize = 0;
        while at < candidates.len()
            invariant
                at <= candidates.len(),
                tallies.len() == at,
                forall|j: int| 0 <= j < at ==> tallies[j] == 0,
            decreases candidates.len() - at,
        {
            tallies.push(0);
            at += 1;
        }
        let ghost before = self.book_views();
        let ghost ledger = self@;
        let survey = Survey {
            survey_id,
            creator,
            name,
            description,
            start_date,
            end_date,
            candidates,
        };
        let book = Book { survey, tallies, ballots: Vec::new() };
        proof {
            assert(book@.tallies =~= BookView::opened(book@.survey).tallies);
            assert(book@.ballots =~= BookView::opened(book@.survey).ballots);
            assert(book@ == BookView::opened(book@.survey));
            assert(voters(book@.ballots) =~= Seq::<Identity>::empty());
            lemma_ledger_of_opened(self.vote_fee, before, book@.survey);
            lemma_create_survey_keeps_inv(
                ledger,
                creator@,
                name@,
                description@,
                start_date,
                end_date,
                crate::address::identities(candidates@),
                authenticated,
            );
        }
        self.books.push(book);
        proof {
            assert(self.book_views() =~= before.push(book@));
        }
        Ok(survey_id)
    }

    /// Records the vote of `voter` for `candidate` in survey `survey_id`,
    /// with the ledger clock reading `now`.
    ///
    /// The checks are made in this order: the voter proved its identity
    /// (`Unauthorized`), the survey exists (`SurveyNotFound`), the clock is
    /// inside the survey's window (`SurveyNotOpen`), the candidate is listed
    /// (`InvalidCandidate`), the voter has no vote on record (`AlreadyVoted`),
    /// the counts can go higher (`CounterExhausted`). A refused call changes
    /// nothing. An accepted call puts the vote on
    /// record, raises the candidate's tally by one and appends the voter to
    /// the roster, all three or none.
    pub fn vote(
        &mut self,
        survey_id: u64,
        voter: Address,
        candidate: Address,
        now: u64,
        authenticated: bool,
    ) -> (outcome: Result<bool, SurveyError>)
        requires
            old(self).wf(),
        ensures
            final(self).wf(),
            outcome == old(self)@.vote_outcome(survey_id, voter@, candidate@, now, authenticated),
            final(self)@ == old(self)@.after_vote(
                survey_id,
                voter@,
                candidate@,
                now,
                authenticated,
            ),
    {
        let ghost before = self.book_views();
        let ghost ledger = self@;
        if survey_id == 0 || survey_id > self.books.len() as u64 {
            let nobody: Vec<Address> = Vec::new();
            return match decide_vote(false, 0, 0, &nobody, false, 0, 0, &candidate, now, authenticated) {
                Ok(_) => Ok(true),
                Err(error) => Err(error),
            };
        }
        let index: usize = (survey_id - 1) as usize;
        let book = &self.books[index];
        proof {
            assert(before[index as int] == book@);
            assert(book@.shaped());
            assert(ledger.surveys.contains_key(survey_id));
            assert(ledger.voter_lists.contains_key(survey_id));
        }
        let recorded = book.find_ballot(&voter).is_some();
        let tally = book.tally_for(&candidate);
        let decision = decide_vote(
            true,
            book.survey.start_date,
            book.survey.end_date,
            &book.survey.candidates,
            recorded,
            tally,
            book.ballots.len() as u64,
            &candidate,
            now,
            authenticated,
        );
        assert(decision == ledger.vote_decision(survey_id, voter@, candidate@, now, authenticated));
        if let Err(error) = decision {
            return Err(error);
        }
        proof {
            let book = before[index as int];
            assert forall|j: int| 0 <= j < book.tallies.len() implies book.tallies[j]
                <= book.ballots.len() by {
                let listed = book.survey.candidates[j];
                let first = book.survey.candidates.index_of(listed);
                assert(book.survey.candidates.contains(listed));
                assert(ledger.vote_counts.contains_key((survey_id, listed)));
                assert(book.tallies[j] == book.tallies[first]);
                lemma_count_bounded(ledger.roster(survey_id), ledger.votes, survey_id, listed);
            }
            assert forall|j: int|
                0 <= j < self.books[index as int].tallies.len() implies self.books[index as int].tallies[j]
                <= self.books[index as int].ballots.len() by {
                assert(book.tallies[j] == self.books[index as int].tallies[j] as nat);
            }
        }
        self.books[index].record(voter, candidate);
        proof {
            assert(self.book_views() =~= before.update(
                index as int,
                before[index as int].with_vote(voter@, candidate@),
            ));
            lemma_ledger_of_vote(self.vote_fee, before, survey_id, voter@, candidate@, now);
            lemma_vote_keeps_shape(before, survey_id, voter@, candidate@);
            lemma_vote_keeps_inv(ledger, survey_id, voter@, candidate@, now, authenticated);
        }
        Ok(true)
    }

    /// The survey stored under `survey_id`, or `None` where there is none.
    pub fn get_survey(&self, survey_id: u64) -> (found: Option<Survey>)
        requires
            self.wf(),
        ensures
            match found {
                Some(survey) => self@.survey(survey_id) == Some(survey@),
                None => self@.survey(survey_id) is None,
            },
    {
        if survey_id == 0 || survey_id > self.books.len() as u64 {
            return None;
        }
        let index: usize = (survey_id - 1) as usize;
        assert(self.book_views()[index as int] == self.books[index as int]@);
        Some(self.books[index].survey.clone())
    }

    /// Whether `voter` has a vote on record in survey `survey_id`. False where
    /// the survey does not exist.
    pub fn has_voted(&self, survey_id: u64, voter: Address) -> (voted: bool)
        requires
            self.wf(),
        ensures
            voted == self@.has_voted(survey_id, voter@),
    {
        if survey_id == 0 || survey_id > self.books.len() as u64 {
            return false;
        }
        let index: usize = (survey_id - 1) as usize;
        assert(self.book_views()[index as int] == self.books[index as int]@);
        self.books[index].find_ballot(&voter).is_some()
    }

    /// The candidate that `voter` chose in survey `survey_id`, or `None` where
    /// it has no vote on record there.
    pub fn get_vote(&self, survey_id: u64, voter: Address) -> (choice: Option<Address>)
        requires
            self.wf(),
        ensures
            match choice {
                Some(candidate) => self@.vote_of(survey_id, voter@) == Some(candidate@),
                None => self@.vote_of(survey_id, voter@) is None,
            },
    {
        if survey_id == 0 || survey_id > self.books.len() as u64 {
            return None;
        }
        let index: usize = (survey_id - 1) as usize;
        assert(self.book_views()[index as int] == self.books[index as int]@);
        match self.books[index].find_ballot(&voter) {
            Some(at) => {
                proof {
                    let ballots = self.books[index as int]@.ballots;
                    assert(self.book_views()[index as int].shaped());
                    assert(ballots[at as int] == self.books[index as int].ballots[at as int]@);
                    lemma_latest_at(ballots, voter_of(), at as int);
                }
                Some(self.books[index].ballots[at].candidate.clone())
            },
            None => None,
        }
    }

    /// The results of survey `survey_id`: one line for each position of its
    /// candidate list, in the order of the list, each with the current tally
    /// of its candidate. Refused with `SurveyNotFound` where the survey does
    /// not exist.
    ///
    /// The tallies are read, not recounted: the cost grows with the number of
    /// candidates and not with the number of votes.
    pub fn get_results(&self, survey_id: u64) -> (outcome: Result<Vec<VoteResult>, SurveyError>)
        requires
            self.wf(),
        ensures
            match outcome {
                Ok(lines) => self@.surveys.contains_key(survey_id) && result_views(lines@)
                    == self@.results(survey_id),
                Err(error) => !self@.surveys.contains_key(survey_id) && error
                    == SurveyError::SurveyNotFound,
            },
    {
        if survey_id == 0 || survey_id > self.books.len() as u64 {
            return Err(SurveyError::SurveyNotFound);
        }
        let index: usize = (survey_id - 1) as usize;
        let book = &self.books[index];
        assert(self.book_views()[index as int] == book@);
        assert(book@.shaped());
        let mut lines: Vec<VoteResult> = Vec::new();
        let mut at: usize = 0;
        while at < book.survey.candidates.len()
            invariant
                at <= book.survey.candidates.len(),
                book.tallies.len() == book.survey.candidates.len(),
                lines.len() == at,
                forall|j: int|
                    0 <= j < at ==> (#[trigger] lines[j])@ == (VoteResultView {
                        candidate: book.survey.candidates[j]@,
                        votes: book.tallies[j] as nat,
                    }),
            decreases book.survey.candidates.len() - at,
        {
            lines.push(
                VoteResult { candidate: book.survey.candidates[at].clone(), votes: book.tallies[at] },
            );
            at += 1;
        }
        proof {
            let expected = self@.results(survey_id);
            let candidates = book@.survey.candidates;
            assert(result_views(lines@).len() == expected.len());
            assert forall|j: int| 0 <= j < expected.len() implies result_views(lines@)[j]
                == expected[j] by {
                let first = candidates.index_of(candidates[j]);
                assert(candidates.contains(candidates[j]));
                assert(candidates[first] == candidates[j]);
                assert(book@.tallies[j] == book@.tallies[first]);
                assert(book@.tallies[j] == book.tallies[j] as nat);
                assert(candidates[j] == book.survey.candidates[j]@);
                assert(result_views(lines@)[j] == lines[j]@);
            }
            assert(result_views(lines@) =~= expected);
        }
        Ok(lines)
    }

    /// The number of votes accepted in survey `survey_id`: the length of its
    /// roster. Zero where the survey does not exist.
    pub fn get_total_votes(&self, survey_id: u64) -> (total: u64)
        requires
            self.wf(),
        ensures
            total == self@.total_votes(survey_id),
    {
        if survey_id == 0 || survey_id > self.books.len() as u64 {
            return 0;
        }
        let index: usize = (survey_id - 1) as usize;
        assert(self.book_views()[index as int] == self.books[index as int]@);
        self.books[index].ballots.len() as u64
    }

    /// The voters of survey `survey_id`, in the order in which their votes
    /// were accepted. Empty where the survey does not exist.
    pub fn get_voters(&self, survey_id: u64) -> (roster: Vec<Address>)
        requires
            self.wf(),
        ensures
            crate::address::identities(roster@) == self@.roster(survey_id),
    {
        let mut roster: Vec<Address> = Vec::new();
        if survey_id == 0 || survey_id > self.books.len() as u64 {
            assert(crate::address::identities(roster@) =~= self@.roster(survey_id));
            return roster;
        }
        let index: usize = (survey_id - 1) as usize;
        let book = &self.books[index];
        assert(self.book_views()[index as int] == book@);
        let mut at: usize = 0;
        while at < book.ballots.len()
            invariant
                at <= book.ballots.len(),
                roster.len() == at,
                forall|j: int| 0 <= j < at ==> (#[trigger] roster[j])@ == book.ballots[j].voter@,
            decreases book.ballots.len() - at,
        {
            roster.push(book.ballots[at].voter.clone());
            at += 1;
        }
        proof {
            let shown = crate::address::identities(roster@);
            let expected = self@.roster(survey_id);
            assert(shown.len() == expected.len());
            assert forall|j: int| 0 <= j < shown.len() implies shown[j] == expected[j] by {
                assert(shown[j] == roster[j]@);
                assert(book@.ballots[j] == book.ballots[j]@);
            }
            assert(shown =~= expected);
        }
        roster
    }

    /// The number of surveys created so far.
    pub fn get_survey_count(&self) -> (count: u64)
        requires
            self.wf(),
        ensures
            count == self@.survey_count,
    {
        self.books.len() as u64
    }

    /// The configured vote fee.
    pub fn get_vote_fee(&self) -> (fee: i128)
        requires
            self.wf(),
        ensures
            fee == self@.vote_fee,
    {
        self.vote_fee
    }
}

} // verus!
