//! How the ledger is laid out in memory, and why that layout shows the model.
//!
//! The records of one survey are kept together in a book: the survey, one
//! tally for each position of its candidate list, and its ballots in the
//! order in which they were accepted. The book of survey `id` is the one at
//! position `id - 1`.

use crate::address::Identity;
use crate::keyed::{keys, latest, lemma_keys_push};
use crate::ledger::LedgerView;
use crate::survey::SurveyView;
use vstd::prelude::*;

verus! {

/// One accepted vote.
pub struct BallotView {
    pub voter: Identity,
    pub candidate: Identity,
}

/// The records of one survey.
pub struct BookView {
    pub survey: SurveyView,
    pub tallies: Seq<nat>,
    pub ballots: Seq<BallotView>,
}

/// The voter by which a ballot is found.
pub open spec fn voter_of() -> spec_fn(BallotView) -> Identity {
    |ballot: BallotView| ballot.voter
}

/// The voters of a sequence of ballots, in order.
pub open spec fn voters(ballots: Seq<BallotView>) -> Seq<Identity> {
    keys(ballots, voter_of())
}

/// The candidate on the latest ballot of `voter`.
pub open spec fn choice_of(ballots: Seq<BallotView>, voter: Identity) -> Identity {
    latest(ballots, voter_of(), voter).candidate
}

impl BookView {
    /// The book of a survey in which nobody has voted yet.
    pub open spec fn opened(survey: SurveyView) -> BookView {
        BookView {
            survey,
            tallies: Seq::new(survey.candidates.len(), |j: int| 0nat),
            ballots: Seq::empty(),
        }
    }

    /// One tally for each position of the candidate list, the same tally at
    /// positions that hold the same candidate, and no voter with two ballots.
    pub open spec fn shaped(self) -> bool {
        &&& self.tallies.len() == self.survey.candidates.len()
        &&& forall|j: int, k: int|
            0 <= j < self.tallies.len() && 0 <= k < self.tallies.len()
                && self.survey.candidates[j] == self.survey.candidates[k] ==> self.tallies[j]
                == self.tallies[k]
        &&& voters(self.ballots).no_duplicates()
    }

    /// The tally kept for `candidate`.
    pub open spec fn tally_of(self, candidate: Identity) -> nat {
        self.tallies[self.survey.candidates.index_of(candidate)]
    }

    /// The book with one more ballot: the ballot is appended, and the tally at
    /// every position that holds its candidate goes up by one.
    pub open spec fn with_vote(self, voter: Identity, candidate: Identity) -> BookView {
        BookView {
            survey: self.survey,
            tallies: Seq::new(
                self.tallies.len(),
                |j: int|
                    if self.survey.candidates[j] == candidate {
                        self.tallies[j] + 1
                    } else {
                        self.tallies[j]
                    },
            ),
            ballots: self.ballots.push(BallotView { voter, candidate }),
        }
    }
}

/// Whether `id` is the id of one of `count` books.
pub open spec fn in_range(id: u64, count: nat) -> bool {
    1 <= id <= count
}

/// The ledger that a sequence of books stands for.
pub open spec fn ledger_of(vote_fee: i128, books: Seq<BookView>) -> LedgerView {
    LedgerView {
        surveys: Map::new(
            |id: u64| in_range(id, books.len()),
            |id: u64| books[id - 1].survey,
        ),
        votes: Map::new(
            |key: (u64, Identity)|
                in_range(key.0, books.len()) && voters(books[key.0 - 1].ballots).contains(key.1),
            |key: (u64, Identity)| choice_of(books[key.0 - 1].ballots, key.1),
        ),
        vote_counts: Map::new(
            |key: (u64, Identity)|
                in_range(key.0, books.len()) && books[key.0 - 1].survey.candidates.contains(key.1),
            |key: (u64, Identity)| books[key.0 - 1].tally_of(key.1),
        ),
        voter_lists: Map::new(
            |id: u64| in_range(id, books.len()),
            |id: u64| voters(books[id - 1].ballots),
        ),
        survey_count: books.len(),
        vote_fee,
    }
}

/// Every book has the shape it should, and carries the id of its position.
pub open spec fn books_shaped(books: Seq<BookView>) -> bool {
    &&& books.len() <= u64::MAX
    &&& forall|i: int|
        0 <= i < books.len() ==> (#[trigger] books[i]).shaped() && books[i].survey.survey_id == i
            + 1
}

/// With no books there is the fresh ledger.
pub proof fn lemma_ledger_of_nothing(vote_fee: i128)
    ensures
        ledger_of(vote_fee, Seq::empty()) == (LedgerView { vote_fee, ..LedgerView::fresh() }),
{
    let shown = ledger_of(vote_fee, Seq::empty());
    let fresh = LedgerView { vote_fee, ..LedgerView::fresh() };
    assert(shown.surveys =~= fresh.surveys);
    assert(shown.votes =~= fresh.votes);
    assert(shown.vote_counts =~= fresh.vote_counts);
    assert(shown.voter_lists =~= fresh.voter_lists);
}

/// Appending the book of a new survey shows as creating that survey.
pub proof fn lemma_ledger_of_opened(
    vote_fee: i128,
    books: Seq<BookView>,
    survey: SurveyView,
)
    requires
        books.len() < u64::MAX,
        survey.survey_id == books.len() + 1,
        survey.well_formed(),
    ensures
        ledger_of(vote_fee, books.push(BookView::opened(survey))) == ledger_of(
            vote_fee,
            books,
        ).after_create_survey(
            survey.creator,
            survey.name,
            survey.description,
            survey.start_date,
            survey.end_date,
            survey.candidates,
            true,
        ),
{
    let before = ledger_of(vote_fee, books);
    let longer = books.push(BookView::opened(survey));
    let shown = ledger_of(vote_fee, longer);
    let after = before.after_create_survey(
        survey.creator,
        survey.name,
        survey.description,
        survey.start_date,
        survey.end_date,
        survey.candidates,
        true,
    );
    let id = before.next_id();
    assert(id == survey.survey_id);
    assert(forall|i: int| 0 <= i < books.len() ==> longer[i] == books[i]);
    assert(longer[id - 1] == BookView::opened(survey));
    assert(voters(BookView::opened(survey).ballots) =~= Seq::<Identity>::empty());
    assert(shown.surveys =~= after.surveys) by {
        assert forall|k: u64| shown.surveys.contains_key(k) implies #[trigger] shown.surveys[k]
            == after.surveys[k] by {
            if k != id {
                assert(longer[k - 1] == books[k - 1]);
            }
        }
    }
    assert(shown.votes =~= after.votes) by {
        assert forall|key: (u64, Identity)|
            shown.votes.contains_key(key) <==> after.votes.contains_key(key) by {
            if in_range(key.0, books.len()) {
                assert(longer[key.0 - 1] == books[key.0 - 1]);
            }
        }
        assert forall|key: (u64, Identity)| shown.votes.contains_key(key) implies #[trigger]
            shown.votes[key] == after.votes[key] by {
            assert(longer[key.0 - 1] == books[key.0 - 1]);
        }
    }
    assert(shown.vote_counts =~= after.vote_counts) by {
        assert forall|key: (u64, Identity)|
            shown.vote_counts.contains_key(key) <==> after.vote_counts.contains_key(key) by {
            if in_range(key.0, books.len()) {
                assert(longer[key.0 - 1] == books[key.0 - 1]);
            }
        }
        assert forall|key: (u64, Identity)| shown.vote_counts.contains_key(key) implies #[trigger]
            shown.vote_counts[key] == after.vote_counts[key] by {
            if key.0 == id {
                let at = survey.candidates.index_of(key.1);
                assert(0 <= at < survey.candidates.len());
            } else {
                assert(longer[key.0 - 1] == books[key.0 - 1]);
            }
        }
    }
    assert(shown.voter_lists =~= after.voter_lists) by {
        assert forall|k: u64| shown.voter_lists.contains_key(k) implies #[trigger]
            shown.voter_lists[k] == after.voter_lists[k] by {
            if k != id {
                assert(longer[k - 1] == books[k - 1]);
            }
        }
    }
}

/// Adding a ballot to a book shows as the vote it records.
pub proof fn lemma_ledger_of_vote(
    vote_fee: i128,
    books: Seq<BookView>,
    id: u64,
    voter: Identity,
    candidate: Identity,
    now: u64,
)
    requires
        books_shaped(books),
        ledger_of(vote_fee, books).vote_outcome(id, voter, candidate, now, true) is Ok,
    ensures
        ledger_of(vote_fee, books.update(id - 1, books[id - 1].with_vote(voter, candidate)))
            == ledger_of(vote_fee, books).after_vote(id, voter, candidate, now, true),
{
    let before = ledger_of(vote_fee, books);
    let book = books[id - 1];
    let marked = book.with_vote(voter, candidate);
    let changed = books.update(id - 1, marked);
    let shown = ledger_of(vote_fee, changed);
    let after = before.after_vote(id, voter, candidate, now, true);
    let candidates = book.survey.candidates;
    assert(before.surveys.contains_key(id));
    assert(in_range(id, books.len()));
    assert(book.shaped());
    assert(changed[id - 1] == marked);
    lemma_keys_push(book.ballots, voter_of(), BallotView { voter, candidate });
    assert(shown.surveys =~= after.surveys) by {
        assert forall|k: u64| shown.surveys.contains_key(k) implies #[trigger] shown.surveys[k]
            == after.surveys[k] by {
            if k != id {
                assert(changed[k - 1] == books[k - 1]);
            }
        }
    }
    assert(shown.votes =~= after.votes) by {
        assert forall|key: (u64, Identity)|
            shown.votes.contains_key(key) <==> after.votes.contains_key(key) by {
            if in_range(key.0, books.len()) && key.0 != id {
                assert(changed[key.0 - 1] == books[key.0 - 1]);
            }
        }
        assert forall|key: (u64, Identity)| shown.votes.contains_key(key) implies #[trigger]
            shown.votes[key] == after.votes[key] by {
            if key.0 != id {
                assert(changed[key.0 - 1] == books[key.0 - 1]);
            } else {
                let longer = book.ballots.push(BallotView { voter, candidate });
                assert(longer.drop_last() == book.ballots);
                assert(longer.last() == BallotView { voter, candidate });
            }
        }
    }
    assert(shown.vote_counts =~= after.vote_counts) by {
        assert forall|key: (u64, Identity)|
            shown.vote_counts.contains_key(key) <==> after.vote_counts.contains_key(key) by {
            if in_range(key.0, books.len()) && key.0 != id {
                assert(changed[key.0 - 1] == books[key.0 - 1]);
            }
        }
        assert forall|key: (u64, Identity)| shown.vote_counts.contains_key(key) implies #[trigger]
            shown.vote_counts[key] == after.vote_counts[key] by {
            if key.0 != id {
                assert(changed[key.0 - 1] == books[key.0 - 1]);
            } else {
                let at = candidates.index_of(key.1);
                assert(0 <= at < candidates.len() && candidates[at] == key.1);
                assert(before.vote_counts.contains_key((id, candidate)));
            }
        }
    }
    assert(shown.voter_lists =~= after.voter_lists) by {
        assert forall|k: u64| shown.voter_lists.contains_key(k) implies #[trigger]
            shown.voter_lists[k] == after.voter_lists[k] by {
            if k != id {
                assert(changed[k - 1] == books[k - 1]);
            }
        }
    }
}

/// Adding a ballot of a new voter for a listed candidate keeps the shape of the books.
pub proof fn lemma_vote_keeps_shape(
    books: Seq<BookView>,
    id: u64,
    voter: Identity,
    candidate: Identity,
)
    requires
        books_shaped(books),
        in_range(id, books.len()),
        !voters(books[id - 1].ballots).contains(voter),
    ensures
        books_shaped(books.update(id - 1, books[id - 1].with_vote(voter, candidate))),
{
    let book = books[id - 1];
    let marked = book.with_vote(voter, candidate);
    let changed = books.update(id - 1, marked);
    lemma_keys_push(book.ballots, voter_of(), BallotView { voter, candidate });
    assert(book.shaped());
    assert(marked.shaped());
    assert forall|i: int| 0 <= i < changed.len() implies (#[trigger] changed[i]).shaped()
        && changed[i].survey.survey_id == i + 1 by {
        if i != id - 1 {
            assert(changed[i] == books[i]);
        }
    }
}

} // verus!
