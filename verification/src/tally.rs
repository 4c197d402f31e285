//! Counting recorded votes.
//!
//! A tally is never recomputed while the ledger runs. These definitions say
//! what a maintained tally must equal, and the lemmas relate the count to the
//! roster it is taken over.

use crate::address::Identity;
use vstd::prelude::*;
use vstd::seq_lib::lemma_seq_contains_after_push;

verus! {

/// The vote records of every survey: `(survey, voter)` to the chosen candidate.
pub type VoteRecords = Map<(u64, Identity), Identity>;

/// Whether the record of `voter` in survey `id` names `candidate`.
pub open spec fn voted_for(votes: VoteRecords, id: u64, voter: Identity, candidate: Identity) -> bool {
    votes.contains_key((id, voter)) && votes[(id, voter)] == candidate
}

/// How many voters of `roster` have a record in survey `id` that names `candidate`.
pub open spec fn count_choices(
    roster: Seq<Identity>,
    votes: VoteRecords,
    id: u64,
    candidate: Identity,
) -> nat
    decreases roster.len(),
{
    if roster.len() == 0 {
        0
    } else {
        count_choices(roster.drop_last(), votes, id, candidate) + if voted_for(
            votes,
            id,
            roster.last(),
            candidate,
        ) {
            1nat
        } else {
            0nat
        }
    }
}

/// The voters whose record in survey `id` names `candidate`.
pub open spec fn supporters(votes: VoteRecords, id: u64, candidate: Identity) -> Set<Identity> {
    Set::new(|voter: Identity| voted_for(votes, id, voter, candidate))
}

/// How many positions of `candidates` hold `candidate`.
pub open spec fn occurrences(candidates: Seq<Identity>, candidate: Identity) -> nat
    decreases candidates.len(),
{
    if candidates.len() == 0 {
        0
    } else {
        occurrences(candidates.drop_last(), candidate) + if candidates.last() == candidate {
            1nat
        } else {
            0nat
        }
    }
}

/// The candidates of a list, each once, in the order of their first positions.
pub open spec fn distinct(candidates: Seq<Identity>) -> Seq<Identity>
    decreases candidates.len(),
{
    if candidates.len() == 0 {
        Seq::empty()
    } else {
        let front = distinct(candidates.drop_last());
        if front.contains(candidates.last()) {
            front
        } else {
            front.push(candidates.last())
        }
    }
}

/// The distinct candidates of a list are the candidates of the list, and none
/// of them stands twice.
pub proof fn lemma_distinct(candidates: Seq<Identity>)
    ensures
        distinct(candidates).no_duplicates(),
        forall|candidate: Identity|
            distinct(candidates).contains(candidate) <==> candidates.contains(candidate),
    decreases candidates.len(),
{
    broadcast use lemma_seq_contains_after_push;

    if candidates.len() > 0 {
        let front = candidates.drop_last();
        lemma_distinct(front);
        assert(candidates == front.push(candidates.last()));
    }
}

/// The counts of every position of `candidates`, added up.
pub open spec fn sum_of_counts(
    candidates: Seq<Identity>,
    roster: Seq<Identity>,
    votes: VoteRecords,
    id: u64,
) -> nat
    decreases candidates.len(),
{
    if candidates.len() == 0 {
        0
    } else {
        sum_of_counts(candidates.drop_last(), roster, votes, id) + count_choices(
            roster,
            votes,
            id,
            candidates.last(),
        )
    }
}

/// A count never exceeds the length of the roster it is taken over.
pub proof fn lemma_count_bounded(roster: Seq<Identity>, votes: VoteRecords, id: u64, candidate: Identity)
    ensures
        count_choices(roster, votes, id, candidate) <= roster.len(),
    decreases roster.len(),
{
    if roster.len() > 0 {
        lemma_count_bounded(roster.drop_last(), votes, id, candidate);
    }
}

/// Appending a voter adds one to the count of the candidate it voted for, and
/// nothing to any other.
pub proof fn lemma_count_push(
    roster: Seq<Identity>,
    voter: Identity,
    votes: VoteRecords,
    id: u64,
    candidate: Identity,
)
    ensures
        count_choices(roster.push(voter), votes, id, candidate) == count_choices(
            roster,
            votes,
            id,
            candidate,
        ) + if voted_for(votes, id, voter, candidate) {
            1nat
        } else {
            0nat
        },
{
    assert(roster.push(voter).drop_last() == roster);
}

/// A record written under a key that the roster does not reach leaves every
/// count over that roster as it was.
pub proof fn lemma_count_frame(
    roster: Seq<Identity>,
    votes: VoteRecords,
    id: u64,
    candidate: Identity,
    key: (u64, Identity),
    choice: Identity,
)
    requires
        key.0 != id || !roster.contains(key.1),
    ensures
        count_choices(roster, votes.insert(key, choice), id, candidate) == count_choices(
            roster,
            votes,
            id,
            candidate,
        ),
    decreases roster.len(),
{
    broadcast use lemma_seq_contains_after_push;

    if roster.len() > 0 {
        let front = roster.drop_last();
        assert(roster == front.push(roster.last()));
        lemma_count_frame(front, votes, id, candidate, key, choice);
    }
}

/// Over a roster without repetitions that holds exactly the voters on record,
/// the count for a candidate is the number of voters whose record names it.
pub proof fn lemma_count_is_cardinality(
    roster: Seq<Identity>,
    votes: VoteRecords,
    id: u64,
    candidate: Identity,
)
    requires
        roster.no_duplicates(),
        forall|voter: Identity| #[trigger] votes.contains_key((id, voter)) <==> roster.contains(voter),
    ensures
        supporters(votes, id, candidate).finite(),
        supporters(votes, id, candidate).len() == count_choices(roster, votes, id, candidate),
{
    lemma_listed_supporters(roster, votes, id, candidate);
    assert(supporters(votes, id, candidate) =~= listed_supporters(roster, votes, id, candidate));
}

/// The voters of `roster` whose record in survey `id` names `candidate`.
pub open spec fn listed_supporters(
    roster: Seq<Identity>,
    votes: VoteRecords,
    id: u64,
    candidate: Identity,
) -> Set<Identity> {
    Set::new(|voter: Identity| roster.contains(voter) && voted_for(votes, id, voter, candidate))
}

/// Over a roster without repetitions, the count for a candidate is the number
/// of roster members whose record names it.
pub proof fn lemma_listed_supporters(
    roster: Seq<Identity>,
    votes: VoteRecords,
    id: u64,
    candidate: Identity,
)
    requires
        roster.no_duplicates(),
    ensures
        listed_supporters(roster, votes, id, candidate).finite(),
        listed_supporters(roster, votes, id, candidate).len() == count_choices(
            roster,
            votes,
            id,
            candidate,
        ),
    decreases roster.len(),
{
    broadcast use lemma_seq_contains_after_push;

    let all = listed_supporters(roster, votes, id, candidate);
    if roster.len() == 0 {
        assert(all =~= Set::<Identity>::empty());
    } else {
        let front = roster.drop_last();
        let last = roster.last();
        let before = listed_supporters(front, votes, id, candidate);
        lemma_listed_supporters(front, votes, id, candidate);
        assert(roster[roster.len() - 1] == last);
        assert(roster == front.push(last));
        assert(!front.contains(last)) by {
            if front.contains(last) {
                let i = choose|i: int| 0 <= i < front.len() && front[i] == last;
                assert(roster[i] == roster[roster.len() - 1]);
            }
        }
        if voted_for(votes, id, last, candidate) {
            assert(all =~= before.insert(last));
        } else {
            assert(all =~= before);
        }
    }
}

/// Appending a voter whose record names `choice` adds to the sum of counts one
/// for every position of `candidates` that holds `choice`.
pub proof fn lemma_sum_push(
    candidates: Seq<Identity>,
    roster: Seq<Identity>,
    voter: Identity,
    choice: Identity,
    votes: VoteRecords,
    id: u64,
)
    requires
        votes.contains_key((id, voter)),
        votes[(id, voter)] == choice,
    ensures
        sum_of_counts(candidates, roster.push(voter), votes, id) == sum_of_counts(
            candidates,
            roster,
            votes,
            id,
        ) + occurrences(candidates, choice),
    decreases candidates.len(),
{
    if candidates.len() > 0 {
        lemma_sum_push(candidates.drop_last(), roster, voter, choice, votes, id);
        lemma_count_push(roster, voter, votes, id, candidates.last());
    }
}

/// A candidate that a list without repetitions holds occupies one position of it.
pub proof fn lemma_occurs_once(candidates: Seq<Identity>, candidate: Identity)
    requires
        candidates.no_duplicates(),
    ensures
        occurrences(candidates, candidate) == if candidates.contains(candidate) {
            1nat
        } else {
            0nat
        },
    decreases candidates.len(),
{
    broadcast use lemma_seq_contains_after_push;

    if candidates.len() > 0 {
        let front = candidates.drop_last();
        lemma_occurs_once(front, candidate);
        assert(candidates == front.push(candidates.last()));
        if front.contains(candidate) && candidates.last() == candidate {
            let i = choose|i: int| 0 <= i < front.len() && front[i] == candidate;
            assert(candidates[i] == candidates[candidates.len() - 1]);
        }
    }
}

/// Where every voter of the roster has a record, and the candidate it names
/// occupies one position of the list, the counts of the list add up to the
/// length of the roster.
pub proof fn lemma_sum_is_roster_length(
    candidates: Seq<Identity>,
    roster: Seq<Identity>,
    votes: VoteRecords,
    id: u64,
)
    requires
        forall|i: int|
            0 <= i < roster.len() ==> votes.contains_key((id, #[trigger] roster[i]))
                && occurrences(candidates, votes[(id, roster[i])]) == 1,
    ensures
        sum_of_counts(candidates, roster, votes, id) == roster.len(),
    decreases roster.len(),
{
    if roster.len() == 0 {
        lemma_sum_empty(candidates, votes, id);
        assert(roster =~= Seq::<Identity>::empty());
    } else {
        let front = roster.drop_last();
        let last = roster.last();
        assert(roster[roster.len() - 1] == last);
        assert forall|i: int| 0 <= i < front.len() implies votes.contains_key(
            (id, #[trigger] front[i]),
        ) && occurrences(candidates, votes[(id, front[i])]) == 1 by {
            assert(front[i] == roster[i]);
        }
        lemma_sum_is_roster_length(candidates, front, votes, id);
        lemma_sum_push(candidates, front, last, votes[(id, last)], votes, id);
        assert(front.push(last) == roster);
    }
}

/// A candidate that the record of some voter of the roster names has a
/// positive count.
pub proof fn lemma_count_positive(
    roster: Seq<Identity>,
    votes: VoteRecords,
    id: u64,
    candidate: Identity,
    at: int,
)
    requires
        0 <= at < roster.len(),
        voted_for(votes, id, roster[at], candidate),
    ensures
        count_choices(roster, votes, id, candidate) > 0,
    decreases roster.len(),
{
    if at < roster.len() - 1 {
        lemma_count_positive(roster.drop_last(), votes, id, candidate, at);
    }
}

/// Over an empty roster every sum of counts is zero.
pub proof fn lemma_sum_empty(candidates: Seq<Identity>, votes: VoteRecords, id: u64)
    ensures
        sum_of_counts(candidates, Seq::<Identity>::empty(), votes, id) == 0,
    decreases candidates.len(),
{
    if candidates.len() > 0 {
        lemma_sum_empty(candidates.drop_last(), votes, id);
    }
}

} // verus!
