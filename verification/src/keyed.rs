//! Records that are found by an identity.
//!
//! The ballots of a survey are found by their voter and the profiles of a
//! registry by their wallet. What is common to them stands here once.

use crate::address::{Address, Identity};
use vstd::prelude::*;
use vstd::seq_lib::lemma_seq_contains_after_push;

verus! {

/// The identities by which a sequence of records is found, in order.
pub open spec fn keys<R>(records: Seq<R>, key: spec_fn(R) -> Identity) -> Seq<Identity> {
    records.map_values(key)
}

/// The latest record found by `wanted`.
pub open spec fn latest<R>(records: Seq<R>, key: spec_fn(R) -> Identity, wanted: Identity) -> R
    decreases records.len(),
{
    if records.len() == 0 {
        arbitrary()
    } else if key(records.last()) == wanted {
        records.last()
    } else {
        latest(records.drop_last(), key, wanted)
    }
}

/// Where no two records are found by the same identity, the record found by
/// the identity of a position is the one at that position.
pub proof fn lemma_latest_at<R>(records: Seq<R>, key: spec_fn(R) -> Identity, at: int)
    requires
        keys(records, key).no_duplicates(),
        0 <= at < records.len(),
    ensures
        latest(records, key, key(records[at])) == records[at],
    decreases records.len(),
{
    if at < records.len() - 1 {
        let front = records.drop_last();
        assert(keys(records, key)[at] == key(records[at]));
        assert(keys(records, key)[records.len() - 1] == key(records.last()));
        assert(keys(front, key) =~= keys(records, key).drop_last());
        lemma_latest_at(front, key, at);
    }
}

/// The identities after one more record are the identities before it and its
/// own; and where its own is new, no two records are found by the same
/// identity afterwards if none were before.
pub proof fn lemma_keys_push<R>(records: Seq<R>, key: spec_fn(R) -> Identity, record: R)
    ensures
        keys(records.push(record), key) == keys(records, key).push(key(record)),
        forall|wanted: Identity|
            keys(records.push(record), key).contains(wanted) <==> (keys(records, key).contains(
                wanted,
            ) || wanted == key(record)),
        keys(records, key).no_duplicates() && !keys(records, key).contains(key(record)) ==> keys(
            records.push(record),
            key,
        ).no_duplicates(),
{
    broadcast use lemma_seq_contains_after_push;

    assert(keys(records.push(record), key) =~= keys(records, key).push(key(record)));
}

/// The identity of a position is among the identities.
pub proof fn lemma_key_present<R>(records: Seq<R>, key: spec_fn(R) -> Identity, at: int)
    requires
        0 <= at < records.len(),
    ensures
        keys(records, key).contains(key(records[at])),
{
    assert(keys(records, key)[at] == key(records[at]));
}

/// An identity that no position has is not among the identities.
pub proof fn lemma_key_absent<R>(records: Seq<R>, key: spec_fn(R) -> Identity, wanted: Identity)
    requires
        forall|j: int| 0 <= j < records.len() ==> key(#[trigger] records[j]) != wanted,
    ensures
        !keys(records, key).contains(wanted),
{
    assert forall|j: int| 0 <= j < keys(records, key).len() implies keys(records, key)[j]
        != wanted by {
        assert(keys(records, key)[j] == key(records[j]));
    }
}

/// A stored record that is found by an address.
pub trait Keyed {
    /// The identity by which this record is found.
    spec fn key_view(&self) -> Identity;

    /// Whether this record is found by `wanted`.
    fn has_key(&self, wanted: &Address) -> (same: bool)
        ensures
            same == (self.key_view() == wanted@),
    ;
}

/// The position of the first record found by `wanted`, if there is one.
pub fn find<R: Keyed>(records: &Vec<R>, wanted: &Address) -> (found: Option<usize>)
    ensures
        match found {
            Some(at) => at < records.len() && records[at as int].key_view() == wanted@,
            None => forall|j: int|
                0 <= j < records.len() ==> (#[trigger] records[j]).key_view() != wanted@,
        },
{
    let mut at: usize = 0;
    while at < records.len()
        invariant
            at <= records.len(),
            forall|j: int| 0 <= j < at ==> (#[trigger] records[j]).key_view() != wanted@,
        decreases records.len() - at,
    {
        if records[at].has_key(wanted) {
            return Some(at);
        }
        at += 1;
    }
    None
}

} // verus!
