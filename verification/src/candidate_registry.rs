//! The candidate registry: one profile for each registered wallet.

use crate::address::{Address, Identity};
use crate::decision::{decide_registration, registration_outcome};
use crate::error::RegistryError;
use crate::keyed::{
    find, keys, latest, lemma_key_absent, lemma_key_present, lemma_keys_push, lemma_latest_at, Keyed,
};
use vstd::prelude::*;

verus! {

/// The mathematical value of a [`Candidate`].
pub struct CandidateView {
    pub wallet: Identity,
    pub name: Seq<char>,
    pub rfc: Seq<char>,
    pub timestamp: u64,
}

/// The profile of a registered candidate.
#[derive(Debug)]
pub struct Candidate {
    pub wallet: Address,
    pub name: String,
    pub rfc: String,
    /// The reading of the ledger clock when the candidate was registered.
    pub timestamp: u64,
}

impl View for Candidate {
    type V = CandidateView;

    open spec fn view(&self) -> CandidateView {
        CandidateView {
            wallet: self.wallet@,
            name: self.name@,
            rfc: self.rfc@,
            timestamp: self.timestamp,
        }
    }
}

impl Clone for Candidate {
    fn clone(&self) -> (copy: Candidate)
        ensures
            copy@ == self@,
    {
        Candidate {
            wallet: self.wallet.clone(),
            name: self.name.clone(),
            rfc: self.rfc.clone(),
            timestamp: self.timestamp,
        }
    }
}

/// Everything a candidate registry has on record.
pub struct CandidateRegistryView {
    /// The profile stored under each wallet.
    pub candidates: Map<Identity, CandidateView>,
    /// The registered wallets, in the order in which they were registered.
    pub candidate_list: Seq<Identity>,
    /// How many candidates were registered.
    pub candidate_count: nat,
}

impl CandidateRegistryView {
    /// The registry before anyone is registered.
    pub open spec fn fresh() -> CandidateRegistryView {
        CandidateRegistryView {
            candidates: Map::empty(),
            candidate_list: Seq::empty(),
            candidate_count: 0,
        }
    }

    /// The profile stored under `wallet`, if there is one.
    pub open spec fn candidate(self, wallet: Identity) -> Option<CandidateView> {
        if self.candidates.contains_key(wallet) {
            Some(self.candidates[wallet])
        } else {
            None
        }
    }

    /// What a call to register returns: refused where the wallet did not
    /// prove its identity, `false` where it is registered already, `true`
    /// where it is registered by this call, and refused where the count
    /// cannot go higher.
    pub open spec fn register_outcome(self, wallet: Identity, authenticated: bool) -> Result<
        bool,
        RegistryError,
    > {
        registration_outcome(self.candidates.contains_key(wallet), self.candidate_count, authenticated)
    }

    /// The registry after a call to register: changed only where the call
    /// returns `true`, and then by the new profile, the wallet at the end of
    /// the list and the count moved on by one.
    pub open spec fn after_register(
        self,
        wallet: Identity,
        name: Seq<char>,
        rfc: Seq<char>,
        now: u64,
        authenticated: bool,
    ) -> CandidateRegistryView {
        if self.register_outcome(wallet, authenticated) == Ok::<bool, RegistryError>(true) {
            CandidateRegistryView {
                candidates: self.candidates.insert(
                    wallet,
                    CandidateView { wallet, name, rfc, timestamp: now },
                ),
                candidate_list: self.candidate_list.push(wallet),
                candidate_count: self.candidate_count + 1,
            }
        } else {
            self
        }
    }

    /// What holds of a registry at every point of its life: the list holds
    /// each registered wallet once and no other, each profile is stored under
    /// its own wallet, and the count is the length of the list.
    pub open spec fn inv(self) -> bool {
        &&& self.candidate_list.no_duplicates()
        &&& forall|wallet: Identity| #[trigger]
            self.candidates.contains_key(wallet) <==> self.candidate_list.contains(wallet)
        &&& forall|wallet: Identity| #[trigger]
            self.candidates.contains_key(wallet) ==> self.candidates[wallet].wallet == wallet
        &&& self.candidate_count == self.candidate_list.len()
    }
}

/// The wallet by which a profile is found.
spec fn wallet_of() -> spec_fn(CandidateView) -> Identity {
    |record: CandidateView| record.wallet
}

/// The wallets of a sequence of profiles, in order.
spec fn wallets(records: Seq<CandidateView>) -> Seq<Identity> {
    keys(records, wallet_of())
}

/// The registry that a sequence of profiles stands for.
spec fn registry_of(records: Seq<CandidateView>) -> CandidateRegistryView {
    CandidateRegistryView {
        candidates: Map::new(
            |wallet: Identity| wallets(records).contains(wallet),
            |wallet: Identity| latest(records, wallet_of(), wallet),
        ),
        candidate_list: wallets(records),
        candidate_count: records.len(),
    }
}

/// Appending the profile of a wallet that has none shows as registering it,
/// and keeps the invariant.
proof fn lemma_registry_of_push(records: Seq<CandidateView>, record: CandidateView)
    requires
        wallets(records).no_duplicates(),
        registry_of(records).inv(),
        !wallets(records).contains(record.wallet),
        records.len() < u64::MAX,
    ensures
        wallets(records.push(record)).no_duplicates(),
        registry_of(records.push(record)) == registry_of(records).after_register(
            record.wallet,
            record.name,
            record.rfc,
            record.timestamp,
            true,
        ),
        registry_of(records.push(record)).inv(),
{
    let longer = records.push(record);
    let shown = registry_of(longer);
    let after = registry_of(records).after_register(
            record.wallet,
            record.name,
            record.rfc,
            record.timestamp,
            true,
        );
    lemma_keys_push(records, wallet_of(), record);
    assert(longer.drop_last() == records);
    assert(longer.last() == record);
    assert(shown.candidates =~= after.candidates);
    assert(after.candidates.dom() =~= registry_of(records).candidates.dom().insert(record.wallet));
    assert forall|w: Identity| #[trigger] shown.candidates.contains_key(w) implies shown.candidates[w].wallet
        == w by {
        if w != record.wallet {
            assert(registry_of(records).candidates.contains_key(w));
        }
    }
}

impl Keyed for Candidate {
    closed spec fn key_view(&self) -> Identity {
        self.wallet@
    }

    fn has_key(&self, wanted: &Address) -> (same: bool) {
        self.wallet == *wanted
    }
}

/// The candidate registry.
pub struct CandidateRegistry {
    records: Vec<Candidate>,
}

impl View for CandidateRegistry {
    type V = CandidateRegistryView;

    closed spec fn view(&self) -> CandidateRegistryView {
        registry_of(self.record_views())
    }
}

impl CandidateRegistry {
    spec fn record_views(&self) -> Seq<CandidateView> {
        self.records@.map_values(|record: Candidate| record@)
    }

    /// Whether the records are consistent with one another. Every registry
    /// that this library hands out is, and every operation keeps it so.
    pub closed spec fn wf(&self) -> bool {
        &&& wallets(self.record_views()).no_duplicates()
        &&& self@.inv()
    }

    /// A consistent registry satisfies the invariant of the model.
    pub proof fn lemma_wf_inv(&self)
        requires
            self.wf(),
        ensures
            self@.inv(),
    {
    }

    /// An empty registry.
    pub fn new() -> (registry: CandidateRegistry)
        ensures
            registry.wf(),
            registry@ == CandidateRegistryView::fresh(),
    {
        let registry = CandidateRegistry { records: Vec::new() };
        proof {
            assert(registry.record_views() =~= Seq::<CandidateView>::empty());
            assert(wallets(registry.record_views()) =~= Seq::<Identity>::empty());
            assert(registry@.candidates =~= CandidateRegistryView::fresh().candidates);
            assert(registry@.candidates.dom() =~= Set::<Identity>::empty());
        }
        registry
    }

    /// The position of the profile of `wallet`, if it has one.
    fn position(&self, wallet: &Address) -> (found: Option<usize>)
        ensures
            match found {
                Some(at) => at < self.records.len() && self.records[at as int].wallet@ == wallet@
                    && self@.candidates.contains_key(wallet@),
                None => !self@.candidates.contains_key(wallet@),
            },
    {
        let found = find(&self.records, wallet);
        proof {
            let views = self.record_views();
            match found {
                Some(at) => {
                    assert(views[at as int] == self.records[at as int]@);
                    lemma_key_present(views, wallet_of(), at as int);
                },
                None => {
                    assert forall|j: int| 0 <= j < views.len() implies wallet_of()(
                        #[trigger] views[j],
                    ) != wallet@ by {
                        assert(views[j] == self.records[j]@);
                        assert(self.records[j].key_view() != wallet@);
                    }
                    lemma_key_absent(views, wallet_of(), wallet@);
                },
            }
        }
        found
    }

    /// Registers `wallet` with its profile, the ledger clock reading `now`.
    ///
    /// Refused with `Unauthorized` where the wallet did not prove its
    /// identity. Returns `false`, and changes nothing, where the wallet is
    /// registered already; returns `true` where this call registers it.
    /// Refused with `CounterExhausted` where the count cannot go higher.
    pub fn register_candidate(
        &mut self,
        wallet: Address,
        name: String,
        rfc: String,
        now: u64,
        authenticated: bool,
    ) -> (outcome: Result<bool, RegistryError>)
        requires
            old(self).wf(),
        ensures
            final(self).wf(),
            outcome == old(self)@.register_outcome(wallet@, authenticated),
            final(self)@ == old(self)@.after_register(wallet@, name@, rfc@, now, authenticated),
    {
        let registered = self.position(&wallet).is_some();
        let decision = decide_registration(registered, self.records.len() as u64, authenticated);
        match decision {
            Err(error) => {
                return Err(error);
            },
            Ok(None) => {
                return Ok(false);
            },
            Ok(Some(_)) => {},
        }
        let record = Candidate { wallet, name, rfc, timestamp: now };
        let ghost before = self.record_views();
        proof {
            lemma_registry_of_push(before, record@);
        }
        self.records.push(record);
        proof {
            assert(self.record_views() =~= before.push(record@));
        }
        Ok(true)
    }

    /// The profile stored under `wallet`, or `None` where it is not registered.
    pub fn get_candidate(&self, wallet: Address) -> (found: Option<Candidate>)
        requires
            self.wf(),
        ensures
            match found {
                Some(candidate) => self@.candidate(wallet@) == Some(candidate@),
                None => self@.candidate(wallet@) is None,
            },
    {
        match self.position(&wallet) {
            Some(at) => {
                proof {
                    assert(self.record_views()[at as int] == self.records[at as int]@);
                    lemma_latest_at(self.record_views(), wallet_of(), at as int);
                }
                Some(self.records[at].clone())
            },
            None => None,
        }
    }

    /// Whether `wallet` is registered.
    pub fn candidate_exists(&self, wallet: Address) -> (exists: bool)
        requires
            self.wf(),
        ensures
            exists == self@.candidates.contains_key(wallet@),
    {
        self.position(&wallet).is_some()
    }

    /// The registered wallets, in the order in which they were registered.
    pub fn get_all_candidates(&self) -> (all: Vec<Address>)
        requires
            self.wf(),
        ensures
            crate::address::identities(all@) == self@.candidate_list,
    {
        let mut all: Vec<Address> = Vec::new();
        let mut at: usize = 0;
        while at < self.records.len()
            invariant
                at <= self.records.len(),
                all.len() == at,
                forall|j: int| 0 <= j < at ==> (#[trigger] all[j])@ == self.records[j].wallet@,
            decreases self.records.len() - at,
        {
            all.push(self.records[at].wallet.clone());
            at += 1;
        }
        proof {
            let shown = crate::address::identities(all@);
            assert(shown.len() == self@.candidate_list.len());
            assert forall|j: int| 0 <= j < shown.len() implies shown[j]
                == self@.candidate_list[j] by {
                assert(shown[j] == all[j]@);
                assert(self.record_views()[j] == self.records[j]@);
            }
            assert(shown =~= self@.candidate_list);
        }
        all
    }

    /// How many candidates are registered.
    pub fn get_candidate_count(&self) -> (count: u64)
        requires
            self.wf(),
        ensures
            count == self@.candidate_count,
    {
        self.records.len() as u64
    }
}

} // verus!
