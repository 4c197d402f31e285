//! The user registry: one profile for each registered wallet.

use crate::address::{Address, Identity};
use crate::decision::{decide_registration, registration_outcome};
use crate::error::RegistryError;
use crate::keyed::{
    find, keys, latest, lemma_key_absent, lemma_key_present, lemma_keys_push, lemma_latest_at, Keyed,
};
use vstd::prelude::*;

verus! {

/// The mathematical value of a [`User`].
pub struct UserView {
    pub wallet: Identity,
    pub first_name: Seq<char>,
    pub paternal_last_name: Seq<char>,
    pub maternal_last_name: Seq<char>,
    pub phone: Seq<char>,
    pub email: Seq<char>,
    pub timestamp: u64,
}

/// The profile of a registered user.
#[derive(Debug)]
pub struct User {
    pub wallet: Address,
    pub first_name: String,
    pub paternal_last_name: String,
    pub maternal_last_name: String,
    pub phone: String,
    pub email: String,
    /// The reading of the ledger clock when the user was registered.
    pub timestamp: u64,
}

impl View for User {
    type V = UserView;

    open spec fn view(&self) -> UserView {
        UserView {
            wallet: self.wallet@,
            first_name: self.first_name@,
            paternal_last_name: self.paternal_last_name@,
            maternal_last_name: self.maternal_last_name@,
            phone: self.phone@,
            email: self.email@,
            timestamp: self.timestamp,
        }
    }
}

impl Clone for User {
    fn clone(&self) -> (copy: User)
        ensures
            copy@ == self@,
    {
        User {
            wallet: self.wallet.clone(),
            first_name: self.first_name.clone(),
            paternal_last_name: self.paternal_last_name.clone(),
            maternal_last_name: self.maternal_last_name.clone(),
            phone: self.phone.clone(),
            email: self.email.clone(),
            timestamp: self.timestamp,
        }
    }
}

/// Everything a user registry has on record.
pub struct UserRegistryView {
    /// The profile stored under each wallet.
    pub users: Map<Identity, UserView>,
    /// How many users were registered.
    pub user_count: nat,
}

impl UserRegistryView {
    /// The registry before anyone is registered.
    pub open spec fn fresh() -> UserRegistryView {
        UserRegistryView { users: Map::empty(), user_count: 0 }
    }

    /// The profile stored under `wallet`, if there is one.
    pub open spec fn user(self, wallet: Identity) -> Option<UserView> {
        if self.users.contains_key(wallet) {
            Some(self.users[wallet])
        } else {
            None
        }
    }

    /// What a call to register returns: refused where the wallet did not
    /// prove its identity, `false` where it is registered already, `true`
    /// where it is registered by this call, and refused where the count
    /// cannot go higher.
    pub open spec fn register_outcome(self, wallet: Identity, authenticated: bool) -> Result<
        bool,
        RegistryError,
    > {
        registration_outcome(self.users.contains_key(wallet), self.user_count, authenticated)
    }

    /// The registry after a call to register: changed only where the call
    /// returns `true`, and then by the new profile and the count moved on by
    /// one.
    pub open spec fn after_register(self, profile: UserView, authenticated: bool) -> UserRegistryView {
        if self.register_outcome(profile.wallet, authenticated) == Ok::<bool, RegistryError>(true) {
            UserRegistryView {
                users: self.users.insert(profile.wallet, profile),
                user_count: self.user_count + 1,
            }
        } else {
            self
        }
    }

    /// What holds of a registry at every point of its life: each profile is
    /// stored under its own wallet, and the count is the number of wallets
    /// that have a profile.
    pub open spec fn inv(self) -> bool {
        &&& self.users.dom().finite()
        &&& self.users.dom().len() == self.user_count
        &&& forall|wallet: Identity| #[trigger]
            self.users.contains_key(wallet) ==> self.users[wallet].wallet == wallet
    }
}

/// The wallet by which a profile is found.
spec fn wallet_of() -> spec_fn(UserView) -> Identity {
    |record: UserView| record.wallet
}

/// The wallets of a sequence of profiles, in order.
spec fn wallets(records: Seq<UserView>) -> Seq<Identity> {
    keys(records, wallet_of())
}

/// The registry that a sequence of profiles stands for.
spec fn registry_of(records: Seq<UserView>) -> UserRegistryView {
    UserRegistryView {
        users: Map::new(
            |wallet: Identity| wallets(records).contains(wallet),
            |wallet: Identity| latest(records, wallet_of(), wallet),
        ),
        user_count: records.len(),
    }
}

/// Appending the profile of a wallet that has none shows as registering it,
/// and keeps the invariant.
proof fn lemma_registry_of_push(records: Seq<UserView>, record: UserView)
    requires
        wallets(records).no_duplicates(),
        registry_of(records).inv(),
        !wallets(records).contains(record.wallet),
        records.len() < u64::MAX,
    ensures
        wallets(records.push(record)).no_duplicates(),
        registry_of(records.push(record)) == registry_of(records).after_register(record, true),
        registry_of(records.push(record)).inv(),
{
    let longer = records.push(record);
    let shown = registry_of(longer);
    let after = registry_of(records).after_register(record, true);
    lemma_keys_push(records, wallet_of(), record);
    assert(longer.drop_last() == records);
    assert(longer.last() == record);
    assert(shown.users =~= after.users);
    assert(after.users.dom() =~= registry_of(records).users.dom().insert(record.wallet));
    assert forall|w: Identity| #[trigger] shown.users.contains_key(w) implies shown.users[w].wallet
        == w by {
        if w != record.wallet {
            assert(registry_of(records).users.contains_key(w));
        }
    }
}

impl Keyed for User {
    closed spec fn key_view(&self) -> Identity {
        self.wallet@
    }

    fn has_key(&self, wanted: &Address) -> (same: bool) {
        self.wallet == *wanted
    }
}

/// The user registry.
pub struct UserRegistry {
    records: Vec<User>,
}

impl View for UserRegistry {
    type V = UserRegistryView;

    closed spec fn view(&self) -> UserRegistryView {
        registry_of(self.record_views())
    }
}

impl UserRegistry {
    spec fn record_views(&self) -> Seq<UserView> {
        self.records@.map_values(|record: User| record@)
    }

    /// Whether the records are consistent with one another. Every registry
    /// that this library hands out is, and every operation keeps it so.
    pub closed spec fn wf(&self) -> bool {
        &&& wallets(self.record_views()).no_duplicates()
        &&& self@.inv()
    }

    /// A consistent registry satisfies the invariant of the model.
    pub proof fn lemma_wf_inv(&self)
        requires
            self.wf(),
        ensures
            self@.inv(),
    {
    }

    /// An empty registry.
    pub fn new() -> (registry: UserRegistry)
        ensures
            registry.wf(),
            registry@ == UserRegistryView::fresh(),
    {
        let registry = UserRegistry { records: Vec::new() };
        proof {
            assert(registry.record_views() =~= Seq::<UserView>::empty());
            assert(wallets(registry.record_views()) =~= Seq::<Identity>::empty());
            assert(registry@.users =~= UserRegistryView::fresh().users);
            assert(registry@.users.dom() =~= Set::<Identity>::empty());
        }
        registry
    }

    /// The position of the profile of `wallet`, if it has one.
    fn position(&self, wallet: &Address) -> (found: Option<usize>)
        ensures
            match found {
                Some(at) => at < self.records.len() && self.records[at as int].wallet@ == wallet@
                    && self@.users.contains_key(wallet@),
                None => !self@.users.contains_key(wallet@),
            },
    {
        let found = find(&self.records, wallet);
        proof {
            let views = self.record_views();
            match found {
                Some(at) => {
                    assert(views[at as int] == self.records[at as int]@);
                    lemma_key_present(views, wallet_of(), at as int);
                },
                None => {
                    assert forall|j: int| 0 <= j < views.len() implies wallet_of()(
                        #[trigger] views[j],
                    ) != wallet@ by {
                        assert(views[j] == self.records[j]@);
                        assert(self.records[j].key_view() != wallet@);
                    }
                    lemma_key_absent(views, wallet_of(), wallet@);
                },
            }
        }
        found
    }

    /// Registers `wallet` with its profile, the ledger clock reading `now`.
    ///
    /// Refused with `Unauthorized` where the wallet did not prove its
    /// identity. Returns `false`, and changes nothing, where the wallet is
    /// registered already; returns `true` where this call registers it.
    /// Refused with `CounterExhausted` where the count cannot go higher.
    pub fn register_user(
        &mut self,
        wallet: Address,
        first_name: String,
        paternal_last_name: String,
        maternal_last_name: String,
        phone: String,
        email: String,
        now: u64,
        authenticated: bool,
    ) -> (outcome: Result<bool, RegistryError>)
        requires
            old(self).wf(),
        ensures
            final(self).wf(),
            outcome == old(self)@.register_outcome(wallet@, authenticated),
            final(self)@ == old(self)@.after_register(
                (UserView {
                    wallet: wallet@,
                    first_name: first_name@,
                    paternal_last_name: paternal_last_name@,
                    maternal_last_name: maternal_last_name@,
                    phone: phone@,
                    email: email@,
                    timestamp: now,
                }),
                authenticated,
            ),
    {
        let registered = self.position(&wallet).is_some();
        let decision = decide_registration(registered, self.records.len() as u64, authenticated);
        match decision {
            Err(error) => {
                return Err(error);
            },
            Ok(None) => {
                return Ok(false);
            },
            Ok(Some(_)) => {},
        }
        let record = User {
            wallet,
            first_name,
            paternal_last_name,
            maternal_last_name,
            phone,
            email,
            timestamp: now,
        };
        let ghost before = self.record_views();
        proof {
            lemma_registry_of_push(before, record@);
        }
        self.records.push(record);
        proof {
            assert(self.record_views() =~= before.push(record@));
        }
        Ok(true)
    }

    /// The profile stored under `wallet`, or `None` where it is not registered.
    pub fn get_user(&self, wallet: Address) -> (found: Option<User>)
        requires
            self.wf(),
        ensures
            match found {
                Some(user) => self@.user(wallet@) == Some(user@),
                None => self@.user(wallet@) is None,
            },
    {
        match self.position(&wallet) {
            Some(at) => {
                proof {
                    assert(self.record_views()[at as int] == self.records[at as int]@);
                    lemma_latest_at(self.record_views(), wallet_of(), at as int);
                }
                Some(self.records[at].clone())
            },
            None => None,
        }
    }

    /// Whether `wallet` is registered.
    pub fn user_exists(&self, wallet: Address) -> (exists: bool)
        requires
            self.wf(),
        ensures
            exists == self@.users.contains_key(wallet@),
    {
        self.position(&wallet).is_some()
    }

    /// How many users are registered.
    pub fn get_user_count(&self) -> (count: u64)
        requires
            self.wf(),
        ensures
            count == self@.user_count,
    {
        self.records.len() as u64
    }
}

} // verus!
