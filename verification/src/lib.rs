//! Persistent creature entities ("dragons") owned by accounts, matchmaking
//! clusters pairing them into battles, a commit-reveal protocol over each
//! battle, and a deterministic integer-only combat resolver.
//!
//! The embedding supplies each call with the caller's opaque identity
//! string, the current time in microseconds, and one byte of entropy where
//! a random draw is needed; every operation is an atomic step that either
//! commits completely or fails with an [`Error`] leaving the state
//! untouched.

use vstd::prelude::*;

pub mod account;
pub mod battle;
pub mod cluster;
pub mod dragon;
pub mod store;

verus! {

use account::{Account, VAccount, spec_cooldown_ok, spec_new_account};
use battle::{
    Battle, BattleView, VBattle, battle_key, spec_battle_key, spec_complete, spec_participant,
    spec_run, spec_set_actions, spec_set_hash,
};
use cluster::{Cluster, VCluster};
use dragon::{Dragon, VDragon, dragon_wf, spec_physical_skill};
use store::{
    lemma_smap_at, lemma_smap_contains, lemma_smap_push, lemma_smap_update, lemma_umap_at,
    lemma_umap_contains, lemma_umap_update, sfind, skeys_unique, smap_of, ufind,
    ukeys_unique, umap_of,
};

/// The kinds of failure an operation can abort with. No operation ever
/// commits partial state: on any error the store is left exactly as it was.
#[derive(Clone, Copy, PartialEq, Eq, Debug)]
pub enum Error {
    /// A referenced account, creature, cluster, or battle does not exist.
    NotFound,
    /// A creature selection named a creature owned by someone else.
    NotOwner,
    /// A battle action came from a creature that is not one of the two
    /// participants.
    NotParticipant,
    /// A creature reselection was attempted before the cooldown elapsed.
    RateLimited,
    /// A level-up was attempted without enough accumulated experience.
    InsufficientProgress,
    /// A privileged or gated operation was attempted by a caller (or
    /// creature) that is not admitted to it.
    Unauthorized,
    /// A duplicate account creation.
    AlreadyExists,
}

/// No creature is selected by this account beyond `n` minted creatures.
pub open spec fn account_ok(a: Account, n: int) -> bool {
    match a.current_dragon {
        Some(id) => id < n,
        None => true,
    }
}

/// No creature waits in this cluster beyond `n` minted creatures.
pub open spec fn cluster_ok(c: Cluster, n: int) -> bool {
    match c.waiting_for_battle {
        Some(id) => id < n,
        None => true,
    }
}

/// Both participants of this battle are among the `n` minted creatures.
pub open spec fn battle_ok(b: BattleView, n: int) -> bool {
    b.dragon_a < n && b.dragon_b < n
}

/// The whole system: four tables of records plus the one privileged
/// identity, every state-changing entry point an atomic step. Callers are
/// identified by an opaque string handed in by the embedding; the wall
/// clock and entropy are likewise injected per call.
pub struct Contract {
    owner_id: String,
    accounts: Vec<(String, VAccount)>,
    dragons: Vec<VDragon>,
    clusters: Vec<(u64, VCluster)>,
    battles: Vec<(String, VBattle)>,
}

impl Contract {
    /// The privileged identity fixed at initialization.
    pub closed spec fn owner(self) -> Seq<char> {
        self.owner_id@
    }

    /// The account table: identity to versioned account record.
    pub closed spec fn accounts_map(self) -> Map<Seq<char>, VAccount> {
        smap_of(self.accounts@)
    }

    /// The creature table: the creature id is the position in this
    /// sequence; ids are handed out sequentially and never reused.
    pub closed spec fn dragons_seq(self) -> Seq<VDragon> {
        self.dragons@
    }

    /// The cluster table: cluster id to versioned cluster record.
    pub closed spec fn clusters_map(self) -> Map<u64, VCluster> {
        umap_of(self.clusters@)
    }

    /// The battle table, keyed by the literal `"<idA>:<idB>"` string.
    pub closed spec fn battles_map(self) -> Map<Seq<char>, VBattle> {
        smap_of(self.battles@)
    }

    /// Internal consistency: unique table keys, and every creature id held
    /// by an account, cluster slot, or battle names a minted creature with
    /// usable skills.
    pub closed spec fn wf(self) -> bool {
        let n = self.dragons@.len() as int;
        &&& skeys_unique(self.accounts@)
        &&& ukeys_unique(self.clusters@)
        &&& skeys_unique(self.battles@)
        &&& forall|i: int|
            0 <= i < self.accounts@.len() ==> account_ok(
                (#[trigger] self.accounts@[i]).1.value(),
                n,
            )
        &&& forall|i: int| 0 <= i < n ==> dragon_wf((#[trigger] self.dragons@[i]).value())
        &&& forall|i: int|
            0 <= i < self.clusters@.len() ==> cluster_ok(
                (#[trigger] self.clusters@[i]).1.value(),
                n,
            )
        &&& forall|i: int|
            0 <= i < self.battles@.len() ==> battle_ok(
                (#[trigger] self.battles@[i]).1.value()@,
                n,
            )
    }

    /// Whether `caller` has an account on record.
    pub open spec fn has_account(self, caller: Seq<char>) -> bool {
        self.accounts_map().contains_key(caller)
    }

    /// `caller`'s account record.
    pub open spec fn the_account(self, caller: Seq<char>) -> Account {
        self.accounts_map()[caller].value()
    }

    /// Whether `caller` can act in a battle: an account, a cluster record
    /// for its chosen cluster, and a selected creature all exist.
    pub open spec fn has_info(self, caller: Seq<char>) -> bool {
        &&& self.has_account(caller)
        &&& self.clusters_map().contains_key(self.the_account(caller).cluster_id)
        &&& self.the_account(caller).current_dragon is Some
    }

    /// The cluster record `caller`'s account points at.
    pub open spec fn the_cluster(self, caller: Seq<char>) -> Cluster {
        self.clusters_map()[self.the_account(caller).cluster_id].value()
    }

    /// The creature `caller` has selected.
    pub open spec fn sel_dragon(self, caller: Seq<char>) -> u64 {
        match self.the_account(caller).current_dragon {
            Some(id) => id,
            None => 0,
        }
    }

    /// Initialize the system: no accounts, creatures, or battles, and the
    /// single cluster 0 with the maximum level cap and an empty slot.
    pub fn new(owner_id: String) -> (r: Contract)
        ensures
            r.wf(),
            r.owner() == owner_id@,
            r.accounts_map() == Map::<Seq<char>, VAccount>::empty(),
            r.dragons_seq() == Seq::<VDragon>::empty(),
            r.battles_map() == Map::<Seq<char>, VBattle>::empty(),
            r.clusters_map() == Map::<u64, VCluster>::empty().insert(
                0,
                VCluster::V1(Cluster { max_lvl: 255, waiting_for_battle: None }),
            ),
    {
        let mut clusters: Vec<(u64, VCluster)> = Vec::new();
        clusters.push((0, VCluster::V1(Cluster { max_lvl: 255, waiting_for_battle: None })));
        let r = Contract {
            owner_id,
            accounts: Vec::new(),
            dragons: Vec::new(),
            clusters,
            battles: Vec::new(),
        };
        proof {
            assert(r.clusters@.drop_last() =~= Seq::<(u64, VCluster)>::empty());
            assert(umap_of(Seq::<(u64, VCluster)>::empty()) =~= Map::<u64, VCluster>::empty());
            assert(r.clusters_map() =~= Map::<u64, VCluster>::empty().insert(
                0,
                VCluster::V1(Cluster { max_lvl: 255, waiting_for_battle: None }),
            ));
        }
        r
    }

    /// Create an account for `caller` with cluster 0, no selection, and an
    /// epoch timestamp; fails `AlreadyExists` (changing nothing) if one is
    /// already on record.
    pub fn create_account(&mut self, caller: &String) -> (r: Result<(), Error>)
        requires
            old(self).wf(),
        ensures
            final(self).wf(),
            r is Ok <==> !old(self).has_account(caller@),
            r is Ok ==> final(self).accounts_map() == old(self).accounts_map().insert(
                caller@,
                VAccount::V1(spec_new_account()),
            ),
            r is Err ==> r == Err::<(), Error>(Error::AlreadyExists) && *final(self) == *old(
                self,
            ),
            final(self).owner() == old(self).owner(),
            final(self).dragons_seq() == old(self).dragons_seq(),
            final(self).clusters_map() == old(self).clusters_map(),
            final(self).battles_map() == old(self).battles_map(),
    {
        proof {
            lemma_smap_contains(self.accounts@, caller@);
        }
        match sfind(&self.accounts, caller) {
            Some(_) => Err(Error::AlreadyExists),
            None => {
                let key = caller.clone();
                self.accounts.push((key, VAccount::V1(Account::new())));
                proof {
                    lemma_smap_push(
                        old(self).accounts@,
                        (self.accounts@.last().0, VAccount::V1(spec_new_account())),
                    );
                    assert(self.accounts@ =~= old(self).accounts@.push(self.accounts@.last()));
                }
                Ok(())
            },
        }
    }

    /// Read `caller`'s account; fails `NotFound` if none exists.
    pub fn get_account(&self, account_id: &String) -> (r: Result<Account, Error>)
        requires
            self.wf(),
        ensures
            r is Ok <==> self.has_account(account_id@),
            r matches Ok(a) ==> a == self.the_account(account_id@),
            r is Err ==> r == Err::<Account, Error>(Error::NotFound),
    {
        proof {
            lemma_smap_contains(self.accounts@, account_id@);
        }
        match sfind(&self.accounts, account_id) {
            Some(i) => {
                proof {
                    lemma_smap_at(self.accounts@, i as int);
                }
                match &self.accounts[i].1 {
                    VAccount::V1(a) => Ok(*a),
                }
            },
            None => Err(Error::NotFound),
        }
    }

    /// Read a creature record; fails `NotFound` for an unminted id.
    pub fn get_dragon(&self, dragon_id: u64) -> (r: Result<&Dragon, Error>)
        ensures
            r is Ok <==> dragon_id < self.dragons_seq().len(),
            r matches Ok(d) ==> *d == self.dragons_seq()[dragon_id as int].value(),
            r is Err ==> r == Err::<&Dragon, Error>(Error::NotFound),
    {
        let n = self.dragons.len();
        if dragon_id >= n as u64 {
            return Err(Error::NotFound);
        }
        match &self.dragons[dragon_id as usize] {
            VDragon::V1(d) => Ok(d),
        }
    }

    /// Read a cluster record; fails `NotFound` for an unknown id.
    pub fn get_cluster(&self, cluster_id: u64) -> (r: Result<Cluster, Error>)
        requires
            self.wf(),
        ensures
            r is Ok <==> self.clusters_map().contains_key(cluster_id),
            r matches Ok(c) ==> c == self.clusters_map()[cluster_id].value(),
            r is Err ==> r == Err::<Cluster, Error>(Error::NotFound),
    {
        proof {
            lemma_umap_contains(self.clusters@, cluster_id);
        }
        match ufind(&self.clusters, cluster_id) {
            Some(i) => {
                proof {
                    lemma_umap_at(self.clusters@, i as int);
                }
                match &self.clusters[i].1 {
                    VCluster::V1(c) => Ok(*c),
                }
            },
            None => Err(Error::NotFound),
        }
    }

    /// The error a creature selection by `caller` aborts with, if any:
    /// `NotFound` without an account or for an unminted creature,
    /// `NotOwner` for someone else's creature, `RateLimited` while the
    /// cooldown window is still open.
    pub open spec fn spec_select_err(
        self,
        caller: Seq<char>,
        dragon_id: u64,
        now: u64,
    ) -> Option<Error> {
        if !self.has_account(caller) {
            Some(Error::NotFound)
        } else if dragon_id != u64::MAX && dragon_id >= self.dragons_seq().len() {
            Some(Error::NotFound)
        } else if dragon_id != u64::MAX && self.dragons_seq()[dragon_id as int].value().owner_id@
            != caller {
            Some(Error::NotOwner)
        } else if !spec_cooldown_ok(self.the_account(caller).dragon_change_timestamp, now) {
            Some(Error::RateLimited)
        } else {
            None
        }
    }

    /// Select a creature (or clear the selection by passing `u64::MAX`):
    /// the creature must exist and belong to `caller`, and strictly more
    /// than one day must have elapsed since the account's stored selection
    /// timestamp; on success the selection and the timestamp are updated.
    pub fn dragon_select(&mut self, caller: &String, dragon_id: u64, now: u64) -> (r: Result<
        (),
        Error,
    >)
        requires
            old(self).wf(),
        ensures
            final(self).wf(),
            match old(self).spec_select_err(caller@, dragon_id, now) {
                Some(e) => r == Err::<(), Error>(e) && *final(self) == *old(self),
                None => r is Ok && final(self).accounts_map() == old(self).accounts_map().insert(
                    caller@,
                    VAccount::V1(
                        (Account {
                            current_dragon: if dragon_id == u64::MAX {
                                None
                            } else {
                                Some(dragon_id)
                            },
                            dragon_change_timestamp: now,
                            ..old(self).the_account(caller@)
                        }),
                    ),
                ),
            },
            final(self).owner() == old(self).owner(),
            final(self).dragons_seq() == old(self).dragons_seq(),
            final(self).clusters_map() == old(self).clusters_map(),
            final(self).battles_map() == old(self).battles_map(),
    {
        proof {
            lemma_smap_contains(self.accounts@, caller@);
        }
        let i = match sfind(&self.accounts, caller) {
            Some(i) => i,
            None => {
                return Err(Error::NotFound);
            },
        };
        proof {
            lemma_smap_at(self.accounts@, i as int);
        }
        let mut account: Account = match &self.accounts[i].1 {
            VAccount::V1(a) => *a,
        };
        if dragon_id != u64::MAX {
            let n = self.dragons.len();
            if dragon_id >= n as u64 {
                return Err(Error::NotFound);
            }
            let owner_matches = match &self.dragons[dragon_id as usize] {
                VDragon::V1(d) => d.owner_id.eq(caller),
            };
            if !owner_matches {
                return Err(Error::NotOwner);
            }
        }
        match account.set_dragon(dragon_id, now) {
            Ok(()) => {},
            Err(e) => {
                return Err(e);
            },
        }
        let key = self.accounts[i].0.clone();
        self.accounts[i] = (key, VAccount::V1(account));
        proof {
            assert(self.accounts@ =~= old(self).accounts@.update(
                i as int,
                self.accounts@[i as int],
            ));
            lemma_smap_update(old(self).accounts@, i as int, self.accounts@[i as int]);
        }
        Ok(())
    }

    /// Move `caller`'s account to `cluster_id`, unconditionally: no check
    /// that such a cluster exists. Fails `NotFound` (changing nothing)
    /// only without an account.
    pub fn cluster_select(&mut self, caller: &String, cluster_id: u64) -> (r: Result<(), Error>)
        requires
            old(self).wf(),
        ensures
            final(self).wf(),
            r is Ok <==> old(self).has_account(caller@),
            r is Ok ==> final(self).accounts_map() == old(self).accounts_map().insert(
                caller@,
                VAccount::V1((Account { cluster_id, ..old(self).the_account(caller@) })),
            ),
            r is Err ==> r == Err::<(), Error>(Error::NotFound) && *final(self) == *old(self),
            final(self).owner() == old(self).owner(),
            final(self).dragons_seq() == old(self).dragons_seq(),
            final(self).clusters_map() == old(self).clusters_map(),
            final(self).battles_map() == old(self).battles_map(),
    {
        proof {
            lemma_smap_contains(self.accounts@, caller@);
        }
        let i = match sfind(&self.accounts, caller) {
            Some(i) => i,
            None => {
                return Err(Error::NotFound);
            },
        };
        proof {
            lemma_smap_at(self.accounts@, i as int);
        }
        let mut account: Account = match &self.accounts[i].1 {
            VAccount::V1(a) => *a,
        };
        account.cluster_id = cluster_id;
        let key = self.accounts[i].0.clone();
        self.accounts[i] = (key, VAccount::V1(account));
        proof {
            assert(self.accounts@ =~= old(self).accounts@.update(
                i as int,
                self.accounts@[i as int],
            ));
            lemma_smap_update(old(self).accounts@, i as int, self.accounts@[i as int]);
        }
        Ok(())
    }

    /// Mint a creature owned by `account_id`, privileged to the designated
    /// owner identity: the next sequential id, rolled from one entropy
    /// byte per [`Dragon::random`]. Fails `Unauthorized` (changing
    /// nothing) for any other caller.
    pub fn dragon_create(&mut self, caller: &String, account_id: &String, entropy: u8) -> (r:
        Result<u64, Error>)
        requires
            old(self).wf(),
        ensures
            final(self).wf(),
            r is Ok <==> caller@ == old(self).owner(),
            r matches Ok(id) ==> id == old(self).dragons_seq().len()
                && final(self).dragons_seq().len() == old(self).dragons_seq().len() + 1
                && (forall|i: int|
                    0 <= i < old(self).dragons_seq().len() ==> final(self).dragons_seq()[i] == old(
                        self,
                    ).dragons_seq()[i])
                && ({
                    let d = final(self).dragons_seq().last().value();
                    &&& d.owner_id@ == account_id@
                    &&& d.generation == 0
                    &&& d.level == 0
                    &&& d.exp == 0
                    &&& d.element == dragon::Element::Physical
                    &&& d.skills@ == seq![spec_physical_skill()]
                    &&& d.constitution@.max_hp == 10 + entropy as int % 10
                    &&& d.constitution@.attack == seq![1u32, 1u32, 1u32, 1u32, 1u32]
                    &&& d.constitution@.defense == seq![1u32, 1u32, 1u32, 1u32, 1u32]
                }),
            r is Err ==> r == Err::<u64, Error>(Error::Unauthorized) && *final(self) == *old(self),
            final(self).owner() == old(self).owner(),
            final(self).accounts_map() == old(self).accounts_map(),
            final(self).clusters_map() == old(self).clusters_map(),
            final(self).battles_map() == old(self).battles_map(),
    {
        if !caller.eq(&self.owner_id) {
            return Err(Error::Unauthorized);
        }
        let d = Dragon::random(account_id, entropy);
        let id = self.dragons.len() as u64;
        self.dragons.push(VDragon::V1(d));
        Ok(id)
    }

    /// Everything a battle entry point needs about its caller: the
    /// account, the cluster it points at, and the selected creature id.
    /// Fails `NotFound` when any of the three is missing.
    fn internal_get_info(&self, caller: &String) -> (r: Result<(Account, Cluster, u64), Error>)
        requires
            self.wf(),
        ensures
            r is Ok <==> self.has_info(caller@),
            r matches Ok(t) ==> t.0 == self.the_account(caller@) && t.1 == self.the_cluster(
                caller@,
            ) && t.2 == self.sel_dragon(caller@) && (t.2 as int) < self.dragons_seq().len(),
            r is Err ==> r == Err::<(Account, Cluster, u64), Error>(Error::NotFound),
    {
        let account = match self.get_account(caller) {
            Ok(a) => a,
            Err(_) => {
                return Err(Error::NotFound);
            },
        };
        let cluster = match self.get_cluster(account.cluster_id) {
            Ok(c) => c,
            Err(_) => {
                return Err(Error::NotFound);
            },
        };
        let dragon_id = match account.current_dragon {
            Some(id) => id,
            None => {
                return Err(Error::NotFound);
            },
        };
        proof {
            lemma_smap_contains(self.accounts@, caller@);
            let i = choose|i: int|
                0 <= i < self.accounts@.len() && self.accounts@[i].0@ == caller@;
            lemma_smap_at(self.accounts@, i);
            assert(account_ok(self.accounts@[i].1.value(), self.dragons@.len() as int));
        }
        Ok((account, cluster, dragon_id))
    }

    /// The error a matchmaking attempt by `caller` aborts with, if any:
    /// `NotFound` when account, cluster record, or selection is missing,
    /// `Unauthorized` when the selected creature is over the cluster's
    /// level cap.
    pub open spec fn spec_start_err(self, caller: Seq<char>) -> Option<Error> {
        if !self.has_info(caller) {
            Some(Error::NotFound)
        } else if self.dragons_seq()[self.sel_dragon(caller) as int].value().level
            > self.the_cluster(caller).max_lvl {
            Some(Error::Unauthorized)
        } else {
            None
        }
    }

    /// Enter matchmaking with the selected creature: an empty cluster slot
    /// takes the creature and the call reports `false`; an occupied slot is
    /// emptied and a fresh battle against the waiting creature is created
    /// under the key `"<idA>:<idB>"` (overwriting any previous battle of
    /// that pair), reporting `true`.
    pub fn battle_start(&mut self, caller: &String, now: u64) -> (r: Result<bool, Error>)
        requires
            old(self).wf(),
        ensures
            final(self).wf(),
            match old(self).spec_start_err(caller@) {
                Some(e) => r == Err::<bool, Error>(e) && *final(self) == *old(self),
                None => {
                    let cid = old(self).the_account(caller@).cluster_id;
                    let cl = old(self).the_cluster(caller@);
                    let did = old(self).sel_dragon(caller@);
                    match cl.waiting_for_battle {
                        None => r == Ok::<bool, Error>(false) && final(self).clusters_map() == old(
                            self,
                        ).clusters_map().insert(
                            cid,
                            VCluster::V1(
                                (Cluster { waiting_for_battle: Some(did), max_lvl: cl.max_lvl }),
                            ),
                        ) && final(self).battles_map() == old(self).battles_map(),
                        Some(w) => {
                            let key = spec_battle_key(did, w);
                            &&& r == Ok::<bool, Error>(true)
                            &&& final(self).clusters_map() == old(self).clusters_map().insert(
                                cid,
                                VCluster::V1(
                                    (Cluster { waiting_for_battle: None, max_lvl: cl.max_lvl }),
                                ),
                            )
                            &&& final(self).battles_map().contains_key(key)
                            &&& final(self).battles_map()[key].value()@ == (BattleView {
                                start_timestamp: now,
                                dragon_a: did,
                                dragon_b: w,
                                hash_actions_a: None,
                                hash_actions_b: None,
                                actions_a: None,
                                actions_b: None,
                            })
                            &&& final(self).battles_map() == old(self).battles_map().insert(
                                key,
                                final(self).battles_map()[key],
                            )
                        },
                    }
                },
            },
            final(self).owner() == old(self).owner(),
            final(self).accounts_map() == old(self).accounts_map(),
            final(self).dragons_seq() == old(self).dragons_seq(),
    {
        let (account, cluster, dragon_id) = match self.internal_get_info(caller) {
            Ok(t) => t,
            Err(_) => {
                return Err(Error::NotFound);
            },
        };
        let n = self.dragons.len();
        proof {
            assert((dragon_id as int) < (n as int));
        }
        let level = match &self.dragons[dragon_id as usize] {
            VDragon::V1(d) => d.level,
        };
        if level > cluster.max_lvl {
            return Err(Error::Unauthorized);
        }
        proof {
            lemma_umap_contains(self.clusters@, account.cluster_id);
        }
        let cj = match ufind(&self.clusters, account.cluster_id) {
            Some(j) => j,
            None => {
                proof {
                    assert(false);
                }
                return Err(Error::NotFound);
            },
        };
        proof {
            lemma_umap_at(self.clusters@, cj as int);
        }
        match cluster.waiting_for_battle {
            Some(waiting_id) => {
                proof {
                    assert(cluster_ok(self.clusters@[cj as int].1.value(), self.dragons@.len() as int));
                }
                let key = battle_key(dragon_id, waiting_id);
                let b = Battle::new(dragon_id, waiting_id, now);
                proof {
                    lemma_smap_contains(self.battles@, key@);
                }
                match sfind(&self.battles, &key) {
                    Some(bj) => {
                        let k2 = self.battles[bj].0.clone();
                        self.battles[bj] = (k2, VBattle::V1(b));
                        proof {
                            assert(self.battles@ =~= old(self).battles@.update(
                                bj as int,
                                self.battles@[bj as int],
                            ));
                            lemma_smap_update(
                                old(self).battles@,
                                bj as int,
                                self.battles@[bj as int],
                            );
                        }
                    },
                    None => {
                        self.battles.push((key, VBattle::V1(b)));
                        proof {
                            lemma_smap_push(old(self).battles@, self.battles@.last());
                            assert(self.battles@ =~= old(self).battles@.push(
                                self.battles@.last(),
                            ));
                        }
                    },
                }
                let c2 = Cluster { max_lvl: cluster.max_lvl, waiting_for_battle: None };
                self.clusters[cj] = (account.cluster_id, VCluster::V1(c2));
                proof {
                    assert(self.clusters@ =~= old(self).clusters@.update(
                        cj as int,
                        self.clusters@[cj as int],
                    ));
                    lemma_umap_update(old(self).clusters@, cj as int, self.clusters@[cj as int]);
                }
                Ok(true)
            },
            None => {
                let c2 = Cluster { max_lvl: cluster.max_lvl, waiting_for_battle: Some(dragon_id) };
                self.clusters[cj] = (account.cluster_id, VCluster::V1(c2));
                proof {
                    assert(self.clusters@ =~= old(self).clusters@.update(
                        cj as int,
                        self.clusters@[cj as int],
                    ));
                    lemma_umap_update(old(self).clusters@, cj as int, self.clusters@[cj as int]);
                }
                Ok(false)
            },
        }
    }

    /// The error a commit or reveal by `caller` on `battle_id` aborts
    /// with before touching the battle: `NotFound` when caller info or the
    /// battle is missing, `NotParticipant` when the selected creature is
    /// neither side of it.
    pub open spec fn spec_battle_access_err(
        self,
        caller: Seq<char>,
        battle_id: Seq<char>,
    ) -> Option<Error> {
        if !self.has_info(caller) {
            Some(Error::NotFound)
        } else if !self.battles_map().contains_key(battle_id) {
            Some(Error::NotFound)
        } else if !spec_participant(
            self.battles_map()[battle_id].value()@,
            self.sel_dragon(caller),
        ) {
            Some(Error::NotParticipant)
        } else {
            None
        }
    }

    /// Store the caller's commitment hash on its side of the battle,
    /// overwriting any earlier one. Nothing is ever checked against this
    /// hash: the later reveal is accepted regardless.
    pub fn battle_commit_actions(
        &mut self,
        caller: &String,
        battle_id: &String,
        hash_actions: [u8; 32],
    ) -> (r: Result<(), Error>)
        requires
            old(self).wf(),
        ensures
            final(self).wf(),
            match old(self).spec_battle_access_err(caller@, battle_id@) {
                Some(e) => r == Err::<(), Error>(e) && *final(self) == *old(self),
                None => {
                    &&& r is Ok
                    &&& final(self).battles_map().contains_key(battle_id@)
                    &&& final(self).battles_map()[battle_id@].value()@ == spec_set_hash(
                        old(self).battles_map()[battle_id@].value()@,
                        old(self).sel_dragon(caller@),
                        hash_actions@,
                    )
                    &&& final(self).battles_map() == old(self).battles_map().insert(
                        battle_id@,
                        final(self).battles_map()[battle_id@],
                    )
                },
            },
            final(self).owner() == old(self).owner(),
            final(self).accounts_map() == old(self).accounts_map(),
            final(self).dragons_seq() == old(self).dragons_seq(),
            final(self).clusters_map() == old(self).clusters_map(),
    {
        let (_account, _cluster, dragon_id) = match self.internal_get_info(caller) {
            Ok(t) => t,
            Err(_) => {
                return Err(Error::NotFound);
            },
        };
        proof {
            lemma_smap_contains(self.battles@, battle_id@);
        }
        let bj = match sfind(&self.battles, battle_id) {
            Some(j) => j,
            None => {
                return Err(Error::NotFound);
            },
        };
        proof {
            lemma_smap_at(self.battles@, bj as int);
        }
        let (ida, idb) = match &self.battles[bj].1 {
            VBattle::V1(b) => (b.dragon_a, b.dragon_b),
        };
        if !(ida == dragon_id || idb == dragon_id) {
            return Err(Error::NotParticipant);
        }
        let res = match &mut self.battles[bj].1 {
            VBattle::V1(b) => b.set_hash_actions(dragon_id, hash_actions),
        };
        match res {
            Ok(()) => {
                proof {
                    assert(self.battles@ =~= old(self).battles@.update(
                        bj as int,
                        self.battles@[bj as int],
                    ));
                    lemma_smap_update(old(self).battles@, bj as int, self.battles@[bj as int]);
                }
                Ok(())
            },
            Err(_) => {
                proof {
                    assert(false);
                }
                Err(Error::NotParticipant)
            },
        }
    }

    /// Both sides of the battle view `bv` could fight: each side's
    /// effective action sequence indexes only into its creature's skills.
    pub open spec fn spec_battle_actions_valid(self, bv: BattleView) -> bool {
        &&& battle::actions_valid(
            battle::spec_effective(bv.actions_a),
            self.dragons_seq()[bv.dragon_a as int].value().skills@,
        )
        &&& battle::actions_valid(
            battle::spec_effective(bv.actions_b),
            self.dragons_seq()[bv.dragon_b as int].value().skills@,
        )
    }

    /// The error a reveal by `caller` aborts with, if any: the access
    /// errors of [`Contract::spec_battle_access_err`], or `NotFound` when
    /// the reveal would complete the battle but an effective action byte
    /// of either side names no skill.
    pub open spec fn spec_reveal_err(
        self,
        caller: Seq<char>,
        battle_id: Seq<char>,
        actions: Seq<u8>,
        now: u64,
    ) -> Option<Error> {
        match self.spec_battle_access_err(caller, battle_id) {
            Some(e) => Some(e),
            None => {
                let bv = self.battles_map()[battle_id].value()@;
                let bv2 = spec_set_actions(bv, self.sel_dragon(caller), actions);
                if spec_complete(bv2, now) && !self.spec_battle_actions_valid(bv2) {
                    Some(Error::NotFound)
                } else {
                    None
                }
            },
        }
    }

    /// The creature record `d1` is `d0` with its combat stats replaced by
    /// `c` and everything else untouched.
    pub open spec fn dragon_after(d0: Dragon, d1: Dragon, c: dragon::ConsView) -> bool {
        &&& d1.constitution@ == c
        &&& d1.owner_id == d0.owner_id
        &&& d1.generation == d0.generation
        &&& d1.level == d0.level
        &&& d1.exp == d0.exp
        &&& d1.element == d0.element
        &&& d1.skills == d0.skills
    }

    /// Store the caller's revealed raw actions on its side of the battle
    /// (never checked against the committed hash), then check completion:
    /// once both sides hold non-empty reveals, or ten minutes have passed
    /// since creation, the resolver runs on both creatures' stats and
    /// effective action sequences and both resulting stat snapshots are
    /// persisted atomically with the reveal.
    pub fn battle_reveal_actions(
        &mut self,
        caller: &String,
        battle_id: &String,
        actions: Vec<u8>,
        now: u64,
    ) -> (r: Result<(), Error>)
        requires
            old(self).wf(),
        ensures
            final(self).wf(),
            match old(self).spec_reveal_err(caller@, battle_id@, actions@, now) {
                Some(e) => r == Err::<(), Error>(e) && *final(self) == *old(self),
                None => ({
                    let did = old(self).sel_dragon(caller@);
                    let bv = old(self).battles_map()[battle_id@].value()@;
                    let bv2 = spec_set_actions(bv, did, actions@);
                    &&& r is Ok
                    &&& final(self).battles_map().contains_key(battle_id@)
                    &&& final(self).battles_map()[battle_id@].value()@ == bv2
                    &&& final(self).battles_map() == old(self).battles_map().insert(
                        battle_id@,
                        final(self).battles_map()[battle_id@],
                    )
                    &&& if spec_complete(bv2, now) {
                        let da = old(self).dragons_seq()[bv.dragon_a as int].value();
                        let db = old(self).dragons_seq()[bv.dragon_b as int].value();
                        let rr = spec_run(
                            da.skills@,
                            db.skills@,
                            bv2.actions_a,
                            bv2.actions_b,
                            da.constitution@,
                            db.constitution@,
                        );
                        &&& final(self).dragons_seq().len() == old(self).dragons_seq().len()
                        &&& (forall|i: int|
                            0 <= i < old(self).dragons_seq().len() && i != bv.dragon_a as int && i
                                != bv.dragon_b as int ==> final(self).dragons_seq()[i] == old(
                                self,
                            ).dragons_seq()[i])
                        &&& (bv.dragon_a != bv.dragon_b ==> Self::dragon_after(
                            da,
                            final(self).dragons_seq()[bv.dragon_a as int].value(),
                            rr.0,
                        ))
                        &&& Self::dragon_after(
                            db,
                            final(self).dragons_seq()[bv.dragon_b as int].value(),
                            rr.1,
                        )
                    } else {
                        final(self).dragons_seq() == old(self).dragons_seq()
                    }
                }),
            },
            final(self).owner() == old(self).owner(),
            final(self).accounts_map() == old(self).accounts_map(),
            final(self).clusters_map() == old(self).clusters_map(),
    {
        let (_account, _cluster, dragon_id) = match self.internal_get_info(caller) {
            Ok(t) => t,
            Err(_) => {
                return Err(Error::NotFound);
            },
        };
        proof {
            lemma_smap_contains(self.battles@, battle_id@);
        }
        let bj = match sfind(&self.battles, battle_id) {
            Some(j) => j,
            None => {
                return Err(Error::NotFound);
            },
        };
        proof {
            lemma_smap_at(self.battles@, bj as int);
        }
        let (ida, idb) = match &self.battles[bj].1 {
            VBattle::V1(b) => (b.dragon_a, b.dragon_b),
        };
        if !(ida == dragon_id || idb == dragon_id) {
            return Err(Error::NotParticipant);
        }
        let nd = self.dragons.len();
        proof {
            assert(battle_ok(self.battles@[bj as int].1.value()@, self.dragons@.len() as int));
            assert((ida as int) < (nd as int) && (idb as int) < (nd as int));
        }
        let complete = match &self.battles[bj].1 {
            VBattle::V1(b) => {
                let my_nonempty = actions.len() > 0;
                let other_nonempty = if dragon_id == b.dragon_a {
                    match &b.actions_b {
                        Some(v) => v.len() > 0,
                        None => false,
                    }
                } else {
                    match &b.actions_a {
                        Some(v) => v.len() > 0,
                        None => false,
                    }
                };
                (my_nonempty && other_nonempty) || (b.start_timestamp <= u64::MAX
                    - battle::BATTLE_MAX_DURATION && now >= b.start_timestamp
                    + battle::BATTLE_MAX_DURATION)
            },
        };
        if complete {
            let valid = match &self.battles[bj].1 {
                VBattle::V1(b) => {
                    let da_skills = match &self.dragons[ida as usize] {
                        VDragon::V1(d) => &d.skills,
                    };
                    let db_skills = match &self.dragons[idb as usize] {
                        VDragon::V1(d) => &d.skills,
                    };
                    let va = if dragon_id == b.dragon_a {
                        battle::effective_in_range(Some(&actions), da_skills)
                    } else {
                        match &b.actions_a {
                            Some(v) => battle::effective_in_range(Some(v), da_skills),
                            None => battle::effective_in_range(None, da_skills),
                        }
                    };
                    let vb = if dragon_id == b.dragon_a {
                        match &b.actions_b {
                            Some(v) => battle::effective_in_range(Some(v), db_skills),
                            None => battle::effective_in_range(None, db_skills),
                        }
                    } else {
                        battle::effective_in_range(Some(&actions), db_skills)
                    };
                    va && vb
                },
            };
            if !valid {
                return Err(Error::NotFound);
            }
        }
        let res = match &mut self.battles[bj].1 {
            VBattle::V1(b) => b.set_actions(dragon_id, actions),
        };
        match res {
            Ok(()) => {},
            Err(_) => {
                proof {
                    assert(false);
                }
                return Err(Error::NotParticipant);
            },
        }
        proof {
            assert(self.battles@ =~= old(self).battles@.update(
                bj as int,
                self.battles@[bj as int],
            ));
            lemma_smap_update(old(self).battles@, bj as int, self.battles@[bj as int]);
        }
        if complete {
            let result = {
                let b = match &self.battles[bj].1 {
                    VBattle::V1(b) => b,
                };
                let da = match &self.dragons[ida as usize] {
                    VDragon::V1(d) => d,
                };
                let db = match &self.dragons[idb as usize] {
                    VDragon::V1(d) => d,
                };
                b.run(da, db)
            };
            let (ca, cb) = match result {
                Ok(p) => p,
                Err(_) => {
                    proof {
                        assert(false);
                    }
                    return Err(Error::NotFound);
                },
            };
            let ghost mid_dragons = self.dragons@;
            match &mut self.dragons[ida as usize] {
                VDragon::V1(d) => {
                    d.constitution = ca;
                },
            }
            match &mut self.dragons[idb as usize] {
                VDragon::V1(d) => {
                    d.constitution = cb;
                },
            }
            proof {
                assert(self.dragons@ =~= mid_dragons.update(
                    ida as int,
                    self.dragons@[ida as int],
                ).update(idb as int, self.dragons@[idb as int]));
            }
        }
        Ok(())
    }

    /// Read a battle record by its literal `"<idA>:<idB>"` key; fails
    /// `NotFound` for an unknown key.
    pub fn get_battle(&self, battle_id: &String) -> (r: Result<&Battle, Error>)
        requires
            self.wf(),
        ensures
            r is Ok <==> self.battles_map().contains_key(battle_id@),
            r matches Ok(b) ==> *b == self.battles_map()[battle_id@].value(),
            r is Err ==> r == Err::<&Battle, Error>(Error::NotFound),
    {
        proof {
            lemma_smap_contains(self.battles@, battle_id@);
        }
        match sfind(&self.battles, battle_id) {
            Some(i) => {
                proof {
                    lemma_smap_at(self.battles@, i as int);
                }
                match &self.battles[i].1 {
                    VBattle::V1(b) => Ok(b),
                }
            },
            None => Err(Error::NotFound),
        }
    }
}

} // verus!
