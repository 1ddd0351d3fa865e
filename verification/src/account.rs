//! Per-identity account records: current cluster, selected creature, and the
//! reselection cooldown.

use vstd::prelude::*;

use crate::Error;

verus! {

/// One day in microseconds: the creature reselection cooldown window.
pub const DAY_DURATION: u64 = 24 * 60 * 60 * 1_000_000;

/// One record per caller identity; created once, never deleted.
#[derive(Clone, Copy, PartialEq, Eq, Debug)]
pub struct Account {
    pub cluster_id: u64,
    pub current_dragon: Option<u64>,
    pub dragon_change_timestamp: u64,
}

/// The versioned on-store shape of an account record.
#[derive(Clone, Copy, Debug)]
pub enum VAccount {
    V1(Account),
}

impl VAccount {
    pub open spec fn value(self) -> Account {
        match self {
            VAccount::V1(a) => a,
        }
    }
}

impl From<VAccount> for Account {
    fn from(c: VAccount) -> (r: Account)
        ensures
            r == c.value(),
    {
        match c {
            VAccount::V1(c) => c,
        }
    }
}

impl vstd::std_specs::convert::FromSpecImpl<VAccount> for Account {
    open spec fn obeys_from_spec() -> bool {
        true
    }

    open spec fn from_spec(c: VAccount) -> Account {
        c.value()
    }
}

/// A fresh account: cluster 0, nothing selected, timestamp at the epoch.
pub open spec fn spec_new_account() -> Account {
    Account { cluster_id: 0, current_dragon: None, dragon_change_timestamp: 0 }
}

/// The cooldown gate: a selection change is admitted only when strictly
/// more than one day has elapsed since the stored selection timestamp.
pub open spec fn spec_cooldown_ok(ts: u64, now: u64) -> bool {
    now > ts + DAY_DURATION
}

impl Account {
    pub fn new() -> (a: Account)
        ensures
            a == spec_new_account(),
    {
        Account { cluster_id: 0, current_dragon: None, dragon_change_timestamp: 0 }
    }

    /// Select creature `dragon_id` (or clear the selection when `u64::MAX`
    /// is passed), refreshing the selection timestamp to `now`; fails
    /// `RateLimited` (changing nothing) while the cooldown has not elapsed.
    pub fn set_dragon(&mut self, dragon_id: u64, now: u64) -> (r: Result<(), Error>)
        ensures
            r is Ok <==> spec_cooldown_ok(old(self).dragon_change_timestamp, now),
            r is Ok ==> *final(self) == (Account {
                current_dragon: if dragon_id == u64::MAX {
                    None
                } else {
                    Some(dragon_id)
                },
                dragon_change_timestamp: now,
                ..*old(self)
            }),
            r is Err ==> r == Err::<(), Error>(Error::RateLimited) && *final(self) == *old(self),
    {
        let ts = self.dragon_change_timestamp;
        if !(ts <= u64::MAX - DAY_DURATION && now > ts + DAY_DURATION) {
            return Err(Error::RateLimited);
        }
        if dragon_id == u64::MAX {
            self.current_dragon = None;
        } else {
            self.current_dragon = Some(dragon_id);
        }
        self.dragon_change_timestamp = now;
        Ok(())
    }
}

} // verus!
