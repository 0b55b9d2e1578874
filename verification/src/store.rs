//! The store: the single source of truth mapping a user id to the
//! reason text on record for it. One record per id; a write replaces
//! the prior record whole; no record exists until first written.

use std::collections::HashMap;

use vstd::prelude::*;

verus! {

broadcast use vstd::std_specs::hash::group_hash_axioms;

/// Why a store operation failed: the backing storage refused a read or
/// write. Fatal to the one request, never to the process. The in-memory
/// backing below never fails, and its contracts say so; the variant is
/// the taxonomy every caller is written against.
#[derive(Clone, Copy, Debug, PartialEq, Eq, Structural)]
pub enum StoreError {
    IoFailure,
}

/// The store, keyed by user id. Its view is the map from user id to the
/// reason text on record.
pub struct Store {
    map: HashMap<u64, String>,
}

impl View for Store {
    type V = Map<u64, Seq<char>>;

    closed spec fn view(&self) -> Map<u64, Seq<char>> {
        Map::new(|u: u64| self.map@.contains_key(u), |u: u64| self.map@[u]@)
    }
}

impl Store {
    /// An empty store: no user id has a record yet.
    pub fn new() -> (s: Store)
        ensures
            s@ == Map::<u64, Seq<char>>::empty(),
    {
        let s = Store { map: HashMap::new() };
        proof {
            assert(s@ =~= Map::<u64, Seq<char>>::empty());
        }
        s
    }

    /// Writes `reason` as the record for `user_id`, replacing any prior
    /// record whole. Never fails: success is owed on every input.
    pub fn put(&mut self, user_id: u64, reason: &str) -> (r: Result<(), StoreError>)
        ensures
            r == Ok::<(), StoreError>(()),
            final(self)@ == old(self)@.insert(user_id, reason@),
    {
        let owned: String = reason.to_owned();
        self.map.insert(user_id, owned);
        proof {
            assert(self@ =~= old(self)@.insert(user_id, reason@));
        }
        Ok(())
    }

    /// Reads the record for `user_id`: exactly the reason last written
    /// for it, or `None` when none was ever written. Absence is not an
    /// error, and this backing never fails a read.
    pub fn get(&self, user_id: u64) -> (r: Result<Option<String>, StoreError>)
        ensures
            match r {
                Ok(Some(v)) => self@.contains_key(user_id) && v@ == self@[user_id],
                Ok(None) => !self@.contains_key(user_id),
                Err(_) => false,
            },
    {
        match self.map.get(&user_id) {
            Some(v) => Ok(Some(v.clone())),
            None => Ok(None),
        }
    }
}

} // verus!
