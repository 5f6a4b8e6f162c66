//! The id trackers: mappings from a numeric user or room id to its last
//! known display name, one per kind. Persisting them is a collaborator
//! concern; the mappings live in memory here.

use vstd::prelude::*;

use crate::state::State;

verus! {

/// One id-to-name mapping, carrying the name of the table it stands for.
pub struct IdMap {
    pub table: String,
    pub map: State<String>,
}

impl IdMap {
    /// An empty mapping for the named table.
    pub fn new(table: &str) -> (r: Self)
        ensures
            r.table@ == table@,
            r.map@ == Map::<u64, String>::empty(),
    {
        IdMap { table: table.to_owned(), map: State::new() }
    }

    /// The name last stored for `key`, if any.
    pub fn get(&self, key: u64) -> (r: Option<String>)
        ensures
            match r {
                Some(v) => self.map@.contains_key(key) && v == self.map@[key],
                None => !self.map@.contains_key(key),
            },
    {
        match self.map.get(key) {
            Some(v) => Some(v.clone()),
            None => None,
        }
    }

    /// Store a name for `key`, replacing what was there; no other key
    /// changes.
    pub fn set(&mut self, key: u64, val: &str)
        ensures
            final(self).table == old(self).table,
            final(self).map@.contains_key(key),
            final(self).map@[key]@ == val@,
            final(self).map@.remove(key) == old(self).map@.remove(key),
    {
        let v = val.to_owned();
        self.map.insert(key, v);
        proof {
            assert(final(self).map@.remove(key) =~= old(self).map@.remove(key));
        }
    }

    /// Store every pair, in order.
    pub fn extend(&mut self, pairs: &Vec<(u64, String)>)
        ensures
            final(self).table == old(self).table,
            final(self).map@ == pairs@.fold_left(
                old(self).map@,
                |m: Map<u64, String>, p: (u64, String)| m.insert(p.0, p.1),
            ),
    {
        let mut k: usize = 0;
        while k < pairs.len()
            invariant
                k <= pairs@.len(),
                self.table == old(self).table,
                self.map@ == pairs@.take(k as int).fold_left(
                    old(self).map@,
                    |m: Map<u64, String>, p: (u64, String)| m.insert(p.0, p.1),
                ),
            decreases pairs@.len() - k,
        {
            proof {
                assert(pairs@.take(k + 1).drop_last() =~= pairs@.take(k as int));
                assert(pairs@.take(k + 1).last() == pairs@[k as int]);
            }
            let p = &pairs[k];
            self.map.insert(p.0, p.1.clone());
            k = k + 1;
        }
        proof {
            assert(pairs@.take(pairs@.len() as int) =~= pairs@);
        }
    }
}

/// The pair of trackers the responder and the handlers share.
pub struct Tracker {
    pub users: IdMap,
    pub rooms: IdMap,
}

impl Tracker {
    /// Fresh trackers over the two id tables.
    pub fn new() -> (r: Self)
        ensures
            r.users.map@ == Map::<u64, String>::empty(),
            r.rooms.map@ == Map::<u64, String>::empty(),
            r.users.table@ == "user_id_mappings"@,
            r.rooms.table@ == "room_id_mappings"@,
    {
        Tracker { users: IdMap::new("user_id_mappings"), rooms: IdMap::new("room_id_mappings") }
    }
}

} // verus!
