//! The key/value store: opaque byte keys and byte values, one value per
//! key, a later `set` replacing the earlier one. Encoding typed keys and
//! values to bytes is the caller's concern; the relational engine this
//! interface fronts is a collaborator, and the table lives in memory
//! here.

use vstd::prelude::*;

verus! {

/// The storage failure of the store interface. The in-memory table never
/// produces one.
#[derive(Clone, Copy, Debug)]
pub struct StoreError {}

/// The views of the entries.
pub open spec fn kv_views(es: Seq<(Vec<u8>, Vec<u8>)>) -> Seq<(Seq<u8>, Seq<u8>)> {
    es.map_values(|p: (Vec<u8>, Vec<u8>)| (p.0@, p.1@))
}

/// The value of the first entry under `key`, if any.
pub open spec fn kv_lookup(es: Seq<(Seq<u8>, Seq<u8>)>, key: Seq<u8>) -> Option<Seq<u8>>
    decreases es.len(),
{
    if es.len() == 0 {
        None
    } else if es[0].0 == key {
        Some(es[0].1)
    } else {
        kv_lookup(es.drop_first(), key)
    }
}

/// Whether two byte strings are equal.
fn bytes_eq(a: &Vec<u8>, b: &Vec<u8>) -> (r: bool)
    ensures
        r == (a@ == b@),
{
    if a.len() != b.len() {
        proof {
            assert(a@ != b@);
        }
        return false;
    }
    let mut i: usize = 0;
    while i < a.len()
        invariant
            i <= a@.len(),
            a@.len() == b@.len(),
            forall|j: int| 0 <= j < i ==> a@[j] == b@[j],
        decreases a@.len() - i,
    {
        if a[i] != b[i] {
            return false;
        }
        i = i + 1;
    }
    proof {
        assert(a@ =~= b@);
    }
    true
}

/// The named key/value table.
pub struct KeyValueStore {
    pub table: String,
    pub entries: Vec<(Vec<u8>, Vec<u8>)>,
}

impl KeyValueStore {
    /// Open the named table. In memory that is a fresh, empty table.
    pub fn fetch(table: &str) -> (r: Result<KeyValueStore, StoreError>)
        ensures
            r matches Ok(s) && s.table@ == table@ && s.entries@ == Seq::<(Vec<u8>, Vec<u8>)>::empty(),
    {
        Ok(KeyValueStore { table: table.to_owned(), entries: Vec::new() })
    }

    /// Open a fresh in-memory table.
    pub fn in_memory(table: &str) -> (r: Result<KeyValueStore, StoreError>)
        ensures
            r matches Ok(s) && s.table@ == table@ && s.entries@ == Seq::<(Vec<u8>, Vec<u8>)>::empty(),
    {
        Self::fetch(table)
    }

    fn position(&self, key: &Vec<u8>) -> (r: Option<usize>)
        ensures
            match r {
                Some(i) => {
                    &&& i < self.entries@.len()
                    &&& self.entries@[i as int].0@ == key@
                    &&& forall|j: int| 0 <= j < i ==> self.entries@[j].0@ != key@
                    &&& kv_lookup(kv_views(self.entries@), key@) == Some(
                        self.entries@[i as int].1@,
                    )
                },
                None => {
                    &&& kv_lookup(kv_views(self.entries@), key@) is None
                    &&& forall|j: int|
                        0 <= j < self.entries@.len() ==> self.entries@[j].0@ != key@
                },
            },
    {
        let ghost es = kv_views(self.entries@);
        let mut i: usize = 0;
        proof {
            assert(es.skip(0) =~= es);
        }
        while i < self.entries.len()
            invariant
                i <= self.entries@.len(),
                es == kv_views(self.entries@),
                forall|j: int| 0 <= j < i ==> self.entries@[j].0@ != key@,
                kv_lookup(es, key@) == kv_lookup(es.skip(i as int), key@),
            decreases self.entries@.len() - i,
        {
            proof {
                assert(es.skip(i as int)[0] == es[i as int]);
                assert(es.skip(i as int).drop_first() =~= es.skip(i + 1));
            }
            if bytes_eq(&self.entries[i].0, key) {
                return Some(i);
            }
            i = i + 1;
        }
        proof {
            assert(es.skip(es.len() as int) =~= Seq::<(Seq<u8>, Seq<u8>)>::empty());
        }
        None
    }

    /// The value stored under `key`, if any.
    pub fn get(&self, key: &Vec<u8>) -> (r: Option<Vec<u8>>)
        ensures
            match r {
                Some(v) => kv_lookup(kv_views(self.entries@), key@) == Some(v@),
                None => kv_lookup(kv_views(self.entries@), key@) is None,
            },
    {
        match self.position(key) {
            Some(i) => {
                let mut v: Vec<u8> = Vec::new();
                let stored = &self.entries[i].1;
                let mut j: usize = 0;
                while j < stored.len()
                    invariant
                        j <= stored@.len(),
                        v@ == stored@.take(j as int),
                    decreases stored@.len() - j,
                {
                    proof {
                        assert(stored@.take(j + 1) =~= stored@.take(j as int).push(
                            stored@[j as int],
                        ));
                    }
                    v.push(stored[j]);
                    j = j + 1;
                }
                proof {
                    assert(stored@.take(stored@.len() as int) =~= stored@);
                }
                Some(v)
            },
            None => None,
        }
    }

    /// Store `val` under `key`, replacing what was there.
    pub fn set(&mut self, key: &Vec<u8>, val: &Vec<u8>) -> (r: Result<(), StoreError>)
        ensures
            r is Ok,
            final(self).table == old(self).table,
            kv_lookup(kv_views(final(self).entries@), key@) == Some(val@),
            final(self).entries@.len() == (if kv_lookup(
                kv_views(old(self).entries@),
                key@,
            ) is Some {
                old(self).entries@.len() as int
            } else {
                old(self).entries@.len() + 1int
            }),
            forall|i: int|
                0 <= i < old(self).entries@.len() && old(self).entries@[i].0@ != key@
                    ==> #[trigger] final(self).entries@[i] == old(self).entries@[i],
    {
        let new_key = copy_bytes(key);
        let new_val = copy_bytes(val);
        match self.position(key) {
            Some(i) => {
                self.entries[i] = (new_key, new_val);
                proof {
                    lemma_kv_lookup_at(kv_views(self.entries@), i as int, key@);
                }
                Ok(())
            },
            None => {
                self.entries.push((new_key, new_val));
                proof {
                    assert(forall|j: int|
                        0 <= j < old(self).entries@.len() ==> #[trigger] self.entries@[j] == old(
                            self,
                        ).entries@[j]);
                    let es = kv_views(self.entries@);
                    assert(forall|j: int|
                        0 <= j < es.len() - 1 ==> #[trigger] es[j].0 == old(
                            self,
                        ).entries@[j].0@);
                    lemma_kv_lookup_at(es, self.entries@.len() - 1, key@);
                }
                Ok(())
            },
        }
    }

    /// Drop the value stored under `key`; false when none was there.
    pub fn remove(&mut self, key: &Vec<u8>) -> (r: bool)
        ensures
            final(self).table == old(self).table,
            r <==> kv_lookup(kv_views(old(self).entries@), key@) is Some,
            !r ==> final(self).entries@ == old(self).entries@,
            r ==> exists|i: int|
                {
                    &&& 0 <= i < old(self).entries@.len()
                    &&& old(self).entries@[i].0@ == key@
                    &&& final(self).entries@ == old(self).entries@.remove(i)
                },
    {
        match self.position(key) {
            Some(i) => {
                self.entries.remove(i);
                true
            },
            None => false,
        }
    }
}

/// A copy of the byte string.
fn copy_bytes(b: &Vec<u8>) -> (r: Vec<u8>)
    ensures
        r@ == b@,
{
    let mut r: Vec<u8> = Vec::new();
    let mut i: usize = 0;
    while i < b.len()
        invariant
            i <= b@.len(),
            r@ == b@.take(i as int),
        decreases b@.len() - i,
    {
        proof {
            assert(b@.take(i + 1) =~= b@.take(i as int).push(b@[i as int]));
        }
        r.push(b[i]);
        i = i + 1;
    }
    proof {
        assert(b@.take(b@.len() as int) =~= b@);
    }
    r
}

proof fn lemma_kv_lookup_at(es: Seq<(Seq<u8>, Seq<u8>)>, i: int, key: Seq<u8>)
    requires
        0 <= i < es.len(),
        es[i].0 == key,
        forall|j: int| 0 <= j < i ==> es[j].0 != key,
    ensures
        kv_lookup(es, key) == Some(es[i].1),
    decreases es.len(),
{
    if i > 0 {
        assert(es.drop_first()[i - 1] == es[i]);
        assert(forall|j: int| 0 <= j < i - 1 ==> es.drop_first()[j] == es[j + 1]);
        lemma_kv_lookup_at(es.drop_first(), i - 1, key);
    }
}

} // verus!
