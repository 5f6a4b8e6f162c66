//! The shared singleton store: a mapping from a key that stands for a value
//! kind to at most one value of that kind. A later insert for the same key
//! replaces the earlier value. The `expect` variants fail with a
//! distinguishable missing-dependency error instead of an absent marker.

use vstd::prelude::*;

verus! {

/// The error of the `expect` accessors: the wanted singleton is missing.
/// Carries the key that was asked for.
#[derive(Clone, Copy, Debug, PartialEq, Eq, Structural)]
pub struct MissingDependency {
    pub key: u64,
}

/// The singleton store. Each key holds at most one value.
pub struct State<V> {
    entries: Vec<(u64, V)>,
}

/// An entry list read as a map; of entries that share a key, the earliest
/// one counts.
pub open spec fn entries_map<V>(es: Seq<(u64, V)>) -> Map<u64, V>
    decreases es.len(),
{
    if es.len() == 0 {
        Map::empty()
    } else {
        entries_map(es.drop_first()).insert(es[0].0, es[0].1)
    }
}

proof fn lemma_map_contains<V>(es: Seq<(u64, V)>, key: u64)
    ensures
        entries_map(es).contains_key(key) <==> exists|i: int| 0 <= i < es.len() && es[i].0 == key,
    decreases es.len(),
{
    if es.len() > 0 {
        lemma_map_contains(es.drop_first(), key);
        if entries_map(es).contains_key(key) && es[0].0 != key {
            let i = choose|i: int|
                0 <= i < es.drop_first().len() && es.drop_first()[i].0 == key;
            assert(es[i + 1].0 == key);
        }
        if exists|i: int| 0 <= i < es.len() && es[i].0 == key {
            let i = choose|i: int| 0 <= i < es.len() && es[i].0 == key;
            if i > 0 {
                assert(es.drop_first()[i - 1].0 == key);
            }
        }
    }
}

proof fn lemma_map_first<V>(es: Seq<(u64, V)>, i: int)
    requires
        0 <= i < es.len(),
        forall|j: int| 0 <= j < i ==> es[j].0 != es[i].0,
    ensures
        entries_map(es).contains_key(es[i].0),
        entries_map(es)[es[i].0] == es[i].1,
    decreases es.len(),
{
    if i > 0 {
        assert(es.drop_first()[i - 1] == es[i]);
        assert(forall|j: int|
            0 <= j < i - 1 ==> #[trigger] es.drop_first()[j].0 != es.drop_first()[i - 1].0) by {
            assert(forall|j: int|
                0 <= j < i - 1 ==> #[trigger] es.drop_first()[j] == es[j + 1]);
        }
        lemma_map_first(es.drop_first(), i - 1);
    }
}

proof fn lemma_map_update_first<V>(es: Seq<(u64, V)>, i: int, value: V)
    requires
        0 <= i < es.len(),
        forall|j: int| 0 <= j < i ==> es[j].0 != es[i].0,
    ensures
        entries_map(es.update(i, (es[i].0, value))) == entries_map(es).insert(es[i].0, value),
    decreases es.len(),
{
    let key = es[i].0;
    let es2 = es.update(i, (key, value));
    if i == 0 {
        assert(es2.drop_first() =~= es.drop_first());
        assert(entries_map(es2) =~= entries_map(es).insert(key, value));
    } else {
        assert(es.drop_first()[i - 1] == es[i]);
        lemma_map_update_first(es.drop_first(), i - 1, value);
        assert(es2.drop_first() =~= es.drop_first().update(i - 1, (key, value)));
        assert(es2[0] == es[0]);
        assert(entries_map(es2) =~= entries_map(es).insert(key, value));
    }
}

proof fn lemma_map_push<V>(es: Seq<(u64, V)>, key: u64, value: V)
    requires
        forall|j: int| 0 <= j < es.len() ==> es[j].0 != key,
    ensures
        entries_map(es.push((key, value))) == entries_map(es).insert(key, value),
    decreases es.len(),
{
    if es.len() == 0 {
        let s1 = es.push((key, value));
        assert(s1[0] == (key, value));
        assert(s1.drop_first().len() == 0);
        assert(entries_map(s1.drop_first()) =~= Map::<u64, V>::empty());
        assert(entries_map(s1) =~= Map::<u64, V>::empty().insert(key, value));
        assert(entries_map(es) =~= Map::<u64, V>::empty());
    } else {
        lemma_map_push(es.drop_first(), key, value);
        assert(es.push((key, value))[0] == es[0]);
        assert(es.push((key, value)).drop_first() =~= es.drop_first().push((key, value)));
        assert(es[0].0 != key);
        assert(entries_map(es.push((key, value))) == entries_map(
            es.drop_first().push((key, value)),
        ).insert(es[0].0, es[0].1));
        assert(entries_map(es.push((key, value))) =~= entries_map(es).insert(key, value));
    }
}

impl<V> State<V> {
    /// The store read as a map from key to held value.
    pub closed spec fn view(&self) -> Map<u64, V> {
        entries_map(self.entries@)
    }

    /// An empty store.
    pub fn new() -> (r: Self)
        ensures
            r@ == Map::<u64, V>::empty(),
    {
        State { entries: Vec::new() }
    }

    /// The position of the first entry that holds `key`, if any.
    fn position(&self, key: u64) -> (r: Option<usize>)
        ensures
            match r {
                Some(i) => {
                    &&& i < self.entries@.len()
                    &&& self.entries@[i as int].0 == key
                    &&& forall|j: int| 0 <= j < i ==> self.entries@[j].0 != key
                },
                None => forall|i: int| 0 <= i < self.entries@.len() ==> self.entries@[i].0 != key,
            },
    {
        let mut i: usize = 0;
        while i < self.entries.len()
            invariant
                i <= self.entries@.len(),
                forall|j: int| 0 <= j < i ==> self.entries@[j].0 != key,
            decreases self.entries@.len() - i,
        {
            if self.entries[i].0 == key {
                return Some(i);
            }
            i = i + 1;
        }
        None
    }

    /// Read the singleton stored under `key`.
    pub fn get(&self, key: u64) -> (r: Option<&V>)
        ensures
            match r {
                Some(v) => self@.contains_key(key) && *v == self@[key],
                None => !self@.contains_key(key),
            },
    {
        proof {
            lemma_map_contains(self.entries@, key);
        }
        match self.position(key) {
            Some(i) => {
                proof {
                    lemma_map_first(self.entries@, i as int);
                }
                Some(&self.entries[i].1)
            },
            None => None,
        }
    }

    /// Read the singleton stored under `key`, failing with a
    /// missing-dependency error when it was never inserted.
    pub fn expect_get(&self, key: u64) -> (r: Result<&V, MissingDependency>)
        ensures
            match r {
                Ok(v) => self@.contains_key(key) && *v == self@[key],
                Err(e) => !self@.contains_key(key) && e.key == key,
            },
    {
        match self.get(key) {
            Some(v) => Ok(v),
            None => Err(MissingDependency { key }),
        }
    }

    /// Borrow the singleton stored under `key` for writing.
    pub fn get_mut(&mut self, key: u64) -> (r: Option<&mut V>)
        ensures
            match r {
                Some(v) => {
                    &&& old(self)@.contains_key(key)
                    &&& *v == old(self)@[key]
                    &&& final(self)@ == old(self)@.insert(key, *final(v))
                },
                None => !old(self)@.contains_key(key) && final(self)@ == old(self)@,
            },
    {
        proof {
            lemma_map_contains(self.entries@, key);
        }
        match self.position(key) {
            Some(i) => {
                proof {
                    lemma_map_first(self.entries@, i as int);
                }
                let e = &mut self.entries[i];
                proof {
                    lemma_map_update_first(old(self).entries@, i as int, final(e).1);
                }
                Some(&mut e.1)
            },
            None => None,
        }
    }

    /// Borrow the singleton stored under `key` for writing, failing with a
    /// missing-dependency error when it was never inserted.
    pub fn expect_get_mut(&mut self, key: u64) -> (r: Result<&mut V, MissingDependency>)
        ensures
            match r {
                Ok(v) => {
                    &&& old(self)@.contains_key(key)
                    &&& *v == old(self)@[key]
                    &&& final(self)@ == old(self)@.insert(key, *final(v))
                },
                Err(e) => {
                    &&& !old(self)@.contains_key(key)
                    &&& final(self)@ == old(self)@
                    &&& e.key == key
                },
            },
    {
        match self.get_mut(key) {
            Some(v) => Ok(v),
            None => Err(MissingDependency { key }),
        }
    }

    /// Store `value` under `key`, replacing what was there. True exactly
    /// when the key was fresh.
    pub fn insert(&mut self, key: u64, value: V) -> (fresh: bool)
        ensures
            final(self)@ == old(self)@.insert(key, value),
            fresh == !old(self)@.contains_key(key),
    {
        proof {
            lemma_map_contains(self.entries@, key);
        }
        match self.position(key) {
            Some(i) => {
                proof {
                    lemma_map_update_first(self.entries@, i as int, value);
                }
                self.entries[i] = (key, value);
                false
            },
            None => {
                proof {
                    lemma_map_push(self.entries@, key, value);
                }
                self.entries.push((key, value));
                true
            },
        }
    }
}

/// Law: a second insert for the same key replaces the first, so exactly one
/// value is afterwards retrievable under that key, namely the second; a key
/// never inserted reads as absent.
pub proof fn lemma_singleton_per_key<V>(m: Map<u64, V>, key: u64, first: V, second: V, other: u64)
    requires
        !m.contains_key(other),
        other != key,
    ensures
        m.insert(key, first).insert(key, second) == m.insert(key, second),
        m.insert(key, first).insert(key, second)[key] == second,
        !m.insert(key, first).insert(key, second).contains_key(other),
{
    assert(m.insert(key, first).insert(key, second) =~= m.insert(key, second));
}

} // verus!
