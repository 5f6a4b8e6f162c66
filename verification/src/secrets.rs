//! The secret store: named credentials handed in at startup (the
//! environment read happens at the transport edge). `get` reads one,
//! `take` hands one out and forgets it.

use vstd::prelude::*;

use crate::text::str_eq;

verus! {

/// Asking for a secret that is not in the store.
#[derive(Clone, Debug)]
pub struct SecretMissing {
    pub name: String,
}

/// The value of the first entry named `name`, if any.
pub open spec fn secret_lookup(es: Seq<(Seq<char>, Seq<char>)>, name: Seq<char>) -> Option<
    Seq<char>,
>
    decreases es.len(),
{
    if es.len() == 0 {
        None
    } else if es[0].0 == name {
        Some(es[0].1)
    } else {
        secret_lookup(es.drop_first(), name)
    }
}

/// The views of the entries.
pub open spec fn secret_views(es: Seq<(String, String)>) -> Seq<(Seq<char>, Seq<char>)> {
    es.map_values(|p: (String, String)| (p.0@, p.1@))
}

/// The secret store: a mapping, so no name occurs twice.
pub struct Secrets {
    pub entries: Vec<(String, String)>,
}

impl Secrets {
    /// No two entries share a name.
    pub open spec fn wf(&self) -> bool {
        forall|i: int, j: int|
            0 <= i < j < self.entries@.len() ==> self.entries@[i].0@ != self.entries@[j].0@
    }

    /// A store over the pairs the startup code gathered, one per name.
    pub fn from_pairs(entries: Vec<(String, String)>) -> (r: Self)
        requires
            forall|i: int, j: int| 0 <= i < j < entries@.len() ==> entries@[i].0@ != entries@[j].0@,
        ensures
            r.entries == entries,
            r.wf(),
    {
        Secrets { entries }
    }

    /// An empty store.
    pub fn new() -> (r: Self)
        ensures
            r.entries@ == Seq::<(String, String)>::empty(),
            r.wf(),
    {
        Secrets { entries: Vec::new() }
    }

    fn position(&self, secret: &str) -> (r: Option<usize>)
        ensures
            match r {
                Some(i) => {
                    &&& i < self.entries@.len()
                    &&& self.entries@[i as int].0@ == secret@
                    &&& forall|j: int| 0 <= j < i ==> self.entries@[j].0@ != secret@
                    &&& secret_lookup(secret_views(self.entries@), secret@) == Some(
                        self.entries@[i as int].1@,
                    )
                },
                None => secret_lookup(secret_views(self.entries@), secret@) is None,
            },
    {
        let ghost es = secret_views(self.entries@);
        let mut i: usize = 0;
        proof {
            assert(es.skip(0) =~= es);
        }
        while i < self.entries.len()
            invariant
                i <= self.entries@.len(),
                es == secret_views(self.entries@),
                forall|j: int| 0 <= j < i ==> self.entries@[j].0@ != secret@,
                secret_lookup(es, secret@) == secret_lookup(es.skip(i as int), secret@),
            decreases self.entries@.len() - i,
        {
            proof {
                assert(es.skip(i as int)[0] == es[i as int]);
                assert(es.skip(i as int).drop_first() =~= es.skip(i + 1));
            }
            if str_eq(self.entries[i].0.as_str(), secret) {
                return Some(i);
            }
            i = i + 1;
        }
        proof {
            assert(es.skip(es.len() as int) =~= Seq::<(Seq<char>, Seq<char>)>::empty());
        }
        None
    }

    /// Read a secret; a missing one is a distinguishable error.
    pub fn get(&self, secret: &str) -> (r: Result<&String, SecretMissing>)
        ensures
            match r {
                Ok(v) => secret_lookup(secret_views(self.entries@), secret@) == Some(v@),
                Err(e) => {
                    &&& secret_lookup(secret_views(self.entries@), secret@) is None
                    &&& e.name@ == secret@
                },
            },
    {
        match self.position(secret) {
            Some(i) => Ok(&self.entries[i].1),
            None => Err(SecretMissing { name: secret.to_owned() }),
        }
    }

    /// Hand a secret out and forget it; afterwards the name reads as
    /// missing. Asking for an absent one is a distinguishable error.
    pub fn take(&mut self, secret: &str) -> (r: Result<String, SecretMissing>)
        requires
            old(self).wf(),
        ensures
            final(self).wf(),
            match r {
                Ok(v) => {
                    &&& secret_lookup(secret_views(old(self).entries@), secret@) == Some(v@)
                    &&& secret_lookup(secret_views(final(self).entries@), secret@) is None
                    &&& exists|i: int|
                        {
                            &&& 0 <= i < old(self).entries@.len()
                            &&& old(self).entries@[i].0@ == secret@
                            &&& final(self).entries@ == old(self).entries@.remove(i)
                        }
                },
                Err(e) => {
                    &&& secret_lookup(secret_views(old(self).entries@), secret@) is None
                    &&& *final(self) == *old(self)
                    &&& e.name@ == secret@
                },
            },
    {
        match self.position(secret) {
            Some(i) => {
                let entry = self.entries.remove(i);
                proof {
                    let es0 = old(self).entries@;
                    let es1 = self.entries@;
                    assert(forall|a: int|
                        0 <= a < es1.len() ==> #[trigger] es1[a] == (if a < i {
                            es0[a]
                        } else {
                            es0[a + 1]
                        }));
                    assert forall|a: int, b: int|
                        0 <= a < b < es1.len() implies es1[a].0@ != es1[b].0@ by {
                        if b < i {
                        } else if a < i {
                            assert(es1[a] == es0[a] && es1[b] == es0[b + 1]);
                        } else {
                            assert(es1[a] == es0[a + 1] && es1[b] == es0[b + 1]);
                        }
                    };
                    assert forall|a: int|
                        0 <= a < es1.len() implies #[trigger] es1[a].0@ != secret@ by {
                        if a < i {
                            assert(es1[a] == es0[a]);
                        } else {
                            assert(es1[a] == es0[a + 1]);
                            assert(es0[i as int].0@ == secret@);
                        }
                    };
                    lemma_secret_lookup_absent(secret_views(es1), secret@);
                }
                Ok(entry.1)
            },
            None => Err(SecretMissing { name: secret.to_owned() }),
        }
    }
}

/// A name none of the entries carries looks up to nothing.
proof fn lemma_secret_lookup_absent(es: Seq<(Seq<char>, Seq<char>)>, name: Seq<char>)
    requires
        forall|j: int| 0 <= j < es.len() ==> es[j].0 != name,
    ensures
        secret_lookup(es, name) is None,
    decreases es.len(),
{
    if es.len() > 0 {
        assert(forall|j: int| 0 <= j < es.drop_first().len() ==> es.drop_first()[j] == es[j + 1]);
        lemma_secret_lookup_absent(es.drop_first(), name);
    }
}

} // verus!
