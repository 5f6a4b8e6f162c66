//! The handler registry: command handlers are registered under a trigger
//! string (several registrations may share one trigger), passive handlers
//! unconditionally. Every registration gets a fresh numeric id; removal is
//! by id, so handlers sharing a trigger can be retired one by one. The
//! handler payload is an opaque token the caller dispatches on.

use vstd::prelude::*;

verus! {

/// One command registration: the trigger it answers to, its id, and the
/// caller's handler token.
pub struct WrappedCommand<H> {
    pub trigger: String,
    pub id: usize,
    pub handler: H,
}

/// The registrations whose trigger reads `t`, in registration order.
pub open spec fn matching_commands<H>(regs: Seq<WrappedCommand<H>>, t: Seq<char>) -> Seq<
    WrappedCommand<H>,
>
    decreases regs.len(),
{
    if regs.len() == 0 {
        Seq::empty()
    } else if regs.last().trigger@ == t {
        matching_commands(regs.drop_last(), t).push(regs.last())
    } else {
        matching_commands(regs.drop_last(), t)
    }
}

/// The triggers of all registrations, in registration order.
pub open spec fn triggers_of<H>(regs: Seq<WrappedCommand<H>>) -> Seq<Seq<char>> {
    regs.map_values(|w: WrappedCommand<H>| w.trigger@)
}

/// The map from command names to command handlers.
pub struct CommandMap<H> {
    pub inner: Vec<WrappedCommand<H>>,
    pub next_id: usize,
}

impl<H: Copy> CommandMap<H> {
    /// Ids never repeat: every held id is below the counter, and no two
    /// registrations share one.
    pub open spec fn wf(&self) -> bool {
        &&& forall|i: int| 0 <= i < self.inner@.len() ==> #[trigger] self.inner@[i].id
            < self.next_id
        &&& forall|i: int, j: int|
            0 <= i < j < self.inner@.len() ==> self.inner@[i].id != self.inner@[j].id
    }

    /// An empty map.
    pub fn new() -> (r: Self)
        ensures
            r.inner@ == Seq::<WrappedCommand<H>>::empty(),
            r.next_id == 0,
            r.wf(),
    {
        CommandMap { inner: Vec::new(), next_id: 0 }
    }

    /// Register `handler` under `trigger`; returns the fresh id.
    pub fn add(&mut self, trigger: &str, handler: H) -> (id: usize)
        requires
            old(self).wf(),
            old(self).next_id < usize::MAX,
        ensures
            final(self).wf(),
            id == old(self).next_id,
            final(self).next_id == old(self).next_id + 1,
            final(self).inner@.len() == old(self).inner@.len() + 1,
            final(self).inner@.last().trigger@ == trigger@,
            final(self).inner@.last().id == id,
            final(self).inner@.last().handler == handler,
            final(self).inner@.drop_last() == old(self).inner@,
    {
        let id = self.next_id;
        self.next_id = self.next_id + 1;
        self.inner.push(WrappedCommand { trigger: trigger.to_owned(), id, handler });
        proof {
            assert(final(self).inner@.drop_last() =~= old(self).inner@);
        }
        id
    }

    /// Retire the registration with this id, keeping the order of the
    /// rest; false when no registration has it.
    pub fn remove(&mut self, id: usize) -> (found: bool)
        requires
            old(self).wf(),
        ensures
            final(self).wf(),
            final(self).next_id == old(self).next_id,
            found <==> exists|i: int|
                0 <= i < old(self).inner@.len() && old(self).inner@[i].id == id,
            found ==> exists|i: int|
                {
                    &&& 0 <= i < old(self).inner@.len()
                    &&& old(self).inner@[i].id == id
                    &&& final(self).inner@ == old(self).inner@.remove(i)
                },
            !found ==> final(self).inner@ == old(self).inner@,
    {
        let mut i: usize = 0;
        while i < self.inner.len()
            invariant
                old(self).wf(),
                i <= self.inner@.len(),
                self.inner@ == old(self).inner@,
                self.next_id == old(self).next_id,
                forall|j: int| 0 <= j < i ==> self.inner@[j].id != id,
            decreases self.inner@.len() - i,
        {
            if self.inner[i].id == id {
                self.inner.remove(i);
                proof {
                    let es0 = old(self).inner@;
                    let es1 = self.inner@;
                    assert(forall|a: int|
                        0 <= a < es1.len() ==> #[trigger] es1[a] == (if a < i {
                            es0[a]
                        } else {
                            es0[a + 1]
                        }));
                    assert forall|a: int| 0 <= a < es1.len() implies #[trigger] es1[a].id
                        < self.next_id by {
                        if a < i {
                            assert(es1[a] == es0[a]);
                        } else {
                            assert(es1[a] == es0[a + 1]);
                        }
                    };
                    assert forall|a: int, b: int|
                        0 <= a < b < es1.len() implies es1[a].id != es1[b].id by {
                        if b < i {
                        } else if a < i {
                            assert(es1[a] == es0[a] && es1[b] == es0[b + 1]);
                        } else {
                            assert(es1[a] == es0[a + 1] && es1[b] == es0[b + 1]);
                        }
                    };
                }
                return true;
            }
            i = i + 1;
        }
        false
    }

    /// All registrations sharing `trigger`, in registration order; empty
    /// when none match. Never an error.
    pub fn find(&self, trigger: &str) -> (r: Vec<WrappedCommand<H>>)
        ensures
            r@ == matching_commands(self.inner@, trigger@),
    {
        let mut r: Vec<WrappedCommand<H>> = Vec::new();
        let mut i: usize = 0;
        proof {
            assert(self.inner@.take(0) =~= Seq::<WrappedCommand<H>>::empty());
        }
        while i < self.inner.len()
            invariant
                i <= self.inner@.len(),
                r@ == matching_commands(self.inner@.take(i as int), trigger@),
            decreases self.inner@.len() - i,
        {
            proof {
                assert(self.inner@.take(i + 1).drop_last() =~= self.inner@.take(i as int));
                assert(self.inner@.take(i + 1).last() == self.inner@[i as int]);
            }
            let w = &self.inner[i];
            if crate::text::str_eq(w.trigger.as_str(), trigger) {
                let copy = WrappedCommand { trigger: w.trigger.clone(), id: w.id, handler: w.handler };
                proof {
                    assert(copy == self.inner@[i as int]);
                }
                r.push(copy);
            }
            i = i + 1;
        }
        proof {
            assert(self.inner@.take(self.inner@.len() as int) =~= self.inner@);
        }
        r
    }

    /// The names of all registered commands, in registration order.
    pub fn command_names(&self) -> (r: Vec<String>)
        ensures
            r@.map_values(|s: String| s@) == triggers_of(self.inner@),
    {
        let mut r: Vec<String> = Vec::new();
        let mut i: usize = 0;
        while i < self.inner.len()
            invariant
                i <= self.inner@.len(),
                r@.len() == i,
                forall|j: int| 0 <= j < i ==> #[trigger] r@[j]@ == self.inner@[j].trigger@,
            decreases self.inner@.len() - i,
        {
            r.push(self.inner[i].trigger.clone());
            i = i + 1;
        }
        proof {
            assert(r@.map_values(|s: String| s@) =~~= triggers_of(self.inner@));
        }
        r
    }
}

/// One passive registration: its id and the caller's handler token.
#[derive(Clone, Copy)]
pub struct WrappedPassive<H> {
    pub id: usize,
    pub handler: H,
}

/// The list of passive handlers; all of them see every passive event, in
/// registration order.
pub struct PassiveList<H> {
    pub inner: Vec<WrappedPassive<H>>,
    pub next_id: usize,
}

impl<H: Copy> PassiveList<H> {
    /// Ids never repeat.
    pub open spec fn wf(&self) -> bool {
        &&& forall|i: int| 0 <= i < self.inner@.len() ==> #[trigger] self.inner@[i].id
            < self.next_id
        &&& forall|i: int, j: int|
            0 <= i < j < self.inner@.len() ==> self.inner@[i].id != self.inner@[j].id
    }

    /// An empty list.
    pub fn new() -> (r: Self)
        ensures
            r.inner@ == Seq::<WrappedPassive<H>>::empty(),
            r.next_id == 0,
            r.wf(),
    {
        PassiveList { inner: Vec::new(), next_id: 0 }
    }

    /// Register a passive handler; returns the fresh id.
    pub fn add(&mut self, handler: H) -> (id: usize)
        requires
            old(self).wf(),
            old(self).next_id < usize::MAX,
        ensures
            final(self).wf(),
            id == old(self).next_id,
            final(self).next_id == old(self).next_id + 1,
            final(self).inner@ == old(self).inner@.push(WrappedPassive { id, handler }),
    {
        let id = self.next_id;
        self.next_id = self.next_id + 1;
        self.inner.push(WrappedPassive { id, handler });
        id
    }

    /// Retire the registration with this id, keeping the order of the
    /// rest; absent when no registration has it.
    pub fn remove(&mut self, id: usize) -> (found: Option<()>)
        requires
            old(self).wf(),
        ensures
            final(self).wf(),
            final(self).next_id == old(self).next_id,
            found is Some <==> exists|i: int|
                0 <= i < old(self).inner@.len() && old(self).inner@[i].id == id,
            found is Some ==> exists|i: int|
                {
                    &&& 0 <= i < old(self).inner@.len()
                    &&& old(self).inner@[i].id == id
                    &&& final(self).inner@ == old(self).inner@.remove(i)
                },
            found is None ==> final(self).inner@ == old(self).inner@,
    {
        let mut i: usize = 0;
        while i < self.inner.len()
            invariant
                old(self).wf(),
                i <= self.inner@.len(),
                self.inner@ == old(self).inner@,
                self.next_id == old(self).next_id,
                forall|j: int| 0 <= j < i ==> self.inner@[j].id != id,
            decreases self.inner@.len() - i,
        {
            if self.inner[i].id == id {
                self.inner.remove(i);
                proof {
                    let es0 = old(self).inner@;
                    let es1 = self.inner@;
                    assert(forall|a: int|
                        0 <= a < es1.len() ==> #[trigger] es1[a] == (if a < i {
                            es0[a]
                        } else {
                            es0[a + 1]
                        }));
                    assert forall|a: int| 0 <= a < es1.len() implies #[trigger] es1[a].id
                        < self.next_id by {
                        if a < i {
                            assert(es1[a] == es0[a]);
                        } else {
                            assert(es1[a] == es0[a + 1]);
                        }
                    };
                    assert forall|a: int, b: int|
                        0 <= a < b < es1.len() implies es1[a].id != es1[b].id by {
                        if b < i {
                        } else if a < i {
                            assert(es1[a] == es0[a] && es1[b] == es0[b + 1]);
                        } else {
                            assert(es1[a] == es0[a + 1] && es1[b] == es0[b + 1]);
                        }
                    };
                }
                return Some(());
            }
            i = i + 1;
        }
        None
    }

    /// The registrations, in registration order.
    pub fn iter(&self) -> (r: &Vec<WrappedPassive<H>>)
        ensures
            r@ == self.inner@,
    {
        &self.inner
    }
}

/// Law: a lookup finds exactly the registrations that share the trigger,
/// each keeping its place: matching registrations come out in registration
/// order, and a trigger nobody registered yields the empty list.
pub proof fn lemma_find_complete<H>(regs: Seq<WrappedCommand<H>>, t: Seq<char>)
    ensures
        forall|k: int|
            0 <= k < matching_commands(regs, t).len() ==> #[trigger] matching_commands(
                regs,
                t,
            )[k].trigger@ == t,
        (forall|i: int| 0 <= i < regs.len() ==> #[trigger] regs[i].trigger@ != t)
            ==> matching_commands(regs, t) == Seq::<WrappedCommand<H>>::empty(),
    decreases regs.len(),
{
    if regs.len() > 0 {
        lemma_find_complete(regs.drop_last(), t);
        assert(forall|i: int| 0 <= i < regs.len() - 1 ==> regs.drop_last()[i] == regs[i]);
        let m0 = matching_commands(regs.drop_last(), t);
        assert forall|k: int|
            0 <= k < matching_commands(regs, t).len() implies #[trigger] matching_commands(
            regs,
            t,
        )[k].trigger@ == t by {
            if regs.last().trigger@ == t {
                if k < m0.len() {
                    assert(matching_commands(regs, t)[k] == m0[k]);
                } else {
                    assert(matching_commands(regs, t)[k] == regs.last());
                }
            } else {
                assert(matching_commands(regs, t)[k] == m0[k]);
            }
        };
    }
}

/// Law: registering one more handler leaves every earlier lookup result in
/// place; the new registration appears, last, exactly in the lookup for
/// its own trigger.
pub proof fn lemma_find_after_add<H>(regs: Seq<WrappedCommand<H>>, w: WrappedCommand<H>, t: Seq<char>)
    ensures
        w.trigger@ == t ==> matching_commands(regs.push(w), t) == matching_commands(
            regs,
            t,
        ).push(w),
        w.trigger@ != t ==> matching_commands(regs.push(w), t) == matching_commands(regs, t),
{
    assert(regs.push(w).drop_last() =~= regs);
}

} // verus!
