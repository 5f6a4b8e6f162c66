//! User-defined commands: records keyed by (command name, room id), plus
//! the reserved built-in names that user commands must not shadow. The
//! relational store this interface fronts is a collaborator; the table
//! logic itself is here, kept in memory: reserve, add, remove,
//! update, lookup, and the startup pass that disables user commands
//! shadowing a built-in.

use vstd::prelude::*;

use crate::text::str_eq;

verus! {

/// One user-defined command. `created_at` counts seconds since the epoch.
#[derive(Clone, Debug)]
pub struct UserDefinedCommand {
    pub name: String,
    pub body: String,
    pub room: i64,
    pub uses: i32,
    pub owner: i64,
    pub disabled: bool,
    pub created_at: u64,
}

impl PartialEq for UserDefinedCommand {
    /// Two records are the same command when everything but the creation
    /// time agrees.
    fn eq(&self, other: &Self) -> (r: bool) {
        str_eq(self.name.as_str(), other.name.as_str()) && str_eq(
            self.body.as_str(),
            other.body.as_str(),
        ) && self.room == other.room && self.uses == other.uses && self.owner == other.owner
            && self.disabled == other.disabled
    }
}

impl vstd::std_specs::cmp::PartialEqSpecImpl for UserDefinedCommand {
    open spec fn obeys_eq_spec() -> bool {
        true
    }

    open spec fn eq_spec(&self, other: &Self) -> bool {
        &&& self.name@ == other.name@
        &&& self.body@ == other.body@
        &&& self.room == other.room
        &&& self.uses == other.uses
        &&& self.owner == other.owner
        &&& self.disabled == other.disabled
    }
}

/// What adding a user command came to: the name is reserved for a
/// built-in, the (name, room) pair already exists, or it went in.
#[derive(Clone, Copy, Debug, PartialEq, Eq, Structural)]
pub enum AddResult {
    Builtin,
    Exists,
    Okay,
}

/// What removing a user command came to: no such (name, room) pair, or it
/// went out.
#[derive(Clone, Copy, Debug, PartialEq, Eq, Structural)]
pub enum RemoveResult {
    Missing,
    Okay,
}

/// Reserving a name that is already reserved.
#[derive(Clone, Debug)]
pub struct NameTaken {
    pub name: String,
}

/// Whether a command with this name and room is at position `i`.
pub open spec fn cmd_key_at(cmds: Seq<UserDefinedCommand>, i: int, name: Seq<char>, room: i64) -> bool {
    &&& 0 <= i < cmds.len()
    &&& cmds[i].name@ == name
    &&& cmds[i].room == room
}

/// Whether some command carries this name and room.
pub open spec fn has_cmd(cmds: Seq<UserDefinedCommand>, name: Seq<char>, room: i64) -> bool {
    exists|i: int| cmd_key_at(cmds, i, name, room)
}

/// Whether some reserved name reads `name`.
pub open spec fn has_builtin(bs: Seq<String>, name: Seq<char>) -> bool {
    exists|i: int| 0 <= i < bs.len() && bs[i]@ == name
}

/// `u` written over `c`: the fields an update carries, with identity and
/// creation time kept.
pub open spec fn updated_with(c: UserDefinedCommand, u: UserDefinedCommand) -> UserDefinedCommand {
    UserDefinedCommand {
        name: c.name,
        room: c.room,
        owner: c.owner,
        created_at: c.created_at,
        body: u.body,
        uses: u.uses,
        disabled: u.disabled,
    }
}

/// Every command named as `u` overwritten with `u`'s update fields.
pub open spec fn apply_update(cmds: Seq<UserDefinedCommand>, u: UserDefinedCommand) -> Seq<
    UserDefinedCommand,
> {
    cmds.map_values(
        |c: UserDefinedCommand|
            if c.name@ == u.name@ {
                updated_with(c, u)
            } else {
                c
            },
    )
}

/// How many commands share this name.
pub open spec fn count_named(cmds: Seq<UserDefinedCommand>, name: Seq<char>) -> nat
    decreases cmds.len(),
{
    if cmds.len() == 0 {
        0
    } else {
        count_named(cmds.drop_last(), name) + if cmds.last().name@ == name {
            1nat
        } else {
            0nat
        }
    }
}

/// The commands of one room, in table order.
pub open spec fn commands_for_room(cmds: Seq<UserDefinedCommand>, room: i64) -> Seq<
    UserDefinedCommand,
>
    decreases cmds.len(),
{
    if cmds.len() == 0 {
        Seq::empty()
    } else if cmds.last().room == room {
        commands_for_room(cmds.drop_last(), room).push(cmds.last())
    } else {
        commands_for_room(cmds.drop_last(), room)
    }
}

/// The registry: the reserved built-in names and the user-defined command
/// table.
pub struct Registry {
    pub builtin: Vec<String>,
    pub commands: Vec<UserDefinedCommand>,
}

impl Registry {
    /// Reserved names never repeat; no two commands share (name, room).
    pub open spec fn wf(&self) -> bool {
        &&& forall|i: int, j: int|
            0 <= i < j < self.builtin@.len() ==> self.builtin@[i]@ != self.builtin@[j]@
        &&& forall|i: int, j: int|
            0 <= i < j < self.commands@.len() ==> !(self.commands@[i].name@
                == self.commands@[j].name@ && self.commands@[i].room == self.commands@[j].room)
    }

    /// An empty registry.
    pub fn new() -> (r: Self)
        ensures
            r.builtin@ == Seq::<String>::empty(),
            r.commands@ == Seq::<UserDefinedCommand>::empty(),
            r.wf(),
    {
        Registry { builtin: Vec::new(), commands: Vec::new() }
    }

    fn builtin_position(&self, name: &str) -> (r: Option<usize>)
        ensures
            match r {
                Some(i) => i < self.builtin@.len() && self.builtin@[i as int]@ == name@,
                None => !has_builtin(self.builtin@, name@),
            },
    {
        let mut i: usize = 0;
        while i < self.builtin.len()
            invariant
                i <= self.builtin@.len(),
                forall|j: int| 0 <= j < i ==> self.builtin@[j]@ != name@,
            decreases self.builtin@.len() - i,
        {
            if str_eq(self.builtin[i].as_str(), name) {
                return Some(i);
            }
            i = i + 1;
        }
        None
    }

    fn command_position(&self, name: &str, room: i64) -> (r: Option<usize>)
        ensures
            match r {
                Some(i) => cmd_key_at(self.commands@, i as int, name@, room),
                None => !has_cmd(self.commands@, name@, room),
            },
    {
        let mut i: usize = 0;
        while i < self.commands.len()
            invariant
                i <= self.commands@.len(),
                forall|j: int| 0 <= j < i ==> !(self.commands@[j].name@ == name@
                    && self.commands@[j].room == room),
            decreases self.commands@.len() - i,
        {
            let c = &self.commands[i];
            if str_eq(c.name.as_str(), name) && c.room == room {
                return Some(i);
            }
            i = i + 1;
        }
        None
    }

    /// Reserve a built-in name; fails, changing nothing, when it is
    /// already reserved.
    pub fn reserve(&mut self, name: &str) -> (r: Result<(), NameTaken>)
        requires
            old(self).wf(),
        ensures
            final(self).wf(),
            r is Ok <==> !has_builtin(old(self).builtin@, name@),
            r is Ok ==> {
                &&& final(self).builtin@.len() == old(self).builtin@.len() + 1
                &&& final(self).builtin@.drop_last() == old(self).builtin@
                &&& final(self).builtin@.last()@ == name@
                &&& final(self).commands@ == old(self).commands@
            },
            r matches Err(e) ==> *final(self) == *old(self) && e.name@ == name@,
    {
        match self.builtin_position(name) {
            Some(_) => Err(NameTaken { name: name.to_owned() }),
            None => {
                self.builtin.push(name.to_owned());
                proof {
                    assert(final(self).builtin@.drop_last() =~= old(self).builtin@);
                }
                Ok(())
            },
        }
    }

    /// Reserve several names in one transaction: all of them, or — when
    /// one is already reserved or the batch repeats a name — none.
    pub fn reserve_many(&mut self, names: &Vec<String>) -> (r: Result<(), NameTaken>)
        requires
            old(self).wf(),
        ensures
            final(self).wf(),
            final(self).commands@ == old(self).commands@,
            r is Ok <==> ((forall|k: int|
                0 <= k < names@.len() ==> !has_builtin(old(self).builtin@, names@[k]@)) && (
            forall|a: int, b: int| 0 <= a < b < names@.len() ==> names@[a]@ != names@[b]@)),
            r is Ok ==> {
                &&& final(self).builtin@.len() == old(self).builtin@.len() + names@.len()
                &&& forall|k: int|
                    0 <= k < names@.len() ==> has_builtin(final(self).builtin@, names@[k]@)
                &&& final(self).builtin@.take(old(self).builtin@.len() as int) == old(
                    self,
                ).builtin@
            },
            r matches Err(e) ==> {
                &&& *final(self) == *old(self)
                &&& exists|k: int|
                    {
                        &&& 0 <= k < names@.len()
                        &&& e.name@ == names@[k]@
                        &&& (has_builtin(old(self).builtin@, names@[k]@) || exists|a: int|
                            0 <= a < k && names@[a]@ == names@[k]@)
                    }
            },
    {
        // check the whole batch first, so a failure leaves nothing behind
        let mut k: usize = 0;
        while k < names.len()
            invariant
                k <= names@.len(),
                self == old(self),
                old(self).wf(),
                forall|a: int| 0 <= a < k ==> !has_builtin(self.builtin@, names@[a]@),
                forall|a: int, b: int| 0 <= a < b < k ==> names@[a]@ != names@[b]@,
            decreases names@.len() - k,
        {
            if self.builtin_position(names[k].as_str()).is_some() {
                proof {
                    assert(has_builtin(self.builtin@, names@[k as int]@));
                }
                return Err(NameTaken { name: names[k].clone() });
            }
            let mut a: usize = 0;
            while a < k
                invariant
                    a <= k < names@.len(),
                    self == old(self),
                    old(self).wf(),
                    forall|b: int| 0 <= b < a ==> names@[b]@ != names@[k as int]@,
                decreases k - a,
            {
                if str_eq(names[a].as_str(), names[k].as_str()) {
                    proof {
                        assert(names@[a as int]@ == names@[k as int]@);
                    }
                    return Err(NameTaken { name: names[k].clone() });
                }
                a = a + 1;
            }
            k = k + 1;
        }
        let ghost b0 = self.builtin@;
        let mut k: usize = 0;
        while k < names.len()
            invariant
                k <= names@.len(),
                old(self).wf(),
                b0 == old(self).builtin@,
                self.commands@ == old(self).commands@,
                self.builtin@.len() == b0.len() + k,
                self.builtin@.take(b0.len() as int) == b0,
                forall|a: int|
                    0 <= a < k ==> self.builtin@[b0.len() + a]@ == names@[a]@,
                forall|a: int| 0 <= a < names@.len() ==> !has_builtin(b0, names@[a]@),
                forall|a: int, b: int| 0 <= a < b < names@.len() ==> names@[a]@ != names@[b]@,
                self.wf(),
            decreases names@.len() - k,
        {
            self.builtin.push(names[k].clone());
            proof {
                assert(self.builtin@.take(b0.len() as int) =~= b0);
                assert forall|i: int, j: int|
                    0 <= i < j < self.builtin@.len() implies self.builtin@[i]@
                    != self.builtin@[j]@ by {
                    if j == self.builtin@.len() - 1 {
                        if i < b0.len() {
                            assert(b0[i] == self.builtin@[i]);
                            assert(!has_builtin(b0, names@[k as int]@));
                        } else {
                            assert(self.builtin@[i]@ == names@[i - b0.len()]@);
                        }
                    }
                };
            }
            k = k + 1;
        }
        proof {
            assert forall|a: int|
                0 <= a < names@.len() implies has_builtin(final(self).builtin@, names@[a]@) by {
                assert(final(self).builtin@[b0.len() + a]@ == names@[a]@);
            };
        }
        Ok(())
    }

    /// Every reserved built-in name, in reservation order.
    pub fn all_builtin(&self) -> (r: Vec<String>)
        ensures
            r@ == self.builtin@,
    {
        let mut r: Vec<String> = Vec::new();
        let mut i: usize = 0;
        while i < self.builtin.len()
            invariant
                i <= self.builtin@.len(),
                r@ == self.builtin@.take(i as int),
            decreases self.builtin@.len() - i,
        {
            proof {
                assert(self.builtin@.take(i + 1) =~= self.builtin@.take(i as int).push(
                    self.builtin@[i as int],
                ));
            }
            r.push(self.builtin[i].clone());
            i = i + 1;
        }
        proof {
            assert(self.builtin@.take(self.builtin@.len() as int) =~= self.builtin@);
        }
        r
    }

    /// Add a user command: refused as `Builtin` when its name is reserved,
    /// as `Exists` when its (name, room) pair is taken; otherwise it is
    /// appended.
    pub fn add_user_command(&mut self, udc: &UserDefinedCommand) -> (r: AddResult)
        requires
            old(self).wf(),
        ensures
            final(self).wf(),
            final(self).builtin@ == old(self).builtin@,
            r == AddResult::Builtin <==> has_builtin(old(self).builtin@, udc.name@),
            r == AddResult::Exists <==> !has_builtin(old(self).builtin@, udc.name@) && has_cmd(
                old(self).commands@,
                udc.name@,
                udc.room,
            ),
            r == AddResult::Okay ==> final(self).commands@ == old(self).commands@.push(*udc),
            r != AddResult::Okay ==> final(self).commands@ == old(self).commands@,
    {
        if self.builtin_position(udc.name.as_str()).is_some() {
            return AddResult::Builtin;
        }
        if self.command_position(udc.name.as_str(), udc.room).is_some() {
            return AddResult::Exists;
        }
        self.commands.push(copy_of(udc));
        proof {
            assert(final(self).commands@.drop_last() =~= old(self).commands@);
            assert forall|i: int, j: int|
                0 <= i < j < self.commands@.len() implies !(self.commands@[i].name@
                == self.commands@[j].name@ && self.commands@[i].room == self.commands@[j].room) by {
                if j == self.commands@.len() - 1 {
                    assert(self.commands@[i] == old(self).commands@[i]);
                    assert(self.commands@[j] == *udc);
                    if self.commands@[i].name@ == udc.name@ && self.commands@[i].room == udc.room {
                        assert(cmd_key_at(old(self).commands@, i, udc.name@, udc.room));
                        assert(false);
                    }
                } else {
                    assert(self.commands@[i] == old(self).commands@[i]);
                    assert(self.commands@[j] == old(self).commands@[j]);
                }
            };
        }
        AddResult::Okay
    }

    /// Remove the command with this (name, room) pair; `Missing` when no
    /// command carries it.
    pub fn remove(&mut self, udc: &UserDefinedCommand) -> (r: RemoveResult)
        requires
            old(self).wf(),
        ensures
            final(self).wf(),
            final(self).builtin@ == old(self).builtin@,
            r == RemoveResult::Missing <==> !has_cmd(old(self).commands@, udc.name@, udc.room),
            r == RemoveResult::Missing ==> final(self).commands@ == old(self).commands@,
            r == RemoveResult::Okay ==> exists|i: int|
                {
                    &&& cmd_key_at(old(self).commands@, i, udc.name@, udc.room)
                    &&& final(self).commands@ == old(self).commands@.remove(i)
                },
    {
        match self.command_position(udc.name.as_str(), udc.room) {
            Some(i) => {
                self.commands.remove(i);
                proof {
                    let es0 = old(self).commands@;
                    let es1 = self.commands@;
                    assert(forall|a: int|
                        0 <= a < es1.len() ==> #[trigger] es1[a] == (if a < i {
                            es0[a]
                        } else {
                            es0[a + 1]
                        }));
                    assert forall|a: int, b: int|
                        0 <= a < b < es1.len() implies !(es1[a].name@ == es1[b].name@
                        && es1[a].room == es1[b].room) by {
                        if b < i {
                        } else if a < i {
                            assert(es1[a] == es0[a] && es1[b] == es0[b + 1]);
                        } else {
                            assert(es1[a] == es0[a + 1] && es1[b] == es0[b + 1]);
                        }
                    };
                }
                RemoveResult::Okay
            },
            None => RemoveResult::Missing,
        }
    }

    /// Write the update fields of `udc` over every command sharing its
    /// name, in every room; true exactly when exactly one was written.
    pub fn update(&mut self, udc: &UserDefinedCommand) -> (r: bool)
        requires
            old(self).wf(),
        ensures
            final(self).wf(),
            final(self).builtin@ == old(self).builtin@,
            final(self).commands@ == apply_update(old(self).commands@, *udc),
            r == (count_named(old(self).commands@, udc.name@) == 1),
    {
        let ghost cs0 = self.commands@;
        let mut hits: usize = 0;
        let mut i: usize = 0;
        proof {
            assert(cs0.take(0) =~= Seq::<UserDefinedCommand>::empty());
        }
        while i < self.commands.len()
            invariant
                i <= cs0.len(),
                old(self).wf(),
                cs0 == old(self).commands@,
                self.builtin@ == old(self).builtin@,
                self.commands@.len() == cs0.len(),
                hits <= i,
                hits == count_named(cs0.take(i as int), udc.name@),
                forall|j: int|
                    0 <= j < i ==> #[trigger] self.commands@[j] == (if cs0[j].name@ == udc.name@ {
                        updated_with(cs0[j], *udc)
                    } else {
                        cs0[j]
                    }),
                forall|j: int| i <= j < cs0.len() ==> self.commands@[j] == cs0[j],
            decreases cs0.len() - i,
        {
            proof {
                assert(cs0.take(i + 1).drop_last() =~= cs0.take(i as int));
                assert(cs0.take(i + 1).last() == cs0[i as int]);
            }
            let is_named = str_eq(self.commands[i].name.as_str(), udc.name.as_str());
            if is_named {
                let body = udc.body.clone();
                let uses = udc.uses;
                let disabled = udc.disabled;
                let c = &mut self.commands[i];
                c.body = body;
                c.uses = uses;
                c.disabled = disabled;
                hits = hits + 1;
            }
            i = i + 1;
        }
        proof {
            assert(cs0.take(cs0.len() as int) =~= cs0);
            assert(self.commands@ =~= apply_update(cs0, *udc));
            lemma_apply_update_wf(cs0, *udc);
        }
        hits == 1
    }

    /// Write several updates, in order.
    pub fn update_many(&mut self, many: &Vec<UserDefinedCommand>)
        requires
            old(self).wf(),
        ensures
            final(self).wf(),
            final(self).builtin@ == old(self).builtin@,
            final(self).commands@ == many@.fold_left(
                old(self).commands@,
                |cs: Seq<UserDefinedCommand>, u: UserDefinedCommand| apply_update(cs, u),
            ),
    {
        let mut k: usize = 0;
        while k < many.len()
            invariant
                k <= many@.len(),
                self.wf(),
                self.builtin@ == old(self).builtin@,
                self.commands@ == many@.take(k as int).fold_left(
                    old(self).commands@,
                    |cs: Seq<UserDefinedCommand>, u: UserDefinedCommand| apply_update(cs, u),
                ),
            decreases many@.len() - k,
        {
            proof {
                assert(many@.take(k + 1).drop_last() =~= many@.take(k as int));
                assert(many@.take(k + 1).last() == many@[k as int]);
            }
            self.update(&many[k]);
            k = k + 1;
        }
        proof {
            assert(many@.take(many@.len() as int) =~= many@);
        }
    }

    /// The first command with this (name, room) pair, if any.
    pub fn lookup(&self, name: &str, room: i64) -> (r: Option<UserDefinedCommand>)
        ensures
            match r {
                Some(c) => exists|i: int|
                    cmd_key_at(self.commands@, i, name@, room) && c == self.commands@[i],
                None => !has_cmd(self.commands@, name@, room),
            },
    {
        match self.command_position(name, room) {
            Some(i) => Some(copy_of(&self.commands[i])),
            None => None,
        }
    }

    /// Every user command, in table order.
    pub fn all_commands(&self) -> (r: Vec<UserDefinedCommand>)
        ensures
            r@ == self.commands@,
    {
        let mut r: Vec<UserDefinedCommand> = Vec::new();
        let mut i: usize = 0;
        while i < self.commands.len()
            invariant
                i <= self.commands@.len(),
                r@ == self.commands@.take(i as int),
            decreases self.commands@.len() - i,
        {
            proof {
                assert(self.commands@.take(i + 1) =~= self.commands@.take(i as int).push(
                    self.commands@[i as int],
                ));
            }
            r.push(copy_of(&self.commands[i]));
            i = i + 1;
        }
        proof {
            assert(self.commands@.take(self.commands@.len() as int) =~= self.commands@);
        }
        r
    }

    /// The user commands of one room, in table order.
    pub fn all_commands_for(&self, room: i64) -> (r: Vec<UserDefinedCommand>)
        ensures
            r@ == commands_for_room(self.commands@, room),
    {
        let mut r: Vec<UserDefinedCommand> = Vec::new();
        let mut i: usize = 0;
        proof {
            assert(self.commands@.take(0) =~= Seq::<UserDefinedCommand>::empty());
        }
        while i < self.commands.len()
            invariant
                i <= self.commands@.len(),
                r@ == commands_for_room(self.commands@.take(i as int), room),
            decreases self.commands@.len() - i,
        {
            proof {
                assert(self.commands@.take(i + 1).drop_last() =~= self.commands@.take(i as int));
                assert(self.commands@.take(i + 1).last() == self.commands@[i as int]);
            }
            if self.commands[i].room == room {
                r.push(copy_of(&self.commands[i]));
            }
            i = i + 1;
        }
        proof {
            assert(self.commands@.take(self.commands@.len() as int) =~= self.commands@);
        }
        r
    }

    /// The startup pass: disable every user command whose name shadows a
    /// reserved built-in; everything else stands untouched.
    pub fn disable_shadowed(&mut self)
        requires
            old(self).wf(),
        ensures
            final(self).wf(),
            final(self).builtin@ == old(self).builtin@,
            final(self).commands@.len() == old(self).commands@.len(),
            forall|i: int|
                0 <= i < old(self).commands@.len() ==> #[trigger] final(self).commands@[i] == (
                if has_builtin(old(self).builtin@, old(self).commands@[i].name@) {
                    UserDefinedCommand { disabled: true, ..old(self).commands@[i] }
                } else {
                    old(self).commands@[i]
                }),
    {
        let ghost cs0 = self.commands@;
        let mut i: usize = 0;
        while i < self.commands.len()
            invariant
                i <= cs0.len(),
                old(self).wf(),
                cs0 == old(self).commands@,
                self.builtin@ == old(self).builtin@,
                self.commands@.len() == cs0.len(),
                forall|j: int|
                    0 <= j < i ==> #[trigger] self.commands@[j] == (if has_builtin(
                        old(self).builtin@,
                        cs0[j].name@,
                    ) {
                        UserDefinedCommand { disabled: true, ..cs0[j] }
                    } else {
                        cs0[j]
                    }),
                forall|j: int| i <= j < cs0.len() ==> self.commands@[j] == cs0[j],
            decreases cs0.len() - i,
        {
            let name_taken = {
                let c = &self.commands[i];
                self.builtin_position(c.name.as_str()).is_some()
            };
            if name_taken {
                let c = &mut self.commands[i];
                c.disabled = true;
            }
            i = i + 1;
        }
        proof {
            assert forall|a: int, b: int|
                0 <= a < b < self.commands@.len() implies !(self.commands@[a].name@
                == self.commands@[b].name@ && self.commands@[a].room == self.commands@[b].room) by {
                assert(self.commands@[a].name@ == cs0[a].name@ && self.commands@[a].room == cs0[a].room);
                assert(self.commands@[b].name@ == cs0[b].name@ && self.commands@[b].room == cs0[b].room);
            };
        }
    }
}

/// A copy of the record, field by field.
fn copy_of(c: &UserDefinedCommand) -> (r: UserDefinedCommand)
    ensures
        r == *c,
{
    UserDefinedCommand {
        name: c.name.clone(),
        body: c.body.clone(),
        room: c.room,
        uses: c.uses,
        owner: c.owner,
        disabled: c.disabled,
        created_at: c.created_at,
    }
}

proof fn lemma_apply_update_wf(cs: Seq<UserDefinedCommand>, u: UserDefinedCommand)
    requires
        forall|i: int, j: int|
            0 <= i < j < cs.len() ==> !(cs[i].name@ == cs[j].name@ && cs[i].room == cs[j].room),
    ensures
        forall|i: int, j: int|
            0 <= i < j < apply_update(cs, u).len() ==> !(apply_update(cs, u)[i].name@
                == apply_update(cs, u)[j].name@ && apply_update(cs, u)[i].room == apply_update(
                cs,
                u,
            )[j].room),
{
    assert forall|i: int, j: int|
        0 <= i < j < apply_update(cs, u).len() implies !(apply_update(cs, u)[i].name@
        == apply_update(cs, u)[j].name@ && apply_update(cs, u)[i].room == apply_update(
        cs,
        u,
    )[j].room) by {
        assert(apply_update(cs, u)[i].name@ == cs[i].name@ && apply_update(cs, u)[i].room
            == cs[i].room);
        assert(apply_update(cs, u)[j].name@ == cs[j].name@ && apply_update(cs, u)[j].room
            == cs[j].room);
    };
}

} // verus!
