//! Classification of inbound events: a line whose trimmed text begins with
//! the command prefix `!` becomes a [`Command`] with a head trigger and tail
//! arguments; any line with known room and user ids becomes a [`Passive`].

use vstd::prelude::*;

use crate::event::InboundEvent;
use crate::event::Room;
use crate::event::User;
use crate::text::chars_of;
use crate::text::concat_all;
use crate::text::split_spec;
use crate::text::split_terminator_spec;
use crate::text::string_from_chars;
use crate::text::trim_chars;
use crate::text::trim_spec;
use crate::text::trim_end_spec;
use crate::text::trim_start_spec;
use crate::text::is_space_char;

verus! {

/// The views of a sequence of strings.
pub open spec fn views_of(ss: Seq<String>) -> Seq<Seq<char>> {
    ss.map_values(|s: String| s@)
}

/// The whitespace-delimited tokens after the command prefix: the trimmed
/// text with the prefix removed, split on spaces, without the empty piece a
/// trailing space leaves.
pub open spec fn command_tokens(data: Seq<char>) -> Seq<Seq<char>> {
    split_terminator_spec(trim_spec(data).skip(1), ' ')
}

/// Whether the raw text is command-shaped: after trimming it begins with
/// the prefix and has a non-empty head token.
pub open spec fn is_command_text(data: Seq<char>) -> bool {
    let t = trim_spec(data);
    &&& t.len() > 0
    &&& t[0] == '!'
    &&& command_tokens(data).len() > 0
    &&& command_tokens(data)[0].len() > 0
}

/// Whether classification promotes the event to a [`Command`]: the text is
/// command-shaped and both the room id and the user id are known.
pub open spec fn parses_to_command(ev: InboundEvent) -> bool {
    &&& is_command_text(ev.data@)
    &&& ev.room_id is Some
    &&& ev.user_id is Some
}

/// A classified command: the head trigger (never empty), the tail
/// arguments, the raw text, and the identity of the room and the user.
pub struct Command {
    pub head: String,
    pub tail: Vec<String>,
    pub data: String,
    pub room_id: u64,
    pub room_name: String,
    pub user_id: u64,
    pub user_name: String,
}

impl Command {
    /// Classify one event. Returns a command exactly when the trimmed text
    /// begins with `!`, the first token after the prefix is non-empty, and
    /// the event carries a room id and a user id.
    pub fn parse(ev: &InboundEvent) -> (r: Option<Command>)
        ensures
            r is Some <==> parses_to_command(*ev),
            r matches Some(c) ==> {
                &&& c.head@ == command_tokens(ev.data@)[0]
                &&& c.head@.len() > 0
                &&& views_of(c.tail@) == command_tokens(ev.data@).skip(1)
                &&& c.data@ == ev.data@
                &&& c.room_id == ev.room_id->0
                &&& c.room_name == ev.room_name
                &&& c.user_id == ev.user_id->0
                &&& c.user_name == ev.user_name
            },
    {
        let cs = chars_of(ev.data.as_str());
        let t = trim_chars(&cs);
        if t.len() == 0 {
            return None;
        }
        if t[0] != '!' {
            return None;
        }
        let room_id = match ev.room_id {
            Some(id) => id,
            None => {
                return None;
            },
        };
        let user_id = match ev.user_id {
            Some(id) => id,
            None => {
                return None;
            },
        };

        let ghost rest = t@.skip(1);
        let mut pieces: Vec<String> = Vec::new();
        let mut cur: Vec<char> = Vec::new();
        let mut i: usize = 1;
        proof {
            assert(rest.take(0) =~= Seq::<char>::empty());
            assert(views_of(pieces@).push(cur@) =~= split_spec(rest.take(0), ' '));
        }
        while i < t.len()
            invariant
                1 <= i <= t@.len(),
                rest == t@.skip(1),
                views_of(pieces@).push(cur@) == split_spec(rest.take(i - 1), ' '),
            decreases t@.len() - i,
        {
            let c = t[i];
            proof {
                assert(rest.take(i as int) =~= rest.take(i - 1).push(t@[i as int]));
                assert(rest.take(i as int).drop_last() =~= rest.take(i - 1));
            }
            if c == ' ' {
                let piece = string_from_chars(&cur);
                pieces.push(piece);
                cur = Vec::new();
                proof {
                    assert(views_of(pieces@).push(cur@) =~= split_spec(rest.take(i as int), ' '));
                }
            } else {
                cur.push(c);
                proof {
                    let ps = split_spec(rest.take(i - 1), ' ');
                    assert(views_of(pieces@).push(cur@) =~= ps.update(
                        ps.len() - 1,
                        ps.last().push(t@[i as int]),
                    ));
                }
            }
            i = i + 1;
        }
        proof {
            assert(rest.take(t@.len() - 1) =~= rest);
        }
        let last_piece = string_from_chars(&cur);
        pieces.push(last_piece);
        proof {
            assert(views_of(pieces@) =~= split_spec(rest, ' '));
        }
        if pieces[pieces.len() - 1].as_str().is_empty() {
            pieces.pop();
            proof {
                assert(views_of(pieces@) =~= split_spec(rest, ' ').drop_last());
            }
        }
        proof {
            assert(views_of(pieces@) =~= split_terminator_spec(rest, ' '));
        }
        if pieces.len() == 0 {
            return None;
        }
        let head = pieces.remove(0);
        if head.as_str().is_empty() {
            return None;
        }
        proof {
            assert(views_of(pieces@) =~= command_tokens(ev.data@).skip(1));
        }
        Some(
            Command {
                head,
                tail: pieces,
                data: ev.data.clone(),
                room_id,
                room_name: ev.room_name.clone(),
                user_id,
                user_name: ev.user_name.clone(),
            },
        )
    }

    /// All tail arguments joined back together, with nothing in between;
    /// absent when the joined text is empty.
    pub fn join_tail(&self) -> (r: Option<String>)
        ensures
            r matches Some(s) ==> s@ == concat_all(views_of(self.tail@)) && s@.len() > 0,
            r is None ==> concat_all(views_of(self.tail@)).len() == 0,
    {
        let mut s = String::new();
        let mut i: usize = 0;
        proof {
            assert(views_of(self.tail@).take(0) =~= Seq::<Seq<char>>::empty());
        }
        while i < self.tail.len()
            invariant
                i <= self.tail@.len(),
                s@ == concat_all(views_of(self.tail@).take(i as int)),
            decreases self.tail@.len() - i,
        {
            proof {
                assert(views_of(self.tail@).take(i + 1).drop_last() =~= views_of(
                    self.tail@,
                ).take(i as int));
            }
            s.append(self.tail[i].as_str());
            i = i + 1;
        }
        proof {
            assert(views_of(self.tail@).take(self.tail@.len() as int) =~= views_of(self.tail@));
        }
        if s.as_str().is_empty() {
            None
        } else {
            Some(s)
        }
    }

    /// The room the command arrived in.
    pub fn room(&self) -> (r: Room)
        ensures
            r.name == self.room_name,
            r.id == self.room_id,
    {
        Room { name: self.room_name.clone(), id: self.room_id }
    }

    /// The user who sent the command.
    pub fn user(&self) -> (r: User)
        ensures
            r.name == self.user_name,
            r.id == self.user_id,
    {
        User { name: self.user_name.clone(), id: self.user_id }
    }
}

/// A passively-handled event: every line with known room and user ids.
pub struct Passive {
    pub data: String,
    pub room_id: u64,
    pub room_name: String,
    pub user_id: u64,
    pub user_name: String,
}

impl Passive {
    /// Classify one event as passive. Returns a value exactly when the
    /// event carries a room id and a user id.
    pub fn new(ev: &InboundEvent) -> (r: Option<Passive>)
        ensures
            r is Some <==> ev.room_id is Some && ev.user_id is Some,
            r matches Some(p) ==> {
                &&& p.data@ == ev.data@
                &&& p.room_id == ev.room_id->0
                &&& p.room_name == ev.room_name
                &&& p.user_id == ev.user_id->0
                &&& p.user_name == ev.user_name
            },
    {
        let room_id = match ev.room_id {
            Some(id) => id,
            None => {
                return None;
            },
        };
        let user_id = match ev.user_id {
            Some(id) => id,
            None => {
                return None;
            },
        };
        Some(
            Passive {
                data: ev.data.clone(),
                room_id,
                room_name: ev.room_name.clone(),
                user_id,
                user_name: ev.user_name.clone(),
            },
        )
    }

    /// The room the line arrived in.
    pub fn room(&self) -> (r: Room)
        ensures
            r.name == self.room_name,
            r.id == self.room_id,
    {
        Room { name: self.room_name.clone(), id: self.room_id }
    }

    /// The user who sent the line.
    pub fn user(&self) -> (r: User)
        ensures
            r.name == self.user_name,
            r.id == self.user_id,
    {
        User { name: self.user_name.clone(), id: self.user_id }
    }
}

/// Law: a raw text that does not start with the command prefix is never
/// classified as a command. (A text whose very first character is
/// whitespace is outside this statement: classification trims before it
/// looks for the prefix.)
pub proof fn lemma_no_prefix_no_command(ev: InboundEvent)
    requires
        ev.data@.len() == 0 || (ev.data@[0] != '!' && !is_space_char(ev.data@[0])),
    ensures
        !parses_to_command(ev),
{
    let s = ev.data@;
    if s.len() == 0 {
        assert(trim_start_spec(s) == s);
        lemma_trim_end_prefix(s);
        assert(trim_spec(s).len() == 0);
    } else {
        assert(trim_start_spec(s) == s);
        lemma_trim_end_prefix(s);
        let t = trim_spec(s);
        if t.len() > 0 {
            assert(t[0] == s[0]);
        }
    }
}

/// The trimmed-at-the-end text is a prefix of the text.
proof fn lemma_trim_end_prefix(s: Seq<char>)
    ensures
        trim_end_spec(s).len() <= s.len(),
        trim_end_spec(s) == s.take(trim_end_spec(s).len() as int),
    decreases s.len(),
{
    if s.len() > 0 && is_space_char(s.last()) {
        lemma_trim_end_prefix(s.drop_last());
        assert(s.drop_last() =~= s.take(s.len() - 1));
        assert(s.take(s.len() - 1).take(trim_end_spec(s.drop_last()).len() as int) =~= s.take(
            trim_end_spec(s.drop_last()).len() as int,
        ));
    } else {
        assert(s =~= s.take(s.len() as int));
    }
}

} // verus!
