//! Identity of the chat participants: a room and a user, each a display name
//! together with a stable numeric id.

use vstd::prelude::*;

verus! {

/// One parsed chat line, as the protocol layer hands it over: identifiers
/// of the room and the user where known, their display names, and the raw
/// message text. The privileged flag is set for moderators and broadcasters.
pub struct InboundEvent {
    pub room_id: Option<u64>,
    pub room_name: String,
    pub user_id: Option<u64>,
    pub user_name: String,
    pub data: String,
    pub is_privileged: bool,
}

/// A chat room: its display name (as the protocol layer hands it over,
/// usually prefixed with `#`) and its stable numeric id.
#[derive(Clone, Debug)]
pub struct Room {
    pub name: String,
    pub id: u64,
}

/// A chat user: display name and stable numeric id.
#[derive(Clone, Debug)]
pub struct User {
    pub name: String,
    pub id: u64,
}

impl Room {
    /// The room name with every leading `#` removed.
    pub fn remove_hashes(&self) -> (r: String)
        requires
            self.name@.len() < usize::MAX,
        ensures
            r@ == self.name@.skip(leading_hashes(self.name@) as int),
    {
        let n = self.name.as_str().unicode_len();
        let mut left: usize = 0;
        while left < n && self.name.as_str().get_char(left) == '#'
            invariant
                left <= n,
                n == self.name@.len(),
                forall|i: int| 0 <= i < left ==> self.name@[i] == '#',
            decreases n - left,
        {
            left = left + 1;
        }
        proof {
            lemma_leading_hashes(self.name@, left as nat);
        }
        let r = self.name.as_str().substring_char(left, n);
        r.to_owned()
    }
}

/// How many `#` characters the name starts with.
pub open spec fn leading_hashes(s: Seq<char>) -> nat
    decreases s.len(),
{
    if s.len() == 0 || s[0] != '#' {
        0
    } else {
        1 + leading_hashes(s.skip(1))
    }
}

proof fn lemma_leading_hashes(s: Seq<char>, k: nat)
    requires
        k <= s.len(),
        forall|i: int| 0 <= i < k ==> s[i] == '#',
        k < s.len() ==> s[k as int] != '#',
    ensures
        leading_hashes(s) == k,
    decreases s.len(),
{
    if k == 0 {
    } else {
        assert(s[0] == '#');
        lemma_leading_hashes(s.skip(1), (k - 1) as nat);
    }
}

/// Anything with a display name and a stable numeric id.
pub trait NameAndId {
    /// The display name.
    fn name(&self) -> (r: String)
        ensures
            r == self.spec_name(),
    ;

    /// The numeric id.
    fn id(&self) -> (r: u64)
        ensures
            r == self.spec_id(),
    ;

    /// The display name, at the specification level.
    spec fn spec_name(&self) -> String;

    /// The numeric id, at the specification level.
    spec fn spec_id(&self) -> u64;
}

impl NameAndId for Room {
    fn name(&self) -> (r: String) {
        self.name.clone()
    }

    fn id(&self) -> (r: u64) {
        self.id
    }

    open spec fn spec_name(&self) -> String {
        self.name
    }

    open spec fn spec_id(&self) -> u64 {
        self.id
    }
}

impl NameAndId for User {
    fn name(&self) -> (r: String) {
        self.name.clone()
    }

    fn id(&self) -> (r: u64) {
        self.id
    }

    open spec fn spec_name(&self) -> String {
        self.name
    }

    open spec fn spec_id(&self) -> u64 {
        self.id
    }
}

/// Whether the list carries the name, or the id written in decimal.
pub open spec fn on_list_spec(list: Seq<String>, name: Seq<char>, id: u64) -> bool {
    exists|i: int|
        0 <= i < list.len() && (list[i]@ == name || list[i]@ == crate::timefmt::dec_digits(
            id as nat,
        ))
}

/// Whether the list carries the name, or the id written in decimal; the
/// whitelist check of the configuration.
pub fn on_list(list: &Vec<String>, name: &str, id: u64) -> (r: bool)
    ensures
        r == on_list_spec(list@, name@, id),
{
    let mut digits: Vec<char> = Vec::new();
    crate::timefmt::push_dec(id, &mut digits);
    let id_text = crate::text::string_from_chars(&digits);
    let mut i: usize = 0;
    while i < list.len()
        invariant
            i <= list@.len(),
            id_text@ == crate::timefmt::dec_digits(id as nat),
            forall|j: int|
                0 <= j < i ==> !(list@[j]@ == name@ || list@[j]@ == crate::timefmt::dec_digits(
                    id as nat,
                )),
        decreases list@.len() - i,
    {
        if crate::text::str_eq(list[i].as_str(), name) || crate::text::str_eq(
            list[i].as_str(),
            id_text.as_str(),
        ) {
            return true;
        }
        i = i + 1;
    }
    false
}

/// The whitelist check a handler opens with: being off the list is a
/// voluntary decline, never an error.
pub fn check_list(list: &Vec<String>, name: &str, id: u64) -> (r: Result<
    (),
    crate::util::HandlerError,
>)
    ensures
        r is Ok <==> on_list_spec(list@, name@, id),
        r matches Err(e) ==> e is NotInterested,
{
    if on_list(list, name, id) {
        Ok(())
    } else {
        Err(crate::util::HandlerError::NotInterested)
    }
}

} // verus!
