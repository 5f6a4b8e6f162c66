//! The decisions the command handlers make, from plain values to plain
//! values: argument splitting, the authorization rule, and the user-defined
//! command flows (add, edit, info, delete, rename, and the passive lookup).
//! The collaborator calls around them — the relational store, HTTP, the
//! chat write — stay at the transport edge.

use vstd::prelude::*;

use crate::command::views_of;
use crate::text::string_from_chars;
use crate::user_defined::AddResult;
use crate::user_defined::Registry;
use crate::user_defined::RemoveResult;
use crate::user_defined::UserDefinedCommand;

verus! {

/// The argument pieces joined back with single spaces, pieces that arrive
/// while nothing is gathered yet joining seamlessly.
pub open spec fn joined_args(ss: Seq<Seq<char>>) -> Seq<char> {
    ss.fold_left(
        Seq::<char>::empty(),
        |a: Seq<char>, c: Seq<char>|
            if a.len() > 0 {
                a + seq![' '] + c
            } else {
                a + c
            },
    )
}

/// The rest of the arguments, after the sub-command word.
pub open spec fn rest_text(tail: Seq<Seq<char>>) -> Seq<char> {
    joined_args(tail.skip(1))
}

/// Split a command's arguments into the sub-command word and the joined
/// rest; either may be absent.
pub fn parse_command(tail: &Vec<String>) -> (r: (Option<String>, Option<String>))
    ensures
        r.0 is Some <==> tail@.len() > 0,
        r.0 matches Some(h) ==> h@ == tail@[0]@,
        tail@.len() == 0 ==> r.1 is None,
        tail@.len() > 0 ==> match r.1 {
            Some(b) => b@ == rest_text(views_of(tail@)) && b@.len() > 0,
            None => rest_text(views_of(tail@)).len() == 0,
        },
{
    if tail.len() == 0 {
        return (None, None);
    }
    let head = tail[0].clone();
    let ghost ss = views_of(tail@).skip(1);
    let mut acc: Vec<char> = Vec::new();
    let mut i: usize = 1;
    proof {
        assert(ss.take(0) =~= Seq::<Seq<char>>::empty());
    }
    while i < tail.len()
        invariant
            1 <= i <= tail@.len(),
            ss == views_of(tail@).skip(1),
            acc@ == joined_args(ss.take(i - 1)),
        decreases tail@.len() - i,
    {
        proof {
            assert(ss.take(i as int).drop_last() =~= ss.take(i - 1));
            assert(ss.take(i as int).last() == views_of(tail@)[i as int]);
        }
        if acc.len() > 0 {
            acc.push(' ');
        }
        let piece = &tail[i];
        let ghost before = acc@;
        let pv = crate::text::chars_of(piece.as_str());
        let mut j: usize = 0;
        while j < pv.len()
            invariant
                j <= pv@.len(),
                pv@ == tail@[i as int]@,
                acc@ == before + pv@.take(j as int),
            decreases pv@.len() - j,
        {
            proof {
                assert(before + pv@.take(j + 1) =~= (before + pv@.take(j as int)).push(
                    pv@[j as int],
                ));
            }
            acc.push(pv[j]);
            j = j + 1;
        }
        proof {
            assert(before + pv@.take(pv@.len() as int) =~= before + pv@);
            assert(acc@ =~= joined_args(ss.take(i as int)));
        }
        i = i + 1;
    }
    proof {
        assert(ss.take(tail@.len() - 1) =~= ss);
    }
    if acc.len() == 0 {
        (Some(head), None)
    } else {
        (Some(head), Some(string_from_chars(&acc)))
    }
}

/// Whether the sender may manage this command: privileged in the room
/// (moderator or broadcaster), or one of the configured owners.
pub fn is_authorized(is_privileged: bool, owner_ids: &Vec<u64>, owner: i64) -> (r: bool)
    ensures
        r == (is_privileged || exists|i: int|
            0 <= i < owner_ids@.len() && owner_ids@[i] == owner as u64),
{
    if is_privileged {
        return true;
    }
    let mut i: usize = 0;
    while i < owner_ids.len()
        invariant
            i <= owner_ids@.len(),
            forall|j: int| 0 <= j < i ==> owner_ids@[j] != owner as u64,
        decreases owner_ids@.len() - i,
    {
        if owner_ids[i] == owner as u64 {
            return true;
        }
        i = i + 1;
    }
    false
}

/// What a user-defined command handler answers with.
#[derive(Debug)]
pub enum UserDefinedReply {
    ReservedName { command: String },
    AlreadyExists { command: String },
    CommandNotFound { command: String },
    InsufficientPrivilege { command: String },
    MissingHead,
    MissingTail { head: String },
    Added { command: String },
    Edited { command: String },
    Renamed { from: String, to: String },
    Deleted,
    Say { data: String },
    Description { command: String, body: String },
    CreatedAt { owner: String, uses: u64 },
}

/// The `add` flow: both a name and a body must be given; the name must not
/// be reserved or taken in the room; then the command is stored, owned by
/// the sender and created now.
pub fn add_command(
    reg: &mut Registry,
    tail: &Vec<String>,
    room: i64,
    owner: i64,
    now: u64,
) -> (r: UserDefinedReply)
    requires
        old(reg).wf(),
    ensures
        final(reg).wf(),
        final(reg).builtin@ == old(reg).builtin@,
        tail@.len() == 0 ==> r is MissingHead && final(reg).commands@ == old(reg).commands@,
        tail@.len() > 0 && rest_text(views_of(tail@)).len() == 0 ==> {
            &&& r matches UserDefinedReply::MissingTail { head } && head@ == tail@[0]@
            &&& final(reg).commands@ == old(reg).commands@
        },
        tail@.len() > 0 && rest_text(views_of(tail@)).len() > 0 ==> {
            let name = tail@[0]@;
            if crate::user_defined::has_builtin(old(reg).builtin@, name) {
                r matches UserDefinedReply::ReservedName { command } && command@ == name && final(reg).commands@ == old(reg).commands@
            } else if crate::user_defined::has_cmd(old(reg).commands@, name, room) {
                r matches UserDefinedReply::AlreadyExists { command } && command@ == name && final(reg).commands@ == old(reg).commands@
            } else {
                &&& r matches UserDefinedReply::Added { command } && command@ == name
                &&& final(reg).commands@.len() == old(reg).commands@.len() + 1
                &&& final(reg).commands@.drop_last() == old(reg).commands@
                &&& final(reg).commands@.last().name@ == name
                &&& final(reg).commands@.last().body@ == rest_text(views_of(tail@))
                &&& final(reg).commands@.last().room == room
                &&& final(reg).commands@.last().uses == 0
                &&& final(reg).commands@.last().owner == owner
                &&& final(reg).commands@.last().disabled == false
                &&& final(reg).commands@.last().created_at == now
            }
        },
{
    let (head, body) = parse_command(tail);
    let head = match head {
        Some(h) => h,
        None => {
            return UserDefinedReply::MissingHead;
        },
    };
    let body = match body {
        Some(b) => b,
        None => {
            return UserDefinedReply::MissingTail { head };
        },
    };
    let udc = UserDefinedCommand {
        name: head,
        body,
        room,
        uses: 0,
        owner,
        disabled: false,
        created_at: now,
    };
    let reply = match reg.add_user_command(&udc) {
        AddResult::Builtin => UserDefinedReply::ReservedName {
            command: udc.name,
        },
        AddResult::Exists => UserDefinedReply::AlreadyExists {
            command: udc.name,
        },
        AddResult::Okay => UserDefinedReply::Added { command: udc.name },
    };
    proof {
        assert(final(reg).commands@.len() == old(reg).commands@.len() + 1 ==> final(reg).commands@.drop_last() =~= old(reg).commands@);
    }
    reply
}

/// The `edit` flow: both a name and a body must be given, the command must
/// exist in the room, and the sender must be authorized; then the body is
/// rewritten, everything else kept.
pub fn edit_command(
    reg: &mut Registry,
    tail: &Vec<String>,
    room: i64,
    authorized: bool,
) -> (r: UserDefinedReply)
    requires
        old(reg).wf(),
    ensures
        final(reg).wf(),
        final(reg).builtin@ == old(reg).builtin@,
        tail@.len() == 0 ==> r is MissingHead && final(reg).commands@ == old(reg).commands@,
        tail@.len() > 0 && rest_text(views_of(tail@)).len() == 0 ==> {
            &&& r matches UserDefinedReply::MissingTail { head } && head@ == tail@[0]@
            &&& final(reg).commands@ == old(reg).commands@
        },
        tail@.len() > 0 && rest_text(views_of(tail@)).len() > 0 ==> {
            let name = tail@[0]@;
            if !crate::user_defined::has_cmd(old(reg).commands@, name, room) {
                r matches UserDefinedReply::CommandNotFound { command } && command@ == name
                    && final(reg).commands@ == old(reg).commands@
            } else if !authorized {
                r matches UserDefinedReply::InsufficientPrivilege { command } && command@ == name
                    && final(reg).commands@ == old(reg).commands@
            } else {
                &&& r matches UserDefinedReply::Edited { command } && command@ == name
                &&& final(reg).commands@.len() == old(reg).commands@.len()
                &&& forall|j: int|
                    0 <= j < old(reg).commands@.len() ==> {
                        &&& (#[trigger] final(reg).commands@[j]).name@ == old(reg).commands@[j].name@
                        &&& final(reg).commands@[j].room == old(reg).commands@[j].room
                        &&& final(reg).commands@[j].owner == old(reg).commands@[j].owner
                        &&& final(reg).commands@[j].created_at == old(reg).commands@[j].created_at
                        &&& (old(reg).commands@[j].name@ == name ==> final(reg).commands@[j].body@ == rest_text(views_of(tail@)))
                        &&& (old(reg).commands@[j].name@ != name ==> final(reg).commands@[j] == old(reg).commands@[j])
                    }
            }
        },
{
    let (head, body) = parse_command(tail);
    let head = match head {
        Some(h) => h,
        None => {
            return UserDefinedReply::MissingHead;
        },
    };
    let body = match body {
        Some(b) => b,
        None => {
            return UserDefinedReply::MissingTail { head };
        },
    };
    let mut udc = match reg.lookup(head.as_str(), room) {
        Some(udc) => udc,
        None => {
            return UserDefinedReply::CommandNotFound { command: head };
        },
    };
    if !authorized {
        return UserDefinedReply::InsufficientPrivilege { command: head };
    }
    udc.body = body;
    let _ = reg.update(&udc);
    proof {
        assert(udc.name@ == head@);
    }
    UserDefinedReply::Edited { command: head }
}

/// The `delete` flow: a name must be given (a missing one is a voluntary
/// decline), the command must exist in the room, and the sender must be
/// authorized; then the command goes out.
pub fn delete_command(
    reg: &mut Registry,
    tail: &Vec<String>,
    room: i64,
    authorized: bool,
) -> (r: Result<UserDefinedReply, crate::util::HandlerError>)
    requires
        old(reg).wf(),
    ensures
        final(reg).wf(),
        final(reg).builtin@ == old(reg).builtin@,
        tail@.len() == 0 ==> (r matches Err(e) && e is NotInterested && final(reg).commands@ == old(reg).commands@),
        tail@.len() > 0 ==> {
            let name = tail@[0]@;
            if !crate::user_defined::has_cmd(old(reg).commands@, name, room) {
                r matches Ok(UserDefinedReply::CommandNotFound { command }) && command@ == name
                    && final(reg).commands@ == old(reg).commands@
            } else if !authorized {
                r matches Ok(UserDefinedReply::InsufficientPrivilege { command }) && command@
                    == name && final(reg).commands@ == old(reg).commands@
            } else {
                &&& r matches Ok(UserDefinedReply::Deleted)
                &&& exists|i: int|
                    {
                        &&& crate::user_defined::cmd_key_at(old(reg).commands@, i, name, room)
                        &&& final(reg).commands@ == old(reg).commands@.remove(i)
                    }
            }
        },
{
    let (head, _) = parse_command(tail);
    let head = match head {
        Some(h) => h,
        None => {
            return Err(crate::util::HandlerError::NotInterested);
        },
    };
    let udc = match reg.lookup(head.as_str(), room) {
        Some(udc) => udc,
        None => {
            return Ok(UserDefinedReply::CommandNotFound { command: head });
        },
    };
    if !authorized {
        return Ok(UserDefinedReply::InsufficientPrivilege { command: head });
    }
    match reg.remove(&udc) {
        RemoveResult::Missing => Ok(
            UserDefinedReply::CommandNotFound { command: head },
        ),
        RemoveResult::Okay => Ok(UserDefinedReply::Deleted),
    }
}

/// The `info` flow: a name must be given (a missing one is a voluntary
/// decline); an existing command answers with its body and with its
/// owner's display name (or a placeholder when the transport could not
/// resolve one) and use count.
pub fn info_command(
    reg: &Registry,
    tail: &Vec<String>,
    room: i64,
    owner_name: Option<String>,
) -> (r: Result<Vec<UserDefinedReply>, crate::util::HandlerError>)
    ensures
        tail@.len() == 0 ==> (r matches Err(e) && e is NotInterested),
        tail@.len() > 0 ==> {
            let name = tail@[0]@;
            if !crate::user_defined::has_cmd(reg.commands@, name, room) {
                r matches Ok(rs) && rs@.len() == 1 && (rs@[0] matches
                UserDefinedReply::CommandNotFound { command } && command@ == name)
            } else {
                r matches Ok(rs) && rs@.len() == 2 && (rs@[0] matches
                UserDefinedReply::Description { command, body } && command@ == name) && (rs@[1] matches
                UserDefinedReply::CreatedAt { owner, uses } && (match owner_name {
                    Some(n) => owner@ == n@,
                    None => owner@ == "<unknown>"@,
                }))
            }
        },
{
    let (head, _) = parse_command(tail);
    let head = match head {
        Some(h) => h,
        None => {
            return Err(crate::util::HandlerError::NotInterested);
        },
    };
    let cmd = match reg.lookup(head.as_str(), room) {
        Some(c) => c,
        None => {
            let mut rs: Vec<UserDefinedReply> = Vec::new();
            rs.push(UserDefinedReply::CommandNotFound { command: head });
            return Ok(rs);
        },
    };
    let owner = match owner_name {
        Some(n) => n,
        None => "<unknown>".to_owned(),
    };
    let uses: u64 = if cmd.uses >= 0 {
        cmd.uses as u64
    } else {
        0
    };
    let mut rs: Vec<UserDefinedReply> = Vec::new();
    rs.push(UserDefinedReply::Description { command: head, body: cmd.body });
    rs.push(UserDefinedReply::CreatedAt { owner, uses });
    Ok(rs)
}

/// The `rename` flow: both the old name and the new one must be given, the
/// old command must exist in the room, and the sender must be authorized.
/// The renamed record is then written over every command already carrying
/// the new name — exactly one such target must exist, else nothing is
/// renamed and the answer is that the command was not found.
pub fn rename_command(
    reg: &mut Registry,
    tail: &Vec<String>,
    room: i64,
    authorized: bool,
) -> (r: UserDefinedReply)
    requires
        old(reg).wf(),
    ensures
        final(reg).wf(),
        final(reg).builtin@ == old(reg).builtin@,
        tail@.len() == 0 ==> r is MissingHead && final(reg).commands@ == old(reg).commands@,
        tail@.len() > 0 && rest_text(views_of(tail@)).len() == 0 ==> {
            &&& r matches UserDefinedReply::MissingTail { head } && head@ == tail@[0]@
            &&& final(reg).commands@ == old(reg).commands@
        },
        tail@.len() > 0 && rest_text(views_of(tail@)).len() > 0 ==> {
            let from = tail@[0]@;
            let to = rest_text(views_of(tail@));
            if !crate::user_defined::has_cmd(old(reg).commands@, from, room) {
                r matches UserDefinedReply::CommandNotFound { command } && command@ == from
                    && final(reg).commands@ == old(reg).commands@
            } else if !authorized {
                r matches UserDefinedReply::InsufficientPrivilege { command } && command@ == from
                    && final(reg).commands@ == old(reg).commands@
            } else {
                &&& (r matches UserDefinedReply::Renamed { from: f, to: t } ==> f@ == from && t@
                    == to && crate::user_defined::count_named(old(reg).commands@, to) == 1)
                &&& (r matches UserDefinedReply::CommandNotFound { command } ==> command@ == from
                    && crate::user_defined::count_named(old(reg).commands@, to) != 1)
                &&& (r is Renamed || r is CommandNotFound)
            }
        },
{
    let (head, body) = parse_command(tail);
    let head = match head {
        Some(h) => h,
        None => {
            return UserDefinedReply::MissingHead;
        },
    };
    let to = match body {
        Some(b) => b,
        None => {
            return UserDefinedReply::MissingTail { head };
        },
    };
    let mut udc = match reg.lookup(head.as_str(), room) {
        Some(udc) => udc,
        None => {
            return UserDefinedReply::CommandNotFound { command: head };
        },
    };
    if !authorized {
        return UserDefinedReply::InsufficientPrivilege { command: head };
    }
    udc.name = to.clone();
    if reg.update(&udc) {
        UserDefinedReply::Renamed { from: head, to }
    } else {
        UserDefinedReply::CommandNotFound { command: head }
    }
}

/// The first whitespace-delimited token of a raw line, trimmed.
pub open spec fn first_token(data: Seq<char>) -> Seq<char> {
    let cut = match crate::responder::first_index(data, ' ') {
        Some(j) => j as int,
        None => data.len() as int,
    };
    crate::text::trim_spec(data.take(cut))
}

/// Whether the token asks for a user-defined command: the prefix and at
/// least one more character.
pub open spec fn token_is_lookup(tok: Seq<char>) -> bool {
    tok.len() > 1 && tok[0] == '!'
}

/// The passive flow behind user-defined commands: the first token of every
/// line, when it is `!`-prefixed, is looked up as a stored command of the
/// room; a hit answers with the stored body and counts one more use
/// (saturating). Anything else is a voluntary decline.
pub fn passive_command(
    reg: &mut Registry,
    data: &str,
    room: i64,
) -> (r: Result<UserDefinedReply, crate::util::HandlerError>)
    requires
        old(reg).wf(),
    ensures
        final(reg).wf(),
        final(reg).builtin@ == old(reg).builtin@,
        !token_is_lookup(first_token(data@)) ==> (r matches Err(e) && e is NotInterested && final(reg).commands@ == old(reg).commands@),
        token_is_lookup(first_token(data@)) && !crate::user_defined::has_cmd(
            old(reg).commands@,
            first_token(data@),
            room,
        ) ==> (r matches Err(e) && e is NotInterested && final(reg).commands@ == old(reg).commands@),
        token_is_lookup(first_token(data@)) && crate::user_defined::has_cmd(
            old(reg).commands@,
            first_token(data@),
            room,
        ) ==> {
            let tok = first_token(data@);
            &&& (r matches Ok(UserDefinedReply::Say { data: body }) && exists|i: int|
                crate::user_defined::cmd_key_at(old(reg).commands@, i, tok, room) && body@ == old(reg).commands@[i].body@)
            &&& final(reg).commands@.len() == old(reg).commands@.len()
            &&& forall|j: int|
                0 <= j < old(reg).commands@.len() ==> {
                    &&& (#[trigger] final(reg).commands@[j]).name@ == old(reg).commands@[j].name@
                    &&& final(reg).commands@[j].room == old(reg).commands@[j].room
                    &&& (old(reg).commands@[j].name@ != tok ==> final(reg).commands@[j] == old(reg).commands@[j])
                }
        },
{
    let cs = crate::text::chars_of(data);
    let n = cs.len();
    let mut k: usize = 0;
    while k < n && cs[k] != ' '
        invariant
            k <= n,
            n == cs@.len(),
            forall|j: int| 0 <= j < k ==> cs@[j] != ' ',
        decreases n - k,
    {
        k = k + 1;
    }
    proof {
        crate::responder::lemma_first_index(cs@, ' ', k as nat);
    }
    let mut piece: Vec<char> = Vec::new();
    let mut p: usize = 0;
    while p < k
        invariant
            p <= k <= n,
            n == cs@.len(),
            piece@ == cs@.take(p as int).take(p as int),
            piece@ == cs@.take(k as int).take(p as int),
        decreases k - p,
    {
        proof {
            assert(cs@.take(k as int).take(p + 1) =~= cs@.take(k as int).take(p as int).push(
                cs@[p as int],
            ));
            assert(cs@.take(p + 1).take(p + 1) =~= cs@.take(k as int).take(p + 1));
        }
        piece.push(cs[p]);
        p = p + 1;
    }
    proof {
        assert(cs@.take(k as int).take(k as int) =~= cs@.take(k as int));
    }
    let tok_chars = crate::text::trim_chars(&piece);
    proof {
        assert(tok_chars@ == first_token(data@));
    }
    if tok_chars.len() <= 1 {
        return Err(crate::util::HandlerError::NotInterested);
    }
    if tok_chars[0] != '!' {
        return Err(crate::util::HandlerError::NotInterested);
    }
    let tok = string_from_chars(&tok_chars);
    let mut udc = match reg.lookup(tok.as_str(), room) {
        Some(udc) => udc,
        None => {
            return Err(crate::util::HandlerError::NotInterested);
        },
    };
    let body = udc.body.clone();
    if udc.uses < i32::MAX {
        udc.uses = udc.uses + 1;
    }
    let _ = reg.update(&udc);
    Ok(UserDefinedReply::Say { data: body })
}

/// One answer of the crate-lookup command.
pub enum CrateReply {
    NotExact { name: String, version: String },
    CrateVers { name: String, version: String },
    Links { repo: String, docs: String },
    Description { description: String },
    Unknown { name: String },
    NoCrate,
}

/// One crate of the index answer, as plain values.
pub struct CrateInfo {
    pub name: String,
    pub max_version: String,
    pub description: Option<String>,
    pub documentation: Option<String>,
    pub repository: Option<String>,
    pub exact_match: bool,
}

/// Whether position `i` holds the first exact match of the answer.
pub open spec fn first_exact_at(cs: Seq<CrateInfo>, i: int) -> bool {
    &&& 0 <= i < cs.len()
    &&& cs[i].exact_match
    &&& forall|j: int| 0 <= j < i ==> !cs[j].exact_match
}

/// The position of the first exact match, if any.
pub open spec fn first_exact(cs: Seq<CrateInfo>) -> Option<int>
    decreases cs.len(),
{
    if cs.len() == 0 {
        None
    } else if cs[0].exact_match {
        Some(0)
    } else {
        match first_exact(cs.drop_first()) {
            Some(i) => Some(i + 1),
            None => None,
        }
    }
}

/// The crate the answer is about: the first exact match, or the first hit.
pub open spec fn picked(cs: Seq<CrateInfo>) -> int {
    match first_exact(cs) {
        Some(i) => i,
        None => 0,
    }
}

proof fn lemma_first_exact(cs: Seq<CrateInfo>, k: nat)
    requires
        k <= cs.len(),
        forall|j: int| 0 <= j < k ==> !cs[j].exact_match,
        k < cs.len() ==> cs[k as int].exact_match,
    ensures
        first_exact(cs) == if k < cs.len() {
            Some(k as int)
        } else {
            None::<int>
        },
    decreases cs.len(),
{
    if cs.len() > 0 && k > 0 {
        assert(forall|j: int| 0 <= j < k - 1 ==> cs.drop_first()[j] == cs[j + 1]);
        lemma_first_exact(cs.drop_first(), (k - 1) as nat);
    }
}

/// The newlines of a description flattened to spaces.
pub open spec fn flattened(s: Seq<char>) -> Seq<char> {
    s.map_values(
        |c: char|
            if c == '\n' {
                ' '
            } else {
                c
            },
    )
}

/// What the crate-lookup command answers from the index's reply: nothing
/// known under the name; or the first exact match (or, failing one, the
/// first hit, marked as not exact) with its version, then its description
/// with newlines flattened when it has one, then its links when it has
/// both.
pub fn crate_responses(arg: &str, crates: &Vec<CrateInfo>) -> (r: Vec<CrateReply>)
    ensures
        crates@.len() == 0 ==> r@.len() == 1 && (r@[0] matches CrateReply::Unknown { name }
            && name@ == arg@),
        crates@.len() > 0 ==> ({
            let i = picked(crates@);
            &&& r@.len() >= 1
            &&& (crates@[i].exact_match ==> (r@[0] matches CrateReply::CrateVers {
                name,
                version,
            } && name@ == crates@[i].name@ && version@ == crates@[i].max_version@))
            &&& (!crates@[i].exact_match ==> (r@[0] matches CrateReply::NotExact {
                name,
                version,
            } && name@ == crates@[i].name@ && version@ == crates@[i].max_version@))
            &&& (crates@[i].description matches Some(d) ==> r@.len() >= 2 && (r@[1] matches
            CrateReply::Description { description } && description@ == flattened(d@)))
            &&& (crates@[i].description is None && !(crates@[i].documentation is Some
                && crates@[i].repository is Some) ==> r@.len() == 1)
            &&& ((crates@[i].documentation is Some && crates@[i].repository is Some) ==> (
            r@.last() matches CrateReply::Links { repo: rp, docs: dc } && rp@
                == crates@[i].repository->0@ && dc@ == crates@[i].documentation->0@ && r@.len()
                == (if crates@[i].description is Some {
                3int
            } else {
                2int
            })))
        }),
{
    let mut r: Vec<CrateReply> = Vec::new();
    if crates.len() == 0 {
        r.push(CrateReply::Unknown { name: arg.to_owned() });
        return r;
    }
    let mut i: usize = 0;
    let mut found: Option<usize> = None;
    while i < crates.len() && found.is_none()
        invariant
            i <= crates@.len(),
            match found {
                Some(f) => first_exact_at(crates@, f as int),
                None => forall|j: int| 0 <= j < i ==> !crates@[j].exact_match,
            },
        decreases crates@.len() - i + (if found is None { 1int } else { 0int }),
    {
        if crates[i].exact_match {
            found = Some(i);
        } else {
            i = i + 1;
        }
    }
    let pick = match found {
        Some(f) => f,
        None => 0,
    };
    let c = &crates[pick];
    if c.exact_match {
        r.push(
            CrateReply::CrateVers { name: c.name.clone(), version: c.max_version.clone() },
        );
    } else {
        r.push(
            CrateReply::NotExact { name: c.name.clone(), version: c.max_version.clone() },
        );
    }
    match &c.description {
        Some(d) => {
            let cs = crate::text::chars_of(d.as_str());
            let mut flat: Vec<char> = Vec::new();
            let mut p: usize = 0;
            while p < cs.len()
                invariant
                    p <= cs@.len(),
                    flat@ == flattened(cs@.take(p as int)),
                decreases cs@.len() - p,
            {
                proof {
                    assert(flattened(cs@.take(p + 1)) =~= flattened(cs@.take(p as int)).push(
                        (if cs@[p as int] == '\n' {
                            ' '
                        } else {
                            cs@[p as int]
                        }),
                    ));
                }
                if cs[p] == '\n' {
                    flat.push(' ');
                } else {
                    flat.push(cs[p]);
                }
                p = p + 1;
            }
            proof {
                assert(cs@.take(cs@.len() as int) =~= cs@);
            }
            r.push(CrateReply::Description { description: string_from_chars(&flat) });
        },
        None => {},
    }
    match (&c.documentation, &c.repository) {
        (Some(docs), Some(repo)) => {
            r.push(CrateReply::Links { repo: repo.clone(), docs: docs.clone() });
        },
        _ => {},
    }
    proof {
        let w = pick as int;
        match found {
            Some(f) => {
                lemma_first_exact(crates@, f as nat);
            },
            None => {
                lemma_first_exact(crates@, crates@.len());
            },
        }
        assert(w == picked(crates@));
    }
    r
}

/// Whether the line opens by addressing `name`: an `@` and then the name
/// itself.
pub open spec fn mentions_spec(data: Seq<char>, name: Seq<char>) -> bool {
    &&& data.len() >= name.len() + 1
    &&& data[0] == '@'
    &&& data.subrange(1, name.len() as int + 1) == name
}

/// Whether the line opens by addressing `name`.
pub fn mentions(data: &str, name: &str) -> (r: bool)
    ensures
        r == mentions_spec(data@, name@),
{
    let cs = crate::text::chars_of(data);
    let ns = crate::text::chars_of(name);
    if cs.len() < 1 || ns.len() > cs.len() - 1 {
        return false;
    }
    if cs[0] != '@' {
        return false;
    }
    let mut i: usize = 0;
    while i < ns.len()
        invariant
            i <= ns@.len(),
            ns@.len() + 1 <= cs@.len(),
            cs@ == data@,
            ns@ == name@,
            cs@[0] == '@',
            forall|j: int| 0 <= j < i ==> cs@[j + 1] == ns@[j],
        decreases ns@.len() - i,
    {
        if cs[i + 1] != ns[i] {
            proof {
                assert(data@.subrange(1, name@.len() as int + 1)[i as int] == cs@[i + 1]);
            }
            return false;
        }
        i = i + 1;
    }
    proof {
        assert(data@.subrange(1, name@.len() as int + 1) =~= name@);
    }
    true
}

/// The forced speak flow: the room must be whitelisted (anything else is a
/// voluntary decline), and the cooldown must have elapsed. A success
/// commits the fire before the content generation runs; the caller then
/// performs that outside call and surfaces its result.
pub fn speak_command(
    gate: &mut crate::cooldown::CooldownGate,
    whitelist: &Vec<String>,
    room: &crate::event::Room,
    now: u64,
) -> (r: Result<(), crate::util::HandlerError>)
    ensures
        r is Ok <==> (crate::event::on_list_spec(whitelist@, room.name@, room.id) && old(
            gate,
        ).forced_open(now)),
        r is Ok ==> *final(gate) == old(gate).fired_at(now),
        r matches Err(e) ==> *final(gate) == *old(gate) && e is NotInterested,
{
    crate::event::check_list(whitelist, room.name.as_str(), room.id)?;
    match gate.trigger(now) {
        crate::cooldown::CooldownOutcome::Fired => Ok(()),
        crate::cooldown::CooldownOutcome::Cooling => Err(
            crate::util::HandlerError::NotInterested,
        ),
    }
}

/// The passive speak flow: the room must be whitelisted; a line that opens
/// by addressing the bot forces the cooldown check, anything else takes
/// the chance-and-quiet path. A success commits the fire before the
/// content generation runs.
pub fn speak_passive(
    gate: &mut crate::cooldown::CooldownGate,
    whitelist: &Vec<String>,
    room: &crate::event::Room,
    data: &str,
    our_name: &str,
    now: u64,
) -> (r: Result<(), crate::util::HandlerError>)
    requires
        old(gate).wf(),
    ensures
        r is Ok ==> *final(gate) == old(gate).fired_at(now),
        r matches Err(e) ==> *final(gate) == *old(gate) && e is NotInterested,
        !crate::event::on_list_spec(whitelist@, room.name@, room.id) ==> r is Err,
        crate::event::on_list_spec(whitelist@, room.name@, room.id) && mentions_spec(
            data@,
            our_name@,
        ) ==> (r is Ok <==> old(gate).forced_open(now)),
        crate::event::on_list_spec(whitelist@, room.name@, room.id) && !mentions_spec(
            data@,
            our_name@,
        ) ==> {
            &&& (old(gate).quiet_open(now) ==> r is Ok)
            &&& (old(gate).chance_ppm == crate::cooldown::CHANCE_DENOMINATOR && old(
                gate,
            ).forced_open(now) ==> r is Ok)
            &&& (!old(gate).quiet_open(now) && old(gate).chance_ppm == 0 ==> r is Err)
            &&& (!old(gate).quiet_open(now) && !old(gate).forced_open(now) ==> r is Err)
        },
{
    crate::event::check_list(whitelist, room.name.as_str(), room.id)?;
    if mentions(data, our_name) {
        match gate.trigger(now) {
            crate::cooldown::CooldownOutcome::Fired => Ok(()),
            crate::cooldown::CooldownOutcome::Cooling => Err(
                crate::util::HandlerError::NotInterested,
            ),
        }
    } else {
        if gate.passive_entropy(now) {
            Ok(())
        } else {
            Err(crate::util::HandlerError::NotInterested)
        }
    }
}

} // verus!
