//! The dispatch step: classify one inbound event and select the handlers
//! it fans out to — the registrations sharing the command's head trigger,
//! in registration order, and every passive registration. The spawning of
//! the selected handlers as concurrent work, and the outside work they do,
//! live at the transport edge; the built-in greeting handler is pure and
//! runs here.

use vstd::prelude::*;

use crate::command::Command;
use crate::command::Passive;
use crate::command::command_tokens;
use crate::command::parses_to_command;
use crate::command::views_of;
use crate::event::InboundEvent;
use crate::registry::CommandMap;
use crate::registry::PassiveList;
use crate::registry::WrappedCommand;
use crate::registry::WrappedPassive;
use crate::registry::matching_commands;
use crate::responder::ResponseTemplate;
use crate::responder::WriterResponder;
use crate::responder::render_spec;
use crate::responder::reply_prefixed;
use crate::responder::store_views;
use crate::util::HandlerError;

verus! {

/// Where one inbound event goes: the command handlers that its head
/// trigger selects (when it is command-shaped), and the passive handlers
/// (when its identity is known). One event may fan out to both.
pub struct RoutedEvent<H> {
    pub command: Option<(Command, Vec<WrappedCommand<H>>)>,
    pub passive: Option<(Passive, Vec<WrappedPassive<H>>)>,
}

/// Classify one event and select the handlers to invoke, in registration
/// order. An event that is neither command-shaped nor carries a known
/// identity selects nothing and is silently dropped.
pub fn route_event<H: Copy>(
    map: &CommandMap<H>,
    passives: &PassiveList<H>,
    ev: &InboundEvent,
) -> (r: RoutedEvent<H>)
    ensures
        r.command is Some <==> parses_to_command(*ev),
        r.command matches Some((c, ws)) ==> {
            &&& c.head@ == command_tokens(ev.data@)[0]
            &&& views_of(c.tail@) == command_tokens(ev.data@).skip(1)
            &&& c.data@ == ev.data@
            &&& c.room_id == ev.room_id->0
            &&& c.room_name == ev.room_name
            &&& c.user_id == ev.user_id->0
            &&& c.user_name == ev.user_name
            &&& ws@ == matching_commands(map.inner@, c.head@)
        },
        r.passive is Some <==> ev.room_id is Some && ev.user_id is Some,
        r.passive matches Some((p, ws)) ==> {
            &&& p.data@ == ev.data@
            &&& p.room_id == ev.room_id->0
            &&& p.room_name == ev.room_name
            &&& p.user_id == ev.user_id->0
            &&& p.user_name == ev.user_name
            &&& ws@ == passives.inner@
        },
{
    let command = match Command::parse(ev) {
        Some(c) => {
            let ws = map.find(c.head.as_str());
            Some((c, ws))
        },
        None => None,
    };
    let passive = match Passive::new(ev) {
        Some(p) => {
            let mut ws: Vec<WrappedPassive<H>> = Vec::new();
            let list = passives.iter();
            let mut i: usize = 0;
            while i < list.len()
                invariant
                    i <= list@.len(),
                    list@ == passives.inner@,
                    ws@ == passives.inner@.take(i as int),
                decreases list@.len() - i,
            {
                proof {
                    assert(passives.inner@.take(i + 1) =~= passives.inner@.take(i as int).push(
                        passives.inner@[i as int],
                    ));
                }
                ws.push(list[i]);
                i = i + 1;
            }
            proof {
                assert(passives.inner@.take(passives.inner@.len() as int) =~= passives.inner@);
            }
            Some((p, ws))
        },
        None => None,
    };
    RoutedEvent { command, passive }
}

/// The built-in greeting handler: replies to the sender, greeting them by
/// their display name through the `hello` template.
pub fn run_hello(cmd: &Command, responder: &mut WriterResponder) -> (r: Result<(), HandlerError>)
    ensures
        ({
            let t_outcome = render_spec(
                store_views(old(responder).resolver.entries@),
                "hello"@,
                "hello"@,
                seq![("name"@, cmd.user_name@)],
            );
            &&& (r is Ok <==> t_outcome is Ok)
            &&& final(responder).resolver == old(responder).resolver
            &&& (r is Ok ==> {
                &&& final(responder).queue@.len() == old(responder).queue@.len() + 1
                &&& final(responder).queue@.drop_last() == old(responder).queue@
                &&& final(responder).queue@.last().room@ == cmd.room_name@
                &&& final(responder).queue@.last().text@ == reply_prefixed(
                    cmd.user_name@,
                    t_outcome->Ok_0,
                )
                &&& final(responder).queue@.last().action == false
            })
            &&& (r is Err ==> *final(responder) == *old(responder))
        }),
{
    let user = cmd.user();
    let room = cmd.room();
    let mut data: Vec<(String, String)> = Vec::new();
    data.push(("name".to_owned(), user.name.clone()));
    let t = ResponseTemplate {
        namespace: "hello".to_owned(),
        variant: "hello".to_owned(),
        data,
    };
    proof {
        assert(crate::responder::pair_views(t.data@) =~= seq![("name"@, cmd.user_name@)]);
    }
    match responder.reply(&room, &user, &t) {
        Ok(()) => Ok(()),
        Err(e) => Err(HandlerError::from_responder(e)),
    }
}

} // verus!
