use shaken::Command;
use shaken::CommandMap;
use shaken::DebounceQueue;
use shaken::InboundEvent;
use shaken::LiveConfig;
use shaken::ConfigSubscription;
use shaken::MissingDependency;
use shaken::PassiveList;
use shaken::ResponseTemplate;
use shaken::Room;
use shaken::State;
use shaken::TemplateResolver;
use shaken::User;
use shaken::WriterResponder;
use shaken::route_event;
use shaken::run_hello;

fn event(room_id: Option<u64>, user_id: Option<u64>, text: &str) -> InboundEvent {
    InboundEvent {
        room_id,
        room_name: "#museun".to_string(),
        user_id,
        user_name: "museun".to_string(),
        data: text.to_string(),
        is_privileged: false,
    }
}

#[test]
fn classify_requires_prefix() {
    // texts that do not start with the command prefix never classify as a
    // command, whatever else they hold
    for text in ["hello there", "x!y", "plain", "", "?cmd a b"] {
        assert!(Command::parse(&event(Some(1), Some(2), text)).is_none());
    }
    // and a missing identity drops even a command-shaped text
    assert!(Command::parse(&event(None, Some(2), "!x a")).is_none());
    assert!(Command::parse(&event(Some(1), None, "!x a")).is_none());
}

#[test]
fn parse_head_and_tail() {
    let cmd = Command::parse(&event(Some(1), Some(2), "!x a b c")).unwrap();
    assert_eq!(cmd.head, "x");
    assert_eq!(cmd.tail, vec!["a".to_string(), "b".to_string(), "c".to_string()]);
    assert_eq!(cmd.join_tail().unwrap(), "abc");

    let cmd = Command::parse(&event(Some(1), Some(2), "!x")).unwrap();
    assert_eq!(cmd.head, "x");
    assert!(cmd.tail.is_empty());
    assert!(cmd.join_tail().is_none());

    // a bare prefix, or an empty head token, is no command
    assert!(Command::parse(&event(Some(1), Some(2), "!")).is_none());
    assert!(Command::parse(&event(Some(1), Some(2), "! x")).is_none());

    // surrounding whitespace is trimmed before classification
    let cmd = Command::parse(&event(Some(1), Some(2), "  !x a  ")).unwrap();
    assert_eq!(cmd.head, "x");
    assert_eq!(cmd.tail, vec!["a".to_string()]);
}

#[test]
fn find_keeps_registration_order() {
    let mut map: CommandMap<u32> = CommandMap::new();
    let a = map.add("greet", 10);
    let _b = map.add("other", 20);
    let c = map.add("greet", 30);

    let found = map.find("greet");
    assert_eq!(found.len(), 2);
    assert_eq!(found[0].id, a);
    assert_eq!(found[0].handler, 10);
    assert_eq!(found[1].id, c);
    assert_eq!(found[1].handler, 30);

    // no match is an empty list, never an error
    assert!(map.find("missing").is_empty());

    // removal by id retires one of two handlers sharing a trigger
    assert!(map.remove(a));
    let found = map.find("greet");
    assert_eq!(found.len(), 1);
    assert_eq!(found[0].id, c);
    assert!(!map.remove(a));
}

#[test]
fn state_singleton_per_key() {
    let mut state: State<String> = State::new();
    assert!(state.insert(7, "first".to_string()));
    assert!(!state.insert(7, "second".to_string()));

    // exactly one value is retrievable under the key: the second
    assert_eq!(state.get(7).unwrap().as_str(), "second");

    // a key never inserted reads as absent, and as a missing dependency
    assert!(state.get(8).is_none());
    assert_eq!(state.expect_get(8).unwrap_err(), MissingDependency { key: 8 });

    // writing through the mutable accessor sticks
    *state.get_mut(7).unwrap() = "third".to_string();
    assert_eq!(state.expect_get(7).unwrap().as_str(), "third");
    assert!(state.expect_get_mut(9).is_err());
}

#[test]
fn debounce_collapses_bursts() {
    let mut queue: DebounceQueue<String> = DebounceQueue::new(5, 0);
    let mut live: LiveConfig<String> = LiveConfig::new("initial".to_string());

    queue.push("one".to_string(), 1);
    queue.push("two".to_string(), 2);
    queue.push("three".to_string(), 3);

    // a tick while the window is open neither yields nor drops anything
    assert!(queue.force(8).is_none());

    // the settling tick yields only the most recent path
    let settled = queue.force(9).unwrap();
    assert_eq!(settled, "three");
    live.publish(format!("parsed:{}", settled));

    // nothing is left: no second re-parse, no second publish
    assert!(queue.force(9).is_none());
    assert_eq!(live.version, 1);
    assert_eq!(live.current().as_str(), "parsed:three");
}

#[test]
fn late_subscriber_sees_only_current() {
    let mut live: LiveConfig<u64> = LiveConfig::new(0);
    live.publish(1);
    live.publish(2);
    let mut sub = ConfigSubscription::subscribe(&live);
    assert!(!sub.is_stale(&live));
    assert_eq!(*sub.next(&live), 2);
    live.publish(3);
    assert!(sub.is_stale(&live));
    assert_eq!(*sub.next(&live), 3);
    assert!(!sub.is_stale(&live));
}

#[test]
fn reply_prefixes_display_name() {
    let mut resolver = TemplateResolver::new();
    resolver.add("misc", "greeting", "hi");
    let mut responder = WriterResponder::new(resolver);

    let room = Room { name: "#museun".to_string(), id: 1 };
    let user = User { name: "Bob".to_string(), id: 2 };
    let t = ResponseTemplate {
        namespace: "misc".to_string(),
        variant: "greeting".to_string(),
        data: Vec::new(),
    };
    responder.reply(&room, &user, &t).unwrap();

    let out = responder.take_outbound();
    assert_eq!(out.len(), 1);
    assert_eq!(out[0].text, "@Bob: hi");
    assert_eq!(out[0].room, "#museun");
    assert!(!out[0].action);
}

#[test]
fn end_to_end_hello() {
    #[derive(Clone, Copy, PartialEq, Debug)]
    enum Tag {
        Hello,
    }

    let mut map: CommandMap<Tag> = CommandMap::new();
    map.add("hello", Tag::Hello);
    let passives: PassiveList<Tag> = PassiveList::new();

    let mut resolver = TemplateResolver::new();
    resolver.add("hello", "hello", "hello ${name}");
    let mut responder = WriterResponder::new(resolver);

    let ev = InboundEvent {
        room_id: Some(1),
        room_name: "#room".to_string(),
        user_id: Some(2),
        user_name: "B".to_string(),
        data: "!hello".to_string(),
        is_privileged: false,
    };

    let routed = route_event(&map, &passives, &ev);
    let (cmd, matched) = routed.command.unwrap();
    assert_eq!(cmd.room_id, 1);
    assert_eq!(cmd.user_id, 2);
    assert_eq!(matched.len(), 1);
    assert_eq!(matched[0].handler, Tag::Hello);

    for m in &matched {
        match m.handler {
            Tag::Hello => run_hello(&cmd, &mut responder).unwrap(),
        }
    }

    // exactly one outbound reply, addressed to user 2 in room 1
    let out = responder.take_outbound();
    assert_eq!(out.len(), 1);
    assert_eq!(out[0].room, "#room");
    assert_eq!(out[0].text, "@B: hello B");
    assert!(!out[0].action);
}

#[test]
fn null_responder_always_succeeds() {
    let mut responder = shaken::NullResponder::default();
    let room = Room { name: "#r".to_string(), id: 1 };
    let user = User { name: "U".to_string(), id: 2 };
    let t = ResponseTemplate {
        namespace: "nowhere".to_string(),
        variant: "nothing".to_string(),
        data: Vec::new(),
    };
    assert!(responder.say(&room, &t).is_ok());
    assert!(responder.reply(&room, &user, &t).is_ok());
    assert!(responder.action(&room, &t).is_ok());
}

#[test]
fn logging_responder_preserves_outcomes() {
    let mut resolver = TemplateResolver::new();
    resolver.add("misc", "greeting", "hi");
    let mut logging = shaken::LoggingResponder::new(WriterResponder::new(resolver));

    let room = Room { name: "#r".to_string(), id: 1 };
    let user = User { name: "Bob".to_string(), id: 2 };
    let good = ResponseTemplate {
        namespace: "misc".to_string(),
        variant: "greeting".to_string(),
        data: Vec::new(),
    };
    let bad = ResponseTemplate {
        namespace: "misc".to_string(),
        variant: "absent".to_string(),
        data: Vec::new(),
    };

    assert!(logging.say(&room, &good).is_ok());
    assert!(logging.reply(&room, &user, &good).is_ok());
    assert!(logging.action(&room, &good).is_ok());
    assert!(logging.say(&room, &bad).is_err());
    assert!(logging.reply(&room, &user, &bad).is_err());

    let out = logging.inner.take_outbound();
    assert_eq!(out.len(), 3);
    assert_eq!(out[0].text, "hi");
    assert_eq!(out[1].text, "@Bob: hi");
    assert!(out[2].action);
}

#[test]
fn default_configuration() {
    let config = shaken::Config::default();
    assert_eq!(config.user_name, "shaken_bot");
    assert!(config.rooms.is_empty());
    assert_eq!(config.shakespeare.chance_ppm, 500_000);
    assert_eq!(config.shakespeare.quiet, 300);
    assert_eq!(config.shakespeare.interval, 30);
    assert_eq!(config.shakespeare.address, "http://localhost:9090");
    assert_eq!(config.whatsong.address, "http://localhost:58810");
}
