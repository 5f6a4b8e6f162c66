use shaken::CooldownGate;
use shaken::HandlerError;
use shaken::Room;
use shaken::Registry;
use shaken::Tracker;
use shaken::UserDefinedReply;
use shaken::add_command;
use shaken::delete_command;
use shaken::edit_command;
use shaken::from_str;
use shaken::info_command;
use shaken::is_authorized;
use shaken::mentions;
use shaken::rename_command;
use shaken::speak_command;
use shaken::speak_passive;
use shaken::twitch::Stream;
use shaken::twitch::find_stream;
use shaken::twitch::stream_uptime;
use shaken::twitch::viewer_count_for;

fn args(parts: &[&str]) -> Vec<String> {
    parts.iter().map(|s| s.to_string()).collect()
}

#[test]
fn edit_rewrites_only_the_body() {
    let mut reg = Registry::new();
    add_command(&mut reg, &args(&["greet", "old text"]), 1, 42, 0);

    // only an authorized sender may edit
    let reply = edit_command(&mut reg, &args(&["greet", "new text"]), 1, false);
    assert!(matches!(reply, UserDefinedReply::InsufficientPrivilege { .. }));
    assert_eq!(reg.lookup("greet", 1).unwrap().body, "old text");

    let reply = edit_command(&mut reg, &args(&["greet", "new text"]), 1, true);
    assert!(matches!(reply, UserDefinedReply::Edited { .. }));
    let after = reg.lookup("greet", 1).unwrap();
    assert_eq!(after.body, "new text");
    assert_eq!(after.owner, 42);

    // an unknown command cannot be edited
    let reply = edit_command(&mut reg, &args(&["missing", "text"]), 1, true);
    assert!(matches!(reply, UserDefinedReply::CommandNotFound { .. }));

    // half-given arguments are reported, not stored
    let reply = edit_command(&mut reg, &args(&["greet"]), 1, true);
    assert!(matches!(reply, UserDefinedReply::MissingTail { .. }));
    let reply = edit_command(&mut reg, &Vec::new(), 1, true);
    assert!(matches!(reply, UserDefinedReply::MissingHead));
}

#[test]
fn delete_needs_authority() {
    let mut reg = Registry::new();
    add_command(&mut reg, &args(&["bye", "goodbye"]), 1, 42, 0);

    let reply = delete_command(&mut reg, &args(&["bye"]), 1, false).unwrap();
    assert!(matches!(reply, UserDefinedReply::InsufficientPrivilege { .. }));
    assert!(reg.lookup("bye", 1).is_some());

    let reply = delete_command(&mut reg, &args(&["bye"]), 1, true).unwrap();
    assert!(matches!(reply, UserDefinedReply::Deleted));
    assert!(reg.lookup("bye", 1).is_none());

    // a missing name is a voluntary decline
    let declined = delete_command(&mut reg, &Vec::new(), 1, true).unwrap_err();
    assert!(matches!(declined, HandlerError::NotInterested));
}

#[test]
fn info_describes_the_command() {
    let mut reg = Registry::new();
    add_command(&mut reg, &args(&["greet", "hello there"]), 1, 42, 0);

    let rs = info_command(&reg, &args(&["greet"]), 1, Some("museun".to_string())).unwrap();
    assert_eq!(rs.len(), 2);
    assert!(
        matches!(&rs[0], UserDefinedReply::Description { command, body } if command == "greet" && body == "hello there")
    );
    assert!(
        matches!(&rs[1], UserDefinedReply::CreatedAt { owner, uses } if owner == "museun" && *uses == 0)
    );

    // an unresolved owner reads as the placeholder
    let rs = info_command(&reg, &args(&["greet"]), 1, None).unwrap();
    assert!(matches!(&rs[1], UserDefinedReply::CreatedAt { owner, .. } if owner == "<unknown>"));

    let rs = info_command(&reg, &args(&["missing"]), 1, None).unwrap();
    assert_eq!(rs.len(), 1);
    assert!(matches!(&rs[0], UserDefinedReply::CommandNotFound { .. }));
}

#[test]
fn rename_writes_over_the_target_name() {
    let mut reg = Registry::new();
    add_command(&mut reg, &args(&["old", "body"]), 1, 42, 0);

    // no command carries the new name yet, so the update finds nothing
    let reply = rename_command(&mut reg, &args(&["old", "new"]), 1, true);
    assert!(matches!(reply, UserDefinedReply::CommandNotFound { .. }));

    // with exactly one command already named as the target, the renamed
    // record is written over it
    add_command(&mut reg, &args(&["new", "other body"]), 1, 42, 0);
    let reply = rename_command(&mut reg, &args(&["old", "new"]), 1, true);
    assert!(matches!(&reply, UserDefinedReply::Renamed { from, to } if from == "old" && to == "new"));
    assert_eq!(reg.lookup("new", 1).unwrap().body, "body");
}

#[test]
fn reserve_many_is_atomic() {
    let mut reg = Registry::new();
    reg.reserve("taken").unwrap();
    // the batch repeats a reserved name: nothing of it goes in
    let err = reg.reserve_many(&args(&["fresh", "taken", "other"])).unwrap_err();
    assert_eq!(err.name, "taken");
    assert_eq!(reg.all_builtin().len(), 1);
}

#[test]
fn disable_shadowed_turns_conflicts_off() {
    let mut reg = Registry::new();
    add_command(&mut reg, &args(&["speak", "something"]), 1, 42, 0);
    add_command(&mut reg, &args(&["fine", "something"]), 1, 42, 0);
    reg.reserve("speak").unwrap();
    reg.disable_shadowed();
    assert!(reg.lookup("speak", 1).unwrap().disabled);
    assert!(!reg.lookup("fine", 1).unwrap().disabled);
}

#[test]
fn authorization_rule() {
    let owners = vec![100u64, 200u64];
    assert!(is_authorized(true, &owners, 7));
    assert!(is_authorized(false, &owners, 200));
    assert!(!is_authorized(false, &owners, 7));
    assert!(!is_authorized(false, &Vec::new(), 7));
}

#[test]
fn stream_decisions() {
    let streams = vec![
        Stream {
            id: 1,
            user_id: 10,
            user_name: "a".to_string(),
            game_id: 0,
            type_: Some("live".to_string()),
            title: "t".to_string(),
            viewer_count: 3,
            started_at: 1_000,
        },
        Stream {
            id: 2,
            user_id: 20,
            user_name: "b".to_string(),
            game_id: 0,
            type_: None,
            title: "u".to_string(),
            viewer_count: 9,
            started_at: 2_000,
        },
    ];
    assert_eq!(find_stream(&streams, 20), Some(1));
    assert_eq!(find_stream(&streams, 30), None);
    assert_eq!(stream_uptime(&streams, 10, 1_500), Some(500));
    assert_eq!(stream_uptime(&streams, 30, 1_500), None);
    assert_eq!(viewer_count_for(&streams, 20), Some(9));
    assert_eq!(viewer_count_for(&streams, 30), None);
}

#[test]
fn from_str_reads_decimal() {
    assert_eq!(from_str("0"), Some(0));
    assert_eq!(from_str("23984"), Some(23984));
    assert_eq!(from_str("007"), Some(7));
    assert_eq!(from_str(""), None);
    assert_eq!(from_str("12a"), None);
    assert_eq!(from_str("-3"), None);
    assert_eq!(from_str("18446744073709551615"), Some(u64::MAX));
    assert_eq!(from_str("18446744073709551616"), None);
}

#[test]
fn tracker_keeps_latest_name() {
    let mut tracker = Tracker::new();
    tracker.users.set(10, "old");
    tracker.users.set(10, "new");
    tracker.rooms.extend(&vec![(1, "#a".to_string()), (2, "#b".to_string())]);
    assert_eq!(tracker.users.get(10).unwrap(), "new");
    assert!(tracker.users.get(11).is_none());
    assert_eq!(tracker.rooms.get(2).unwrap(), "#b");
}

#[test]
fn speak_flows() {
    let whitelist = vec!["museun".to_string()];
    let on = Room { name: "museun".to_string(), id: 1 };
    let off = Room { name: "other".to_string(), id: 2 };

    let mut gate = CooldownGate::new(10, 30, 0);

    // a room off the whitelist is a voluntary decline, gate untouched
    assert!(speak_command(&mut gate, &whitelist, &off, 0).is_err());

    // the first forced trigger fires; the next one is still cooling
    assert!(speak_command(&mut gate, &whitelist, &on, 0).is_ok());
    assert!(speak_command(&mut gate, &whitelist, &on, 5).is_err());

    // addressing the bot forces the cooldown check on the passive path
    assert!(mentions("@shaken_bot hi", "shaken_bot"));
    assert!(!mentions("shaken_bot hi", "shaken_bot"));
    assert!(!mentions("@somebody hi", "shaken_bot"));
    assert!(speak_passive(&mut gate, &whitelist, &on, "@shaken_bot hi", "shaken_bot", 20).is_ok());

    // without a mention, a zero chance only fires on the quiet override
    assert!(speak_passive(&mut gate, &whitelist, &on, "just chatting", "shaken_bot", 25).is_err());
    assert!(speak_passive(&mut gate, &whitelist, &on, "just chatting", "shaken_bot", 51).is_ok());
}

#[test]
fn plus_prefixed_numbers_parse() {
    assert_eq!(from_str("+7"), Some(7));
    assert_eq!(from_str("+0"), Some(0));
    assert_eq!(from_str("+"), None);
    assert_eq!(from_str("++1"), None);
    assert_eq!(from_str("+18446744073709551615"), Some(u64::MAX));
}

#[test]
fn current_song_position_rule() {
    // the reported position is the time since the song started
    let song = shaken::Song {
        id: 1,
        vid: "dQw4w9WgXcQ".to_string(),
        timestamp: 1_000,
        duration: 240,
        title: "a song".to_string(),
    };
    assert_eq!(song.current_position(1_100), Some(100));
    assert_eq!(shaken::youtube_url(&song.vid), "https://youtu.be/dQw4w9WgXcQ");

    // the service stands a song down whose duration exceeds its start
    // timestamp
    let odd = shaken::Song {
        id: 2,
        vid: "x".to_string(),
        timestamp: 100,
        duration: 240,
        title: "odd".to_string(),
    };
    assert_eq!(odd.current_position(150), None);
}

#[test]
fn reserve_many_succeeds_on_a_fresh_batch() {
    let mut reg = Registry::new();
    reg.reserve_many(&args(&["a", "b", "c"])).unwrap();
    assert_eq!(reg.all_builtin().len(), 3);
    // a batch that repeats a name within itself is refused whole
    let err = reg.reserve_many(&args(&["d", "e", "d"])).unwrap_err();
    assert_eq!(err.name, "d");
    assert_eq!(reg.all_builtin().len(), 3);
}

#[test]
fn taken_secret_is_gone() {
    let mut secrets = shaken::Secrets::from_pairs(vec![
        ("first".to_string(), "one".to_string()),
        ("second".to_string(), "two".to_string()),
    ]);
    assert_eq!(secrets.take("first").unwrap(), "one");
    assert!(secrets.take("first").is_err());
    assert!(secrets.get("first").is_err());
    assert_eq!(secrets.get("second").unwrap().as_str(), "two");
}
