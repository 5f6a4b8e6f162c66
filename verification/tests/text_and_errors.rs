use shaken::HandlerError;
use shaken::NameTaken;
use shaken::Registry;
use shaken::ResponderError;
use shaken::ResponseTemplate;
use shaken::Room;
use shaken::Secrets;
use shaken::TemplateResolver;
use shaken::Timestamp;
use shaken::User;
use shaken::WriterResponder;
use shaken::CrateInfo;
use shaken::CrateReply;
use shaken::crate_responses;
use shaken::check_list;
use shaken::dont_care;
use shaken::parse_command;
use shaken::passive_command;
use shaken::add_command;
use shaken::reduce_type_name;
use shaken::UserDefinedReply;

#[test]
fn timestamp_renders_clock_style() {
    let t: u64 = 3 * 3600 + 25 * 60 + 30;
    assert_eq!(t.as_timestamp(), "03:25:30");
    let t: u64 = 2 * 60 + 30;
    assert_eq!(t.as_timestamp(), "02:30");
    let t: u64 = 0;
    assert_eq!(t.as_timestamp(), "00:00");
    let t: u64 = 100 * 3600;
    assert_eq!(t.as_timestamp(), "100:00:00");
}

#[test]
fn readable_time_joins_units() {
    let t: u64 = 86400 + 3600 + 60 + 1;
    assert_eq!(t.as_readable_time(), "1 day, 1 hour, 1 minute and 1 second");
    let t: u64 = 2 * 86400 + 5 * 3600;
    assert_eq!(t.as_readable_time(), "2 days and 5 hours");
    let t: u64 = 120;
    assert_eq!(t.as_readable_time(), "2 minutes");
    let t: u64 = 0;
    assert_eq!(t.as_readable_time(), "");
}

#[test]
fn reduce_type_name_peels_generics() {
    assert_eq!(reduce_type_name("alloc::sync::Arc<some::lib::Thing>"), "Thing");
    assert_eq!(reduce_type_name("some::lib::Thing"), "Thing");
    assert_eq!(reduce_type_name("no_upper::at_all"), "no_upper::at_all");
}

#[test]
fn remove_hashes_strips_prefix() {
    let room = Room { name: "#museun".to_string(), id: 1 };
    assert_eq!(room.remove_hashes(), "museun");
    let room = Room { name: "##odd".to_string(), id: 1 };
    assert_eq!(room.remove_hashes(), "odd");
    let room = Room { name: "plain".to_string(), id: 1 };
    assert_eq!(room.remove_hashes(), "plain");
}

#[test]
fn whitelist_checks_name_or_id() {
    let list = vec!["museun".to_string(), "1234".to_string()];
    assert!(check_list(&list, "museun", 99).is_ok());
    assert!(check_list(&list, "somebody", 1234).is_ok());
    let declined = check_list(&list, "somebody", 99).unwrap_err();
    assert!(matches!(declined, HandlerError::NotInterested));
    assert!(matches!(dont_care().unwrap_err(), HandlerError::NotInterested));
}

#[test]
fn template_failures_are_distinguished() {
    let mut resolver = TemplateResolver::new();
    resolver.add("ns", "broken", "x ${missing} y");
    let mut responder = WriterResponder::new(resolver);
    let room = Room { name: "#r".to_string(), id: 1 };
    let user = User { name: "U".to_string(), id: 2 };

    // no entry under (ns, case): resolution fails
    let t = ResponseTemplate {
        namespace: "ns".to_string(),
        variant: "absent".to_string(),
        data: Vec::new(),
    };
    let e = responder.say(&room, &t).unwrap_err();
    assert!(matches!(e, ResponderError::TemplateResolution { .. }));

    // the template wants a key the data does not hold: application fails
    let t = ResponseTemplate {
        namespace: "ns".to_string(),
        variant: "broken".to_string(),
        data: vec![("other".to_string(), "v".to_string())],
    };
    let e = responder.reply(&room, &user, &t).unwrap_err();
    assert!(matches!(e, ResponderError::TemplateApplication { .. }));

    // nothing was buffered by the failing calls
    assert!(responder.take_outbound().is_empty());
}

#[test]
fn template_substitutes_all_keys() {
    let mut resolver = TemplateResolver::new();
    resolver.add("crates", "vers", "${name} = ${version}");
    let mut responder = WriterResponder::new(resolver);
    let room = Room { name: "#r".to_string(), id: 1 };
    let t = ResponseTemplate {
        namespace: "crates".to_string(),
        variant: "vers".to_string(),
        data: vec![
            ("name".to_string(), "serde".to_string()),
            ("version".to_string(), "1.0".to_string()),
        ],
    };
    responder.say(&room, &t).unwrap();
    let out = responder.take_outbound();
    assert_eq!(out[0].text, "serde = 1.0");
}

#[test]
fn secrets_get_and_take() {
    let mut secrets = Secrets::from_pairs(vec![(
        "SHAKEN_TWITCH_OAUTH_TOKEN".to_string(),
        "SECRET-REDACTED".to_string(),
    )]);
    assert_eq!(secrets.get("SHAKEN_TWITCH_OAUTH_TOKEN").unwrap().as_str(), "SECRET-REDACTED");
    assert_eq!(secrets.take("SHAKEN_TWITCH_OAUTH_TOKEN").unwrap(), "SECRET-REDACTED");
    let missing = secrets.take("SHAKEN_TWITCH_OAUTH_TOKEN").unwrap_err();
    assert_eq!(missing.name, "SHAKEN_TWITCH_OAUTH_TOKEN");
}

#[test]
fn reserve_error_names_the_name() {
    let mut reg = Registry::new();
    reg.reserve("speak").unwrap();
    let NameTaken { name } = reg.reserve("speak").unwrap_err();
    assert_eq!(name, "speak");
}

#[test]
fn parse_command_splits_and_joins() {
    let tail = vec!["cmd".to_string(), "a".to_string(), "b c".to_string()];
    let (head, rest) = parse_command(&tail);
    assert_eq!(head.unwrap(), "cmd");
    assert_eq!(rest.unwrap(), "a b c");

    let (head, rest) = parse_command(&vec!["cmd".to_string()]);
    assert_eq!(head.unwrap(), "cmd");
    assert!(rest.is_none());

    let (head, rest) = parse_command(&Vec::new());
    assert!(head.is_none());
    assert!(rest.is_none());
}

#[test]
fn user_defined_flow() {
    let mut reg = Registry::new();
    let tail = vec!["greet".to_string(), "hello".to_string(), "there".to_string()];
    let reply = add_command(&mut reg, &tail, 1, 42, 1000);
    assert!(matches!(reply, UserDefinedReply::Added { .. }));

    // the passive path looks the stored body up under the prefixed token
    let mut reg2 = Registry::new();
    let tail2 = vec!["!greet".to_string(), "hello there".to_string()];
    add_command(&mut reg2, &tail2, 1, 42, 1000);
    match passive_command(&mut reg2, "!greet friends", 1).unwrap() {
        UserDefinedReply::Say { data } => assert_eq!(data, "hello there"),
        _ => panic!("expected the stored body"),
    }
    // one use was counted
    assert_eq!(reg2.lookup("!greet", 1).unwrap().uses, 1);

    // an unknown token is a voluntary decline
    let declined = passive_command(&mut reg2, "!other", 1).unwrap_err();
    assert!(matches!(declined, HandlerError::NotInterested));
    // so is a plain line
    let declined = passive_command(&mut reg2, "just chatting", 1).unwrap_err();
    assert!(matches!(declined, HandlerError::NotInterested));
}

#[test]
fn crate_lookup_answers() {
    let empty: Vec<CrateInfo> = Vec::new();
    let rs = crate_responses("nothing", &empty);
    assert_eq!(rs.len(), 1);
    assert!(matches!(&rs[0], CrateReply::Unknown { name } if name == "nothing"));

    let crates = vec![
        CrateInfo {
            name: "serde-like".to_string(),
            max_version: "0.9".to_string(),
            description: None,
            documentation: None,
            repository: None,
            exact_match: false,
        },
        CrateInfo {
            name: "serde".to_string(),
            max_version: "1.0".to_string(),
            description: Some("a\nframework".to_string()),
            documentation: Some("https://docs.rs/serde".to_string()),
            repository: Some("https://github.com/serde-rs/serde".to_string()),
            exact_match: true,
        },
    ];
    let rs = crate_responses("serde", &crates);
    assert_eq!(rs.len(), 3);
    assert!(matches!(&rs[0], CrateReply::CrateVers { name, version } if name == "serde" && version == "1.0"));
    assert!(
        matches!(&rs[1], CrateReply::Description { description } if description == "a framework")
    );
    assert!(matches!(&rs[2], CrateReply::Links { .. }));
}
