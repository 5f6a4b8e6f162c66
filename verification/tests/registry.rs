use shaken::AddResult;
use shaken::Registry;
use shaken::RemoveResult;
use shaken::UserDefinedCommand;

fn make_udc(name: &str) -> UserDefinedCommand {
    UserDefinedCommand {
        name: name.into(),
        body: "test body".into(),
        room: 1234,
        uses: 0,
        owner: 1234,
        disabled: false,
        created_at: 0,
    }
}

fn sorted(mut cmds: Vec<UserDefinedCommand>) -> Vec<UserDefinedCommand> {
    cmds.sort_by(|a, b| (a.room, a.name.clone()).cmp(&(b.room, b.name.clone())));
    cmds
}

#[test]
fn reserve() {
    let mut reg = Registry::new();
    reg.reserve("foobar").unwrap();
    assert!(reg.all_builtin().contains(&"foobar".to_string()));

    reg.reserve("bazbar").unwrap();
    assert!(reg.all_builtin().contains(&"bazbar".to_string()));

    reg.reserve_many(&vec!["asdf".to_string(), "fdsa".to_string(), "testing".to_string()])
        .unwrap();

    assert_eq!(reg.all_builtin().len(), 5);

    reg.reserve("foobar").unwrap_err();
    assert_eq!(reg.all_builtin().len(), 5);
}

#[test]
fn add_user_command() {
    let mut reg = Registry::new();
    reg.reserve("taken").unwrap();

    assert!(matches!(reg.add_user_command(&make_udc("testing")), AddResult::Okay));

    assert!(matches!(reg.add_user_command(&make_udc("testing")), AddResult::Exists));

    assert!(matches!(
        reg.add_user_command(&{
            let mut udc = make_udc("testing");
            udc.room = 4321;
            udc
        }),
        AddResult::Okay
    ));

    assert!(matches!(
        reg.add_user_command(&{
            let mut udc = make_udc("testing");
            udc.room = 4321;
            udc
        }),
        AddResult::Exists
    ));

    assert!(matches!(reg.add_user_command(&make_udc("taken")), AddResult::Builtin));
}

#[test]
fn remove() {
    let mut reg = Registry::new();
    reg.reserve("taken").unwrap();

    let mut udc = make_udc("taken");
    udc.room = 4321;

    assert!(matches!(reg.remove(&udc), RemoveResult::Missing));

    let mut udc = make_udc("foobar");
    reg.add_user_command(&udc);

    udc.room = 4321;

    // wrong room
    assert!(matches!(reg.remove(&udc), RemoveResult::Missing));

    udc.room = 1234;
    assert!(matches!(reg.remove(&udc), RemoveResult::Okay));

    // ensure its been removed
    assert!(matches!(reg.remove(&udc), RemoveResult::Missing));
}

#[test]
fn update() {
    let mut reg = Registry::new();
    reg.reserve("taken").unwrap();

    let udc = make_udc("testing");
    assert!(matches!(reg.add_user_command(&udc), AddResult::Okay));

    assert_eq!(
        reg.update(&UserDefinedCommand { body: "asdf".into(), ..udc }),
        true
    );

    assert_eq!(reg.lookup("testing", 1234).unwrap().body, "asdf");

    assert_eq!(reg.update(&make_udc("not there")), false);
}

#[test]
fn lookup() {
    let mut reg = Registry::new();
    reg.reserve("taken").unwrap();

    assert!(reg.lookup("taken", 1234).is_none());

    let udc = make_udc("testing");

    assert!(matches!(reg.add_user_command(&udc), AddResult::Okay));

    assert!(reg.lookup("testing", 4321).is_none());

    assert_eq!(reg.lookup("testing", 1234).unwrap(), udc);

    let mut udc = udc;
    udc.body = "asdf".into();
    udc.room = 4321;

    assert!(matches!(reg.add_user_command(&udc), AddResult::Okay));

    assert_eq!(reg.lookup("testing", 4321).unwrap(), udc);
}

#[test]
fn all_commands() {
    let mut reg = Registry::new();
    reg.reserve("taken").unwrap();

    let names = ["foo", "bar", "baz"]
        .iter()
        .flat_map(|d| {
            let udc = make_udc(d);
            let mut udc2 = make_udc(d);
            udc2.room = 4321;
            std::iter::once(udc).chain(std::iter::once(udc2))
        })
        .collect::<Vec<_>>();

    for name in &names {
        assert!(matches!(reg.add_user_command(name), AddResult::Okay));
    }

    let commands = reg.all_commands();

    assert_eq!(sorted(names), sorted(commands));
}

#[test]
fn all_commands_for() {
    let mut reg = Registry::new();
    reg.reserve("taken").unwrap();

    let names = ["foo", "bar", "baz"]
        .iter()
        .flat_map(|d| {
            let udc = make_udc(d);
            let mut udc2 = make_udc(d);
            udc2.room = 4321;
            std::iter::once(udc).chain(std::iter::once(udc2))
        })
        .collect::<Vec<_>>();

    for name in &names {
        assert!(matches!(reg.add_user_command(name), AddResult::Okay));
    }

    let commands = reg.all_commands_for(4321);

    let left = names.into_iter().filter(|k| k.room == 4321).collect::<Vec<_>>();

    assert_eq!(sorted(left), sorted(commands));

    assert!(reg.all_commands_for(1).is_empty());
}
