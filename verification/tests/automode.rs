use ircbot::automode::{init, Automode, Command, Mode};
use ircbot::irc::Message::{Join, Other, Ping, Privmsg};
use ircbot::util::parse_config;

#[test]
fn automode_test_execute() {
    let am = Automode::new().grant("#test", "tester", Mode::Op);
    assert!(am.execute(Join { user: "none", channel: "#test" }).is_empty());
    assert!(am.execute(Join { user: "tester", channel: "#none" }).is_empty());

    let commands = am.execute(Join { user: "tester", channel: "#test" });
    match commands[0] {
        Command::ModeUser { ref user, mode, ref channel } => {
            assert_eq!(user, "tester");
            assert_eq!(mode, Mode::Op);
            assert_eq!(channel, "#test");
        }
        _ => panic!("expected a mode grant"),
    }
}

#[test]
fn automode_test_init() {
    let config = parse_config("[\"#test\"]\nops = [\"test!test@example.com\"]\n").unwrap();
    let am = init(&config);
    assert!(!am
        .execute(Join { user: "test!test@example.com", channel: "#test" })
        .is_empty());
    assert!(am
        .execute(Join { user: "fail!test@example.com", channel: "#test" })
        .is_empty())
}

#[test]
fn table_from_one_channel() {
    let table = Automode::from_entries(&[("#test", vec!["tester"])]);
    assert_eq!(table.mode_of("#test", "tester"), Some(Mode::Op));
    assert_eq!(table.mode_of("#test", "other"), None);
}

#[test]
fn listed_user_gets_exactly_one_grant() {
    let table = Automode::from_entries(&[("#a", vec!["x", "y"]), ("#b", vec!["y"])]);
    assert_eq!(
        table.execute(Join { user: "y", channel: "#b" }),
        [Command::ModeUser { user: "y".to_string(), mode: Mode::Op, channel: "#b".to_string() }]
    );
    assert_eq!(
        table.execute(Join { user: "x", channel: "#a" }),
        [Command::ModeUser { user: "x".to_string(), mode: Mode::Op, channel: "#a".to_string() }]
    );
    assert_eq!(table.execute(Join { user: "x", channel: "#b" }), []);
    assert_eq!(table.execute(Join { user: "z", channel: "#a" }), []);
    assert_eq!(table.execute(Join { user: "#a", channel: "x" }), []);
}

#[test]
fn names_are_matched_exactly() {
    let table = Automode::from_entries(&[("#Test", vec!["Tester"])]);
    assert_eq!(table.mode_of("#test", "Tester"), None);
    assert_eq!(table.mode_of("#Test", "tester"), None);
    assert_eq!(table.mode_of("Test", "Tester"), None);
    assert_eq!(table.mode_of("#Test", "Tester!u@h"), None);
    assert_eq!(table.mode_of("#Test", ""), None);
    assert_eq!(table.mode_of("#Test", "Tester"), Some(Mode::Op));
}

#[test]
fn a_channel_listed_twice_keeps_all_its_users() {
    let table = Automode::from_entries(&[
        ("#a", vec!["x"]),
        ("#b", vec!["y"]),
        ("#a", vec!["z", "x"]),
        ("#c", vec![]),
    ]);
    assert_eq!(table.mode_of("#a", "x"), Some(Mode::Op));
    assert_eq!(table.mode_of("#a", "z"), Some(Mode::Op));
    assert_eq!(table.mode_of("#b", "y"), Some(Mode::Op));
    assert_eq!(table.mode_of("#a", "y"), None);
    assert_eq!(table.mode_of("#b", "x"), None);
    assert_eq!(table.mode_of("#c", "x"), None);
}

#[test]
fn grants_add_up() {
    let table = Automode::new()
        .grant("#a", "x", Mode::Op)
        .grant("#b", "x", Mode::Op)
        .grant("#a", "y", Mode::Op)
        .grant("#a", "x", Mode::Op);
    assert_eq!(table.mode_of("#a", "x"), Some(Mode::Op));
    assert_eq!(table.mode_of("#a", "y"), Some(Mode::Op));
    assert_eq!(table.mode_of("#b", "x"), Some(Mode::Op));
    assert_eq!(table.mode_of("#b", "y"), None);
}

#[test]
fn empty_table_lists_nobody() {
    let table = Automode::new();
    assert_eq!(table.mode_of("#a", "x"), None);
    assert_eq!(table.mode_of("", ""), None);
    assert_eq!(table.execute(Join { user: "x", channel: "#a" }), []);
    assert_eq!(Automode::from_entries(&[]).mode_of("#a", "x"), None);
}

#[test]
fn table_answers_joins_only() {
    let table = Automode::new().grant("#a", "x", Mode::Op);
    assert_eq!(table.execute(Privmsg("x", "#a", "hello")), []);
    assert_eq!(table.execute(Ping("x")), []);
    assert_eq!(table.execute(Other("x JOIN #a")), []);
}

#[test]
fn table_from_several_channels_of_a_configuration() {
    let text = "[\"#a\"]\nops = [\"x\", \"y\"]\n\n[\"#b\"]\nops = [\"z\"]\nvoices = [\"x\"]\n\n\
                [\"#c\"]\nops = \"x\"\n\n[\"#d\"]\nops = [1, 2]\n";
    let table = init(&parse_config(text).unwrap());
    assert_eq!(table.mode_of("#a", "x"), Some(Mode::Op));
    assert_eq!(table.mode_of("#a", "y"), Some(Mode::Op));
    assert_eq!(table.mode_of("#b", "z"), Some(Mode::Op));
    assert_eq!(table.mode_of("#b", "x"), None);
    assert_eq!(table.mode_of("#c", "x"), None);
    assert_eq!(table.mode_of("#d", "1"), None);
    assert_eq!(table.mode_of("#a", "z"), None);
}

#[test]
fn a_value_that_is_no_table_lists_nobody() {
    let table = init(&toml::Value::Integer(1));
    assert_eq!(table.mode_of("#a", "x"), None);
    let table = init(&toml::Value::Array(vec![toml::Value::String("x".to_string())]));
    assert_eq!(table.mode_of("0", "x"), None);
}

#[test]
fn a_top_level_value_that_is_no_table_lists_nobody() {
    let table = init(&parse_config("ops = [\"x\"]\n[\"#a\"]\nops = [\"y\"]\n").unwrap());
    assert_eq!(table.mode_of("ops", "x"), None);
    assert_eq!(table.mode_of("#a", "y"), Some(Mode::Op));
}
