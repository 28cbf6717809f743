use ircbot::util::{get_strings, nick_of, parse_config, ConfigurationError, LineCol};

#[test]
fn test_get_strings() {
    let mut parser = toml::Parser::new("[irc]\nautojoin = [\"#a\", \"#b\"]");
    let config = parser.parse().map(|x| toml::Value::Table(x)).unwrap();
    assert!(get_strings(&config, "irc.does_not_exist").is_empty());
    assert_eq!(get_strings(&config, "irc.autojoin"), ["#a", "#b"]);
}

#[test]
fn strings_of_what_is_no_list_of_strings() {
    let text = "name = \"x\"\nnumbers = [1, 2]\nempty = []\n[irc]\nport = 6697\n";
    let config = parse_config(text).unwrap();
    assert!(get_strings(&config, "name").is_empty());
    assert!(get_strings(&config, "numbers").is_empty());
    assert!(get_strings(&config, "empty").is_empty());
    assert!(get_strings(&config, "irc").is_empty());
    assert!(get_strings(&config, "irc.port").is_empty());
    assert!(get_strings(&config, "").is_empty());
}

#[test]
fn one_element_that_is_no_string_empties_the_list() {
    let mut table = toml::Table::new();
    table.insert(
        "mixed".to_string(),
        toml::Value::Array(vec![
            toml::Value::String("x".to_string()),
            toml::Value::Integer(1),
            toml::Value::String("y".to_string()),
        ]),
    );
    table.insert(
        "strings".to_string(),
        toml::Value::Array(vec![toml::Value::String("x".to_string())]),
    );
    let config = toml::Value::Table(table);
    assert!(get_strings(&config, "mixed").is_empty());
    assert_eq!(get_strings(&config, "strings"), ["x"]);
}

#[test]
fn strings_keep_their_order() {
    let config = parse_config("list = [\"c\", \"a\", \"b\", \"a\"]\n").unwrap();
    assert_eq!(get_strings(&config, "list"), ["c", "a", "b", "a"]);
}

#[test]
fn strings_of_a_list_in_a_list() {
    let config = parse_config("lists = [[\"x\", \"y\"], [\"z\"]]\n").unwrap();
    assert!(get_strings(&config, "lists").is_empty());
    assert_eq!(get_strings(&config, "lists.0"), ["x", "y"]);
    assert_eq!(get_strings(&config, "lists.1"), ["z"]);
    assert!(get_strings(&config, "lists.2").is_empty());
}

#[test]
fn nick_is_what_stands_before_the_bang() {
    assert_eq!(nick_of("nick!user@host"), "nick");
    assert_eq!(nick_of(":nick!user@host"), "nick");
    assert_eq!(nick_of("::nick!user@host"), ":nick");
    assert_eq!(nick_of("nick"), "nick");
    assert_eq!(nick_of(":nick"), "nick");
    assert_eq!(nick_of("a!b!c"), "a");
    assert_eq!(nick_of("!user@host"), "");
    assert_eq!(nick_of(":"), "");
    assert_eq!(nick_of(""), "");
    assert_eq!(nick_of(":ääkkönen!u@h"), "ääkkönen");
}

#[test]
fn valid_text_is_read() {
    let config = parse_config("[irc]\nnick = \"botti\"\n").unwrap();
    assert_eq!(config.lookup("irc.nick").and_then(|v| v.as_str()), Some("botti"));
}

#[test]
fn invalid_text_is_refused_with_its_place() {
    match parse_config("a = 1\nb = \n") {
        Err(ConfigurationError::Syntax(errors)) => {
            assert!(!errors.is_empty());
            assert_eq!(errors[0].from, LineCol { line: 1, col: 4 });
            assert!(!errors[0].desc.is_empty());
        }
        other => panic!("expected syntax errors, got {:?}", other),
    }
}
