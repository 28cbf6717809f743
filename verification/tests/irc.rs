use ircbot::command::Command;
use ircbot::irc::Message::{Join, Other, Ping, Privmsg};
use ircbot::irc::{join_line, parse_message, Config, MalformedInput};
use ircbot::util::parse_config;

#[test]
fn test_parse_message() {
    assert_eq!(
        parse_message(":test!test@test PRIVMSG #test :Hello world!\r\n"),
        Ok(Privmsg(":test!test@test", "#test", "Hello world!"))
    );
    assert_eq!(parse_message("PING :hello world\r\n"), Ok(Ping("hello world")));
}

#[test]
fn parses_a_chat_line() {
    assert_eq!(
        parse_message(":nick!user@host PRIVMSG #chan :hello world\r\n"),
        Ok(Privmsg(":nick!user@host", "#chan", "hello world"))
    );
}

#[test]
fn parses_a_ping() {
    assert_eq!(parse_message("PING :token123\r\n"), Ok(Ping("token123")));
}

#[test]
fn ping_payload_starts_after_six_characters() {
    assert_eq!(parse_message("PING :\r\n"), Ok(Ping("")));
    assert_eq!(parse_message("PING abcdef\r\n"), Ok(Ping("bcdef")));
    assert_eq!(parse_message("PING :a b  c\r\n"), Ok(Ping("a b  c")));
}

#[test]
fn short_ping_is_malformed() {
    assert_eq!(parse_message("PING\r\n"), Err(MalformedInput));
    assert_eq!(parse_message("PING \r\n"), Err(MalformedInput));
}

#[test]
fn parses_a_join() {
    assert_eq!(
        parse_message(":nick!user@host JOIN :#chan\r\n"),
        Ok(Join { user: "nick!user@host", channel: "#chan" })
    );
}

#[test]
fn join_drops_one_sigil_of_the_channel() {
    assert_eq!(
        parse_message(":nick!user@host JOIN #chan\r\n"),
        Ok(Join { user: "nick!user@host", channel: "chan" })
    );
    assert_eq!(
        parse_message(":nick JOIN ##chan\r\n"),
        Ok(Join { user: "nick", channel: "#chan" })
    );
    assert_eq!(parse_message(":nick JOIN chan\r\n"), Ok(Join { user: "nick", channel: "chan" }));
    assert_eq!(parse_message(":nick JOIN \r\n"), Ok(Join { user: "nick", channel: "" }));
}

#[test]
fn join_drops_one_colon_of_the_user() {
    assert_eq!(parse_message("nick JOIN #c\r\n"), Ok(Join { user: "nick", channel: "c" }));
    assert_eq!(parse_message("::nick JOIN #c\r\n"), Ok(Join { user: ":nick", channel: "c" }));
    assert_eq!(parse_message(" JOIN #c\r\n"), Ok(Join { user: "", channel: "c" }));
}

#[test]
fn join_reads_past_nothing_after_the_channel() {
    assert_eq!(
        parse_message(":nick JOIN #c extra words\r\n"),
        Ok(Join { user: "nick", channel: "c" })
    );
}

#[test]
fn other_verbs_are_kept_whole() {
    assert_eq!(
        parse_message(":server 001 nick :Welcome to the network\r\n"),
        Ok(Other(":server 001 nick :Welcome to the network"))
    );
    assert_eq!(parse_message("NOTICE AUTH\r\n"), Ok(Other("NOTICE AUTH")));
    assert_eq!(parse_message("PRIVMSG #chan :hello\r\n"), Ok(Other("PRIVMSG #chan :hello")));
    assert_eq!(parse_message("a privmsg b :c\r\n"), Ok(Other("a privmsg b :c")));
    assert_eq!(parse_message("a \r\n"), Ok(Other("a ")));
}

#[test]
fn line_without_terminator_is_malformed() {
    assert_eq!(parse_message(""), Err(MalformedInput));
    assert_eq!(parse_message("\n"), Err(MalformedInput));
    assert_eq!(parse_message("PING :token123"), Err(MalformedInput));
    assert_eq!(parse_message("PING :token123\n"), Err(MalformedInput));
    assert_eq!(parse_message("PING :token123\n\r"), Err(MalformedInput));
    assert_eq!(parse_message(":a PRIVMSG #c :hi\r"), Err(MalformedInput));
}

#[test]
fn line_with_one_token_is_malformed() {
    assert_eq!(parse_message("\r\n"), Err(MalformedInput));
    assert_eq!(parse_message("NOTICE\r\n"), Err(MalformedInput));
    assert_eq!(parse_message("PRIVMSG\r\n"), Err(MalformedInput));
}

#[test]
fn chat_line_needs_four_tokens() {
    assert_eq!(parse_message(":a PRIVMSG\r\n"), Err(MalformedInput));
    assert_eq!(parse_message(":a PRIVMSG #c\r\n"), Err(MalformedInput));
    assert_eq!(parse_message(":a PRIVMSG #c \r\n"), Ok(Privmsg(":a", "#c", "")));
    assert_eq!(parse_message(":a PRIVMSG #c :\r\n"), Ok(Privmsg(":a", "#c", "")));
}

#[test]
fn join_needs_three_tokens() {
    assert_eq!(parse_message(":a JOIN\r\n"), Err(MalformedInput));
}

#[test]
fn chat_text_loses_one_leading_colon_at_most() {
    assert_eq!(parse_message(":a PRIVMSG #c hello there\r\n"), Ok(Privmsg(":a", "#c", "hello there")));
    assert_eq!(parse_message(":a PRIVMSG #c ::x\r\n"), Ok(Privmsg(":a", "#c", ":x")));
    assert_eq!(parse_message(":a PRIVMSG #c :a  b \r\n"), Ok(Privmsg(":a", "#c", "a  b ")));
    assert_eq!(parse_message(":a PRIVMSG #c  :x\r\n"), Ok(Privmsg(":a", "#c", " :x")));
}

#[test]
fn chat_line_counts_characters_not_bytes() {
    assert_eq!(
        parse_message(":jää PRIVMSG #yö :hyvää yötä\r\n"),
        Ok(Privmsg(":jää", "#yö", "hyvää yötä"))
    );
    assert_eq!(parse_message("PING :äö\r\n"), Ok(Ping("äö")));
    assert_eq!(parse_message("PINGäö xyz\r\n"), Ok(Other("PINGäö xyz")));
}

#[test]
fn chat_line_goes_round() {
    let line = ":nick!user@host PRIVMSG #chan :hello  world :)\r\n";
    match parse_message(line) {
        Ok(Privmsg(from, target, body)) => {
            let reply = Command::Reply { target: target.to_string(), text: body.to_string() };
            assert_eq!(format!("{} {}", from, reply.render()), line);
        }
        _ => panic!("expected a chat line"),
    }
}

#[test]
fn registration_has_three_lines() {
    let config = Config {
        server: "irc.example.org",
        port: 6697,
        username: "bot",
        password: "secret",
        nick: "botti",
        realname: "A Bot",
    };
    assert_eq!(
        config.registration(),
        "USER bot 0 * :A Bot\r\nPASS secret\r\nNICK botti\r\n"
    );
}

#[test]
fn join_line_names_the_channel() {
    assert_eq!(join_line("#chan"), "JOIN #chan\r\n");
}

#[test]
fn settings_are_read_from_the_irc_table() {
    let text = "[irc]\nserver = \"irc.example.org\"\nport = 6697\npassword = \"pw\"\n\
                nick = \"botti\"\nrealname = \"A Bot\"\nusername = \"bot\"\n";
    let config = parse_config(text).unwrap();
    let settings = Config::from_config(&config).unwrap();
    assert_eq!(settings.server, "irc.example.org");
    assert_eq!(settings.port, 6697);
    assert_eq!(settings.password, "pw");
    assert_eq!(settings.nick, "botti");
    assert_eq!(settings.realname, "A Bot");
    assert_eq!(settings.username, "bot");
}

#[test]
fn port_is_cut_to_sixteen_bits() {
    let text = "[irc]\nserver = \"s\"\nport = 72233\npassword = \"p\"\n\
                nick = \"n\"\nrealname = \"r\"\nusername = \"u\"\n";
    let config = parse_config(text).unwrap();
    assert_eq!(Config::from_config(&config).unwrap().port, 6697);
}

#[test]
fn settings_need_every_key() {
    let text = "[irc]\nserver = \"s\"\nport = 6697\npassword = \"p\"\nnick = \"n\"\nrealname = \"r\"\n";
    let config = parse_config(text).unwrap();
    assert!(Config::from_config(&config).is_none());
    let text = "[irc]\nserver = \"s\"\nport = \"6697\"\npassword = \"p\"\n\
                nick = \"n\"\nrealname = \"r\"\nusername = \"u\"\n";
    let config = parse_config(text).unwrap();
    assert!(Config::from_config(&config).is_none());
}
