//! Inbound side of the protocol: the message model and the line parser.

use vstd::prelude::*;
use crate::text::{
    chars_of, find, join, lemma_join_split, lemma_token, lemma_token_start, split, str_eq,
    token_end, without_leading,
};
use crate::util::{as_integer, as_str, integer_of, looked_up, lookup, text_of};

verus! {

/// One inbound line, decoded. The fields borrow from the line.
#[derive(Debug, PartialEq)]
pub enum Message<'r> {
    /// A chat line: sender mask, target (channel or nick), text.
    Privmsg(&'r str, &'r str, &'r str),
    /// Somebody joined a channel.
    Join { user: &'r str, channel: &'r str },
    /// Keep-alive challenge with its payload.
    Ping(&'r str),
    /// Any other line, kept as it came (without the terminator).
    Other(&'r str),
}

/// What a `Message` holds, as character sequences.
pub ghost enum MessageView {
    Privmsg(Seq<char>, Seq<char>, Seq<char>),
    Join { user: Seq<char>, channel: Seq<char> },
    Ping(Seq<char>),
    Other(Seq<char>),
}

impl<'r> View for Message<'r> {
    type V = MessageView;

    open spec fn view(&self) -> MessageView {
        match *self {
            Message::Privmsg(from, target, body) => MessageView::Privmsg(from@, target@, body@),
            Message::Join { user, channel } => MessageView::Join { user: user@, channel: channel@ },
            Message::Ping(token) => MessageView::Ping(token@),
            Message::Other(raw) => MessageView::Other(raw@),
        }
    }
}

/// A line that does not have the shape the parser needs: no terminator, or
/// fewer fields than its verb calls for.
#[derive(Debug, PartialEq, Eq, Clone, Copy)]
pub struct MalformedInput;

/// Connection settings of one server.
pub struct Config<'r> {
    pub server: &'r str,
    pub port: u16,
    pub username: &'r str,
    pub password: &'r str,
    pub nick: &'r str,
    pub realname: &'r str,
}

/// The string that stands under `path` of `config`, if one does.
pub open spec fn string_at(config: toml::Value, path: Seq<char>) -> Option<Seq<char>> {
    match looked_up(config, path) {
        Some(found) => text_of(found),
        None => None,
    }
}

/// The integer that stands under `path` of `config`, if one does.
pub open spec fn integer_at(config: toml::Value, path: Seq<char>) -> Option<i64> {
    match looked_up(config, path) {
        Some(found) => integer_of(found),
        None => None,
    }
}

/// Whether `config` holds all the connection settings: five strings and
/// the port, an integer, under the table `irc`.
pub open spec fn has_settings(config: toml::Value) -> bool {
    &&& string_at(config, "irc.server"@) is Some
    &&& integer_at(config, "irc.port"@) is Some
    &&& string_at(config, "irc.password"@) is Some
    &&& string_at(config, "irc.nick"@) is Some
    &&& string_at(config, "irc.realname"@) is Some
    &&& string_at(config, "irc.username"@) is Some
}

/// The lines that register the bot with the server.
pub open spec fn registration_lines(
    username: Seq<char>,
    realname: Seq<char>,
    password: Seq<char>,
    nick: Seq<char>,
) -> Seq<char> {
    "USER "@ + username + " 0 * :"@ + realname + "\r\n"@ + "PASS "@ + password + "\r\n"@
        + "NICK "@ + nick + "\r\n"@
}

fn read_string<'r>(config: &'r toml::Value, path: &str) -> (text: Option<&'r str>)
    ensures
        match text {
            Some(s) => string_at(*config, path@) == Some(s@),
            None => string_at(*config, path@) is None,
        },
{
    match lookup(config, path) {
        Some(found) => as_str(found),
        None => None,
    }
}

fn read_integer(config: &toml::Value, path: &str) -> (number: Option<i64>)
    ensures
        number == integer_at(*config, path@),
{
    match lookup(config, path) {
        Some(found) => as_integer(found),
        None => None,
    }
}

impl<'r> Config<'r> {
    /// Reads the connection settings from a configuration value. All six
    /// must be there; the port is cut down to its low sixteen bits.
    pub fn from_config(config: &'r toml::Value) -> (settings: Option<Config<'r>>)
        ensures
            settings is Some <==> has_settings(*config),
            settings matches Some(read) ==> {
                &&& Some(read.server@) == string_at(*config, "irc.server"@)
                &&& Some(read.port) == match integer_at(*config, "irc.port"@) {
                    Some(port) => Some(port as u16),
                    None => None,
                }
                &&& Some(read.password@) == string_at(*config, "irc.password"@)
                &&& Some(read.nick@) == string_at(*config, "irc.nick"@)
                &&& Some(read.realname@) == string_at(*config, "irc.realname"@)
                &&& Some(read.username@) == string_at(*config, "irc.username"@)
            },
    {
        let server = read_string(config, "irc.server");
        let port = read_integer(config, "irc.port");
        let password = read_string(config, "irc.password");
        let nick = read_string(config, "irc.nick");
        let realname = read_string(config, "irc.realname");
        let username = read_string(config, "irc.username");
        match (server, port, password, nick, realname, username) {
            (Some(server), Some(port), Some(password), Some(nick), Some(realname), Some(username)) => {
                Some(
                    Config {
                        server,
                        port: #[verifier::truncate]
                        (port as u16),
                        username,
                        password,
                        nick,
                        realname,
                    },
                )
            },
            _ => None,
        }
    }

    /// The lines to send first on a new connection: user, password, nick.
    pub fn registration(&self) -> (text: String)
        ensures
            text@ == registration_lines(
                self.username@,
                self.realname@,
                self.password@,
                self.nick@,
            ),
    {
        let mut text = String::from_str("USER ");
        text.append(self.username);
        text.append(" 0 * :");
        text.append(self.realname);
        text.append("\r\n");
        text.append("PASS ");
        text.append(self.password);
        text.append("\r\n");
        text.append("NICK ");
        text.append(self.nick);
        text.append("\r\n");
        text
    }
}

/// The line that asks the server to let the bot into `channel`.
pub fn join_line(channel: &str) -> (line: String)
    ensures
        line@ == "JOIN "@ + channel@ + "\r\n"@,
{
    let mut line = String::from_str("JOIN ");
    line.append(channel);
    line.append("\r\n");
    line
}

/// Whether `raw` ends with carriage return and line feed.
pub open spec fn terminated(raw: Seq<char>) -> bool {
    raw.len() >= 2 && raw[raw.len() - 2] == '\r' && raw[raw.len() - 1] == '\n'
}

/// `token` without its first character if that is `#` or `:`.
pub open spec fn without_sigil(token: Seq<char>) -> Seq<char> {
    if token.len() > 0 && (token[0] == '#' || token[0] == ':') {
        token.skip(1)
    } else {
        token
    }
}

/// The message that a line stands for, the terminator already removed.
///
/// The line is cut into tokens at every single space. A first token `PING`
/// makes a `Ping` of whatever follows the sixth character. Otherwise the
/// second token is the verb: `PRIVMSG` needs four tokens and `JOIN` three;
/// every other verb gives `Other`.
pub open spec fn parse_line(line: Seq<char>) -> Result<MessageView, MalformedInput> {
    let tokens = split(line, ' ');
    if tokens[0] == "PING"@ {
        if line.len() >= 6 {
            Ok(MessageView::Ping(line.skip(6)))
        } else {
            Err(MalformedInput)
        }
    } else if tokens.len() < 2 {
        Err(MalformedInput)
    } else if tokens[1] == "PRIVMSG"@ {
        if tokens.len() < 4 {
            Err(MalformedInput)
        } else {
            Ok(
                MessageView::Privmsg(
                    tokens[0],
                    tokens[2],
                    without_leading(join(tokens.skip(3), ' '), ':'),
                ),
            )
        }
    } else if tokens[1] == "JOIN"@ {
        if tokens.len() < 3 {
            Err(MalformedInput)
        } else {
            Ok(
                MessageView::Join {
                    user: without_leading(tokens[0], ':'),
                    channel: without_sigil(tokens[2]),
                },
            )
        }
    } else {
        Ok(MessageView::Other(line))
    }
}

/// The message that a raw line stands for: the line must end with its
/// two-character terminator, which is dropped before `parse_line` reads it.
pub open spec fn parse(raw: Seq<char>) -> Result<MessageView, MalformedInput> {
    if terminated(raw) {
        parse_line(raw.take(raw.len() - 2))
    } else {
        Err(MalformedInput)
    }
}

/// The `JOIN` case of `parse_line`: `end0` and `end1` are the ends of the first
/// two tokens.
fn parse_join<'r>(line: &'r str, chars: &Vec<char>, end0: usize, end1: usize) -> (parsed: Result<
    Message<'r>,
    MalformedInput,
>)
    requires
        chars@ == line@,
        end0 == token_end(line@, 0, ' '),
        end0 < end1 <= line@.len(),
        end1 == token_end(line@, end0 + 1, ' '),
        split(line@, ' ').len() >= 2,
        split(line@, ' ')[0] != "PING"@,
        split(line@, ' ')[1] == "JOIN"@,
        split(line@, ' ')[0] == line@.subrange(0, end0 as int),
        end1 == line@.len() ==> split(line@, ' ').len() == 2,
        end1 < line@.len() ==> split(line@, ' ').skip(2) == split(line@.skip(end1 + 1), ' '),
    ensures
        match parsed {
            Ok(message) => parse_line(line@) == Ok::<MessageView, MalformedInput>(message@),
            Err(_) => parse_line(line@) is Err,
        },
{
    if end1 == chars.len() {
        return Err(MalformedInput);
    }
    let t2_start = end1 + 1;
    let end2 = find(chars, t2_start, ' ');
    proof {
        lemma_token(line@, ' ', 2, t2_start as int);
    }
    let user_start: usize = if end0 > 0 && chars[0] == ':' {
        1
    } else {
        0
    };
    let channel_start: usize = if t2_start < end2 && (chars[t2_start] == '#' || chars[t2_start]
        == ':') {
        t2_start + 1
    } else {
        t2_start
    };
    let user = line.substring_char(user_start, end0);
    let channel = line.substring_char(channel_start, end2);
    proof {
        let tokens = split(line@, ' ');
        assert(tokens[1] != "PRIVMSG"@) by {
            reveal_strlit("JOIN");
            reveal_strlit("PRIVMSG");
            assert("JOIN"@.len() != "PRIVMSG"@.len());
        }
        assert(user@ =~= without_leading(tokens[0], ':'));
        assert(channel@ =~= without_sigil(tokens[2]));
    }
    Ok(Message::Join { user, channel })
}

/// The `PRIVMSG` case of `parse_line`: `end0` and `end1` are the ends of the
/// first two tokens.
fn parse_privmsg<'r>(line: &'r str, chars: &Vec<char>, end0: usize, end1: usize) -> (parsed: Result<
    Message<'r>,
    MalformedInput,
>)
    requires
        chars@ == line@,
        end0 == token_end(line@, 0, ' '),
        end0 < end1 <= line@.len(),
        end1 == token_end(line@, end0 + 1, ' '),
        split(line@, ' ').len() >= 2,
        split(line@, ' ')[0] != "PING"@,
        split(line@, ' ')[1] == "PRIVMSG"@,
        split(line@, ' ')[0] == line@.subrange(0, end0 as int),
        end1 == line@.len() ==> split(line@, ' ').len() == 2,
        end1 < line@.len() ==> split(line@, ' ').skip(2) == split(line@.skip(end1 + 1), ' '),
    ensures
        match parsed {
            Ok(message) => parse_line(line@) == Ok::<MessageView, MalformedInput>(message@),
            Err(_) => parse_line(line@) is Err,
        },
{
    let end = chars.len();
    if end1 == end {
        return Err(MalformedInput);
    }
    let end2 = find(chars, end1 + 1, ' ');
    proof {
        lemma_token(line@, ' ', 2, end1 + 1);
    }
    if end2 == end {
        return Err(MalformedInput);
    }
    let t3_start = end2 + 1;
    let body_start: usize = if t3_start < end && chars[t3_start] == ':' {
        t3_start + 1
    } else {
        t3_start
    };
    let from = line.substring_char(0, end0);
    let target = line.substring_char(end1 + 1, end2);
    let body = line.substring_char(body_start, end);
    proof {
        let rest = line@.skip(t3_start as int);
        lemma_join_split(rest, ' ');
        assert(body@ =~= without_leading(rest, ':'));
    }
    Ok(Message::Privmsg(from, target, body))
}

/// Decodes a line whose terminator has been removed.
fn parse_unterminated<'r>(line: &'r str) -> (parsed: Result<Message<'r>, MalformedInput>)
    ensures
        match parsed {
            Ok(message) => parse_line(line@) == Ok::<MessageView, MalformedInput>(message@),
            Err(_) => parse_line(line@) is Err,
        },
{
    let chars = chars_of(line);
    let end = chars.len();
    let end0 = find(&chars, 0, ' ');
    let t0 = line.substring_char(0, end0);
    proof {
        lemma_token_start(line@, ' ');
        lemma_token(line@, ' ', 0, 0);
    }
    if str_eq(t0, "PING") {
        if end >= 6 {
            let token = line.substring_char(6, end);
            assert(token@ =~= line@.skip(6));
            return Ok(Message::Ping(token));
        }
        return Err(MalformedInput);
    }
    if end0 == end {
        return Err(MalformedInput);
    }
    let end1 = find(&chars, end0 + 1, ' ');
    let t1 = line.substring_char(end0 + 1, end1);
    proof {
        lemma_token(line@, ' ', 1, end0 + 1);
    }
    if str_eq(t1, "PRIVMSG") {
        parse_privmsg(line, &chars, end0, end1)
    } else if str_eq(t1, "JOIN") {
        parse_join(line, &chars, end0, end1)
    } else {
        Ok(Message::Other(line))
    }
}

/// Decodes one raw line. Never reads past the end of the line: a line that
/// is too short for its verb is reported as `MalformedInput`.
pub fn parse_message<'r>(msg: &'r str) -> (parsed: Result<Message<'r>, MalformedInput>)
    ensures
        match parsed {
            Ok(message) => parse(msg@) == Ok::<MessageView, MalformedInput>(message@),
            Err(_) => parse(msg@) is Err,
        },
{
    let n = msg.unicode_len();
    if n < 2 || msg.get_char(n - 2) != '\r' || msg.get_char(n - 1) != '\n' {
        return Err(MalformedInput);
    }
    let line = msg.substring_char(0, n - 2);
    assert(line@ =~= msg@.take(n - 2));
    parse_unterminated(line)
}

} // verus!
