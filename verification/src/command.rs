//! Outbound side of the protocol: the command model and its wire format.

use vstd::prelude::*;
use crate::automode::Mode;
use crate::irc::{parse, MalformedInput, MessageView};
use crate::text::{lemma_join_split, lemma_split_prepend, lemma_split_step, push_char, split};
use crate::util::{nick, nick_of};

verus! {

/// One reaction of the bot, not yet written to the server.
#[derive(Debug, PartialEq)]
pub enum Command {
    /// A text line for a channel or a nick.
    Reply { target: String, text: String },
    /// Grants `mode` to `user` on `channel`.
    ModeUser { user: String, mode: Mode, channel: String },
    /// Starts a round of the word game: the word, the character that is
    /// revealed, and the hint.
    StartGame(String, char, String),
    /// Answer to a keep-alive challenge.
    Pong(String),
}

/// What a `Command` holds, as character sequences.
pub ghost enum CommandView {
    Reply { target: Seq<char>, text: Seq<char> },
    ModeUser { user: Seq<char>, mode: Mode, channel: Seq<char> },
    StartGame(Seq<char>, char, Seq<char>),
    Pong(Seq<char>),
}

impl CommandView {
    /// The protocol line that carries the command, terminator included.
    pub open spec fn line(self) -> Seq<char> {
        match self {
            CommandView::Reply { target, text } => "PRIVMSG "@ + target + " :"@ + text + "\r\n"@,
            CommandView::ModeUser { user, mode, channel } => "MODE "@ + channel + " +"@
                + seq![mode.letter()] + " "@ + nick(user) + "\r\n"@,
            CommandView::StartGame(word, reveal, hint) => "PRIVMSG Putkamon :#ohjusputka:hp \""@
                + word + "\" "@ + seq![reveal] + " \""@ + hint + "\"\r\n"@,
            CommandView::Pong(token) => "PONG :"@ + token + "\r\n"@,
        }
    }
}

impl View for Command {
    type V = CommandView;

    open spec fn view(&self) -> CommandView {
        match *self {
            Command::Reply { target, text } => CommandView::Reply { target: target@, text: text@ },
            Command::ModeUser { user, mode, channel } => CommandView::ModeUser {
                user: user@,
                mode,
                channel: channel@,
            },
            Command::StartGame(word, reveal, hint) => CommandView::StartGame(word@, reveal, hint@),
            Command::Pong(token) => CommandView::Pong(token@),
        }
    }
}

impl DeepView for Command {
    type V = CommandView;

    open spec fn deep_view(&self) -> CommandView {
        self.view()
    }
}

/// The lines of a batch of commands, one after the other.
pub open spec fn lines(commands: Seq<CommandView>) -> Seq<char>
    decreases commands.len(),
{
    if commands.len() == 0 {
        Seq::empty()
    } else {
        lines(commands.drop_last()) + commands.last().line()
    }
}

impl Command {
    /// The protocol line that carries this command.
    pub fn render(&self) -> (line: String)
        ensures
            line@ == self@.line(),
    {
        match self {
            Command::Reply { target, text } => {
                let mut line = String::from_str("PRIVMSG ");
                line.append(target.as_str());
                line.append(" :");
                line.append(text.as_str());
                line.append("\r\n");
                line
            },
            Command::ModeUser { user, mode, channel } => {
                let mut line = String::from_str("MODE ");
                line.append(channel.as_str());
                line.append(" +");
                push_char(&mut line, mode.letter());
                line.append(" ");
                line.append(nick_of(user.as_str()));
                line.append("\r\n");
                line
            },
            Command::StartGame(word, reveal, hint) => {
                let mut line = String::from_str("PRIVMSG Putkamon :#ohjusputka:hp \"");
                line.append(word.as_str());
                line.append("\" ");
                push_char(&mut line, *reveal);
                line.append(" \"");
                line.append(hint.as_str());
                line.append("\"\r\n");
                line
            },
            Command::Pong(token) => {
                let mut line = String::from_str("PONG :");
                line.append(token.as_str());
                line.append("\r\n");
                line
            },
        }
    }

    /// Writes the command's line to the end of `out`, the text that is on its
    /// way to the server.
    pub fn execute(self, out: &mut String)
        ensures
            final(out)@ == old(out)@ + self@.line(),
    {
        let line = self.render();
        out.append(line.as_str());
    }
}

/// A chat line survives the way through the parser and back out: the line
/// that `from` sends to `target` with `text` parses to exactly these three,
/// and the reply that hands `target` and `text` on unchanged is rendered as
/// the inbound line without its sender. Sender and target are single words,
/// and the sender's is not `PING`; the text is free.
pub proof fn lemma_privmsg_round_trip(from: Seq<char>, target: Seq<char>, text: Seq<char>)
    requires
        !from.contains(' '),
        !target.contains(' '),
        from != "PING"@,
    ensures
        parse(from + " PRIVMSG "@ + target + " :"@ + text + "\r\n"@) == Ok::<
            MessageView,
            MalformedInput,
        >(MessageView::Privmsg(from, target, text)),
        from + " "@ + (CommandView::Reply { target, text }).line() == from + " PRIVMSG "@
            + target + " :"@ + text + "\r\n"@,
{
    reveal_strlit(" PRIVMSG ");
    reveal_strlit("PRIVMSG ");
    reveal_strlit("PRIVMSG");
    reveal_strlit(" :");
    reveal_strlit(" ");
    reveal_strlit("\r\n");
    let raw = from + " PRIVMSG "@ + target + " :"@ + text + "\r\n"@;
    let line = raw.take(raw.len() - 2);
    let body = seq![':'] + text;
    let after_verb = target + seq![' '] + body;
    let after_from = "PRIVMSG"@ + seq![' '] + after_verb;
    assert(line =~= from + seq![' '] + after_from);
    assert(!"PRIVMSG"@.contains(' '));
    lemma_split_prepend(from, after_from, ' ');
    lemma_split_prepend("PRIVMSG"@, after_verb, ' ');
    lemma_split_prepend(target, body, ' ');
    lemma_split_step(body, ' ');
    lemma_join_split(body, ' ');
    let tokens = split(line, ' ');
    assert(tokens =~= seq![from, "PRIVMSG"@, target] + split(body, ' '));
    assert(tokens.skip(3) =~= split(body, ' '));
    assert(body.skip(1) =~= text);
    assert(from + " "@ + (CommandView::Reply { target, text }).line() =~= raw);
}

/// Writes the lines of `commands`, in order, to the end of `out`. The
/// caller sends `out` and flushes once, after the whole batch.
pub fn execute_all(commands: Vec<Command>, out: &mut String)
    ensures
        final(out)@ == old(out)@ + lines(commands.deep_view()),
{
    let ghost all = commands.deep_view();
    let ghost start = out@;
    proof {
        assert(all.take(0) =~= Seq::<CommandView>::empty());
        assert(start + lines(all.take(0)) =~= start);
    }
    for command in it: commands
        invariant
            it.seq().len() == all.len(),
            forall|i: int| 0 <= i < all.len() ==> (#[trigger] it.seq()[i])@ == all[i],
            out@ == start + lines(all.take(it.index())),
    {
        proof {
            let k = it.index();
            assert(all.take(k + 1).drop_last() =~= all.take(k));
            assert(all.take(k + 1).last() == command@);
            assert(start + lines(all.take(k)) + command@.line() =~= start + (lines(all.take(k))
                + command@.line()));
        }
        command.execute(out);
    }
    proof {
        assert(all.take(all.len() as int) =~= all);
    }
}

} // verus!
