//! The echo producer: says back what follows its trigger word.

use vstd::prelude::*;
use crate::command::{Command, CommandView};
use crate::irc::{Message, MessageView};
use crate::text::{
    chars_of, find, join, lemma_join_split, lemma_token, lemma_token_start, split, str_eq,
};
use crate::util::{nick, nick_of};

verus! {

/// Where an answer to a chat line goes: to the channel if the line was said
/// on one (its target starts with `#`), else to the sender's bare nick.
pub open spec fn reply_target(from: Seq<char>, to: Seq<char>) -> Seq<char> {
    if to.len() > 0 && to[0] == '#' {
        to
    } else {
        nick(from)
    }
}

/// The target of an answer to a chat line sent by `from` to `to`.
pub fn return_chan<'r>(from: &'r str, to: &'r str) -> (target: &'r str)
    ensures
        target@ == reply_target(from@, to@),
{
    if to.unicode_len() > 0 && to.get_char(0) == '#' {
        to
    } else {
        nick_of(from)
    }
}

/// What the echo producer answers: to a chat line whose first word is the
/// trigger, one reply with the rest of the words; nothing otherwise.
pub open spec fn echo_reaction(trigger: Seq<char>, message: MessageView) -> Seq<CommandView> {
    match message {
        MessageView::Privmsg(from, to, body) => if split(body, ' ')[0] == trigger {
            seq![
                CommandView::Reply {
                    target: reply_target(from, to),
                    text: join(split(body, ' ').skip(1), ' '),
                },
            ]
        } else {
            seq![]
        },
        _ => seq![],
    }
}

/// The echo producer with its trigger word.
pub struct Echo<'r> {
    pub trigger: &'r str,
}

impl<'r> Echo<'r> {
    /// Answers a chat line that starts with the trigger word.
    pub fn execute(&self, message: &Message) -> (commands: Vec<Command>)
        ensures
            commands.deep_view() == echo_reaction(self.trigger@, message@),
    {
        let mut commands: Vec<Command> = Vec::new();
        if let Message::Privmsg(from, to, body) = message {
            let chars = chars_of(body);
            let end = find(&chars, 0, ' ');
            let head = body.substring_char(0, end);
            proof {
                lemma_token_start(body@, ' ');
                lemma_token(body@, ' ', 0, 0);
            }
            if str_eq(head, self.trigger) {
                let text = if end == chars.len() {
                    String::new()
                } else {
                    String::from_str(body.substring_char(end + 1, chars.len()))
                };
                proof {
                    let rest = split(body@, ' ').skip(1);
                    if end == chars.len() {
                        assert(rest.len() == 0);
                    } else {
                        lemma_join_split(body@.skip(end + 1), ' ');
                    }
                    assert(text@ =~= join(rest, ' '));
                }
                commands.push(
                    Command::Reply { target: String::from_str(return_chan(from, to)), text },
                );
            }
        }
        assert(commands.deep_view() =~= echo_reaction(self.trigger@, message@));
        commands
    }
}

} // verus!
