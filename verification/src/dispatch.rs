//! From one inbound message to the lines that answer it.

use vstd::prelude::*;
use vstd::slice::slice_subrange;
use crate::automode::{reaction, Automode};
use crate::command::{execute_all, lines, Command, CommandView};
use crate::echo::{echo_reaction, Echo};
use crate::hp::HP;
use crate::irc::{parse, parse_message, MalformedInput, Message, MessageView};
use crate::text::{split, split_str, str_eq};

verus! {

/// The request that a message makes of the word game: the words of a chat
/// line after its first, if the first is the game's trigger; else nothing.
pub open spec fn game_request(trigger: Seq<char>, message: MessageView) -> Seq<Seq<char>> {
    match message {
        MessageView::Privmsg(_, _, body) => if split(body, ' ')[0] == trigger {
            split(body, ' ').skip(1)
        } else {
            seq![]
        },
        _ => seq![],
    }
}

/// Whether `commands` answers `message`.
///
/// A ping is answered by a pong with the same token. A join is answered by
/// the mode table. A chat line is answered first by the echo producer, then
/// by the word game, whose draw is free within what `HP::allows`. Any other
/// line gets no answer.
pub open spec fn answers(
    message: MessageView,
    echo: Seq<char>,
    game_trigger: Seq<char>,
    game: HP,
    table: Automode,
    commands: Seq<CommandView>,
) -> bool {
    match message {
        MessageView::Ping(token) => commands == seq![CommandView::Pong(token)],
        MessageView::Join { .. } => commands == reaction(table@, message),
        MessageView::Privmsg(..) => exists|drawn: Seq<CommandView>|
            {
                &&& #[trigger] game.allows(game_request(game_trigger, message), drawn)
                &&& commands == echo_reaction(echo, message) + drawn
            },
        MessageView::Other(_) => commands.len() == 0,
    }
}

/// Runs the producers that `message` concerns and collects their commands,
/// the echo producer's before the word game's.
pub fn dispatch(
    message: Message,
    echo: &Echo,
    game_trigger: &str,
    hp: &mut HP,
    automode: &Automode,
) -> (commands: Vec<Command>)
    ensures
        final(hp).name() == old(hp).name(),
        final(hp).words() == old(hp).words(),
        answers(
            message@,
            echo.trigger@,
            game_trigger@,
            *old(hp),
            *automode,
            commands.deep_view(),
        ),
{
    match message {
        Message::Ping(token) => {
            let commands = vec![Command::Pong(String::from_str(token))];
            assert(commands.deep_view() =~= seq![CommandView::Pong(token@)]);
            commands
        },
        Message::Join { .. } => automode.execute(message),
        Message::Privmsg(_, _, body) => {
            let mut commands = echo.execute(&message);
            let ghost echoed = commands.deep_view();
            let parts = split_str(body, ' ');
            let mut drawn = if str_eq(parts[0], game_trigger) {
                let request = slice_subrange(parts.as_slice(), 1, parts.len());
                assert(request.deep_view() =~= parts.deep_view().skip(1));
                hp.execute(request)
            } else {
                Vec::new()
            };
            let ghost answer = drawn.deep_view();
            commands.append(&mut drawn);
            proof {
                assert(old(hp).allows(game_request(game_trigger@, message@), answer));
                assert(commands.deep_view() =~= echoed + answer);
            }
            commands
        },
        Message::Other(_) => Vec::new(),
    }
}

/// Answers one inbound message: writes the lines of all the commands that
/// it calls for to the end of `out`.
pub fn handle_command(
    out: &mut String,
    message: Message,
    echo: &Echo,
    game_trigger: &str,
    hp: &mut HP,
    automode: &Automode,
)
    ensures
        final(hp).name() == old(hp).name(),
        final(hp).words() == old(hp).words(),
        exists|commands: Seq<CommandView>|
            {
                &&& #[trigger] answers(
                    message@,
                    echo.trigger@,
                    game_trigger@,
                    *old(hp),
                    *automode,
                    commands,
                )
                &&& final(out)@ == old(out)@ + lines(commands)
            },
{
    let commands = dispatch(message, echo, game_trigger, hp, automode);
    execute_all(commands, out);
}

/// Answers one raw line from the server. A line that cannot be parsed is
/// skipped: it is reported to the caller and nothing is written.
pub fn handle_line(
    out: &mut String,
    line: &str,
    echo: &Echo,
    game_trigger: &str,
    hp: &mut HP,
    automode: &Automode,
) -> (handled: Result<(), MalformedInput>)
    ensures
        final(hp).name() == old(hp).name(),
        final(hp).words() == old(hp).words(),
        match parse(line@) {
            Ok(message) => {
                &&& handled is Ok
                &&& exists|commands: Seq<CommandView>|
                    {
                        &&& #[trigger] answers(
                            message,
                            echo.trigger@,
                            game_trigger@,
                            *old(hp),
                            *automode,
                            commands,
                        )
                        &&& final(out)@ == old(out)@ + lines(commands)
                    }
            },
            Err(_) => handled is Err && final(out)@ == old(out)@,
        },
{
    match parse_message(line) {
        Ok(message) => {
            handle_command(out, message, echo, game_trigger, hp, automode);
            Ok(())
        },
        Err(e) => Err(e),
    }
}

} // verus!
