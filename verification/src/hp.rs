//! The word game: on request, picks a word and one of its characters.

use vstd::prelude::*;
use rand::Rng;
use rand::ThreadRng;
pub use crate::command::Command;
use crate::command::CommandView;
use crate::text::{chars_of, str_eq};
use crate::util::ConfigurationError;

verus! {

#[verifier::external_type_specification]
#[verifier::external_body]
pub struct ExThreadRng(ThreadRng);

/// Draws one of `values` at random, or nothing if there is none. Wraps
/// `rand::Rng::choose`, which returns `None` for an empty slice and a
/// reference to the element at a random index otherwise. Which element comes
/// depends on the generator: the contract says only that it is one of them.
#[verifier::external_body]
fn choose_one<'a, T>(rng: &mut ThreadRng, values: &'a [T]) -> (picked: Option<&'a T>)
    ensures
        values@.len() == 0 ==> picked is None,
        values@.len() > 0 ==> picked is Some && values@.contains(*picked.unwrap()),
{
    rng.choose(values)
}

/// The words to draw from: at least one, and none of them empty.
pub struct WordList {
    words: Vec<String>,
}

/// The word game of one name: its words and the generator it draws with.
pub struct HP<'r> {
    name: &'r str,
    words: WordList,
    rng: ThreadRng,
}

/// The hint that goes with a round of the game called `name`.
pub open spec fn hint(name: Seq<char>) -> Seq<char> {
    "se "@ + name
}

/// The index of the first empty word of `words`, or their number if every
/// word has a character.
pub open spec fn first_empty(words: Seq<Seq<char>>) -> int
    decreases words.len(),
{
    if words.len() == 0 {
        0
    } else if first_empty(words.drop_last()) < words.len() - 1 {
        first_empty(words.drop_last())
    } else if words.last().len() == 0 {
        words.len() - 1
    } else {
        words.len() as int
    }
}

impl View for WordList {
    type V = Seq<Seq<char>>;

    closed spec fn view(&self) -> Seq<Seq<char>> {
        self.words.deep_view()
    }
}

impl WordList {
    #[verifier::type_invariant]
    closed spec fn wf(self) -> bool {
        &&& self.words.len() > 0
        &&& forall|i: int| 0 <= i < self.words.len() ==> (#[trigger] self.words[i])@.len() > 0
    }

    /// Takes `words` as a word list. Refuses an empty list, and a list with
    /// an empty word: a round needs a character to reveal.
    pub fn new(words: Vec<String>) -> (made: Result<WordList, ConfigurationError>)
        ensures
            match made {
                Ok(list) => {
                    &&& words.len() > 0
                    &&& first_empty(words.deep_view()) == words.len()
                    &&& list@ == words.deep_view()
                },
                Err(ConfigurationError::EmptyWordList) => words.len() == 0,
                Err(ConfigurationError::EmptyWord(at)) => at == first_empty(words.deep_view())
                    && at < words.len(),
                Err(_) => false,
            },
    {
        if words.len() == 0 {
            return Err(ConfigurationError::EmptyWordList);
        }
        let mut at: usize = 0;
        while at < words.len()
            invariant
                at <= words.len(),
                first_empty(words.deep_view().take(at as int)) == at,
                forall|i: int| 0 <= i < at ==> (#[trigger] words[i])@.len() > 0,
            decreases words.len() - at,
        {
            let ghost seen = words.deep_view().take(at as int);
            let ghost next = words.deep_view().take(at + 1);
            proof {
                assert(next.drop_last() =~= seen);
                assert(next.last() == words[at as int]@);
            }
            if words[at].as_str().unicode_len() == 0 {
                proof {
                    lemma_first_empty_prefix(words.deep_view(), at + 1);
                }
                return Err(ConfigurationError::EmptyWord(at));
            }
            at += 1;
        }
        proof {
            assert(words.deep_view().take(at as int) =~= words.deep_view());
        }
        Ok(WordList { words })
    }

    /// The words, for a draw.
    fn as_slice(&self) -> (words: &[String])
        ensures
            words.deep_view() == self@,
            words@.len() > 0,
            forall|i: int| 0 <= i < words@.len() ==> (#[trigger] words@[i])@.len() > 0,
    {
        proof {
            use_type_invariant(self);
        }
        let words = self.words.as_slice();
        assert(words.deep_view() =~= self@);
        words
    }
}

/// The command that starts a round of the game called `name` with `word`
/// and its character `reveal`.
pub fn start_game(name: &str, word: &str, reveal: char) -> (command: Command)
    ensures
        command@ == CommandView::StartGame(word@, reveal, hint(name@)),
{
    let mut given = String::from_str("se ");
    given.append(name);
    Command::StartGame(String::from_str(word), reveal, given)
}

impl<'r> HP<'r> {
    /// The game's name.
    pub closed spec fn name(&self) -> Seq<char> {
        self.name@
    }

    /// The game's words.
    pub closed spec fn words(&self) -> Seq<Seq<char>> {
        self.words@
    }

    /// Whether `commands` is an answer that the game may give to a request
    /// made of `parts`: nothing unless the first part is the game's name;
    /// else one `StartGame` with a word of the list, one of that word's
    /// characters, and the hint.
    pub open spec fn allows(&self, parts: Seq<Seq<char>>, commands: Seq<CommandView>) -> bool {
        if parts.len() == 0 || parts[0] != self.name() {
            commands.len() == 0
        } else {
            &&& commands.len() == 1
            &&& commands[0] matches CommandView::StartGame(word, reveal, given)
            &&& self.words().contains(word)
            &&& word.contains(reveal)
            &&& given == hint(self.name())
        }
    }

    /// Draws a word of the list and one of its characters.
    fn pick_word(&mut self) -> (picked: (&String, char))
        ensures
            final(self).name() == old(self).name(),
            final(self).words() == old(self).words(),
            old(self).words().contains(picked.0@),
            picked.0@.contains(picked.1),
    {
        let words = self.words.as_slice();
        let word: &String = choose_one(&mut self.rng, words).unwrap();
        proof {
            let i = choose|i: int| 0 <= i < words@.len() && words@[i] == *word;
            assert(words.deep_view()[i] == word@);
        }
        let chars = chars_of(word.as_str());
        let reveal: char = *choose_one(&mut self.rng, chars.as_slice()).unwrap();
        (word, reveal)
    }

    /// Answers a request for a round. `parts` are the words of the request;
    /// unless the first of them is the game's name there is no answer.
    pub fn execute(&mut self, parts: &[&str]) -> (commands: Vec<Command>)
        ensures
            final(self).name() == old(self).name(),
            final(self).words() == old(self).words(),
            old(self).allows(parts.deep_view(), commands.deep_view()),
    {
        if parts.len() == 0 {
            return Vec::new();
        }
        if str_eq(parts[0], self.name) {
            let name = self.name;
            let (word, reveal) = self.pick_word();
            let commands = vec![start_game(name, word.as_str(), reveal)];
            return commands;
        }
        Vec::new()
    }
}

/// Sets up the game called `name` with the given words and generator.
/// Fails where `WordList::new` refuses the words.
pub fn init<'r>(name: &'r str, words: Vec<String>, rng: ThreadRng) -> (made: Result<
    HP<'r>,
    ConfigurationError,
>)
    ensures
        match made {
            Ok(game) => {
                &&& words.len() > 0
                &&& first_empty(words.deep_view()) == words.len()
                &&& game.name() == name@
                &&& game.words() == words.deep_view()
            },
            Err(ConfigurationError::EmptyWordList) => words.len() == 0,
            Err(ConfigurationError::EmptyWord(at)) => at == first_empty(words.deep_view()) && at
                < words.len(),
            Err(_) => false,
        },
{
    match WordList::new(words) {
        Ok(words) => Ok(HP { name, words, rng }),
        Err(e) => Err(e),
    }
}

/// A first empty word found in a prefix is the first empty word of the whole.
proof fn lemma_first_empty_prefix(words: Seq<Seq<char>>, n: int)
    requires
        0 <= n <= words.len(),
        first_empty(words.take(n)) < n,
    ensures
        first_empty(words) == first_empty(words.take(n)),
    decreases words.len() - n,
{
    if n < words.len() {
        let longer = words.take(n + 1);
        assert(longer.drop_last() =~= words.take(n));
        lemma_first_empty_prefix(words, n + 1);
    } else {
        assert(words.take(n) =~= words);
    }
}

} // verus!
