//! Helpers shared by the producers: user masks, and the configuration
//! values that the producers are set up from.

use vstd::prelude::*;
use crate::text::{chars_of, find, position, without_leading};

verus! {

#[verifier::external_type_specification]
#[verifier::external_body]
pub struct ExValue(toml::Value);

/// The value that a configuration text holds; for a text that is not
/// valid, the parser's complaints, each with the byte range it is about and
/// its description.
pub uninterp spec fn document(text: Seq<char>) -> Result<
    toml::Value,
    Seq<(usize, usize, Seq<char>)>,
>;

/// Line and column, both counted from 0, of the byte at `offset` of `text`.
pub uninterp spec fn linecol(text: Seq<char>, offset: usize) -> (usize, usize);

/// The value found under the dotted `path` within `value`, if there is one.
pub uninterp spec fn looked_up(value: toml::Value, path: Seq<char>) -> Option<toml::Value>;

/// The elements of `value` if it is an array.
pub uninterp spec fn items(value: toml::Value) -> Option<Seq<toml::Value>>;

/// The characters of `value` if it is a string.
pub uninterp spec fn text_of(value: toml::Value) -> Option<Seq<char>>;

/// The number that `value` is, if it is an integer.
pub uninterp spec fn integer_of(value: toml::Value) -> Option<i64>;

/// The keys of `value` with what stands under each, in the order of the
/// keys, if `value` is a table.
pub uninterp spec fn entries(value: toml::Value) -> Option<Seq<(Seq<char>, toml::Value)>>;

/// Reads a configuration text. Wraps `toml::Value`'s `FromStr`, which runs
/// the crate's parser over the whole text and gives the top-level table as a
/// value, or the parser's errors, each with its byte range and description.
/// The result depends on the text alone.
#[verifier::external_body]
fn parse_document(text: &str) -> (parsed: Result<toml::Value, Vec<(usize, usize, String)>>)
    ensures
        match parsed {
            Ok(value) => document(text@) == Ok::<toml::Value, Seq<(usize, usize, Seq<char>)>>(
                value,
            ),
            Err(errors) => document(text@) == Err::<toml::Value, Seq<(usize, usize, Seq<char>)>>(
                errors.deep_view(),
            ),
        },
{
    text.parse::<toml::Value>().map_err(
        |errors| errors.into_iter().map(|e| (e.lo, e.hi, e.desc)).collect(),
    )
}

/// Wraps `toml::Parser::to_linecol` on a parser for `text`: the position
/// of a byte offset as line and column. It walks the lines of the text and
/// depends on nothing else.
#[verifier::external_body]
fn to_linecol(text: &str, offset: usize) -> (at: (usize, usize))
    ensures
        at == linecol(text@, offset),
{
    toml::Parser::new(text).to_linecol(offset)
}

/// Wraps `toml::Value::lookup`: follows a dotted path through tables (by
/// key) and arrays (by index). An empty path gives the value itself, a path
/// that cannot be read or leads nowhere gives `None`.
#[verifier::external_body]
pub(crate) fn lookup<'a>(value: &'a toml::Value, path: &str) -> (found: Option<&'a toml::Value>)
    ensures
        match found {
            Some(v) => looked_up(*value, path@) == Some(*v),
            None => looked_up(*value, path@) is None,
        },
{
    value.lookup(path)
}

/// Wraps `toml::Value::as_slice`: the elements of an array, `None` for any
/// other kind of value.
#[verifier::external_body]
fn as_slice<'a>(value: &'a toml::Value) -> (elements: Option<&'a [toml::Value]>)
    ensures
        match elements {
            Some(slice) => items(*value) == Some(slice@),
            None => items(*value) is None,
        },
{
    value.as_slice()
}

/// Wraps `toml::Value::as_str`: the text of a string, `None` for any other
/// kind of value.
#[verifier::external_body]
pub(crate) fn as_str<'a>(value: &'a toml::Value) -> (text: Option<&'a str>)
    ensures
        match text {
            Some(s) => text_of(*value) == Some(s@),
            None => text_of(*value) is None,
        },
{
    value.as_str()
}

/// Wraps `toml::Value::as_integer`: the number of an integer, `None` for
/// any other kind of value.
#[verifier::external_body]
pub(crate) fn as_integer(value: &toml::Value) -> (number: Option<i64>)
    ensures
        number == integer_of(*value),
{
    value.as_integer()
}

/// Wraps `toml::Value::as_table` and a walk over the table, which is a
/// `BTreeMap` and so hands out its entries in the order of their keys;
/// `None` for any other kind of value.
#[verifier::external_body]
pub(crate) fn table_entries<'a>(value: &'a toml::Value) -> (listed: Option<
    Vec<(&'a str, &'a toml::Value)>,
>)
    ensures
        match listed {
            Some(pairs) => entries(*value) == Some(
                Seq::new(pairs@.len(), |i: int| (pairs@[i].0@, *pairs@[i].1)),
            ),
            None => entries(*value) is None,
        },
{
    value.as_table().map(|table| table.iter().map(|(key, v)| (key.as_str(), v)).collect())
}

/// The strings of the array found under `path`: empty unless there is an
/// array there and each of its elements is a string.
pub open spec fn strings_at(config: toml::Value, path: Seq<char>) -> Seq<Seq<char>> {
    match looked_up(config, path) {
        Some(found) => match items(found) {
            Some(elements) => if forall|i: int|
                0 <= i < elements.len() ==> text_of(#[trigger] elements[i]) is Some {
                Seq::new(elements.len(), |i: int| text_of(elements[i])->0)
            } else {
                seq![]
            },
            None => seq![],
        },
        None => seq![],
    }
}

/// Reads a list of strings from a configuration value. Whatever is not a
/// list of strings reads as the empty list.
pub fn get_strings<'r>(config: &'r toml::Value, key: &'r str) -> (strings: Vec<&'r str>)
    ensures
        strings.deep_view() == strings_at(*config, key@),
{
    let mut strings: Vec<&'r str> = Vec::new();
    if let Some(found) = lookup(config, key) {
        if let Some(elements) = as_slice(found) {
            let mut at: usize = 0;
            while at < elements.len()
                invariant
                    at <= elements.len(),
                    looked_up(*config, key@) == Some(*found),
                    items(*found) == Some(elements@),
                    strings.len() == at,
                    forall|i: int|
                        0 <= i < at ==> text_of(#[trigger] elements@[i]) == Some(strings[i]@),
                decreases elements.len() - at,
            {
                match as_str(&elements[at]) {
                    Some(s) => strings.push(s),
                    None => {
                        let nothing: Vec<&'r str> = Vec::new();
                        assert(text_of(elements@[at as int]) is None);
                        assert(nothing.deep_view() =~= strings_at(*config, key@));
                        return nothing;
                    },
                }
                at += 1;
            }
            assert(strings.deep_view() =~= strings_at(*config, key@));
        }
    }
    strings
}

/// Whether `error` reports `fault`, a complaint about a byte range of
/// `text`, with the range given as lines and columns.
pub open spec fn reports(text: Seq<char>, fault: (usize, usize, Seq<char>), error: SyntaxError) -> bool {
    &&& (error.from.line, error.from.col) == linecol(text, fault.0)
    &&& (error.to.line, error.to.col) == linecol(text, fault.1)
    &&& error.desc@ == fault.2
}

/// Reads a configuration text into a value, or says where and why it
/// cannot be read.
pub fn parse_config(text: &str) -> (parsed: Result<toml::Value, ConfigurationError>)
    ensures
        match document(text@) {
            Ok(value) => parsed == Ok::<toml::Value, ConfigurationError>(value),
            Err(faults) => {
                &&& parsed matches Err(ConfigurationError::Syntax(errors))
                &&& errors.len() == faults.len()
                &&& forall|i: int|
                    0 <= i < faults.len() ==> reports(text@, faults[i], #[trigger] errors[i])
            },
        },
{
    match parse_document(text) {
        Ok(value) => Ok(value),
        Err(found) => {
            let ghost faults = found.deep_view();
            let mut errors: Vec<SyntaxError> = Vec::new();
            for fault in it: found
                invariant
                    it.seq().len() == faults.len(),
                    forall|i: int|
                        0 <= i < faults.len() ==> (#[trigger] it.seq()[i]).deep_view() == faults[i],
                    errors.len() == it.index(),
                    forall|i: int|
                        0 <= i < it.index() ==> reports(text@, faults[i], #[trigger] errors[i]),
            {
                let (lo, hi, desc) = fault;
                let from = to_linecol(text, lo);
                let to = to_linecol(text, hi);
                errors.push(
                    SyntaxError {
                        from: LineCol { line: from.0, col: from.1 },
                        to: LineCol { line: to.0, col: to.1 },
                        desc,
                    },
                );
            }
            Err(ConfigurationError::Syntax(errors))
        },
    }
}

/// A position in a configuration text: line and column, both counted from 0.
#[derive(Debug, PartialEq, Eq, Clone, Copy)]
pub struct LineCol {
    pub line: usize,
    pub col: usize,
}

/// One complaint of the configuration parser, with the stretch of text it
/// is about.
#[derive(Debug, PartialEq, Eq)]
pub struct SyntaxError {
    pub from: LineCol,
    pub to: LineCol,
    pub desc: String,
}

/// Why the bot cannot start with the configuration it was given.
#[derive(Debug, PartialEq, Eq)]
pub enum ConfigurationError {
    /// The word list holds no word.
    EmptyWordList,
    /// The word at this index of the word list has no character.
    EmptyWord(usize),
    /// The configuration text is not valid; the parser's complaints.
    Syntax(Vec<SyntaxError>),
}

/// The bare nick of a user mask such as `:nick!user@host`: what stands
/// before the first `!`, without one leading `:`.
pub open spec fn nick(usermask: Seq<char>) -> Seq<char> {
    without_leading(usermask.take(position(usermask, '!') as int), ':')
}

/// Extracts the bare nick from a user mask.
pub fn nick_of(usermask: &str) -> (bare: &str)
    ensures
        bare@ == nick(usermask@),
{
    let chars = chars_of(usermask);
    let bang = find(&chars, 0, '!');
    let start: usize = if bang > 0 && chars[0] == ':' {
        1
    } else {
        0
    };
    let bare = usermask.substring_char(start, bang);
    proof {
        assert(usermask@.skip(0) =~= usermask@);
        assert(bare@ =~= nick(usermask@));
    }
    bare
}

} // verus!
