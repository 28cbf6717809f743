//! Character-level model of the text the bot reads and writes.
//!
//! Strings are viewed as `Seq<char>`. Everything the protocol code needs from
//! a string (finding a separator, splitting on it, joining tokens back) is
//! defined here once as a spec function, with the executable counterpart
//! proved against it.

use vstd::prelude::*;

verus! {

/// Index of the first occurrence of `c` in `s`; `s.len()` when `c` does not occur.
pub open spec fn position(s: Seq<char>, c: char) -> nat
    decreases s.len(),
{
    if s.len() == 0 || s[0] == c {
        0
    } else {
        1 + position(s.drop_first(), c)
    }
}

/// The tokens of `s` between occurrences of `sep`. There is always at least
/// one token; two adjacent separators enclose an empty token.
pub open spec fn split(s: Seq<char>, sep: char) -> Seq<Seq<char>>
    decreases s.len(),
{
    let i = position(s, sep) as int;
    if i >= s.len() {
        seq![s]
    } else {
        seq![s.take(i)] + split(s.skip(i + 1), sep)
    }
}

/// The tokens written one after the other with `sep` between neighbours.
pub open spec fn join(tokens: Seq<Seq<char>>, sep: char) -> Seq<char>
    decreases tokens.len(),
{
    if tokens.len() == 0 {
        Seq::empty()
    } else if tokens.len() == 1 {
        tokens[0]
    } else {
        tokens[0] + seq![sep] + join(tokens.drop_first(), sep)
    }
}

/// `s` without its first character if that character is `c`, else `s` itself.
pub open spec fn without_leading(s: Seq<char>, c: char) -> Seq<char> {
    if s.len() > 0 && s[0] == c {
        s.skip(1)
    } else {
        s
    }
}

/// `position` is the least index that holds `c`.
pub proof fn lemma_position(s: Seq<char>, c: char)
    ensures
        position(s, c) <= s.len(),
        position(s, c) < s.len() ==> s[position(s, c) as int] == c,
        forall|j: int| 0 <= j < position(s, c) ==> s[j] != c,
    decreases s.len(),
{
    if s.len() == 0 || s[0] == c {
    } else {
        let rest = s.drop_first();
        lemma_position(rest, c);
        assert forall|j: int| 0 <= j < position(s, c) implies s[j] != c by {
            if j > 0 {
                assert(s[j] == rest[j - 1]);
            }
        }
        if position(s, c) < s.len() {
            assert(s[position(s, c) as int] == rest[position(rest, c) as int]);
        }
    }
}

/// An index that holds `c` with no `c` before it is the `position`.
pub proof fn lemma_position_is(s: Seq<char>, c: char, i: int)
    requires
        0 <= i <= s.len(),
        i < s.len() ==> s[i] == c,
        forall|j: int| 0 <= j < i ==> s[j] != c,
    ensures
        position(s, c) == i,
{
    lemma_position(s, c);
    let p = position(s, c) as int;
    if p < i {
        assert(s[p] != c);
    }
}

/// One unfolding of `split`: the first token ends at the first separator and
/// the remaining tokens are the tokens of what follows it.
pub proof fn lemma_split_step(s: Seq<char>, sep: char)
    ensures
        position(s, sep) <= s.len(),
        split(s, sep).len() >= 1,
        split(s, sep)[0] == s.take(position(s, sep) as int),
        position(s, sep) == s.len() ==> split(s, sep) == seq![s],
        position(s, sep) < s.len() ==> split(s, sep).skip(1) == split(
            s.skip(position(s, sep) as int + 1),
            sep,
        ),
{
    lemma_position(s, sep);
    let i = position(s, sep) as int;
    if i < s.len() {
        let rest = split(s.skip(i + 1), sep);
        assert((seq![s.take(i)] + rest).skip(1) =~= rest);
    } else {
        assert(s.take(i) =~= s);
    }
}

/// Where the token that starts at index `from` of `s` ends: at the next
/// separator, or at the end of `s`.
pub open spec fn token_end(s: Seq<char>, from: int, sep: char) -> int {
    from + position(s.skip(from), sep)
}

/// Walking the tokens of `s` from left to right: if the tokens from the
/// `k`-th on are those of `s.skip(from)`, then the `k`-th token runs from
/// `from` to `token_end`, and the tokens after it are those of the text
/// behind that separator.
pub proof fn lemma_token(s: Seq<char>, sep: char, k: int, from: int)
    requires
        0 <= k <= split(s, sep).len(),
        0 <= from <= s.len(),
        split(s, sep).skip(k) == split(s.skip(from), sep),
    ensures
        from <= token_end(s, from, sep) <= s.len(),
        k < split(s, sep).len(),
        split(s, sep)[k] == s.subrange(from, token_end(s, from, sep)),
        token_end(s, from, sep) == s.len() ==> split(s, sep).len() == k + 1,
        token_end(s, from, sep) < s.len() ==> k + 1 < split(s, sep).len(),
        token_end(s, from, sep) < s.len() ==> split(s, sep).skip(k + 1) == split(
            s.skip(token_end(s, from, sep) + 1),
            sep,
        ),
{
    let tokens = split(s, sep);
    let tail = s.skip(from);
    let e = token_end(s, from, sep);
    lemma_split_step(tail, sep);
    assert(tokens.skip(k).len() == tokens.len() - k);
    assert(tokens.skip(k)[0] == tokens[k]);
    assert(tail.take(e - from) =~= s.subrange(from, e));
    if e < s.len() {
        let later = split(tail.skip(e - from + 1), sep);
        lemma_split_step(tail.skip(e - from + 1), sep);
        assert(tail.skip(e - from + 1) =~= s.skip(e + 1));
        assert(tokens.skip(k).skip(1) == later);
        assert(tokens.skip(k).skip(1).len() == tokens.skip(k).len() - 1);
        assert(tokens.skip(k + 1) =~= tokens.skip(k).skip(1));
    }
}

/// The walk of `lemma_token` starts at the first token and index 0.
pub proof fn lemma_token_start(s: Seq<char>, sep: char)
    ensures
        split(s, sep).skip(0) == split(s.skip(0), sep),
{
    assert(s.skip(0) =~= s);
    assert(split(s, sep).skip(0) =~= split(s, sep));
}

/// Joining the tokens of a split gives the text back.
pub proof fn lemma_join_split(s: Seq<char>, sep: char)
    ensures
        join(split(s, sep), sep) == s,
    decreases s.len(),
{
    lemma_position(s, sep);
    let i = position(s, sep) as int;
    if i >= s.len() {
    } else {
        let tail = s.skip(i + 1);
        let tokens = split(s, sep);
        lemma_join_split(tail, sep);
        lemma_split_step(tail, sep);
        assert(tokens.drop_first() =~= split(tail, sep));
        assert(s.take(i) + seq![sep] + tail =~= s);
    }
}

/// A text that starts with a separator-free token and a separator splits
/// into that token and the tokens of the rest.
pub proof fn lemma_split_prepend(token: Seq<char>, rest: Seq<char>, sep: char)
    requires
        !token.contains(sep),
    ensures
        split(token + seq![sep] + rest, sep) == seq![token] + split(rest, sep),
{
    let s = token + seq![sep] + rest;
    let i = token.len() as int;
    assert forall|j: int| 0 <= j < i implies s[j] != sep by {
        assert(s[j] == token[j]);
        assert(token.contains(token[j]));
    }
    assert(s[i] == sep);
    lemma_position_is(s, sep, i);
    assert(s.take(i) =~= token);
    assert(s.skip(i + 1) =~= rest);
}

/// The characters of `s`, in order.
pub fn chars_of(s: &str) -> (chars: Vec<char>)
    ensures
        chars@ == s@,
{
    let mut chars: Vec<char> = Vec::new();
    for c in it: s.chars()
        invariant
            it.seq() == s@,
            chars@ == s@.take(it.index() as int),
    {
        chars.push(c);
    }
    chars
}

/// Searches `chars` from index `from` on for `c`: the index of its first
/// occurrence there, or the length of `chars`.
pub fn find(chars: &Vec<char>, from: usize, c: char) -> (at: usize)
    requires
        from <= chars.len(),
    ensures
        at == token_end(chars@, from as int, c),
        from <= at <= chars.len(),
{
    let ghost tail = chars@.skip(from as int);
    let mut at: usize = from;
    while at < chars.len() && chars[at] != c
        invariant
            from <= at <= chars.len(),
            tail == chars@.skip(from as int),
            forall|j: int| 0 <= j < at - from ==> tail[j] != c,
        decreases chars.len() - at,
    {
        at += 1;
    }
    proof {
        lemma_position_is(tail, c, at - from);
    }
    at
}

/// Whether two strings hold the same characters. Wraps `==` on `str`, which
/// the standard library documents as comparing the strings' contents.
#[verifier::external_body]
pub(crate) fn str_eq(a: &str, b: &str) -> (same: bool)
    ensures
        same == (a@ == b@),
{
    a == b
}

/// Appends one character. Wraps `String::push`, documented as appending the
/// given `char` to the end of the string.
#[verifier::external_body]
pub(crate) fn push_char(s: &mut String, c: char)
    ensures
        final(s)@ == old(s)@.push(c),
{
    s.push(c)
}

/// Splits `s` on every `sep`, as `split` describes.
pub fn split_str<'a>(s: &'a str, sep: char) -> (tokens: Vec<&'a str>)
    ensures
        tokens.deep_view() == split(s@, sep),
{
    let chars = chars_of(s);
    let n = chars.len();
    let mut tokens: Vec<&'a str> = Vec::new();
    let mut start: usize = 0;
    proof {
        lemma_token_start(s@, sep);
        assert(tokens.deep_view() =~= split(s@, sep).take(0));
    }
    loop
        invariant
            chars@ == s@,
            n == chars.len(),
            start <= n,
            tokens.len() <= split(s@, sep).len(),
            tokens.deep_view() == split(s@, sep).take(tokens.len() as int),
            split(s@, sep).skip(tokens.len() as int) == split(s@.skip(start as int), sep),
        decreases n - start,
    {
        let ghost all = split(s@, sep);
        let ghost k = tokens.len() as int;
        let ghost before = tokens.deep_view();
        let at = find(&chars, start, sep);
        let token = s.substring_char(start, at);
        tokens.push(token);
        proof {
            lemma_token(s@, sep, k, start as int);
            assert(tokens.deep_view() =~= before.push(token@));
            assert(all.take(k + 1) =~= all.take(k).push(all[k]));
        }
        if at == n {
            proof {
                assert(all.take(k + 1) =~= all);
            }
            return tokens;
        }
        start = at + 1;
    }
}

} // verus!
