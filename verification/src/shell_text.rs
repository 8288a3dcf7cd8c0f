//! Shell word quoting and splitting (the `shell-words` crate).
use crate::text::{join_with, views};
use vstd::prelude::*;

verus! {

/// A character that keeps a word from standing unquoted in a shell line
/// (`shell_words::quote`'s `escape_style`).
pub open spec fn shell_special(c: char) -> bool {
    c == '\n' || c == '\'' || c == '|' || c == '&' || c == ';' || c == '<' || c == '>' || c == '('
        || c == ')' || c == '$' || c == '`' || c == '\\' || c == '"' || c == ' ' || c == '\t'
        || c == '*' || c == '?' || c == '[' || c == '#' || c == '~' || c == '=' || c == '%'
}

/// `s` with each `'` written as `'\''`.
pub open spec fn single_quote_escaped(s: Seq<char>) -> Seq<char>
    decreases s.len(),
{
    if s.len() == 0 {
        Seq::empty()
    } else {
        single_quote_escaped(s.drop_last()) + if s.last() == '\'' {
            seq!['\'', '\\', '\'', '\'']
        } else {
            seq![s.last()]
        }
    }
}

/// How `shell_words::quote` writes one word: an empty word as `''`; a word
/// without special characters as it is; a word with a newline but no `'`
/// inside single quotes; any other word inside single quotes with each `'`
/// escaped.
pub open spec fn shell_quoted(s: Seq<char>) -> Seq<char> {
    if s.len() == 0 {
        seq!['\'', '\'']
    } else if !(exists|i: int| 0 <= i < s.len() && #[trigger] shell_special(s[i])) {
        s
    } else if s.contains('\n') && !s.contains('\'') {
        seq!['\''] + s + seq!['\'']
    } else {
        seq!['\''] + single_quote_escaped(s) + seq!['\'']
    }
}

/// The command line `shell_words::join` builds from `words`: the quoted
/// words separated by single spaces.
pub open spec fn shell_joined(words: Seq<Seq<char>>) -> Seq<char> {
    join_with(words.map_values(|w: Seq<char>| shell_quoted(w)), seq![' '])
}

/// `shell_words::join`: each word quoted by `shell_words::quote`, joined by
/// single spaces (it appends a space after each word and drops the last).
#[verifier::external_body]
pub(crate) fn shell_join(words: &Vec<String>) -> (r: String)
    ensures
        r@ == shell_joined(views(words@)),
{
    shell_words::join(words)
}

/// The words `shell_words::split` reads from `line`, or `None` where it
/// reports a parse error (an unterminated quote or a trailing escape).
pub uninterp spec fn shell_split_words(line: Seq<char>) -> Option<Seq<Seq<char>>>;

/// `shell_words::split`: the words of a POSIX-shell-style command line.
/// The contract names the result; the quoting rules are left to the crate.
#[verifier::external_body]
pub(crate) fn shell_split(line: &str) -> (r: Option<Vec<String>>)
    ensures
        match r {
            Some(words) => shell_split_words(line@) == Some(views(words@)),
            None => shell_split_words(line@) is None,
        },
{
    shell_words::split(line).ok()
}

} // verus!
