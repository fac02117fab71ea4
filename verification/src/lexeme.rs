//! Lexemes as the grammar reads them: with the blanks around them skipped.

use crate::error::{agrees, mismatch, Outcome, ParseError, Rule};
use crate::scan::{char_at, skip_blank, skip_blanks, tag, tag_end};
use crate::tokens::{identifier, identifier_at, is_identifier, Identifier};
use vstd::prelude::*;

verus! {

/// The outcome `o` with the blanks behind a match consumed as well.
pub open spec fn spaced<T>(s: Seq<char>, o: Outcome<T>) -> Outcome<T> {
    match o {
        Outcome::Match { next, value } => Outcome::Match { next: skip_blank(s, next), value },
        Outcome::Fail(f) => Outcome::Fail(f),
    }
}

/// The position behind an optional part: behind its match, or `pos` where it is
/// absent.
pub open spec fn behind<T>(o: Outcome<T>, pos: int) -> int {
    match o {
        Outcome::Match { next, .. } => next,
        Outcome::Fail(_) => pos,
    }
}

/// The value of an optional part, if it is there.
pub open spec fn found<T>(o: Outcome<T>) -> Option<T> {
    match o {
        Outcome::Match { value, .. } => Some(value),
        Outcome::Fail(_) => None,
    }
}

/// The operator symbol `c` behind the blanks at `pos`, with the blanks that
/// follow it.
pub open spec fn symbol_at(s: Seq<char>, pos: int, c: char) -> Outcome<char> {
    let start: int = skip_blank(s, pos);
    if char_at(s, start) == Some(c) {
        Outcome::Match { next: skip_blank(s, start + 1), value: c }
    } else {
        Outcome::Fail(mismatch(Rule::Operator, start))
    }
}

/// Parses the operator symbol `c`, with the blanks around it.
pub fn symbol(s: &[char], pos: usize, c: char) -> (r: Result<(usize, char), ParseError>)
    ensures
        agrees(r, symbol_at(s@, pos as int, c)),
        r matches Ok((next, _)) ==> pos < next <= s.len(),
{
    let start: usize = skip_blanks(s, pos);
    if start < s.len() && s[start] == c {
        Ok((skip_blanks(s, start + 1), c))
    } else {
        Err(ParseError::mismatch(Rule::Operator, start))
    }
}

/// The word `word` behind the blanks at `pos`, with the blanks that follow it;
/// a failure is attributed to `rule`. What follows the word is not looked at.
pub open spec fn keyword_at(s: Seq<char>, pos: int, word: Seq<char>, rule: Rule) -> Outcome<()> {
    let start: int = skip_blank(s, pos);
    match tag_end(s, start, word) {
        Some(next) => Outcome::Match { next: skip_blank(s, next), value: () },
        None => Outcome::Fail(mismatch(rule, start)),
    }
}

/// Parses the word `word`, with the blanks around it.
pub fn keyword(s: &[char], pos: usize, word: &str, rule: Rule) -> (r: Result<
    (usize, ()),
    ParseError,
>)
    ensures
        agrees(r, keyword_at(s@, pos as int, word@, rule)),
        r matches Ok((next, _)) ==> pos < next <= s.len(),
{
    let start: usize = skip_blanks(s, pos);
    match tag(s, start, word) {
        Some(next) => Ok((skip_blanks(s, next), ())),
        None => Err(ParseError::mismatch(rule, start)),
    }
}

/// The identifier behind the blanks at `pos`, with the blanks that follow it.
pub open spec fn word_at(s: Seq<char>, pos: int) -> Outcome<Seq<char>> {
    spaced(s, identifier_at(s, skip_blank(s, pos)))
}

/// Parses an identifier, with the blanks around it.
pub fn word(s: &[char], pos: usize) -> (r: Result<(usize, Identifier), ParseError>)
    ensures
        agrees(r, word_at(s@, pos as int)),
        r matches Ok((next, name)) ==> pos < next <= s.len() && is_identifier(name@),
{
    let start: usize = skip_blanks(s, pos);
    match identifier(s, start) {
        Ok((next, name)) => Ok((skip_blanks(s, next), name)),
        Err(e) => Err(e),
    }
}

} // verus!
