//! Parse failures and the mathematical outcome of a grammar rule.

use vstd::prelude::*;

verus! {

/// How a rule failed.
#[derive(Clone, Copy, Debug, PartialEq, Eq, Structural)]
pub enum ErrorKind {
    /// No lexeme alternative matched at the position.
    LexicalMismatch,
    /// A required part is absent after the rule had already consumed input.
    SyntaxError,
    /// The input ended where a required part was expected, after the rule had
    /// already consumed input.
    IncompleteInput,
}

/// The rule a failure is attributed to.
#[derive(Clone, Copy, Debug, PartialEq, Eq, Structural)]
pub enum Rule {
    Operator,
    UnsignedInteger,
    Float,
    Constant,
    BasicType,
    Identifier,
    ArraySpecifier,
    PrecisionQualifier,
    TypeQualifier,
    TypeSpecifier,
    FullyTypeSpecifier,
    ParamQualifier,
    ParamDeclaration,
    FunctionPrototype,
    SingleDeclaration,
    DeclarationList,
    Declaration,
}

/// A failed parse: what kind of failure, in which rule, and the index of the
/// character at which the missing part was looked for.
#[derive(Clone, Copy, Debug, PartialEq, Eq, Structural)]
pub struct ParseError {
    pub kind: ErrorKind,
    pub rule: Rule,
    pub position: usize,
}

/// The mathematical counterpart of [`ParseError`], with an unbounded position.
pub struct Failure {
    pub kind: ErrorKind,
    pub rule: Rule,
    pub position: int,
}

impl View for ParseError {
    type V = Failure;

    open spec fn view(&self) -> Failure {
        Failure { kind: self.kind, rule: self.rule, position: self.position as int }
    }
}

/// What a rule yields at a position of a text: either a value together with the
/// position just behind what was consumed, or a failure.
pub enum Outcome<T> {
    Match { next: int, value: T },
    Fail(Failure),
}

/// The failure of a lexical rule that found none of its lexemes at `position`.
pub open spec fn mismatch(rule: Rule, position: int) -> Failure {
    Failure { kind: ErrorKind::LexicalMismatch, rule, position }
}

/// How the failure `inner` of a part of `rule` is reported by `rule`, which began
/// at `start` in a text of `len` characters.
///
/// A lexical mismatch at `start` means that the rule did not begin to match, and
/// is passed on. A lexical mismatch further on means that a required part is
/// absent after the rule consumed input: it becomes a syntax error of `rule`, or
/// incomplete input where the text ends there. Any other failure is the more
/// specific one and is passed on.
pub open spec fn committed(inner: Failure, rule: Rule, start: int, len: int) -> Failure {
    if inner.kind == ErrorKind::LexicalMismatch && inner.position > start {
        Failure {
            kind: if inner.position >= len {
                ErrorKind::IncompleteInput
            } else {
                ErrorKind::SyntaxError
            },
            rule,
            position: inner.position,
        }
    } else {
        inner
    }
}

/// Whether the executable result `r` is the outcome `o`: the same position and a
/// value whose model is the outcome's value, or the same failure.
pub open spec fn agrees<T: DeepView>(r: Result<(usize, T), ParseError>, o: Outcome<T::V>) -> bool {
    match r {
        Ok((next, value)) => o == (Outcome::Match { next: next as int, value: value.deep_view() }),
        Err(e) => o == Outcome::<T::V>::Fail(e@),
    }
}

impl ParseError {
    /// The lexical mismatch of `rule` at `position`.
    pub fn mismatch(rule: Rule, position: usize) -> (e: ParseError)
        ensures
            e@ == mismatch(rule, position as int),
    {
        ParseError { kind: ErrorKind::LexicalMismatch, rule, position }
    }

    /// This failure as reported by `rule`, which began at `start` in a text of
    /// `len` characters.
    pub fn committed(self, rule: Rule, start: usize, len: usize) -> (e: ParseError)
        ensures
            e@ == committed(self@, rule, start as int, len as int),
    {
        if self.kind == ErrorKind::LexicalMismatch && self.position > start {
            ParseError {
                kind: if self.position >= len {
                    ErrorKind::IncompleteInput
                } else {
                    ErrorKind::SyntaxError
                },
                rule,
                position: self.position,
            }
        } else {
            self
        }
    }
}

} // verus!
