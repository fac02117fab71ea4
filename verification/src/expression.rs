//! The expressions that stand as array sizes and initializers.

use crate::error::{agrees, committed, Outcome, ParseError, Rule};
use crate::lexeme::{symbol, symbol_at};
use crate::scan::{skip_blank, skip_blanks};
use crate::tokens::{
    constant, constant_at, identifier, identifier_at, is_identifier, Constant, ConstantView,
    Identifier,
};
use vstd::prelude::*;

verus! {

/// An expression: a constant or a name.
#[derive(Debug, PartialEq)]
pub enum Expression {
    Identifier(Identifier),
    Constant(Constant),
}

/// The model of an [`Expression`].
pub enum ExpressionView {
    Identifier(Seq<char>),
    Constant(ConstantView),
}

impl DeepView for Expression {
    type V = ExpressionView;

    open spec fn deep_view(&self) -> ExpressionView {
        match self {
            Expression::Identifier(name) => ExpressionView::Identifier(name@),
            Expression::Constant(value) => ExpressionView::Constant(value.deep_view()),
        }
    }
}

impl Clone for Expression {
    fn clone(&self) -> (r: Self)
        ensures
            r == *self,
    {
        match self {
            Expression::Identifier(name) => Expression::Identifier(name.clone()),
            Expression::Constant(value) => Expression::Constant(value.clone()),
        }
    }
}

impl ExpressionView {
    /// A name in an expression is an identifier.
    pub open spec fn wf(self) -> bool {
        self matches ExpressionView::Identifier(name) ==> is_identifier(name)
    }
}

/// The expression behind the blanks at `pos`, with the blanks that follow it: a
/// constant, else an identifier. Where neither matches, the failure is that of
/// the identifier.
pub open spec fn assignment_expression_at(s: Seq<char>, pos: int) -> Outcome<ExpressionView> {
    let start: int = skip_blank(s, pos);
    match constant_at(s, start) {
        Outcome::Match { next, value } => Outcome::Match {
            next: skip_blank(s, next),
            value: ExpressionView::Constant(value),
        },
        Outcome::Fail(_) => match identifier_at(s, start) {
            Outcome::Match { next, value } => Outcome::Match {
                next: skip_blank(s, next),
                value: ExpressionView::Identifier(value),
            },
            Outcome::Fail(f) => Outcome::Fail(f),
        },
    }
}

/// Parses an expression, with the blanks around it.
pub fn assignment_expression(s: &[char], pos: usize) -> (r: Result<(usize, Expression), ParseError>)
    ensures
        agrees(r, assignment_expression_at(s@, pos as int)),
        r matches Ok((next, value)) ==> pos < next <= s.len() && value.deep_view().wf(),
{
    let start: usize = skip_blanks(s, pos);
    if let Ok((next, value)) = constant(s, start) {
        return Ok((skip_blanks(s, next), Expression::Constant(value)));
    }
    match identifier(s, start) {
        Ok((next, name)) => Ok((skip_blanks(s, next), Expression::Identifier(name))),
        Err(e) => Err(e),
    }
}

/// The array size at `pos`: an expression between `[` and `]`. Once the opening
/// bracket is there, what is missing behind it is a failure of this rule.
pub open spec fn array_expression_specifier_at(s: Seq<char>, pos: int) -> Outcome<ExpressionView> {
    let start: int = skip_blank(s, pos);
    let len: int = s.len() as int;
    match symbol_at(s, start, '[') {
        Outcome::Fail(f) => Outcome::Fail(f),
        Outcome::Match { next: p1, .. } => match assignment_expression_at(s, p1) {
            Outcome::Fail(f) => Outcome::Fail(committed(f, Rule::ArraySpecifier, start, len)),
            Outcome::Match { next: p2, value } => match symbol_at(s, p2, ']') {
                Outcome::Fail(f) => Outcome::Fail(committed(f, Rule::ArraySpecifier, start, len)),
                Outcome::Match { next: p3, .. } => Outcome::Match { next: p3, value },
            },
        },
    }
}

/// Parses an array size: an expression between `[` and `]`.
pub fn array_expression_specifier(s: &[char], pos: usize) -> (r: Result<
    (usize, Expression),
    ParseError,
>)
    ensures
        agrees(r, array_expression_specifier_at(s@, pos as int)),
        r matches Ok((next, value)) ==> pos < next <= s.len() && value.deep_view().wf(),
{
    let start: usize = skip_blanks(s, pos);
    let p1: usize = match symbol(s, start, '[') {
        Ok((next, _)) => next,
        Err(e) => { return Err(e); },
    };
    let (p2, value) = match assignment_expression(s, p1) {
        Ok(found) => found,
        Err(e) => { return Err(e.committed(Rule::ArraySpecifier, start, s.len())); },
    };
    match symbol(s, p2, ']') {
        Ok((next, _)) => Ok((next, value)),
        Err(e) => Err(e.committed(Rule::ArraySpecifier, start, s.len())),
    }
}

} // verus!
