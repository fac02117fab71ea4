//! Precision qualifiers, type qualifiers and type specifiers.

use crate::error::{agrees, committed, mismatch, Outcome, ParseError, Rule};
use crate::lexeme::{behind, found};
use crate::scan::{has_tag, skip_blank, skip_blanks, tag, tag_end};
use crate::tokens::{
    basic_type, basic_type_at, identifier, identifier_at, is_identifier, BasicType, BasicTypeView,
};
use vstd::prelude::*;

verus! {

/// How a variable is stored or passed on.
#[derive(Debug, Clone, Copy, PartialEq, Eq, Structural)]
pub enum TypeQualifier {
    Const,
    Attribute,
    Varying,
    InvariantVarying,
    Uniform,
}

/// The numeric precision asked of a type.
#[derive(Debug, Clone, Copy, PartialEq, Eq, Structural)]
pub enum PrecisionQualifier {
    High,
    Medium,
    Low,
}

impl DeepView for TypeQualifier {
    type V = TypeQualifier;

    open spec fn deep_view(&self) -> TypeQualifier {
        *self
    }
}

impl DeepView for PrecisionQualifier {
    type V = PrecisionQualifier;

    open spec fn deep_view(&self) -> PrecisionQualifier {
        *self
    }
}

/// A type with an optional precision.
#[derive(Debug, PartialEq)]
pub struct TypeSpecifier {
    pub precision: Option<PrecisionQualifier>,
    pub actual_type: BasicType,
}

/// The model of a [`TypeSpecifier`].
pub struct TypeSpecifierView {
    pub precision: Option<PrecisionQualifier>,
    pub actual_type: BasicTypeView,
}

impl DeepView for TypeSpecifier {
    type V = TypeSpecifierView;

    open spec fn deep_view(&self) -> TypeSpecifierView {
        TypeSpecifierView { precision: self.precision, actual_type: self.actual_type.deep_view() }
    }
}

impl Clone for TypeSpecifier {
    fn clone(&self) -> (r: Self)
        ensures
            r == *self,
    {
        TypeSpecifier { precision: self.precision, actual_type: self.actual_type.clone() }
    }
}

impl TypeSpecifierView {
    /// A type name that is no keyword is an identifier.
    pub open spec fn wf(self) -> bool {
        self.actual_type matches BasicTypeView::TypeName(name) ==> is_identifier(name)
    }
}

/// A type specifier with an optional type qualifier.
#[derive(Debug, PartialEq)]
pub struct FullyTypeSpecifier {
    pub qualifer: Option<TypeQualifier>,
    pub type_spec: TypeSpecifier,
}

/// The model of a [`FullyTypeSpecifier`].
pub struct FullyTypeSpecifierView {
    pub qualifer: Option<TypeQualifier>,
    pub type_spec: TypeSpecifierView,
}

impl DeepView for FullyTypeSpecifier {
    type V = FullyTypeSpecifierView;

    open spec fn deep_view(&self) -> FullyTypeSpecifierView {
        FullyTypeSpecifierView { qualifer: self.qualifer, type_spec: self.type_spec.deep_view() }
    }
}

impl Clone for FullyTypeSpecifier {
    fn clone(&self) -> (r: Self)
        ensures
            r == *self,
    {
        FullyTypeSpecifier { qualifer: self.qualifer, type_spec: self.type_spec.clone() }
    }
}

/// The precision qualifier behind the blanks at `pos`, with the blanks that
/// follow it: `highp`, `mediump` or `lowp`.
pub open spec fn precision_qualifier_at(s: Seq<char>, pos: int) -> Outcome<PrecisionQualifier> {
    let start: int = skip_blank(s, pos);
    if let Some(next) = tag_end(s, start, "highp"@) {
        Outcome::Match { next: skip_blank(s, next), value: PrecisionQualifier::High }
    } else if let Some(next) = tag_end(s, start, "mediump"@) {
        Outcome::Match { next: skip_blank(s, next), value: PrecisionQualifier::Medium }
    } else if let Some(next) = tag_end(s, start, "lowp"@) {
        Outcome::Match { next: skip_blank(s, next), value: PrecisionQualifier::Low }
    } else {
        Outcome::Fail(mismatch(Rule::PrecisionQualifier, start))
    }
}

/// Parses a precision qualifier, with the blanks around it.
pub fn precision_qualifier(s: &[char], pos: usize) -> (r: Result<
    (usize, PrecisionQualifier),
    ParseError,
>)
    ensures
        agrees(r, precision_qualifier_at(s@, pos as int)),
        r matches Ok((next, _)) ==> pos < next <= s.len(),
{
    let start: usize = skip_blanks(s, pos);
    if let Some(next) = tag(s, start, "highp") {
        Ok((skip_blanks(s, next), PrecisionQualifier::High))
    } else if let Some(next) = tag(s, start, "mediump") {
        Ok((skip_blanks(s, next), PrecisionQualifier::Medium))
    } else if let Some(next) = tag(s, start, "lowp") {
        Ok((skip_blanks(s, next), PrecisionQualifier::Low))
    } else {
        Err(ParseError::mismatch(Rule::PrecisionQualifier, start))
    }
}

/// The position behind the two words `invariant` and `varying`, with any blanks
/// between them, where they stand at `pos`.
pub open spec fn invariant_varying_end(s: Seq<char>, pos: int) -> Option<int> {
    match tag_end(s, pos, "invariant"@) {
        Some(next) => tag_end(s, skip_blank(s, next), "varying"@),
        None => None,
    }
}

/// The type qualifier behind the blanks at `pos`, with the blanks that follow
/// it: `const`, else `attribute`, else `invariant` and `varying` together, else
/// `varying`, else `uniform`.
pub open spec fn type_qualifier_at(s: Seq<char>, pos: int) -> Outcome<TypeQualifier> {
    let start: int = skip_blank(s, pos);
    if let Some(next) = tag_end(s, start, "const"@) {
        Outcome::Match { next: skip_blank(s, next), value: TypeQualifier::Const }
    } else if let Some(next) = tag_end(s, start, "attribute"@) {
        Outcome::Match { next: skip_blank(s, next), value: TypeQualifier::Attribute }
    } else if let Some(next) = invariant_varying_end(s, start) {
        Outcome::Match { next: skip_blank(s, next), value: TypeQualifier::InvariantVarying }
    } else if let Some(next) = tag_end(s, start, "varying"@) {
        Outcome::Match { next: skip_blank(s, next), value: TypeQualifier::Varying }
    } else if let Some(next) = tag_end(s, start, "uniform"@) {
        Outcome::Match { next: skip_blank(s, next), value: TypeQualifier::Uniform }
    } else {
        Outcome::Fail(mismatch(Rule::TypeQualifier, start))
    }
}

/// The qualifier of an invariant varying is found only where both words stand:
/// `invariant`, and behind it and any blanks `varying`.
pub proof fn lemma_invariant_varying_needs_both_words(s: Seq<char>, pos: int)
    ensures
        type_qualifier_at(s, pos) matches Outcome::Match {
            value: TypeQualifier::InvariantVarying,
            ..
        } ==> has_tag(s, skip_blank(s, pos), "invariant"@) && has_tag(
            s,
            skip_blank(s, skip_blank(s, pos) + "invariant"@.len()),
            "varying"@,
        ),
{
}

/// Finds the words `invariant` and `varying` at `pos`, with any blanks between
/// them.
fn invariant_varying(s: &[char], pos: usize) -> (r: Option<usize>)
    ensures
        match r {
            Some(next) => invariant_varying_end(s@, pos as int) == Some(next as int) && pos < next
                <= s.len(),
            None => invariant_varying_end(s@, pos as int) is None,
        },
{
    match tag(s, pos, "invariant") {
        Some(next) => tag(s, skip_blanks(s, next), "varying"),
        None => None,
    }
}

/// Parses a type qualifier, with the blanks around it.
pub fn type_qualifier(s: &[char], pos: usize) -> (r: Result<(usize, TypeQualifier), ParseError>)
    ensures
        agrees(r, type_qualifier_at(s@, pos as int)),
        r matches Ok((next, _)) ==> pos < next <= s.len(),
{
    let start: usize = skip_blanks(s, pos);
    if let Some(next) = tag(s, start, "const") {
        Ok((skip_blanks(s, next), TypeQualifier::Const))
    } else if let Some(next) = tag(s, start, "attribute") {
        Ok((skip_blanks(s, next), TypeQualifier::Attribute))
    } else if let Some(next) = invariant_varying(s, start) {
        Ok((skip_blanks(s, next), TypeQualifier::InvariantVarying))
    } else if let Some(next) = tag(s, start, "varying") {
        Ok((skip_blanks(s, next), TypeQualifier::Varying))
    } else if let Some(next) = tag(s, start, "uniform") {
        Ok((skip_blanks(s, next), TypeQualifier::Uniform))
    } else {
        Err(ParseError::mismatch(Rule::TypeQualifier, start))
    }
}

/// The type specifier at `pos`: an optional precision qualifier, then a
/// basic-type keyword or, where none stands there, an identifier taken as a type
/// name. The blanks around it are consumed.
pub open spec fn type_specifier_at(s: Seq<char>, pos: int) -> Outcome<TypeSpecifierView> {
    let start: int = skip_blank(s, pos);
    let precision = precision_qualifier_at(s, start);
    let p1: int = behind(precision, start);
    match basic_type_at(s, p1) {
        Outcome::Match { next, value } => Outcome::Match {
            next: skip_blank(s, next),
            value: TypeSpecifierView { precision: found(precision), actual_type: value },
        },
        Outcome::Fail(_) => match identifier_at(s, p1) {
            Outcome::Match { next, value } => Outcome::Match {
                next: skip_blank(s, next),
                value: TypeSpecifierView {
                    precision: found(precision),
                    actual_type: BasicTypeView::TypeName(value),
                },
            },
            Outcome::Fail(f) => Outcome::Fail(
                committed(f, Rule::TypeSpecifier, start, s.len() as int),
            ),
        },
    }
}

/// Parses a type specifier, with the blanks around it.
pub fn type_specifier(s: &[char], pos: usize) -> (r: Result<(usize, TypeSpecifier), ParseError>)
    ensures
        agrees(r, type_specifier_at(s@, pos as int)),
        r matches Ok((next, value)) ==> pos < next <= s.len() && value.deep_view().wf(),
{
    let start: usize = skip_blanks(s, pos);
    let (p1, precision) = match precision_qualifier(s, start) {
        Ok((next, value)) => (next, Some(value)),
        Err(_) => (start, None),
    };
    if let Ok((next, value)) = basic_type(s, p1) {
        return Ok((skip_blanks(s, next), TypeSpecifier { precision, actual_type: value }));
    }
    match identifier(s, p1) {
        Ok((next, name)) => Ok(
            (skip_blanks(s, next), TypeSpecifier { precision, actual_type: BasicType::TypeName(name) }),
        ),
        Err(e) => Err(e.committed(Rule::TypeSpecifier, start, s.len())),
    }
}

/// The fully specified type at `pos`: an optional type qualifier, then a type
/// specifier.
pub open spec fn full_type_specifier_at(s: Seq<char>, pos: int) -> Outcome<FullyTypeSpecifierView> {
    let start: int = skip_blank(s, pos);
    let qualifer = type_qualifier_at(s, start);
    match type_specifier_at(s, behind(qualifer, start)) {
        Outcome::Match { next, value } => Outcome::Match {
            next,
            value: FullyTypeSpecifierView { qualifer: found(qualifer), type_spec: value },
        },
        Outcome::Fail(f) => Outcome::Fail(
            committed(f, Rule::FullyTypeSpecifier, start, s.len() as int),
        ),
    }
}

/// Parses a fully specified type, with the blanks around it.
pub fn full_type_specifier(s: &[char], pos: usize) -> (r: Result<
    (usize, FullyTypeSpecifier),
    ParseError,
>)
    ensures
        agrees(r, full_type_specifier_at(s@, pos as int)),
        r matches Ok((next, value)) ==> pos < next <= s.len() && value.deep_view().type_spec.wf(),
{
    let start: usize = skip_blanks(s, pos);
    let (p1, qualifer) = match type_qualifier(s, start) {
        Ok((next, value)) => (next, Some(value)),
        Err(_) => (start, None),
    };
    match type_specifier(s, p1) {
        Ok((next, type_spec)) => Ok((next, FullyTypeSpecifier { qualifer, type_spec })),
        Err(e) => Err(e.committed(Rule::FullyTypeSpecifier, start, s.len())),
    }
}

} // verus!
