//! Parameter declarations and function prototypes.

use crate::error::{agrees, committed, mismatch, Outcome, ParseError, Rule};
use crate::expression::{
    array_expression_specifier, array_expression_specifier_at, Expression, ExpressionView,
};
use crate::lexeme::{behind, found, symbol, symbol_at, word, word_at};
use crate::scan::{skip_blank, skip_blanks, tag, tag_end};
use crate::tokens::{is_identifier, Identifier};
use crate::type_grammar::{
    full_type_specifier, full_type_specifier_at, type_qualifier, type_qualifier_at, type_specifier,
    type_specifier_at, FullyTypeSpecifier, FullyTypeSpecifierView, TypeQualifier, TypeSpecifier,
    TypeSpecifierView,
};
use vstd::prelude::*;

verus! {

/// The direction in which a parameter is passed.
#[derive(Debug, Clone, Copy, PartialEq, Eq, Structural)]
pub enum ParamQualifier {
    In,
    Out,
    InOut,
}

impl DeepView for ParamQualifier {
    type V = ParamQualifier;

    open spec fn deep_view(&self) -> ParamQualifier {
        *self
    }
}

/// One parameter of a function prototype. Its name and its array size may each
/// be absent.
#[derive(Debug, PartialEq)]
pub struct ParamDeclaration {
    pub type_qualifer: Option<TypeQualifier>,
    pub param_qualifier: Option<ParamQualifier>,
    pub type_spec: TypeSpecifier,
    pub name: Option<Identifier>,
    pub array_spec: Option<Expression>,
}

/// The model of a [`ParamDeclaration`].
pub struct ParamDeclarationView {
    pub type_qualifer: Option<TypeQualifier>,
    pub param_qualifier: Option<ParamQualifier>,
    pub type_spec: TypeSpecifierView,
    pub name: Option<Seq<char>>,
    pub array_spec: Option<ExpressionView>,
}

impl DeepView for ParamDeclaration {
    type V = ParamDeclarationView;

    open spec fn deep_view(&self) -> ParamDeclarationView {
        ParamDeclarationView {
            type_qualifer: self.type_qualifer,
            param_qualifier: self.param_qualifier,
            type_spec: self.type_spec.deep_view(),
            name: self.name.deep_view(),
            array_spec: self.array_spec.deep_view(),
        }
    }
}

impl Clone for ParamDeclaration {
    fn clone(&self) -> (r: Self)
        ensures
            r == *self,
    {
        ParamDeclaration {
            type_qualifer: self.type_qualifer,
            param_qualifier: self.param_qualifier,
            type_spec: self.type_spec.clone(),
            name: match &self.name {
                Some(name) => Some(name.clone()),
                None => None,
            },
            array_spec: match &self.array_spec {
                Some(size) => Some(size.clone()),
                None => None,
            },
        }
    }
}

impl ParamDeclarationView {
    /// Every name in the parameter is an identifier.
    pub open spec fn wf(self) -> bool {
        &&& self.type_spec.wf()
        &&& self.name matches Some(name) ==> is_identifier(name)
        &&& self.array_spec matches Some(size) ==> size.wf()
    }
}

/// A function's return type, name and parameters, in the order written.
#[derive(Debug, PartialEq)]
pub struct FunctionPrototype {
    pub ret_type: FullyTypeSpecifier,
    pub name: Identifier,
    pub params: Vec<ParamDeclaration>,
}

/// The model of a [`FunctionPrototype`].
pub struct FunctionPrototypeView {
    pub ret_type: FullyTypeSpecifierView,
    pub name: Seq<char>,
    pub params: Seq<ParamDeclarationView>,
}

impl DeepView for FunctionPrototype {
    type V = FunctionPrototypeView;

    open spec fn deep_view(&self) -> FunctionPrototypeView {
        FunctionPrototypeView {
            ret_type: self.ret_type.deep_view(),
            name: self.name@,
            params: self.params.deep_view(),
        }
    }
}

impl FunctionPrototypeView {
    /// Every name in the prototype is an identifier.
    pub open spec fn wf(self) -> bool {
        &&& self.ret_type.type_spec.wf()
        &&& is_identifier(self.name)
        &&& forall|i: int| 0 <= i < self.params.len() ==> (#[trigger] self.params[i]).wf()
    }
}

/// The parameter qualifier behind the blanks at `pos`, with the blanks that
/// follow it: `inout`, else `in`, else `out`.
pub open spec fn param_qualifier_at(s: Seq<char>, pos: int) -> Outcome<ParamQualifier> {
    let start: int = skip_blank(s, pos);
    if let Some(next) = tag_end(s, start, "inout"@) {
        Outcome::Match { next: skip_blank(s, next), value: ParamQualifier::InOut }
    } else if let Some(next) = tag_end(s, start, "in"@) {
        Outcome::Match { next: skip_blank(s, next), value: ParamQualifier::In }
    } else if let Some(next) = tag_end(s, start, "out"@) {
        Outcome::Match { next: skip_blank(s, next), value: ParamQualifier::Out }
    } else {
        Outcome::Fail(mismatch(Rule::ParamQualifier, start))
    }
}

/// Parses a parameter qualifier, with the blanks around it.
pub fn param_qualifier(s: &[char], pos: usize) -> (r: Result<(usize, ParamQualifier), ParseError>)
    ensures
        agrees(r, param_qualifier_at(s@, pos as int)),
        r matches Ok((next, _)) ==> pos < next <= s.len(),
{
    let start: usize = skip_blanks(s, pos);
    if let Some(next) = tag(s, start, "inout") {
        Ok((skip_blanks(s, next), ParamQualifier::InOut))
    } else if let Some(next) = tag(s, start, "in") {
        Ok((skip_blanks(s, next), ParamQualifier::In))
    } else if let Some(next) = tag(s, start, "out") {
        Ok((skip_blanks(s, next), ParamQualifier::Out))
    } else {
        Err(ParseError::mismatch(Rule::ParamQualifier, start))
    }
}

/// The parameter declaration at `pos`: an optional type qualifier, an optional
/// parameter qualifier, a type specifier, an optional name and an optional array
/// size. Only the type specifier can make it fail.
pub open spec fn param_declaration_at(s: Seq<char>, pos: int) -> Outcome<ParamDeclarationView> {
    let start: int = skip_blank(s, pos);
    let type_qualifer = type_qualifier_at(s, start);
    let p1: int = behind(type_qualifer, start);
    let param_qualifier = param_qualifier_at(s, p1);
    let p2: int = behind(param_qualifier, p1);
    match type_specifier_at(s, p2) {
        Outcome::Fail(f) => Outcome::Fail(
            committed(f, Rule::ParamDeclaration, start, s.len() as int),
        ),
        Outcome::Match { next: p3, value: type_spec } => {
            let name = word_at(s, p3);
            let p4: int = behind(name, p3);
            let array_spec = array_expression_specifier_at(s, p4);
            Outcome::Match {
                next: behind(array_spec, p4),
                value: ParamDeclarationView {
                    type_qualifer: found(type_qualifer),
                    param_qualifier: found(param_qualifier),
                    type_spec,
                    name: found(name),
                    array_spec: found(array_spec),
                },
            }
        },
    }
}

/// Parses a parameter declaration, with the blanks around it.
pub fn param_declaration(s: &[char], pos: usize) -> (r: Result<
    (usize, ParamDeclaration),
    ParseError,
>)
    ensures
        agrees(r, param_declaration_at(s@, pos as int)),
        r matches Ok((next, value)) ==> pos < next <= s.len() && value.deep_view().wf(),
{
    let start: usize = skip_blanks(s, pos);
    let (p1, type_qualifer) = match type_qualifier(s, start) {
        Ok((next, value)) => (next, Some(value)),
        Err(_) => (start, None),
    };
    let (p2, param_qualifier) = match param_qualifier(s, p1) {
        Ok((next, value)) => (next, Some(value)),
        Err(_) => (p1, None),
    };
    let (p3, type_spec) = match type_specifier(s, p2) {
        Ok(found) => found,
        Err(e) => { return Err(e.committed(Rule::ParamDeclaration, start, s.len())); },
    };
    let (p4, name) = match word(s, p3) {
        Ok((next, value)) => (next, Some(value)),
        Err(_) => (p3, None),
    };
    let (p5, array_spec) = match array_expression_specifier(s, p4) {
        Ok((next, value)) => (next, Some(value)),
        Err(_) => (p4, None),
    };
    Ok((p5, ParamDeclaration { type_qualifer, param_qualifier, type_spec, name, array_spec }))
}

/// The further parameters from `pos` on, each behind a comma, and the position
/// behind the last of them. A comma that no parameter follows is not consumed.
pub open spec fn more_params_at(s: Seq<char>, pos: int) -> (int, Seq<ParamDeclarationView>)
    decreases s.len() - pos,
{
    match symbol_at(s, pos, ',') {
        Outcome::Match { next: p1, .. } => match param_declaration_at(s, p1) {
            Outcome::Match { next: p2, value } => if pos < p2 <= s.len() {
                (more_params_at(s, p2).0, seq![value] + more_params_at(s, p2).1)
            } else {
                (pos, Seq::empty())
            },
            Outcome::Fail(_) => (pos, Seq::empty()),
        },
        Outcome::Fail(_) => (pos, Seq::empty()),
    }
}

/// The parameter declarations at `pos`, separated by commas and in the order
/// written, and the position behind them; none where no parameter declaration
/// stands at `pos`.
pub open spec fn params_at(s: Seq<char>, pos: int) -> (int, Seq<ParamDeclarationView>) {
    match param_declaration_at(s, pos) {
        Outcome::Match { next, value } => (
            more_params_at(s, next).0,
            seq![value] + more_params_at(s, next).1,
        ),
        Outcome::Fail(_) => (pos, Seq::empty()),
    }
}

/// Parses parameter declarations separated by commas; there may be none.
pub fn params(s: &[char], pos: usize) -> (r: (usize, Vec<ParamDeclaration>))
    ensures
        (r.0 as int, r.1.deep_view()) == params_at(s@, pos as int),
        pos <= r.0,
        pos <= s.len() ==> r.0 <= s.len(),
        forall|i: int| 0 <= i < r.1.len() ==> (#[trigger] r.1.deep_view()[i]).wf(),
{
    let mut list: Vec<ParamDeclaration> = Vec::new();
    let mut cur: usize = pos;
    match param_declaration(s, pos) {
        Ok((next, first)) => {
            list.push(first);
            cur = next;
            assert(list.deep_view() =~= seq![first.deep_view()]);
        },
        Err(_) => {
            assert(list.deep_view() =~= Seq::empty());
            return (pos, list);
        },
    }
    let mut done: bool = false;
    while !done
        invariant
            pos < cur <= s.len(),
            params_at(s@, pos as int) == (
                more_params_at(s@, cur as int).0,
                list.deep_view() + more_params_at(s@, cur as int).1,
            ),
            done ==> more_params_at(s@, cur as int) == (
                cur as int,
                Seq::<ParamDeclarationView>::empty(),
            ),
            forall|i: int| 0 <= i < list.len() ==> (#[trigger] list.deep_view()[i]).wf(),
        decreases s.len() - cur + (if done { 0int } else { 1int }),
    {
        let ghost before = list.deep_view();
        match symbol(s, cur, ',') {
            Ok((p1, _)) => match param_declaration(s, p1) {
                Ok((p2, value)) => {
                    list.push(value);
                    assert(list.deep_view() =~= before.push(value.deep_view()));
                    assert(before + (seq![value.deep_view()] + more_params_at(s@, p2 as int).1)
                        =~= list.deep_view() + more_params_at(s@, p2 as int).1);
                    cur = p2;
                },
                Err(_) => {
                    done = true;
                },
            },
            Err(_) => {
                done = true;
            },
        }
    }
    assert(list.deep_view() + Seq::empty() =~= list.deep_view());
    (cur, list)
}

/// The function prototype at `pos`: a fully specified type, a name, and the
/// parameter declarations between `(` and `)`.
pub open spec fn function_prototype_at(s: Seq<char>, pos: int) -> Outcome<FunctionPrototypeView> {
    let start: int = skip_blank(s, pos);
    let len: int = s.len() as int;
    match full_type_specifier_at(s, start) {
        Outcome::Fail(f) => Outcome::Fail(committed(f, Rule::FunctionPrototype, start, len)),
        Outcome::Match { next: p1, value: ret_type } => match word_at(s, p1) {
            Outcome::Fail(f) => Outcome::Fail(committed(f, Rule::FunctionPrototype, start, len)),
            Outcome::Match { next: p2, value: name } => match symbol_at(s, p2, '(') {
                Outcome::Fail(f) => Outcome::Fail(
                    committed(f, Rule::FunctionPrototype, start, len),
                ),
                Outcome::Match { next: p3, .. } => match symbol_at(s, params_at(s, p3).0, ')') {
                    Outcome::Fail(f) => Outcome::Fail(
                        committed(f, Rule::FunctionPrototype, start, len),
                    ),
                    Outcome::Match { next: p5, .. } => Outcome::Match {
                        next: p5,
                        value: FunctionPrototypeView { ret_type, name, params: params_at(s, p3).1 },
                    },
                },
            },
        },
    }
}

/// Parses a function prototype, with the blanks around it.
pub fn function_prototype(s: &[char], pos: usize) -> (r: Result<
    (usize, FunctionPrototype),
    ParseError,
>)
    ensures
        agrees(r, function_prototype_at(s@, pos as int)),
        r matches Ok((next, value)) ==> pos < next <= s.len() && value.deep_view().wf(),
{
    let start: usize = skip_blanks(s, pos);
    let (p1, ret_type) = match full_type_specifier(s, start) {
        Ok(found) => found,
        Err(e) => { return Err(e.committed(Rule::FunctionPrototype, start, s.len())); },
    };
    let (p2, name) = match word(s, p1) {
        Ok(found) => found,
        Err(e) => { return Err(e.committed(Rule::FunctionPrototype, start, s.len())); },
    };
    let p3: usize = match symbol(s, p2, '(') {
        Ok((next, _)) => next,
        Err(e) => { return Err(e.committed(Rule::FunctionPrototype, start, s.len())); },
    };
    let (p4, params) = params(s, p3);
    match symbol(s, p4, ')') {
        Ok((next, _)) => Ok((next, FunctionPrototype { ret_type, name, params })),
        Err(e) => Err(e.committed(Rule::FunctionPrototype, start, s.len())),
    }
}

} // verus!
