//! Declarators, declarator lists that share one type, and the declaration rule
//! that chooses among prototypes, declarator lists and precision statements.

use crate::error::{agrees, committed, Outcome, ParseError, Rule};
use crate::expression::{
    array_expression_specifier, array_expression_specifier_at, assignment_expression,
    assignment_expression_at, Expression, ExpressionView,
};
use crate::lexeme::{behind, found, keyword, keyword_at, spaced, symbol, symbol_at, word, word_at};
use crate::prototype::{
    function_prototype, function_prototype_at, FunctionPrototype, FunctionPrototypeView,
};
use crate::scan::{lemma_run_end, lemma_run_end_again, skip_blank, skip_blanks, CharClass};
use crate::tokens::{basic_type, basic_type_at, is_identifier, BasicType, BasicTypeView, Identifier};
use crate::type_grammar::{
    full_type_specifier, full_type_specifier_at, precision_qualifier, precision_qualifier_at,
    FullyTypeSpecifier, FullyTypeSpecifierView, PrecisionQualifier,
};
use vstd::prelude::*;

verus! {

/// The type of a declarator: written out, or left to an earlier declaration that
/// is now declared invariant.
#[derive(Debug, PartialEq)]
pub enum VariantTypeSpecifier {
    Normal(FullyTypeSpecifier),
    Invariant,
}

/// The model of a [`VariantTypeSpecifier`].
pub enum VariantTypeSpecifierView {
    Normal(FullyTypeSpecifierView),
    Invariant,
}

impl DeepView for VariantTypeSpecifier {
    type V = VariantTypeSpecifierView;

    open spec fn deep_view(&self) -> VariantTypeSpecifierView {
        match self {
            VariantTypeSpecifier::Normal(full) => VariantTypeSpecifierView::Normal(full.deep_view()),
            VariantTypeSpecifier::Invariant => VariantTypeSpecifierView::Invariant,
        }
    }
}

impl Clone for VariantTypeSpecifier {
    fn clone(&self) -> (r: Self)
        ensures
            r == *self,
    {
        match self {
            VariantTypeSpecifier::Normal(full) => VariantTypeSpecifier::Normal(full.clone()),
            VariantTypeSpecifier::Invariant => VariantTypeSpecifier::Invariant,
        }
    }
}

impl VariantTypeSpecifierView {
    /// A type name that is no keyword is an identifier.
    pub open spec fn wf(self) -> bool {
        self matches VariantTypeSpecifierView::Normal(full) ==> full.type_spec.wf()
    }
}

/// One declarator: a type, and optionally a name, an array size and an
/// initializer. No declarator has both an array size and an initializer.
#[derive(Debug, PartialEq)]
pub struct SingleDeclaration {
    pub type_spec: VariantTypeSpecifier,
    pub name: Option<Identifier>,
    pub array_spec: Option<Expression>,
    pub equal_to: Option<Expression>,
}

/// The model of a [`SingleDeclaration`].
pub struct SingleDeclarationView {
    pub type_spec: VariantTypeSpecifierView,
    pub name: Option<Seq<char>>,
    pub array_spec: Option<ExpressionView>,
    pub equal_to: Option<ExpressionView>,
}

impl DeepView for SingleDeclaration {
    type V = SingleDeclarationView;

    open spec fn deep_view(&self) -> SingleDeclarationView {
        SingleDeclarationView {
            type_spec: self.type_spec.deep_view(),
            name: self.name.deep_view(),
            array_spec: self.array_spec.deep_view(),
            equal_to: self.equal_to.deep_view(),
        }
    }
}

impl SingleDeclarationView {
    /// The declarator has not both an array size and an initializer, and every
    /// name in it is an identifier.
    pub open spec fn wf(self) -> bool {
        &&& !(self.array_spec is Some && self.equal_to is Some)
        &&& self.type_spec.wf()
        &&& self.name matches Some(name) ==> is_identifier(name)
        &&& self.array_spec matches Some(size) ==> size.wf()
        &&& self.equal_to matches Some(value) ==> value.wf()
    }
}

/// Whether `list` is a declarator list: not empty, every declarator well formed,
/// and every declarator of the type of the first.
pub open spec fn is_declarator_list(list: Seq<SingleDeclarationView>) -> bool {
    &&& list.len() > 0
    &&& forall|i: int| 0 <= i < list.len() ==> (#[trigger] list[i]).wf()
    &&& forall|i: int| 0 <= i < list.len() ==> (#[trigger] list[i]).type_spec == list[0].type_spec
}

/// A declaration: a function prototype, a list of declarators that share one
/// type, or a precision statement.
#[derive(Debug, PartialEq)]
pub enum Declaration {
    FunctionPrototype(FunctionPrototype),
    DeclarationList(Vec<SingleDeclaration>),
    Precision(PrecisionQualifier, BasicType),
}

/// The model of a [`Declaration`].
pub enum DeclarationView {
    FunctionPrototype(FunctionPrototypeView),
    DeclarationList(Seq<SingleDeclarationView>),
    Precision(PrecisionQualifier, BasicTypeView),
}

impl DeepView for Declaration {
    type V = DeclarationView;

    open spec fn deep_view(&self) -> DeclarationView {
        match self {
            Declaration::FunctionPrototype(prototype) => DeclarationView::FunctionPrototype(
                prototype.deep_view(),
            ),
            Declaration::DeclarationList(list) => DeclarationView::DeclarationList(
                list.deep_view(),
            ),
            Declaration::Precision(precision, of) => DeclarationView::Precision(
                *precision,
                of.deep_view(),
            ),
        }
    }
}

impl DeclarationView {
    /// A prototype is well formed, a list is a declarator list, and a precision
    /// statement names a type by its keyword.
    pub open spec fn wf(self) -> bool {
        match self {
            DeclarationView::FunctionPrototype(prototype) => prototype.wf(),
            DeclarationView::DeclarationList(list) => is_declarator_list(list),
            DeclarationView::Precision(_, of) => !(of is TypeName),
        }
    }
}

/// The initializer at `pos`: an expression.
pub open spec fn initializer_at(s: Seq<char>, pos: int) -> Outcome<ExpressionView> {
    assignment_expression_at(s, pos)
}

/// Parses an initializer.
pub fn initializer(s: &[char], pos: usize) -> (r: Result<(usize, Expression), ParseError>)
    ensures
        agrees(r, initializer_at(s@, pos as int)),
        r matches Ok((next, value)) ==> pos < next <= s.len() && value.deep_view().wf(),
{
    assignment_expression(s, pos)
}

/// The first form of a declarator, from `start`, where no blank stands: the
/// word `invariant` and a name.
pub open spec fn invariant_declaration_at(s: Seq<char>, start: int) -> Outcome<
    SingleDeclarationView,
> {
    match keyword_at(s, start, "invariant"@, Rule::SingleDeclaration) {
        Outcome::Fail(f) => Outcome::Fail(f),
        Outcome::Match { next: p1, .. } => match word_at(s, p1) {
            Outcome::Fail(f) => Outcome::Fail(
                committed(f, Rule::SingleDeclaration, start, s.len() as int),
            ),
            Outcome::Match { next, value: name } => Outcome::Match {
                next,
                value: SingleDeclarationView {
                    type_spec: VariantTypeSpecifierView::Invariant,
                    name: Some(name),
                    array_spec: None,
                    equal_to: None,
                },
            },
        },
    }
}

/// The second form of a declarator, from `start`: a fully specified type, a
/// name, `=` and an initializer.
pub open spec fn initialized_declaration_at(s: Seq<char>, start: int) -> Outcome<
    SingleDeclarationView,
> {
    let len: int = s.len() as int;
    match full_type_specifier_at(s, start) {
        Outcome::Fail(f) => Outcome::Fail(committed(f, Rule::SingleDeclaration, start, len)),
        Outcome::Match { next: p1, value: full } => match word_at(s, p1) {
            Outcome::Fail(f) => Outcome::Fail(committed(f, Rule::SingleDeclaration, start, len)),
            Outcome::Match { next: p2, value: name } => match symbol_at(s, p2, '=') {
                Outcome::Fail(f) => Outcome::Fail(
                    committed(f, Rule::SingleDeclaration, start, len),
                ),
                Outcome::Match { next: p3, .. } => match initializer_at(s, p3) {
                    Outcome::Fail(f) => Outcome::Fail(
                        committed(f, Rule::SingleDeclaration, start, len),
                    ),
                    Outcome::Match { next, value } => Outcome::Match {
                        next,
                        value: SingleDeclarationView {
                            type_spec: VariantTypeSpecifierView::Normal(full),
                            name: Some(name),
                            array_spec: None,
                            equal_to: Some(value),
                        },
                    },
                },
            },
        },
    }
}

/// The third form of a declarator, from `start`: a fully specified type, an
/// optional name and an optional array size.
pub open spec fn plain_declaration_at(s: Seq<char>, start: int) -> Outcome<SingleDeclarationView> {
    match full_type_specifier_at(s, start) {
        Outcome::Fail(f) => Outcome::Fail(
            committed(f, Rule::SingleDeclaration, start, s.len() as int),
        ),
        Outcome::Match { next: p1, value: full } => {
            let name = word_at(s, p1);
            let p2: int = behind(name, p1);
            let array_spec = array_expression_specifier_at(s, p2);
            Outcome::Match {
                next: behind(array_spec, p2),
                value: SingleDeclarationView {
                    type_spec: VariantTypeSpecifierView::Normal(full),
                    name: found(name),
                    array_spec: found(array_spec),
                    equal_to: None,
                },
            }
        },
    }
}

/// The declarator at `pos`: the first of its three forms that matches behind the
/// blanks at `pos`. Where none matches, the failure is that of the third form.
pub open spec fn single_declaration_at(s: Seq<char>, pos: int) -> Outcome<SingleDeclarationView> {
    let start: int = skip_blank(s, pos);
    if invariant_declaration_at(s, start) is Match {
        invariant_declaration_at(s, start)
    } else if initialized_declaration_at(s, start) is Match {
        initialized_declaration_at(s, start)
    } else {
        plain_declaration_at(s, start)
    }
}

/// Parses the first form of a declarator.
fn invariant_declaration(s: &[char], start: usize) -> (r: Result<
    (usize, SingleDeclaration),
    ParseError,
>)
    ensures
        agrees(r, invariant_declaration_at(s@, start as int)),
        r matches Ok((next, value)) ==> start < next <= s.len() && value.deep_view().wf(),
{
    let p1: usize = match keyword(s, start, "invariant", Rule::SingleDeclaration) {
        Ok((next, _)) => next,
        Err(e) => { return Err(e); },
    };
    match word(s, p1) {
        Ok((next, name)) => Ok(
            (
                next,
                SingleDeclaration {
                    type_spec: VariantTypeSpecifier::Invariant,
                    name: Some(name),
                    array_spec: None,
                    equal_to: None,
                },
            ),
        ),
        Err(e) => Err(e.committed(Rule::SingleDeclaration, start, s.len())),
    }
}

/// Parses the second form of a declarator.
fn initialized_declaration(s: &[char], start: usize) -> (r: Result<
    (usize, SingleDeclaration),
    ParseError,
>)
    ensures
        agrees(r, initialized_declaration_at(s@, start as int)),
        r matches Ok((next, value)) ==> start < next <= s.len() && value.deep_view().wf(),
{
    let (p1, full) = match full_type_specifier(s, start) {
        Ok(found) => found,
        Err(e) => { return Err(e.committed(Rule::SingleDeclaration, start, s.len())); },
    };
    let (p2, name) = match word(s, p1) {
        Ok(found) => found,
        Err(e) => { return Err(e.committed(Rule::SingleDeclaration, start, s.len())); },
    };
    let p3: usize = match symbol(s, p2, '=') {
        Ok((next, _)) => next,
        Err(e) => { return Err(e.committed(Rule::SingleDeclaration, start, s.len())); },
    };
    match initializer(s, p3) {
        Ok((next, value)) => Ok(
            (
                next,
                SingleDeclaration {
                    type_spec: VariantTypeSpecifier::Normal(full),
                    name: Some(name),
                    array_spec: None,
                    equal_to: Some(value),
                },
            ),
        ),
        Err(e) => Err(e.committed(Rule::SingleDeclaration, start, s.len())),
    }
}

/// Parses the third form of a declarator.
fn plain_declaration(s: &[char], start: usize) -> (r: Result<(usize, SingleDeclaration), ParseError>)
    ensures
        agrees(r, plain_declaration_at(s@, start as int)),
        r matches Ok((next, value)) ==> start < next <= s.len() && value.deep_view().wf(),
{
    let (p1, full) = match full_type_specifier(s, start) {
        Ok(found) => found,
        Err(e) => { return Err(e.committed(Rule::SingleDeclaration, start, s.len())); },
    };
    let (p2, name) = match word(s, p1) {
        Ok((next, value)) => (next, Some(value)),
        Err(_) => (p1, None),
    };
    let (p3, array_spec) = match array_expression_specifier(s, p2) {
        Ok((next, value)) => (next, Some(value)),
        Err(_) => (p2, None),
    };
    Ok(
        (
            p3,
            SingleDeclaration {
                type_spec: VariantTypeSpecifier::Normal(full),
                name,
                array_spec,
                equal_to: None,
            },
        ),
    )
}

/// Parses one declarator, with the blanks around it.
pub fn single_declaration(s: &[char], pos: usize) -> (r: Result<
    (usize, SingleDeclaration),
    ParseError,
>)
    ensures
        agrees(r, single_declaration_at(s@, pos as int)),
        r matches Ok((next, value)) ==> pos < next <= s.len() && value.deep_view().wf(),
{
    let start: usize = skip_blanks(s, pos);
    if let Ok(found) = invariant_declaration(s, start) {
        return Ok(found);
    }
    if let Ok(found) = initialized_declaration(s, start) {
        return Ok(found);
    }
    plain_declaration(s, start)
}

/// What follows the name of a further declarator, from `pos`: an array size, else
/// `=` and an initializer, else nothing. It yields the position behind it, the
/// array size and the initializer.
pub open spec fn declarator_tail_at(s: Seq<char>, pos: int) -> (
    int,
    Option<ExpressionView>,
    Option<ExpressionView>,
) {
    if let Outcome::Match { next, value } = array_expression_specifier_at(s, pos) {
        (next, Some(value), None)
    } else if let Outcome::Match { next: p1, .. } = symbol_at(s, pos, '=') {
        if let Outcome::Match { next, value } = initializer_at(s, p1) {
            (next, None, Some(value))
        } else {
            (pos, None, None)
        }
    } else {
        (pos, None, None)
    }
}

/// A further declarator of a list whose first declarator has the type
/// `type_spec`: a comma, a name, and what follows the name. It has the type of
/// the first declarator.
pub open spec fn declaration_list_part_at(
    s: Seq<char>,
    pos: int,
    type_spec: VariantTypeSpecifierView,
) -> Outcome<SingleDeclarationView> {
    let start: int = skip_blank(s, pos);
    match symbol_at(s, start, ',') {
        Outcome::Fail(f) => Outcome::Fail(f),
        Outcome::Match { next: p1, .. } => match word_at(s, p1) {
            Outcome::Fail(f) => Outcome::Fail(
                committed(f, Rule::DeclarationList, start, s.len() as int),
            ),
            Outcome::Match { next: p2, value: name } => Outcome::Match {
                next: declarator_tail_at(s, p2).0,
                value: SingleDeclarationView {
                    type_spec,
                    name: Some(name),
                    array_spec: declarator_tail_at(s, p2).1,
                    equal_to: declarator_tail_at(s, p2).2,
                },
            },
        },
    }
}

/// Parses what follows the name of a further declarator.
fn declarator_tail(s: &[char], pos: usize) -> (r: (usize, Option<Expression>, Option<Expression>))
    ensures
        (r.0 as int, r.1.deep_view(), r.2.deep_view()) == declarator_tail_at(s@, pos as int),
        pos <= r.0,
        pos <= s.len() ==> r.0 <= s.len(),
        !(r.1 is Some && r.2 is Some),
        r.1 matches Some(size) ==> size.deep_view().wf(),
        r.2 matches Some(value) ==> value.deep_view().wf(),
{
    if let Ok((next, size)) = array_expression_specifier(s, pos) {
        return (next, Some(size), None);
    }
    if let Ok((p1, _)) = symbol(s, pos, '=') {
        if let Ok((next, value)) = initializer(s, p1) {
            return (next, None, Some(value));
        }
    }
    (pos, None, None)
}

/// Parses a further declarator of the list that `head` begins: a comma, a name,
/// and an array size or an initializer or neither. The declarator gets the type
/// of `head`.
pub fn declaration_list_part(s: &[char], pos: usize, head: &SingleDeclaration) -> (r: Result<
    (usize, SingleDeclaration),
    ParseError,
>)
    ensures
        agrees(r, declaration_list_part_at(s@, pos as int, head.deep_view().type_spec)),
        r matches Ok((next, value)) ==> {
            &&& pos < next <= s.len()
            &&& value.deep_view().type_spec == head.deep_view().type_spec
            &&& !(value.array_spec is Some && value.equal_to is Some)
            &&& head.deep_view().type_spec.wf() ==> value.deep_view().wf()
        },
{
    let start: usize = skip_blanks(s, pos);
    let p1: usize = match symbol(s, start, ',') {
        Ok((next, _)) => next,
        Err(e) => { return Err(e); },
    };
    let (p2, name) = match word(s, p1) {
        Ok(found) => found,
        Err(e) => { return Err(e.committed(Rule::DeclarationList, start, s.len())); },
    };
    let (next, array_spec, equal_to) = declarator_tail(s, p2);
    Ok(
        (
            next,
            SingleDeclaration {
                type_spec: head.type_spec.clone(),
                name: Some(name),
                array_spec,
                equal_to,
            },
        ),
    )
}

/// The further declarators from `pos` on, each of the type `type_spec`, and the
/// position behind the last of them.
pub open spec fn more_declarators_at(
    s: Seq<char>,
    pos: int,
    type_spec: VariantTypeSpecifierView,
) -> (int, Seq<SingleDeclarationView>)
    decreases s.len() - pos,
{
    match declaration_list_part_at(s, pos, type_spec) {
        Outcome::Match { next, value } => if pos < next <= s.len() {
            (
                more_declarators_at(s, next, type_spec).0,
                seq![value] + more_declarators_at(s, next, type_spec).1,
            )
        } else {
            (pos, Seq::empty())
        },
        Outcome::Fail(_) => (pos, Seq::empty()),
    }
}

/// The declarator list at `pos`: one declarator, then as many further
/// declarators as follow, each with the type of the first.
pub open spec fn declaration_list_at(s: Seq<char>, pos: int) -> Outcome<Seq<SingleDeclarationView>> {
    match single_declaration_at(s, pos) {
        Outcome::Fail(f) => Outcome::Fail(f),
        Outcome::Match { next, value: head } => Outcome::Match {
            next: more_declarators_at(s, next, head.type_spec).0,
            value: seq![head] + more_declarators_at(s, next, head.type_spec).1,
        },
    }
}

/// Every further declarator has the type that was handed on, and none has both
/// an array size and an initializer.
proof fn lemma_more_declarators(s: Seq<char>, pos: int, type_spec: VariantTypeSpecifierView)
    ensures
        forall|i: int|
            0 <= i < more_declarators_at(s, pos, type_spec).1.len() ==> {
                let part = #[trigger] more_declarators_at(s, pos, type_spec).1[i];
                part.type_spec == type_spec && !(part.array_spec is Some && part.equal_to is Some)
            },
    decreases s.len() - pos,
{
    if let Outcome::Match { next, value } = declaration_list_part_at(s, pos, type_spec) {
        if pos < next <= s.len() {
            lemma_more_declarators(s, next, type_spec);
        }
    }
}

/// A declarator list is not empty, and every declarator in it has the type of
/// the first.
pub proof fn lemma_declarators_share_type(s: Seq<char>, pos: int)
    ensures
        declaration_list_at(s, pos) matches Outcome::Match { value: list, .. } ==> list.len() > 0
            && forall|i: int|
            0 <= i < list.len() ==> (#[trigger] list[i]).type_spec == list[0].type_spec,
{
    if let Outcome::Match { next, value: head } = single_declaration_at(s, pos) {
        lemma_more_declarators(s, next, head.type_spec);
    }
}

/// No declarator has both an array size and an initializer, whether it stands
/// alone or in a list.
pub proof fn lemma_size_excludes_initializer(s: Seq<char>, pos: int)
    ensures
        single_declaration_at(s, pos) matches Outcome::Match { value, .. } ==> !(
        value.array_spec is Some && value.equal_to is Some),
        declaration_list_at(s, pos) matches Outcome::Match { value: list, .. } ==> forall|i: int|
            0 <= i < list.len() ==> !((#[trigger] list[i]).array_spec is Some
                && list[i].equal_to is Some),
{
    if let Outcome::Match { next, value: head } = single_declaration_at(s, pos) {
        lemma_more_declarators(s, next, head.type_spec);
    }
}

/// Blanks in front of a declaration change nothing of what is parsed.
pub proof fn lemma_declaration_skips_blanks(s: Seq<char>, pos: int)
    requires
        0 <= pos,
    ensures
        declaration_at(s, skip_blank(s, pos)) == declaration_at(s, pos),
{
    lemma_run_end(s, pos, CharClass::Blank);
    lemma_run_end_again(s, pos, skip_blank(s, pos), CharClass::Blank);
}

/// Parses a declarator list. All its declarators have the type of the first.
pub fn declaration_list(s: &[char], pos: usize) -> (r: Result<
    (usize, Vec<SingleDeclaration>),
    ParseError,
>)
    ensures
        agrees(r, declaration_list_at(s@, pos as int)),
        r matches Ok((next, list)) ==> pos < next <= s.len() && is_declarator_list(
            list.deep_view(),
        ),
{
    let (first, head) = match single_declaration(s, pos) {
        Ok(found) => found,
        Err(e) => { return Err(e); },
    };
    let ghost head_view = head.deep_view();
    let mut list: Vec<SingleDeclaration> = Vec::new();
    let mut cur: usize = first;
    let mut done: bool = false;
    assert(list.deep_view() =~= Seq::empty());
    assert(Seq::empty() + more_declarators_at(s@, first as int, head_view.type_spec).1
        =~= more_declarators_at(s@, first as int, head_view.type_spec).1);
    while !done
        invariant
            pos < first <= cur <= s.len(),
            head.deep_view() == head_view,
            head_view.wf(),
            more_declarators_at(s@, first as int, head_view.type_spec) == (
                more_declarators_at(s@, cur as int, head_view.type_spec).0,
                list.deep_view() + more_declarators_at(s@, cur as int, head_view.type_spec).1,
            ),
            done ==> more_declarators_at(s@, cur as int, head_view.type_spec) == (
                cur as int,
                Seq::<SingleDeclarationView>::empty(),
            ),
            forall|i: int|
                0 <= i < list.len() ==> (#[trigger] list.deep_view()[i]).wf()
                    && list.deep_view()[i].type_spec == head_view.type_spec,
        decreases s.len() - cur + (if done { 0int } else { 1int }),
    {
        let ghost before = list.deep_view();
        match declaration_list_part(s, cur, &head) {
            Ok((next, value)) => {
                list.push(value);
                assert(list.deep_view() =~= before.push(value.deep_view()));
                assert(before + (seq![value.deep_view()] + more_declarators_at(
                    s@,
                    next as int,
                    head_view.type_spec,
                ).1) =~= list.deep_view() + more_declarators_at(
                    s@,
                    next as int,
                    head_view.type_spec,
                ).1);
                cur = next;
            },
            Err(_) => {
                done = true;
            },
        }
    }
    let ghost tail = list.deep_view();
    list.insert(0, head);
    assert(list.deep_view() =~= seq![head_view] + tail);
    assert(tail + Seq::empty() =~= tail);
    Ok((cur, list))
}

/// The precision statement at `pos`: the word `precision`, a precision qualifier
/// and a basic-type keyword, with the blanks around them.
pub open spec fn precision_statement_at(s: Seq<char>, pos: int) -> Outcome<DeclarationView> {
    let start: int = skip_blank(s, pos);
    let len: int = s.len() as int;
    match keyword_at(s, start, "precision"@, Rule::Declaration) {
        Outcome::Fail(f) => Outcome::Fail(f),
        Outcome::Match { next: p1, .. } => match precision_qualifier_at(s, p1) {
            Outcome::Fail(f) => Outcome::Fail(committed(f, Rule::Declaration, start, len)),
            Outcome::Match { next: p2, value: precision } => match spaced(s, basic_type_at(s, p2)) {
                Outcome::Fail(f) => Outcome::Fail(committed(f, Rule::Declaration, start, len)),
                Outcome::Match { next, value: of } => Outcome::Match {
                    next,
                    value: DeclarationView::Precision(precision, of),
                },
            },
        },
    }
}

/// Parses a precision statement, without the `;` behind it.
pub fn precision_statement(s: &[char], pos: usize) -> (r: Result<(usize, Declaration), ParseError>)
    ensures
        agrees(r, precision_statement_at(s@, pos as int)),
        r matches Ok((next, value)) ==> pos < next <= s.len() && value.deep_view().wf()
            && value is Precision,
{
    let start: usize = skip_blanks(s, pos);
    let p1: usize = match keyword(s, start, "precision", Rule::Declaration) {
        Ok((next, _)) => next,
        Err(e) => { return Err(e); },
    };
    let (p2, precision) = match precision_qualifier(s, p1) {
        Ok(found) => found,
        Err(e) => { return Err(e.committed(Rule::Declaration, start, s.len())); },
    };
    match basic_type(s, p2) {
        Ok((next, of)) => Ok((skip_blanks(s, next), Declaration::Precision(precision, of))),
        Err(e) => Err(e.committed(Rule::Declaration, start, s.len())),
    }
}

/// What is declared at `start`: a function prototype, else a declarator list,
/// else a precision statement. Where none matches, the failure is that of the
/// precision statement.
pub open spec fn declared_at(s: Seq<char>, start: int) -> Outcome<DeclarationView> {
    if let Outcome::Match { next, value } = function_prototype_at(s, start) {
        Outcome::Match { next, value: DeclarationView::FunctionPrototype(value) }
    } else if let Outcome::Match { next, value } = declaration_list_at(s, start) {
        Outcome::Match { next, value: DeclarationView::DeclarationList(value) }
    } else {
        precision_statement_at(s, start)
    }
}

/// The declaration at `pos`: what is declared behind the blanks at `pos`, and
/// the `;` that must follow the first alternative that matched.
pub open spec fn declaration_at(s: Seq<char>, pos: int) -> Outcome<DeclarationView> {
    let start: int = skip_blank(s, pos);
    match declared_at(s, start) {
        Outcome::Fail(f) => Outcome::Fail(f),
        Outcome::Match { next: p1, value } => match symbol_at(s, p1, ';') {
            Outcome::Fail(f) => Outcome::Fail(
                committed(f, Rule::Declaration, start, s.len() as int),
            ),
            Outcome::Match { next, .. } => Outcome::Match { next, value },
        },
    }
}

/// Parses what is declared at `start`, without the `;` behind it.
fn declared(s: &[char], start: usize) -> (r: Result<(usize, Declaration), ParseError>)
    ensures
        agrees(r, declared_at(s@, start as int)),
        r matches Ok((next, value)) ==> start < next <= s.len() && value.deep_view().wf(),
{
    if let Ok((next, prototype)) = function_prototype(s, start) {
        return Ok((next, Declaration::FunctionPrototype(prototype)));
    }
    if let Ok((next, list)) = declaration_list(s, start) {
        return Ok((next, Declaration::DeclarationList(list)));
    }
    precision_statement(s, start)
}

/// Parses one declaration with the `;` that ends it, and the blanks around it.
/// On success it yields the position behind the declaration, from which the next
/// one can be parsed.
pub fn declaration(s: &[char], pos: usize) -> (r: Result<(usize, Declaration), ParseError>)
    ensures
        agrees(r, declaration_at(s@, pos as int)),
        r matches Ok((next, value)) ==> pos < next <= s.len() && value.deep_view().wf(),
{
    let start: usize = skip_blanks(s, pos);
    let (p1, value) = match declared(s, start) {
        Ok(found) => found,
        Err(e) => { return Err(e); },
    };
    match symbol(s, p1, ';') {
        Ok((next, _)) => Ok((next, value)),
        Err(e) => Err(e.committed(Rule::Declaration, start, s.len())),
    }
}

} // verus!
