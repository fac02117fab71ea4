//! The lexical classifier: operators, constants, basic-type keywords and
//! identifiers, and the token rule that chooses among them.

use crate::error::{agrees, mismatch, Outcome, ParseError, Rule};
use crate::scan::{
    char_at, either_tag, either_tag_end, is_word_start, lemma_run_end, lemma_run_end_again,
    lemma_run_end_is, run_end, scan_run, tag, tag_end, text_of, word_start, CharClass,
};
use vstd::prelude::*;
use vstd::slice::slice_subrange;

verus! {

/// A name: a letter or underscore followed by letters, digits and underscores.
pub type Identifier = String;

/// An operator symbol, as text.
pub type Operator = String;

/// A literal constant. A floating-point literal is kept as the text that was
/// recognised; nothing in the grammar reads its value.
#[derive(Debug, PartialEq)]
pub enum Constant {
    Bool(bool),
    Integer(u32),
    Float32(String),
}

/// The model of a [`Constant`].
pub enum ConstantView {
    Bool(bool),
    Integer(u32),
    Float32(Seq<char>),
}

impl DeepView for Constant {
    type V = ConstantView;

    open spec fn deep_view(&self) -> ConstantView {
        match self {
            Constant::Bool(b) => ConstantView::Bool(*b),
            Constant::Integer(n) => ConstantView::Integer(*n),
            Constant::Float32(text) => ConstantView::Float32(text@),
        }
    }
}

impl Clone for Constant {
    fn clone(&self) -> (r: Self)
        ensures
            r == *self,
    {
        match self {
            Constant::Bool(b) => Constant::Bool(*b),
            Constant::Integer(n) => Constant::Integer(*n),
            Constant::Float32(text) => Constant::Float32(text.clone()),
        }
    }
}

/// The type named by a keyword, or a type name that no keyword matches.
#[derive(Debug, PartialEq)]
pub enum BasicType {
    Void,
    Bool,
    Int,
    Float,
    Vec2,
    Vec3,
    Vec4,
    Bvec2,
    Bvec3,
    Bvec4,
    Ivec2,
    Ivec3,
    Ivec4,
    Mat2,
    Mat3,
    Mat4,
    Sampler2D,
    SamplerCube,
    TypeName(Identifier),
}

/// The model of a [`BasicType`].
pub enum BasicTypeView {
    Void,
    Bool,
    Int,
    Float,
    Vec2,
    Vec3,
    Vec4,
    Bvec2,
    Bvec3,
    Bvec4,
    Ivec2,
    Ivec3,
    Ivec4,
    Mat2,
    Mat3,
    Mat4,
    Sampler2D,
    SamplerCube,
    TypeName(Seq<char>),
}

impl DeepView for BasicType {
    type V = BasicTypeView;

    open spec fn deep_view(&self) -> BasicTypeView {
        match self {
            BasicType::Void => BasicTypeView::Void,
            BasicType::Bool => BasicTypeView::Bool,
            BasicType::Int => BasicTypeView::Int,
            BasicType::Float => BasicTypeView::Float,
            BasicType::Vec2 => BasicTypeView::Vec2,
            BasicType::Vec3 => BasicTypeView::Vec3,
            BasicType::Vec4 => BasicTypeView::Vec4,
            BasicType::Bvec2 => BasicTypeView::Bvec2,
            BasicType::Bvec3 => BasicTypeView::Bvec3,
            BasicType::Bvec4 => BasicTypeView::Bvec4,
            BasicType::Ivec2 => BasicTypeView::Ivec2,
            BasicType::Ivec3 => BasicTypeView::Ivec3,
            BasicType::Ivec4 => BasicTypeView::Ivec4,
            BasicType::Mat2 => BasicTypeView::Mat2,
            BasicType::Mat3 => BasicTypeView::Mat3,
            BasicType::Mat4 => BasicTypeView::Mat4,
            BasicType::Sampler2D => BasicTypeView::Sampler2D,
            BasicType::SamplerCube => BasicTypeView::SamplerCube,
            BasicType::TypeName(name) => BasicTypeView::TypeName(name@),
        }
    }
}

impl Clone for BasicType {
    fn clone(&self) -> (r: Self)
        ensures
            r == *self,
    {
        match self {
            BasicType::Void => BasicType::Void,
            BasicType::Bool => BasicType::Bool,
            BasicType::Int => BasicType::Int,
            BasicType::Float => BasicType::Float,
            BasicType::Vec2 => BasicType::Vec2,
            BasicType::Vec3 => BasicType::Vec3,
            BasicType::Vec4 => BasicType::Vec4,
            BasicType::Bvec2 => BasicType::Bvec2,
            BasicType::Bvec3 => BasicType::Bvec3,
            BasicType::Bvec4 => BasicType::Bvec4,
            BasicType::Ivec2 => BasicType::Ivec2,
            BasicType::Ivec3 => BasicType::Ivec3,
            BasicType::Ivec4 => BasicType::Ivec4,
            BasicType::Mat2 => BasicType::Mat2,
            BasicType::Mat3 => BasicType::Mat3,
            BasicType::Mat4 => BasicType::Mat4,
            BasicType::Sampler2D => BasicType::Sampler2D,
            BasicType::SamplerCube => BasicType::SamplerCube,
            BasicType::TypeName(name) => BasicType::TypeName(name.clone()),
        }
    }
}

/// A lexeme: its value and the exact text that was matched.
#[derive(Debug, PartialEq)]
pub enum Token {
    Operator(Operator, String),
    Constant(Constant, String),
    BasicType(BasicType, String),
    Identifier(Identifier, String),
}

/// The model of a [`Token`].
pub enum TokenView {
    Operator(Seq<char>, Seq<char>),
    Constant(ConstantView, Seq<char>),
    BasicType(BasicTypeView, Seq<char>),
    Identifier(Seq<char>, Seq<char>),
}

impl DeepView for Token {
    type V = TokenView;

    open spec fn deep_view(&self) -> TokenView {
        match self {
            Token::Operator(value, text) => TokenView::Operator(value@, text@),
            Token::Constant(value, text) => TokenView::Constant(value.deep_view(), text@),
            Token::BasicType(value, text) => TokenView::BasicType(value.deep_view(), text@),
            Token::Identifier(value, text) => TokenView::Identifier(value@, text@),
        }
    }
}

impl Clone for Token {
    fn clone(&self) -> (r: Self)
        ensures
            r == *self,
    {
        match self {
            Token::Operator(value, text) => Token::Operator(value.clone(), text.clone()),
            Token::Constant(value, text) => Token::Constant(value.clone(), text.clone()),
            Token::BasicType(value, text) => Token::BasicType(value.clone(), text.clone()),
            Token::Identifier(value, text) => Token::Identifier(value.clone(), text.clone()),
        }
    }
}

/// Whether `n` is an identifier: not empty, beginning with a letter or an
/// underscore, and made of letters, digits and underscores.
pub open spec fn is_identifier(n: Seq<char>) -> bool {
    &&& n.len() > 0
    &&& is_word_start(n[0])
    &&& forall|i: int| 0 <= i < n.len() ==> CharClass::Word.holds(#[trigger] n[i])
}

/// The identifier at `pos`: the longest run of letters, digits and underscores,
/// provided that it begins with a letter or an underscore.
pub open spec fn identifier_at(s: Seq<char>, pos: int) -> Outcome<Seq<char>> {
    if char_at(s, pos) is Some && is_word_start(s[pos]) {
        Outcome::Match {
            next: run_end(s, pos, CharClass::Word),
            value: s.subrange(pos, run_end(s, pos, CharClass::Word)),
        }
    } else {
        Outcome::Fail(mismatch(Rule::Identifier, pos))
    }
}

/// Parses an identifier at `pos`, without skipping blanks. What it yields is an
/// identifier that cannot be extended; a text that is an identifier as a whole
/// is consumed whole and yielded unchanged.
pub fn identifier(s: &[char], pos: usize) -> (r: Result<(usize, Identifier), ParseError>)
    ensures
        agrees(r, identifier_at(s@, pos as int)),
        r matches Ok((next, name)) ==> pos < next <= s.len() && is_identifier(name@) && (next
            < s.len() ==> !CharClass::Word.holds(s@[next as int])),
        pos == 0 && is_identifier(s@) ==> (r matches Ok((next, name)) && next == s.len() && name@
            == s@),
{
    proof {
        if pos == 0 && is_identifier(s@) {
            lemma_identifier_whole(s@);
        }
    }
    if pos < s.len() && word_start(s[pos]) {
        let end: usize = scan_run(s, pos, CharClass::Word);
        proof {
            lemma_run_end(s@, pos as int, CharClass::Word);
        }
        Ok((end, text_of(s, pos, end)))
    } else {
        Err(ParseError::mismatch(Rule::Identifier, pos))
    }
}

/// An identifier standing alone is parsed whole and yields itself.
pub proof fn lemma_identifier_whole(n: Seq<char>)
    requires
        is_identifier(n),
    ensures
        identifier_at(n, 0) == (Outcome::Match { next: n.len() as int, value: n }),
{
    lemma_run_end_is(n, 0, n.len() as int, CharClass::Word);
    assert(n.subrange(0, n.len() as int) == n);
}

/// The number that a run of decimal digits denotes.
pub open spec fn decimal_value(digits: Seq<char>) -> nat
    decreases digits.len(),
{
    if digits.len() == 0 {
        0
    } else {
        (decimal_value(digits.drop_last()) * 10 + (digits.last() as int - '0' as int)) as nat
    }
}

/// The unsigned integer at `pos`: the longest run of digits, provided that it is
/// not empty and that its value fits in 32 bits.
pub open spec fn unsigned_integer_at(s: Seq<char>, pos: int) -> Outcome<u32> {
    let end: int = run_end(s, pos, CharClass::Digit);
    if 0 <= pos < end && decimal_value(s.subrange(pos, end)) <= u32::MAX {
        Outcome::Match { next: end, value: decimal_value(s.subrange(pos, end)) as u32 }
    } else {
        Outcome::Fail(mismatch(Rule::UnsignedInteger, pos))
    }
}

/// The value of a run of digits is at least the value of each of its prefixes.
proof fn lemma_decimal_value_grows(s: Seq<char>, from: int, mid: int, to: int)
    requires
        0 <= from <= mid <= to <= s.len(),
        forall|i: int| from <= i < to ==> CharClass::Digit.holds(#[trigger] s[i]),
    ensures
        decimal_value(s.subrange(from, mid)) <= decimal_value(s.subrange(from, to)),
    decreases to - mid,
{
    if mid < to {
        lemma_decimal_value_grows(s, from, mid, to - 1);
        assert(s.subrange(from, to).drop_last() == s.subrange(from, to - 1));
        assert(CharClass::Digit.holds(s[to - 1]));
    }
}

/// Parses an unsigned 32-bit integer at `pos`, without skipping blanks.
pub fn unsigned_integer(s: &[char], pos: usize) -> (r: Result<(usize, u32), ParseError>)
    ensures
        agrees(r, unsigned_integer_at(s@, pos as int)),
        r matches Ok((next, _)) ==> pos < next <= s.len(),
{
    let end: usize = scan_run(s, pos, CharClass::Digit);
    if end == pos {
        return Err(ParseError::mismatch(Rule::UnsignedInteger, pos));
    }
    proof {
        lemma_run_end(s@, pos as int, CharClass::Digit);
    }
    let mut value: u64 = 0;
    let mut i: usize = pos;
    while i < end
        invariant
            pos <= i <= end <= s.len(),
            pos < end == run_end(s@, pos as int, CharClass::Digit),
            forall|k: int| pos <= k < end ==> CharClass::Digit.holds(#[trigger] s@[k]),
            value == decimal_value(s@.subrange(pos as int, i as int)),
            value <= u32::MAX,
        decreases end - i,
    {
        assert(CharClass::Digit.holds(s@[i as int]));
        let d: u64 = (s[i] as u32 - '0' as u32) as u64;
        proof {
            let t = s@.subrange(pos as int, i + 1);
            assert(t.drop_last() == s@.subrange(pos as int, i as int));
            assert(t.last() == s@[i as int]);
        }
        value = value * 10 + d;
        i += 1;
        assert(value == decimal_value(s@.subrange(pos as int, i as int)));
        if value > 0xffff_ffff {
            proof {
                lemma_decimal_value_grows(s@, pos as int, i as int, end as int);
            }
            return Err(ParseError::mismatch(Rule::UnsignedInteger, pos));
        }
    }
    Ok((end, value as u32))
}

/// The number of sign characters (`+` or `-`) at `pos`: one or none.
pub open spec fn sign_len(t: Seq<char>, pos: int) -> int {
    if char_at(t, pos) == Some('+') || char_at(t, pos) == Some('-') {
        1
    } else {
        0
    }
}

/// The length of the longest prefix of `t` that is a floating-point numeral:
/// an optional sign; then digits with an optional point and optional further
/// digits, or a point and digits; then, where it is complete, an exponent: `e` or
/// `E`, an optional sign and digits.
pub open spec fn float_prefix_len(t: Seq<char>) -> Option<int> {
    let p0: int = sign_len(t, 0);
    let p1: int = run_end(t, p0, CharClass::Digit);
    let p2: int = run_end(t, p1 + 1, CharClass::Digit);
    let mantissa: Option<int> = if p1 > p0 {
        if char_at(t, p1) == Some('.') {
            Some(p2)
        } else {
            Some(p1)
        }
    } else if char_at(t, p0) == Some('.') && p2 > p1 + 1 {
        Some(p2)
    } else {
        None
    };
    match mantissa {
        None => None,
        Some(m) => {
            let e0: int = m + 1 + sign_len(t, m + 1);
            let e1: int = run_end(t, e0, CharClass::Digit);
            if (char_at(t, m) == Some('e') || char_at(t, m) == Some('E')) && e1 > e0 {
                Some(e1)
            } else {
                Some(m)
            }
        },
    }
}

/// A floating-point numeral is not empty and lies inside the text.
pub proof fn lemma_float_prefix_len(t: Seq<char>)
    ensures
        float_prefix_len(t) matches Some(n) ==> 0 < n <= t.len(),
{
    let p0: int = sign_len(t, 0);
    let p1: int = run_end(t, p0, CharClass::Digit);
    lemma_run_end(t, p0, CharClass::Digit);
    lemma_run_end(t, p1 + 1, CharClass::Digit);
    if let Some(n) = float_prefix_len(t) {
        let m: int = if p1 > p0 && char_at(t, p1) != Some('.') {
            p1
        } else {
            run_end(t, p1 + 1, CharClass::Digit)
        };
        let e0: int = m + 1 + sign_len(t, m + 1);
        lemma_run_end(t, e0, CharClass::Digit);
    }
}

/// A run of digits that begins in front of a position where no digit stands ends
/// in the same place whether or not the text is cut off at that position.
proof fn lemma_digit_run_of_prefix(t: Seq<char>, cut: int, i: int)
    requires
        0 <= i <= cut <= t.len(),
        cut < t.len() ==> !CharClass::Digit.holds(t[cut]),
    ensures
        run_end(t.take(cut), i, CharClass::Digit) == run_end(t, i, CharClass::Digit),
        run_end(t, i, CharClass::Digit) <= cut,
    decreases cut - i,
{
    if i < cut && CharClass::Digit.holds(t[i]) {
        lemma_digit_run_of_prefix(t, cut, i + 1);
    }
}

/// The floating-point numeral at the start of a text is found in its leading
/// run of numeral characters alone: cutting the text off where a character
/// stands that no numeral holds changes nothing.
pub proof fn lemma_float_prefix_of_numeral_run(t: Seq<char>, cut: int)
    requires
        0 <= cut <= t.len(),
        cut < t.len() ==> !CharClass::Numeral.holds(t[cut]),
    ensures
        float_prefix_len(t.take(cut)) == float_prefix_len(t),
{
    let u = t.take(cut);
    assert forall|i: int| 0 <= i <= cut implies #[trigger] run_end(u, i, CharClass::Digit)
        == run_end(t, i, CharClass::Digit) && run_end(t, i, CharClass::Digit) <= cut by {
        lemma_digit_run_of_prefix(t, cut, i);
    }
}

/// Calls `nom::recognize_float` on the text as complete input. The contract
/// claims that it succeeds exactly where the text begins with a floating-point
/// numeral, and that it then yields the number of characters of the longest
/// such prefix.
#[verifier::external_body]
fn recognize_float(input: &[char]) -> (r: Option<usize>)
    ensures
        match r {
            Some(n) => float_prefix_len(input@) == Some(n as int),
            None => float_prefix_len(input@) is None,
        },
{
    let text: String = input.iter().collect();
    match nom::recognize_float(nom::types::CompleteStr(text.as_str())) {
        Ok((_, matched)) => Some(matched.0.chars().count()),
        Err(_) => None,
    }
}

/// The floating-point literal at `pos`: the longest floating-point numeral there,
/// provided that it is more than a run of digits. Its value is its text.
pub open spec fn float_at(s: Seq<char>, pos: int) -> Outcome<Seq<char>> {
    if 0 <= pos <= s.len() && float_prefix_len(s.skip(pos)) is Some && run_end(
        s,
        pos,
        CharClass::Digit,
    ) < pos + float_prefix_len(s.skip(pos))->0 {
        Outcome::Match {
            next: pos + float_prefix_len(s.skip(pos))->0,
            value: s.subrange(pos, pos + float_prefix_len(s.skip(pos))->0),
        }
    } else {
        Outcome::Fail(mismatch(Rule::Float, pos))
    }
}

/// Parses a floating-point literal at `pos`, without skipping blanks, and yields
/// its text.
pub fn float_s(s: &[char], pos: usize) -> (r: Result<(usize, String), ParseError>)
    ensures
        agrees(r, float_at(s@, pos as int)),
        r matches Ok((next, _)) ==> pos < next <= s.len(),
{
    if pos >= s.len() {
        return Err(ParseError::mismatch(Rule::Float, pos));
    }
    let cut: usize = scan_run(s, pos, CharClass::Numeral);
    let numeral = slice_subrange(s, pos, cut);
    proof {
        let rest = s@.skip(pos as int);
        lemma_run_end(s@, pos as int, CharClass::Numeral);
        assert(numeral@ == rest.take(cut - pos));
        lemma_float_prefix_of_numeral_run(rest, cut - pos);
        lemma_float_prefix_len(rest);
    }
    match recognize_float(numeral) {
        Some(n) => {
            let end: usize = pos + n;
            if scan_run(s, pos, CharClass::Digit) < end {
                Ok((end, text_of(s, pos, end)))
            } else {
                Err(ParseError::mismatch(Rule::Float, pos))
            }
        },
        None => Err(ParseError::mismatch(Rule::Float, pos)),
    }
}

/// The constant at `pos`: a floating-point literal, else an unsigned integer,
/// else one of the words `true` and `false`.
pub open spec fn constant_at(s: Seq<char>, pos: int) -> Outcome<ConstantView> {
    if let Outcome::Match { next, value } = float_at(s, pos) {
        Outcome::Match { next, value: ConstantView::Float32(value) }
    } else if let Outcome::Match { next, value } = unsigned_integer_at(s, pos) {
        Outcome::Match { next, value: ConstantView::Integer(value) }
    } else if let Some(next) = tag_end(s, pos, "true"@) {
        Outcome::Match { next, value: ConstantView::Bool(true) }
    } else if let Some(next) = tag_end(s, pos, "false"@) {
        Outcome::Match { next, value: ConstantView::Bool(false) }
    } else {
        Outcome::Fail(mismatch(Rule::Constant, pos))
    }
}

/// Parses a constant at `pos`, without skipping blanks.
pub fn constant(s: &[char], pos: usize) -> (r: Result<(usize, Constant), ParseError>)
    ensures
        agrees(r, constant_at(s@, pos as int)),
        r matches Ok((next, _)) ==> pos < next <= s.len(),
{
    if let Ok((next, text)) = float_s(s, pos) {
        return Ok((next, Constant::Float32(text)));
    }
    if let Ok((next, value)) = unsigned_integer(s, pos) {
        return Ok((next, Constant::Integer(value)));
    }
    if let Some(next) = tag(s, pos, "true") {
        return Ok((next, Constant::Bool(true)));
    }
    if let Some(next) = tag(s, pos, "false") {
        return Ok((next, Constant::Bool(false)));
    }
    Err(ParseError::mismatch(Rule::Constant, pos))
}

/// Whether `c` is one of the operator symbols.
pub open spec fn is_operator(c: char) -> bool {
    c == '.' || c == '+' || c == '-' || c == '/' || c == '*' || c == '%' || c == '<' || c == '>'
        || c == '[' || c == ']' || c == '(' || c == ')' || c == '{' || c == '}' || c == '^' || c
        == '|' || c == '&' || c == '~' || c == '=' || c == '!' || c == ':' || c == ';' || c == ','
        || c == '?'
}

/// The operator at `pos`: one operator symbol, as text.
pub open spec fn operator_at(s: Seq<char>, pos: int) -> Outcome<Seq<char>> {
    if char_at(s, pos) is Some && is_operator(s[pos]) {
        Outcome::Match { next: pos + 1, value: s.subrange(pos, pos + 1) }
    } else {
        Outcome::Fail(mismatch(Rule::Operator, pos))
    }
}

/// Tests whether `c` is one of the operator symbols.
pub fn operator_symbol(c: char) -> (r: bool)
    ensures
        r == is_operator(c),
{
    c == '.' || c == '+' || c == '-' || c == '/' || c == '*' || c == '%' || c == '<' || c == '>'
        || c == '[' || c == ']' || c == '(' || c == ')' || c == '{' || c == '}' || c == '^' || c
        == '|' || c == '&' || c == '~' || c == '=' || c == '!' || c == ':' || c == ';' || c == ','
        || c == '?'
}

/// Parses an operator at `pos`, without skipping blanks.
pub fn operator(s: &[char], pos: usize) -> (r: Result<(usize, Operator), ParseError>)
    ensures
        agrees(r, operator_at(s@, pos as int)),
        r matches Ok((next, _)) ==> pos < next <= s.len(),
{
    if pos < s.len() && operator_symbol(s[pos]) {
        Ok((pos + 1, text_of(s, pos, pos + 1)))
    } else {
        Err(ParseError::mismatch(Rule::Operator, pos))
    }
}

/// The vector or matrix type whose keyword stands at `pos`, written in lower
/// case or with a capital first letter, and the position behind the keyword.
pub open spec fn shaped_type_at(s: Seq<char>, pos: int) -> Option<(int, BasicTypeView)> {
    if let Some(next) = either_tag_end(s, pos, "vec2"@, "Vec2"@) {
        Some((next, BasicTypeView::Vec2))
    } else if let Some(next) = either_tag_end(s, pos, "vec3"@, "Vec3"@) {
        Some((next, BasicTypeView::Vec3))
    } else if let Some(next) = either_tag_end(s, pos, "vec4"@, "Vec4"@) {
        Some((next, BasicTypeView::Vec4))
    } else if let Some(next) = either_tag_end(s, pos, "bvec2"@, "Bvec2"@) {
        Some((next, BasicTypeView::Bvec2))
    } else if let Some(next) = either_tag_end(s, pos, "bvec3"@, "Bvec3"@) {
        Some((next, BasicTypeView::Bvec3))
    } else if let Some(next) = either_tag_end(s, pos, "bvec4"@, "Bvec4"@) {
        Some((next, BasicTypeView::Bvec4))
    } else if let Some(next) = either_tag_end(s, pos, "ivec2"@, "Ivec2"@) {
        Some((next, BasicTypeView::Ivec2))
    } else if let Some(next) = either_tag_end(s, pos, "ivec3"@, "Ivec3"@) {
        Some((next, BasicTypeView::Ivec3))
    } else if let Some(next) = either_tag_end(s, pos, "ivec4"@, "Ivec4"@) {
        Some((next, BasicTypeView::Ivec4))
    } else if let Some(next) = either_tag_end(s, pos, "mat2"@, "Mat2"@) {
        Some((next, BasicTypeView::Mat2))
    } else if let Some(next) = either_tag_end(s, pos, "mat3"@, "Mat3"@) {
        Some((next, BasicTypeView::Mat3))
    } else if let Some(next) = either_tag_end(s, pos, "mat4"@, "Mat4"@) {
        Some((next, BasicTypeView::Mat4))
    } else {
        None
    }
}

/// The scalar or sampler type whose keyword stands at `pos`, and the position
/// behind the keyword. The cube sampler has two spellings.
pub open spec fn plain_type_at(s: Seq<char>, pos: int) -> Option<(int, BasicTypeView)> {
    if let Some(next) = tag_end(s, pos, "void"@) {
        Some((next, BasicTypeView::Void))
    } else if let Some(next) = tag_end(s, pos, "bool"@) {
        Some((next, BasicTypeView::Bool))
    } else if let Some(next) = tag_end(s, pos, "int"@) {
        Some((next, BasicTypeView::Int))
    } else if let Some(next) = tag_end(s, pos, "float"@) {
        Some((next, BasicTypeView::Float))
    } else if let Some(next) = tag_end(s, pos, "sampler2D"@) {
        Some((next, BasicTypeView::Sampler2D))
    } else if let Some(next) = tag_end(s, pos, "samplerCube"@) {
        Some((next, BasicTypeView::SamplerCube))
    } else if let Some(next) = tag_end(s, pos, "sampler3D"@) {
        Some((next, BasicTypeView::SamplerCube))
    } else {
        None
    }
}

/// The basic type at `pos`: the type whose keyword stands there. A keyword is
/// matched as a prefix: what follows it is not looked at.
pub open spec fn basic_type_at(s: Seq<char>, pos: int) -> Outcome<BasicTypeView> {
    if let Some((next, value)) = plain_type_at(s, pos) {
        Outcome::Match { next, value }
    } else if let Some((next, value)) = shaped_type_at(s, pos) {
        Outcome::Match { next, value }
    } else {
        Outcome::Fail(mismatch(Rule::BasicType, pos))
    }
}

/// Finds the vector or matrix keyword at `pos`.
fn shaped_type(s: &[char], pos: usize) -> (r: Option<(usize, BasicType)>)
    ensures
        match r {
            Some((next, value)) => shaped_type_at(s@, pos as int) == Some(
                (next as int, value.deep_view()),
            ) && pos < next <= s.len(),
            None => shaped_type_at(s@, pos as int) is None,
        },
{
    if let Some(next) = either_tag(s, pos, "vec2", "Vec2") {
        Some((next, BasicType::Vec2))
    } else if let Some(next) = either_tag(s, pos, "vec3", "Vec3") {
        Some((next, BasicType::Vec3))
    } else if let Some(next) = either_tag(s, pos, "vec4", "Vec4") {
        Some((next, BasicType::Vec4))
    } else if let Some(next) = either_tag(s, pos, "bvec2", "Bvec2") {
        Some((next, BasicType::Bvec2))
    } else if let Some(next) = either_tag(s, pos, "bvec3", "Bvec3") {
        Some((next, BasicType::Bvec3))
    } else if let Some(next) = either_tag(s, pos, "bvec4", "Bvec4") {
        Some((next, BasicType::Bvec4))
    } else if let Some(next) = either_tag(s, pos, "ivec2", "Ivec2") {
        Some((next, BasicType::Ivec2))
    } else if let Some(next) = either_tag(s, pos, "ivec3", "Ivec3") {
        Some((next, BasicType::Ivec3))
    } else if let Some(next) = either_tag(s, pos, "ivec4", "Ivec4") {
        Some((next, BasicType::Ivec4))
    } else if let Some(next) = either_tag(s, pos, "mat2", "Mat2") {
        Some((next, BasicType::Mat2))
    } else if let Some(next) = either_tag(s, pos, "mat3", "Mat3") {
        Some((next, BasicType::Mat3))
    } else if let Some(next) = either_tag(s, pos, "mat4", "Mat4") {
        Some((next, BasicType::Mat4))
    } else {
        None
    }
}

/// Finds the scalar or sampler keyword at `pos`.
fn plain_type(s: &[char], pos: usize) -> (r: Option<(usize, BasicType)>)
    ensures
        match r {
            Some((next, value)) => plain_type_at(s@, pos as int) == Some(
                (next as int, value.deep_view()),
            ) && pos < next <= s.len(),
            None => plain_type_at(s@, pos as int) is None,
        },
{
    if let Some(next) = tag(s, pos, "void") {
        Some((next, BasicType::Void))
    } else if let Some(next) = tag(s, pos, "bool") {
        Some((next, BasicType::Bool))
    } else if let Some(next) = tag(s, pos, "int") {
        Some((next, BasicType::Int))
    } else if let Some(next) = tag(s, pos, "float") {
        Some((next, BasicType::Float))
    } else if let Some(next) = tag(s, pos, "sampler2D") {
        Some((next, BasicType::Sampler2D))
    } else if let Some(next) = tag(s, pos, "samplerCube") {
        Some((next, BasicType::SamplerCube))
    } else if let Some(next) = tag(s, pos, "sampler3D") {
        Some((next, BasicType::SamplerCube))
    } else {
        None
    }
}

/// Parses a basic-type keyword at `pos`, without skipping blanks.
pub fn basic_type(s: &[char], pos: usize) -> (r: Result<(usize, BasicType), ParseError>)
    ensures
        agrees(r, basic_type_at(s@, pos as int)),
        r matches Ok((next, _)) ==> pos < next <= s.len(),
{
    if let Some((next, value)) = plain_type(s, pos) {
        Ok((next, value))
    } else if let Some((next, value)) = shaped_type(s, pos) {
        Ok((next, value))
    } else {
        Err(ParseError::mismatch(Rule::BasicType, pos))
    }
}

/// The lexeme that begins at `pos`, and where it ends: an operator, else a
/// constant, else a basic-type keyword, else an identifier. Where none matches,
/// the failure is that of the identifier, the alternative tried last.
pub open spec fn lexeme_at(s: Seq<char>, pos: int) -> Outcome<TokenView> {
    if let Outcome::Match { next, value } = operator_at(s, pos) {
        Outcome::Match { next, value: TokenView::Operator(value, s.subrange(pos, next)) }
    } else if let Outcome::Match { next, value } = constant_at(s, pos) {
        Outcome::Match { next, value: TokenView::Constant(value, s.subrange(pos, next)) }
    } else if let Outcome::Match { next, value } = basic_type_at(s, pos) {
        Outcome::Match { next, value: TokenView::BasicType(value, s.subrange(pos, next)) }
    } else if let Outcome::Match { next, value } = identifier_at(s, pos) {
        Outcome::Match { next, value: TokenView::Identifier(value, s.subrange(pos, next)) }
    } else {
        Outcome::Fail(mismatch(Rule::Identifier, pos))
    }
}

/// The token at `pos`: the lexeme behind the blanks that begin at `pos`; the
/// blanks that follow it are consumed too.
pub open spec fn token_at(s: Seq<char>, pos: int) -> Outcome<TokenView> {
    match lexeme_at(s, run_end(s, pos, CharClass::Blank)) {
        Outcome::Match { next, value } => Outcome::Match {
            next: run_end(s, next, CharClass::Blank),
            value,
        },
        Outcome::Fail(f) => Outcome::Fail(f),
    }
}

/// Blanks in front of a token change nothing of what is parsed.
pub proof fn lemma_token_skips_blanks(s: Seq<char>, pos: int)
    requires
        0 <= pos,
    ensures
        token_at(s, run_end(s, pos, CharClass::Blank)) == token_at(s, pos),
{
    lemma_run_end(s, pos, CharClass::Blank);
    lemma_run_end_again(s, pos, run_end(s, pos, CharClass::Blank), CharClass::Blank);
}

/// Parses the lexeme that begins at `pos`.
fn lexeme(s: &[char], pos: usize) -> (r: Result<(usize, Token), ParseError>)
    ensures
        agrees(r, lexeme_at(s@, pos as int)),
        r matches Ok((next, _)) ==> pos < next <= s.len(),
{
    if let Ok((next, value)) = operator(s, pos) {
        return Ok((next, Token::Operator(value, text_of(s, pos, next))));
    }
    if let Ok((next, value)) = constant(s, pos) {
        return Ok((next, Token::Constant(value, text_of(s, pos, next))));
    }
    if let Ok((next, value)) = basic_type(s, pos) {
        return Ok((next, Token::BasicType(value, text_of(s, pos, next))));
    }
    match identifier(s, pos) {
        Ok((next, value)) => Ok((next, Token::Identifier(value, text_of(s, pos, next)))),
        Err(e) => Err(e),
    }
}

/// Parses the next token: skips blanks, classifies the lexeme, and skips the
/// blanks behind it.
pub fn token(s: &[char], pos: usize) -> (r: Result<(usize, Token), ParseError>)
    ensures
        agrees(r, token_at(s@, pos as int)),
        r matches Ok((next, _)) ==> pos < next <= s.len(),
{
    let start: usize = scan_run(s, pos, CharClass::Blank);
    match lexeme(s, start) {
        Ok((next, value)) => Ok((scan_run(s, next, CharClass::Blank), value)),
        Err(e) => Err(e),
    }
}

} // verus!
