//! A syntactic front end for a GLSL-like shading language: a lexical classifier
//! and a grammar for type qualifiers, type specifiers, function prototypes and
//! declarator lists, each rule proved against its mathematical definition.
//!
//! A text is a slice of characters, and every rule is a function of the text and
//! of a position in it. A rule yields the position behind what it consumed
//! together with the value it built, or a [`error::ParseError`]; it never
//! yields part of a value, and a failure consumes nothing. A position at or
//! behind the end of the text is the end of the input.
//!
//! For each rule `name` the function `name_at` defines in mathematical terms
//! what the rule yields, as an [`error::Outcome`] over models of the values, and
//! the rule itself is proved to yield exactly that.
//!
//! The lexical rules of [`tokens`] read the text from the position given. The
//! token rule and the rules of the grammar skip the blanks in front of each
//! lexeme and behind it. Keywords are matched as prefixes: what follows a keyword
//! is not looked at, so `integer` begins with the keyword `int`. Alternatives are
//! tried in a fixed order and the first that matches wins; where none matches,
//! the failure of the last one is reported.

pub mod declaration;
pub mod error;
pub mod expression;
pub mod lexeme;
pub mod loader;
pub mod prototype;
pub mod scan;
pub mod tokens;
pub mod type_grammar;
