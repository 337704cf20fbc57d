//! A parser for a JSON-query expression language.
//!
//! Expressions such as `foo.bar`, `[1:-1].a` or `{foo: bar}` are parsed by a
//! top-down operator-precedence (Pratt) parser into an [`Ast`], or rejected
//! with a [`ParseError`] carrying a message and a source offset.

pub mod ast;
pub mod token;
pub mod lexer;
pub mod errors;
pub mod parser;

pub use ast::{Ast, AstView, Comparator, Json, JsonView, KeyValuePair};
pub use errors::ParseError;
pub use parser::{parse, Parser};
