//! Tokens of the expression language and their binding powers.

use vstd::prelude::*;
use crate::ast::{Json, JsonView, json_view};

verus! {

/// A token of the expression language.
///
/// `Identifier`, `Number`, `Literal` and `Unknown` carry the length, in
/// characters, of the source text they were scanned from; the parser adds
/// these lengths to its running offset for error reporting.
pub enum Token {
    At,
    Dot,
    Star,
    Flatten,
    Or,
    Pipe,
    Lbracket,
    Rbracket,
    Lbrace,
    Rbrace,
    Comma,
    Colon,
    Ampersand,
    Filter,
    Whitespace,
    Identifier(String, usize),
    Number(i32, usize),
    Literal(Json, usize),
    Unknown(String, usize),
    Eof,
}

/// The model of a [`Token`].
pub enum TokenView {
    At,
    Dot,
    Star,
    Flatten,
    Or,
    Pipe,
    Lbracket,
    Rbracket,
    Lbrace,
    Rbrace,
    Comma,
    Colon,
    Ampersand,
    Filter,
    Whitespace,
    Identifier(Seq<char>, nat),
    Number(int, nat),
    Literal(JsonView, nat),
    Unknown(Seq<char>, nat),
    Eof,
}

impl DeepView for Token {
    type V = TokenView;

    open spec fn deep_view(&self) -> TokenView {
        match *self {
            Token::At => TokenView::At,
            Token::Dot => TokenView::Dot,
            Token::Star => TokenView::Star,
            Token::Flatten => TokenView::Flatten,
            Token::Or => TokenView::Or,
            Token::Pipe => TokenView::Pipe,
            Token::Lbracket => TokenView::Lbracket,
            Token::Rbracket => TokenView::Rbracket,
            Token::Lbrace => TokenView::Lbrace,
            Token::Rbrace => TokenView::Rbrace,
            Token::Comma => TokenView::Comma,
            Token::Colon => TokenView::Colon,
            Token::Ampersand => TokenView::Ampersand,
            Token::Filter => TokenView::Filter,
            Token::Whitespace => TokenView::Whitespace,
            Token::Identifier(ref s, n) => TokenView::Identifier(s@, n as nat),
            Token::Number(v, n) => TokenView::Number(v as int, n as nat),
            Token::Literal(ref j, n) => TokenView::Literal(json_view(*j), n as nat),
            Token::Unknown(ref s, n) => TokenView::Unknown(s@, n as nat),
            Token::Eof => TokenView::Eof,
        }
    }
}

/// The left binding power of a token: the precedence that decides whether the
/// Pratt loop keeps extending the expression to the left of this token.
pub open spec fn tv_lbp(t: TokenView) -> nat {
    match t {
        TokenView::Pipe => 1,
        TokenView::Or => 2,
        TokenView::Flatten => 6,
        TokenView::Star => 20,
        TokenView::Filter => 21,
        TokenView::Dot => 40,
        TokenView::Ampersand => 50,
        TokenView::Lbrace => 50,
        TokenView::Lbracket => 55,
        _ => 0,
    }
}

/// The length, in characters of source text, of a token.
pub open spec fn tv_size(t: TokenView) -> nat {
    match t {
        TokenView::Identifier(_, n) => n,
        TokenView::Number(_, n) => n,
        TokenView::Literal(_, n) => n,
        TokenView::Unknown(_, n) => n,
        TokenView::Or => 2,
        TokenView::Flatten => 2,
        TokenView::Filter => 2,
        TokenView::Eof => 0,
        _ => 1,
    }
}

/// The name a token is reported under in error messages.
pub open spec fn tv_name(t: TokenView) -> Seq<char> {
    match t {
        TokenView::At => "At"@,
        TokenView::Dot => "Dot"@,
        TokenView::Star => "Star"@,
        TokenView::Flatten => "Flatten"@,
        TokenView::Or => "Or"@,
        TokenView::Pipe => "Pipe"@,
        TokenView::Lbracket => "Lbracket"@,
        TokenView::Rbracket => "Rbracket"@,
        TokenView::Lbrace => "Lbrace"@,
        TokenView::Rbrace => "Rbrace"@,
        TokenView::Comma => "Comma"@,
        TokenView::Colon => "Colon"@,
        TokenView::Ampersand => "Ampersand"@,
        TokenView::Filter => "Filter"@,
        TokenView::Whitespace => "Whitespace"@,
        TokenView::Identifier(_, _) => "Identifier"@,
        TokenView::Number(_, _) => "Number"@,
        TokenView::Literal(_, _) => "Literal"@,
        TokenView::Unknown(_, _) => "Unknown"@,
        TokenView::Eof => "Eof"@,
    }
}

impl Token {
    /// The left binding power of this token.
    pub fn lbp(&self) -> (r: usize)
        ensures
            r as nat == tv_lbp(self.deep_view()),
    {
        match *self {
            Token::Pipe => 1,
            Token::Or => 2,
            Token::Flatten => 6,
            Token::Star => 20,
            Token::Filter => 21,
            Token::Dot => 40,
            Token::Ampersand => 50,
            Token::Lbrace => 50,
            Token::Lbracket => 55,
            _ => 0,
        }
    }

    /// The length, in characters of source text, of this token.
    pub fn size(&self) -> (r: usize)
        ensures
            r as nat == tv_size(self.deep_view()),
    {
        match *self {
            Token::Identifier(_, n) => n,
            Token::Number(_, n) => n,
            Token::Literal(_, n) => n,
            Token::Unknown(_, n) => n,
            Token::Or => 2,
            Token::Flatten => 2,
            Token::Filter => 2,
            Token::Eof => 0,
            _ => 1,
        }
    }

    /// The name this token is reported under in error messages.
    pub fn name(&self) -> (r: &'static str)
        ensures
            r@ == tv_name(self.deep_view()),
    {
        match *self {
            Token::At => "At",
            Token::Dot => "Dot",
            Token::Star => "Star",
            Token::Flatten => "Flatten",
            Token::Or => "Or",
            Token::Pipe => "Pipe",
            Token::Lbracket => "Lbracket",
            Token::Rbracket => "Rbracket",
            Token::Lbrace => "Lbrace",
            Token::Rbrace => "Rbrace",
            Token::Comma => "Comma",
            Token::Colon => "Colon",
            Token::Ampersand => "Ampersand",
            Token::Filter => "Filter",
            Token::Whitespace => "Whitespace",
            Token::Identifier(_, _) => "Identifier",
            Token::Number(_, _) => "Number",
            Token::Literal(_, _) => "Literal",
            Token::Unknown(_, _) => "Unknown",
            Token::Eof => "Eof",
        }
    }
}

} // verus!
