//! Tokens of the filter language.

use vstd::prelude::*;

verus! {

/// A half-open range of byte offsets into the source text.
#[derive(Debug, Clone, Copy, PartialEq, Eq, Default)]
pub struct Span {
    /// Offset of the first byte.
    pub start: usize,
    /// Offset one past the last byte.
    pub end: usize,
}

impl Span {
    pub fn new(start: usize, end: usize) -> (r: Span)
        ensures
            r.start == start,
            r.end == end,
    {
        Span { start, end }
    }
}

/// The kind of a token, with its payload where it has one.
#[derive(Debug, Clone, PartialEq)]
pub enum TokenKind {
    /// `Filter:`
    Filter,
    /// `CrossFilter:`
    CrossFilter,
    And,
    Or,
    Not,
    In,
    Is,
    Null,
    /// An identifier-shaped word that is no keyword.
    Identifier(String),
    /// The content of a double-quoted string, without the quotes.
    String(String),
    Number(i64),
    Today,
    Yesterday,
    Tomorrow,
    CurrentUser,
    LParen,
    RParen,
    LBracket,
    RBracket,
    Semicolon,
    Comma,
    Dash,
    Eq,
    NotEq,
    Gt,
    Lt,
    Gte,
    Lte,
    /// A character that starts no token.
    Illegal,
    /// End of input.
    Eof,
}

/// One token with the span it was read from.
#[derive(Debug, Clone, PartialEq)]
pub struct Token {
    pub kind: TokenKind,
    pub span: Span,
}

/// Two kinds are of the same variant (payloads are not compared).
pub open spec fn same_variant(a: TokenKind, b: TokenKind) -> bool {
    match (a, b) {
        (TokenKind::Identifier(_), TokenKind::Identifier(_)) => true,
        (TokenKind::String(_), TokenKind::String(_)) => true,
        (TokenKind::Number(_), TokenKind::Number(_)) => true,
        _ => a == b,
    }
}

} // verus!
