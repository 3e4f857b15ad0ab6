use vstd::prelude::*;

verus! {

/// The lexical categories that the scanner recognises.
#[derive(Debug, Clone, Copy, PartialEq, Eq, Structural)]
pub enum TokenType {
    RightCurlyBracket,
    LeftCurlyBracket,
    RightSquareBracket,
    LeftSquareBracket,
    LeftParenthesis,
    RightParenthesis,
    Colon,
    Semicolon,
    Dot,
    Question,
    Coma,
    Less,
    Greater,
    LessEqual,
    GreaterEqual,
    Equal,
    DoubleEqual,
    Slash,
    Plus,
    Minus,
    Star,
    Eof,
}

/// One token, as emitted by the scanner.
#[derive(Debug, Clone, PartialEq, Eq)]
pub struct Token {
    pub token_type: TokenType,
    /// The exact source text of the token; empty for the end-of-input marker.
    pub lexeme: String,
    /// A slot for a decoded value; no kind of token recognised here carries one.
    pub literal: Option<String>,
    /// The 1-based line on which the token starts.
    pub line: usize,
}

} // verus!
