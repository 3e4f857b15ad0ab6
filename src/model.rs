use vstd::prelude::*;
use crate::token::TokenType;

verus! {

/// A token of the model: its kind, its text, the line it starts on and the
/// offset (in characters) at which it starts.
pub struct ScannedToken {
    pub kind: TokenType,
    pub lexeme: Seq<char>,
    pub line: nat,
    pub start: nat,
}

/// An error of the model: the unexpected character and its line.
pub struct ScanError {
    pub ch: char,
    pub line: nat,
}

/// What one dispatch of the scanner does at one cursor position: the token it
/// emits, if any, the error it records, if any, and the cursor and line
/// counter it leaves behind.
pub struct Step {
    pub token: Option<ScannedToken>,
    pub error: Option<ScanError>,
    pub next: nat,
    pub line: nat,
}

/// The result of scanning: the tokens and the errors, each in source order.
pub struct Scan {
    pub tokens: Seq<ScannedToken>,
    pub errors: Seq<ScanError>,
}

/// The kind of a token that is always one character long.
pub open spec fn single_char_kind(c: char) -> Option<TokenType> {
    if c == '{' {
        Some(TokenType::LeftCurlyBracket)
    } else if c == '}' {
        Some(TokenType::RightCurlyBracket)
    } else if c == '[' {
        Some(TokenType::LeftSquareBracket)
    } else if c == ']' {
        Some(TokenType::RightSquareBracket)
    } else if c == '(' {
        Some(TokenType::LeftParenthesis)
    } else if c == ')' {
        Some(TokenType::RightParenthesis)
    } else if c == ':' {
        Some(TokenType::Colon)
    } else if c == ';' {
        Some(TokenType::Semicolon)
    } else if c == '.' {
        Some(TokenType::Dot)
    } else if c == ',' {
        Some(TokenType::Coma)
    } else if c == '?' {
        Some(TokenType::Question)
    } else if c == '+' {
        Some(TokenType::Plus)
    } else if c == '-' {
        Some(TokenType::Minus)
    } else if c == '*' {
        Some(TokenType::Star)
    } else {
        None
    }
}

/// For `=`, `<` and `>`: the kind of the operator alone and the kind of the
/// operator followed by `=`.
pub open spec fn operator_kinds(c: char) -> Option<(TokenType, TokenType)> {
    if c == '=' {
        Some((TokenType::Equal, TokenType::DoubleEqual))
    } else if c == '<' {
        Some((TokenType::Less, TokenType::LessEqual))
    } else if c == '>' {
        Some((TokenType::Greater, TokenType::GreaterEqual))
    } else {
        None
    }
}

/// Horizontal whitespace, skipped without effect.
pub open spec fn is_blank(c: char) -> bool {
    c == ' ' || c == '\r' || c == '\t'
}

/// The first offset at or after `p` that holds a newline, or the end of `s`.
pub open spec fn line_end(s: Seq<char>, p: nat) -> nat
    decreases s.len() - p,
{
    if p >= s.len() || s[p as int] == '\n' {
        p
    } else {
        line_end(s, p + 1)
    }
}

pub open spec fn token_at(kind: TokenType, lexeme: Seq<char>, line: nat, start: nat) -> ScannedToken {
    ScannedToken { kind, lexeme, line, start }
}

pub open spec fn emit(t: ScannedToken, next: nat, line: nat) -> Step {
    Step { token: Some(t), error: None, next, line }
}

pub open spec fn skip(next: nat, line: nat) -> Step {
    Step { token: None, error: None, next, line }
}

/// One dispatch on the character at `pos` (which must lie inside `s`).
pub open spec fn step(s: Seq<char>, pos: nat, line: nat) -> Step {
    let c = s[pos as int];
    let has_next = pos + 1 < s.len();
    if single_char_kind(c) is Some {
        emit(token_at(single_char_kind(c)->0, seq![c], line, pos), pos + 1, line)
    } else if operator_kinds(c) is Some {
        let (alone, with_equal) = operator_kinds(c)->0;
        if !has_next {
            // a trailing operator at the very end of the input is dropped
            skip(pos + 1, line)
        } else if s[pos + 1int] == '=' {
            // the cursor moves past the operator only: the `=` is read again
            emit(token_at(with_equal, seq![c, '='], line, pos), pos + 1, line)
        } else {
            emit(token_at(alone, seq![c], line, pos), pos + 1, line)
        }
    } else if c == '/' {
        if has_next && s[pos + 1int] == '/' {
            skip(line_end(s, pos + 2), line)
        } else {
            emit(token_at(TokenType::Slash, seq![c], line, pos), pos + 1, line)
        }
    } else if c == '\n' {
        skip(pos + 1, line + 1)
    } else if is_blank(c) {
        skip(pos + 1, line)
    } else {
        Step { token: None, error: Some(ScanError { ch: c, line }), next: pos + 1, line }
    }
}

pub open spec fn seq_of<A>(o: Option<A>) -> Seq<A> {
    match o {
        Some(a) => seq![a],
        None => Seq::empty(),
    }
}

/// The end-of-input token, placed at the end of `s`.
pub open spec fn eof_token(s: Seq<char>, line: nat) -> ScannedToken {
    token_at(TokenType::Eof, Seq::empty(), line, s.len())
}

/// Scanning `s` from offset `pos` with the line counter at `line`.
pub open spec fn scan_from(s: Seq<char>, pos: nat, line: nat) -> Scan
    decreases s.len() - pos,
    via scan_from_decreases
{
    if pos >= s.len() {
        Scan { tokens: seq![eof_token(s, line)], errors: Seq::empty() }
    } else {
        let st = step(s, pos, line);
        let rest = scan_from(s, st.next, st.line);
        Scan { tokens: seq_of(st.token) + rest.tokens, errors: seq_of(st.error) + rest.errors }
    }
}

#[via_fn]
proof fn scan_from_decreases(s: Seq<char>, pos: nat, line: nat) {
    if pos < s.len() {
        lemma_step_advances(s, pos, line);
    }
}

/// Each dispatch moves the cursor forward and keeps it inside the input.
pub proof fn lemma_step_advances(s: Seq<char>, pos: nat, line: nat)
    requires
        pos < s.len(),
    ensures
        pos < step(s, pos, line).next <= s.len(),
{
    if pos + 2 <= s.len() {
        lemma_line_end_bounds(s, pos + 2);
    }
}

/// Scanning a whole source text.
pub open spec fn scan(s: Seq<char>) -> Scan {
    scan_from(s, 0, 1)
}

pub proof fn lemma_line_end_bounds(s: Seq<char>, p: nat)
    requires
        p <= s.len(),
    ensures
        p <= line_end(s, p) <= s.len(),
        line_end(s, p) == s.len() || s[line_end(s, p) as int] == '\n',
    decreases s.len() - p,
{
    if p < s.len() && s[p as int] != '\n' {
        lemma_line_end_bounds(s, p + 1);
    }
}

} // verus!
