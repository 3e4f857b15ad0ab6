use vstd::prelude::*;
use vstd::std_specs::iter::IteratorSpec;
use crate::error::{char_to_string, error_message, unexpected_char_message, CompilationError};
use crate::token::{Token, TokenType};
use crate::model::{
    line_end, operator_kinds, scan_from, seq_of, single_char_kind, step, ScanError, ScannedToken,
};

verus! {

/// An emitted token agrees with a token of the model; its literal slot is empty.
pub open spec fn token_matches(t: Token, m: ScannedToken) -> bool {
    &&& t.token_type == m.kind
    &&& t.lexeme@ == m.lexeme
    &&& t.line as nat == m.line
    &&& t.literal is None
}

pub open spec fn tokens_match(ts: Seq<Token>, ms: Seq<ScannedToken>) -> bool {
    &&& ts.len() == ms.len()
    &&& forall|i: int| 0 <= i < ts.len() ==> token_matches(#[trigger] ts[i], ms[i])
}

/// A recorded error agrees with an error of the model.
pub open spec fn error_matches(e: CompilationError, m: ScanError) -> bool {
    &&& e.line as nat == m.line
    &&& e.message@ == error_message(m.ch, m.line)
}

pub open spec fn errors_match(es: Seq<CompilationError>, ms: Seq<ScanError>) -> bool {
    &&& es.len() == ms.len()
    &&& forall|i: int| 0 <= i < es.len() ==> error_matches(#[trigger] es[i], ms[i])
}

/// Scanning the same text twice, from the same cursor and line counter,
/// yields the same tokens and the same errors: any two results that agree
/// with the scan agree with each other.
pub proof fn lemma_scan_deterministic(
    s: Seq<char>,
    pos: nat,
    line: nat,
    tokens1: Seq<Token>,
    errors1: Seq<CompilationError>,
    tokens2: Seq<Token>,
    errors2: Seq<CompilationError>,
)
    requires
        tokens_match(tokens1, scan_from(s, pos, line).tokens),
        errors_match(errors1, scan_from(s, pos, line).errors),
        tokens_match(tokens2, scan_from(s, pos, line).tokens),
        errors_match(errors2, scan_from(s, pos, line).errors),
    ensures
        tokens1.len() == tokens2.len(),
        forall|i: int|
            0 <= i < tokens1.len() ==> {
                &&& (#[trigger] tokens1[i]).token_type == tokens2[i].token_type
                &&& tokens1[i].lexeme@ == tokens2[i].lexeme@
                &&& tokens1[i].literal == tokens2[i].literal
                &&& tokens1[i].line == tokens2[i].line
            },
        errors1.len() == errors2.len(),
        forall|i: int|
            0 <= i < errors1.len() ==> {
                &&& (#[trigger] errors1[i]).line == errors2[i].line
                &&& errors1[i].message@ == errors2[i].message@
            },
{
    assert forall|i: int| 0 <= i < tokens1.len() implies {
        &&& (#[trigger] tokens1[i]).token_type == tokens2[i].token_type
        &&& tokens1[i].lexeme@ == tokens2[i].lexeme@
        &&& tokens1[i].literal == tokens2[i].literal
        &&& tokens1[i].line == tokens2[i].line
    } by {
        assert(token_matches(tokens1[i], scan_from(s, pos, line).tokens[i]));
        assert(token_matches(tokens2[i], scan_from(s, pos, line).tokens[i]));
    }
    assert forall|i: int| 0 <= i < errors1.len() implies {
        &&& (#[trigger] errors1[i]).line == errors2[i].line
        &&& errors1[i].message@ == errors2[i].message@
    } by {
        assert(error_matches(errors1[i], scan_from(s, pos, line).errors[i]));
        assert(error_matches(errors2[i], scan_from(s, pos, line).errors[i]));
    }
}

fn single_char_type(c: char) -> (r: Option<TokenType>)
    ensures
        r == single_char_kind(c),
{
    match c {
        '{' => Some(TokenType::LeftCurlyBracket),
        '}' => Some(TokenType::RightCurlyBracket),
        '[' => Some(TokenType::LeftSquareBracket),
        ']' => Some(TokenType::RightSquareBracket),
        '(' => Some(TokenType::LeftParenthesis),
        ')' => Some(TokenType::RightParenthesis),
        ':' => Some(TokenType::Colon),
        ';' => Some(TokenType::Semicolon),
        '.' => Some(TokenType::Dot),
        ',' => Some(TokenType::Coma),
        '?' => Some(TokenType::Question),
        '+' => Some(TokenType::Plus),
        '-' => Some(TokenType::Minus),
        '*' => Some(TokenType::Star),
        _ => None,
    }
}

fn operator_types(c: char) -> (r: Option<(TokenType, TokenType)>)
    ensures
        r == operator_kinds(c),
{
    match c {
        '=' => Some((TokenType::Equal, TokenType::DoubleEqual)),
        '<' => Some((TokenType::Less, TokenType::LessEqual)),
        '>' => Some((TokenType::Greater, TokenType::GreaterEqual)),
        _ => None,
    }
}

/// A scanner over one source text: the decoded characters, a cursor, the
/// start of the token being scanned and a line counter.
pub struct Lexer {
    source_code: Vec<char>,
    line: usize,
    start_position: usize,
    current_position: usize,
    /// Set once an unexpected character has been met.
    pub has_error: bool,
}

impl Lexer {
    /// The characters of the source text.
    pub closed spec fn text(&self) -> Seq<char> {
        self.source_code@
    }

    /// The cursor, as an offset in characters.
    pub closed spec fn position(&self) -> nat {
        self.current_position as nat
    }

    /// The line counter.
    pub closed spec fn line_number(&self) -> nat {
        self.line as nat
    }

    /// Whether an unexpected character has been met.
    pub closed spec fn error_seen(&self) -> bool {
        self.has_error
    }

    pub closed spec fn wf(&self) -> bool {
        &&& self.source_code@.len() < usize::MAX
        &&& self.start_position <= self.current_position <= self.source_code@.len()
        &&& 1 <= self.line <= self.current_position + 1
    }

    /// A scanner at the start of `source_code`, on line 1, with no error seen.
    pub fn new(source_code: String) -> (r: Self)
        requires
            source_code@.len() < usize::MAX,
        ensures
            r.wf(),
            r.text() == source_code@,
            r.position() == 0,
            r.line_number() == 1,
            !r.error_seen(),
    {
        broadcast use vstd::string::axiom_spec_iter, vstd::string::next_postcondition;

        let text = source_code.as_str();
        let mut chars = text.chars();
        let mut decoded: Vec<char> = Vec::new();
        loop
            invariant
                decoded@ + chars.remaining() == text@,
                chars.obeys_prophetic_iter_laws(),
                chars.decrease() is Some,
            ensures
                decoded@ == text@,
            decreases chars.decrease()->0,
        {
            match chars.next() {
                Some(c) => {
                    decoded.push(c);
                },
                None => {
                    assert(decoded@ =~= text@);
                    break;
                },
            }
        }
        Lexer {
            source_code: decoded,
            start_position: 0,
            current_position: 0,
            line: 1,
            has_error: false,
        }
    }

    fn is_at_end(&self) -> (r: bool)
        ensures
            r == (self.current_position >= self.source_code@.len()),
    {
        self.current_position >= self.source_code.len()
    }

    /// The character after the cursor, if there is one.
    fn get_next_char(&self) -> (r: Option<char>)
        requires
            self.wf(),
        ensures
            self.current_position + 1 < self.source_code@.len() ==> r == Some(
                self.source_code@[self.current_position + 1],
            ),
            self.current_position + 1 >= self.source_code@.len() ==> r is None,
    {
        if self.current_position + 1 < self.source_code.len() {
            Some(self.source_code[self.current_position + 1])
        } else {
            None
        }
    }

    /// The character at the cursor, if there is one.
    fn get_current_char(&self) -> (r: Option<char>)
        ensures
            self.current_position < self.source_code@.len() ==> r == Some(
                self.source_code@[self.current_position as int],
            ),
            self.current_position >= self.source_code@.len() ==> r is None,
    {
        if self.current_position < self.source_code.len() {
            Some(self.source_code[self.current_position])
        } else {
            None
        }
    }

    fn advance(&mut self)
        requires
            old(self).wf(),
            old(self).current_position < old(self).source_code@.len(),
        ensures
            final(self).wf(),
            final(self).current_position == old(self).current_position + 1,
            final(self).source_code == old(self).source_code,
            final(self).line == old(self).line,
            final(self).start_position == old(self).start_position,
            final(self).has_error == old(self).has_error,
    {
        self.current_position += 1;
    }

    /// One dispatch on the character at the cursor: emits at most one token
    /// or one error and moves the cursor, as the model's `step` does.
    fn scan_token(&mut self, errors: &mut Vec<CompilationError>, tokens: &mut Vec<Token>)
        requires
            old(self).wf(),
            old(self).current_position < old(self).source_code@.len(),
        ensures
            final(self).wf(),
            final(self).source_code@ == old(self).source_code@,
            final(self).start_position == old(self).start_position,
            final(self).current_position > old(self).current_position,
            ({
                let st = step(
                    old(self).source_code@,
                    old(self).current_position as nat,
                    old(self).line as nat,
                );
                &&& final(self).current_position == st.next
                &&& final(self).line == st.line
                &&& final(self).has_error == (old(self).has_error || st.error is Some)
                &&& final(tokens)@.len() == old(tokens)@.len() + seq_of(st.token).len()
                &&& final(tokens)@.subrange(0, old(tokens)@.len() as int) == old(tokens)@
                &&& st.token is Some ==> token_matches(final(tokens)@.last(), st.token->0)
                &&& final(errors)@.len() == old(errors)@.len() + seq_of(st.error).len()
                &&& final(errors)@.subrange(0, old(errors)@.len() as int) == old(errors)@
                &&& st.error is Some ==> error_matches(final(errors)@.last(), st.error->0)
            }),
    {
        let ghost s = self.source_code@;
        let ghost pos = self.current_position as nat;
        let current_char = self.get_current_char().unwrap();
        if let Some(kind) = single_char_type(current_char) {
            tokens.push(
                Token {
                    token_type: kind,
                    lexeme: char_to_string(current_char),
                    literal: None,
                    line: self.line,
                },
            );
            self.advance();
        } else if let Some((alone, with_equal)) = operator_types(current_char) {
            match self.get_next_char() {
                None => {},
                Some(next_char) => {
                    if next_char == '=' {
                        let mut lexeme = char_to_string(current_char);
                        let second = char_to_string(next_char);
                        lexeme.append(second.as_str());
                        proof {
                            assert(lexeme@ =~= seq![current_char, '=']);
                        }
                        tokens.push(
                            Token { token_type: with_equal, lexeme, literal: None, line: self.line },
                        );
                    } else {
                        tokens.push(
                            Token {
                                token_type: alone,
                                lexeme: char_to_string(current_char),
                                literal: None,
                                line: self.line,
                            },
                        );
                    }
                },
            }
            self.advance();
        } else if current_char == '/' {
            let next_char = self.get_next_char();
            if next_char == Some('/') {
                // a line comment: skip up to the newline, which is left in place
                self.advance();
                self.advance();
                loop
                    invariant
                        self.wf(),
                        self.source_code@ == s,
                        self.line == old(self).line,
                        self.has_error == old(self).has_error,
                        self.start_position == old(self).start_position,
                        pos + 2 <= self.current_position,
                        line_end(s, self.current_position as nat) == line_end(s, pos + 2),
                    ensures
                        self.current_position == line_end(s, pos + 2),
                    decreases s.len() - self.current_position,
                {
                    match self.get_current_char() {
                        None => {
                            break;
                        },
                        Some(comment_char) => {
                            if comment_char == '\n' {
                                break;
                            }
                            self.advance();
                        },
                    }
                }
            } else {
                tokens.push(
                    Token {
                        token_type: TokenType::Slash,
                        lexeme: char_to_string(current_char),
                        literal: None,
                        line: self.line,
                    },
                );
                self.advance();
            }
        } else if current_char == '\n' {
            self.advance();
            self.line = self.line + 1;
        } else if current_char == ' ' || current_char == '\r' || current_char == '\t' {
            self.advance();
        } else {
            errors.push(
                CompilationError {
                    line: self.line,
                    message: unexpected_char_message(current_char, self.line),
                },
            );
            self.has_error = true;
            self.advance();
        }
        proof {
            assert(tokens@.subrange(0, old(tokens)@.len() as int) =~= old(tokens)@);
            assert(errors@.subrange(0, old(errors)@.len() as int) =~= old(errors)@);
        }
    }

    /// Scans the rest of the text and appends the end-of-input token. The
    /// tokens and errors are those of the model from the cursor and line
    /// counter at the call; the first component is always `Some`.
    pub fn scan_tokens(&mut self) -> (r: (Option<Vec<CompilationError>>, Vec<Token>))
        requires
            old(self).wf(),
        ensures
            final(self).wf(),
            final(self).text() == old(self).text(),
            final(self).position() == old(self).text().len(),
            r.0 is Some,
            ({
                let sc = scan_from(old(self).text(), old(self).position(), old(self).line_number());
                &&& tokens_match(r.1@, sc.tokens)
                &&& errors_match(r.0->0@, sc.errors)
                &&& final(self).error_seen() == (old(self).error_seen() || sc.errors.len() > 0)
            }),
    {
        let ghost s = self.source_code@;
        let ghost total = scan_from(s, self.current_position as nat, self.line as nat);
        let ghost mut done_tokens: Seq<ScannedToken> = Seq::empty();
        let ghost mut done_errors: Seq<ScanError> = Seq::empty();
        let mut tokens: Vec<Token> = Vec::new();
        let mut errors: Vec<CompilationError> = Vec::new();

        while !self.is_at_end()
            invariant
                self.wf(),
                self.source_code@ == s,
                total.tokens == done_tokens + scan_from(
                    s,
                    self.current_position as nat,
                    self.line as nat,
                ).tokens,
                total.errors == done_errors + scan_from(
                    s,
                    self.current_position as nat,
                    self.line as nat,
                ).errors,
                tokens_match(tokens@, done_tokens),
                errors_match(errors@, done_errors),
                self.has_error == (old(self).has_error || done_errors.len() > 0),
            decreases s.len() - self.current_position,
        {
            self.start_position = self.current_position;
            let ghost st = step(s, self.current_position as nat, self.line as nat);
            let ghost rest = scan_from(s, st.next, st.line);
            let ghost before_tokens = tokens@;
            let ghost before_errors = errors@;
            self.scan_token(&mut errors, &mut tokens);
            proof {
                assert(done_tokens + (seq_of(st.token) + rest.tokens) =~= (done_tokens + seq_of(
                    st.token,
                )) + rest.tokens);
                assert(done_errors + (seq_of(st.error) + rest.errors) =~= (done_errors + seq_of(
                    st.error,
                )) + rest.errors);
                done_tokens = done_tokens + seq_of(st.token);
                done_errors = done_errors + seq_of(st.error);
                assert forall|i: int| 0 <= i < tokens@.len() implies token_matches(
                    #[trigger] tokens@[i],
                    done_tokens[i],
                ) by {
                    if i < before_tokens.len() {
                        assert(tokens@[i] == tokens@.subrange(0, before_tokens.len() as int)[i]);
                    }
                }
                assert forall|i: int| 0 <= i < errors@.len() implies error_matches(
                    #[trigger] errors@[i],
                    done_errors[i],
                ) by {
                    if i < before_errors.len() {
                        assert(errors@[i] == errors@.subrange(0, before_errors.len() as int)[i]);
                    }
                }
            }
        }
        let ghost before_push = tokens@;
        tokens.push(
            Token {
                token_type: TokenType::Eof,
                lexeme: String::new(),
                literal: None,
                line: self.line,
            },
        );
        proof {
            assert forall|i: int| 0 <= i < tokens@.len() implies token_matches(
                #[trigger] tokens@[i],
                total.tokens[i],
            ) by {
                if i < before_push.len() {
                    assert(tokens@[i] == before_push[i]);
                }
            }
        }
        (Some(errors), tokens)
    }
}

} // verus!
