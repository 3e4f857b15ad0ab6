use lexer::error::{decimal_string, unexpected_char_message, CompilationError};
use lexer::lexer::Lexer;
use lexer::token::{Token, TokenType};

fn run(source: &str) -> (Vec<Token>, Vec<CompilationError>, bool) {
    let mut lexer = Lexer::new(String::from(source));
    let (errors, tokens) = lexer.scan_tokens();
    (tokens, errors.expect("errors are always returned"), lexer.has_error)
}

fn kinds(tokens: &[Token]) -> Vec<TokenType> {
    tokens.iter().map(|t| t.token_type).collect()
}

fn lexemes(tokens: &[Token]) -> Vec<&str> {
    tokens.iter().map(|t| t.lexeme.as_str()).collect()
}

fn lines(tokens: &[Token]) -> Vec<usize> {
    tokens.iter().map(|t| t.line).collect()
}

#[test]
fn empty_input_gives_only_eof() {
    let (tokens, errors, had_error) = run("");
    assert_eq!(kinds(&tokens), vec![TokenType::Eof]);
    assert_eq!(tokens[0].lexeme, "");
    assert_eq!(tokens[0].line, 1);
    assert!(tokens[0].literal.is_none());
    assert!(errors.is_empty());
    assert!(!had_error);
}

#[test]
fn every_scan_ends_with_eof() {
    for source in ["", "{", "@", "<", "// only a comment", "a\nb\n", "<=<=", "+-*/"] {
        let (tokens, _, _) = run(source);
        let last = tokens.last().expect("never empty");
        assert_eq!(last.token_type, TokenType::Eof);
        assert_eq!(last.lexeme, "");
        let eofs = tokens.iter().filter(|t| t.token_type == TokenType::Eof).count();
        assert_eq!(eofs, 1);
    }
}

#[test]
fn whitespace_only_input() {
    let (tokens, errors, had_error) = run("   \n\t ");
    assert_eq!(kinds(&tokens), vec![TokenType::Eof]);
    assert_eq!(tokens[0].line, 2);
    assert!(errors.is_empty());
    assert!(!had_error);

    let (tokens, _, _) = run("\r\n\n \n");
    assert_eq!(kinds(&tokens), vec![TokenType::Eof]);
    assert_eq!(tokens[0].line, 4);
}

#[test]
fn line_comment_is_skipped() {
    let (tokens, errors, had_error) = run("// hello\n+");
    assert_eq!(kinds(&tokens), vec![TokenType::Plus, TokenType::Eof]);
    assert_eq!(lines(&tokens), vec![2, 2]);
    assert!(errors.is_empty());
    assert!(!had_error);
}

#[test]
fn comment_with_tokens_inside_emits_nothing() {
    let (tokens, errors, _) = run("{ // a+ ( @\n}");
    assert_eq!(kinds(&tokens), vec![TokenType::LeftCurlyBracket, TokenType::RightCurlyBracket, TokenType::Eof]);
    assert_eq!(lines(&tokens), vec![1, 2, 2]);
    assert!(errors.is_empty());
}

#[test]
fn comment_at_end_of_input() {
    let (tokens, errors, _) = run("+//");
    assert_eq!(kinds(&tokens), vec![TokenType::Plus, TokenType::Eof]);
    assert!(errors.is_empty());
    let (tokens, _, _) = run("//\n//x");
    assert_eq!(kinds(&tokens), vec![TokenType::Eof]);
    assert_eq!(tokens[0].line, 2);
}

#[test]
fn less_equal_and_lone_less() {
    let (tokens, errors, _) = run("<=");
    assert_eq!(kinds(&tokens), vec![TokenType::LessEqual, TokenType::Eof]);
    assert_eq!(tokens[0].lexeme, "<=");
    assert!(errors.is_empty());

    let (tokens, errors, _) = run("<");
    assert_eq!(kinds(&tokens), vec![TokenType::Eof]);
    assert!(errors.is_empty());
}

#[test]
fn double_equal() {
    let (tokens, errors, _) = run("==");
    assert_eq!(kinds(&tokens), vec![TokenType::DoubleEqual, TokenType::Eof]);
    assert_eq!(tokens[0].lexeme, "==");
    assert!(errors.is_empty());
}

#[test]
fn equal_then_unexpected_char() {
    let (tokens, errors, had_error) = run("= a");
    assert_eq!(kinds(&tokens), vec![TokenType::Equal, TokenType::Eof]);
    assert_eq!(tokens[0].lexeme, "=");
    assert_eq!(errors.len(), 1);
    assert_eq!(errors[0].line, 1);
    assert_eq!(errors[0].message, "Unexpected char: 'a' at line 1");
    assert!(had_error);
}

#[test]
fn scanning_goes_on_after_unexpected_char() {
    let (tokens, errors, had_error) = run("@{");
    assert_eq!(kinds(&tokens), vec![TokenType::LeftCurlyBracket, TokenType::Eof]);
    assert_eq!(errors.len(), 1);
    assert_eq!(errors[0].message, "Unexpected char: '@' at line 1");
    assert!(had_error);
}

#[test]
fn scanning_twice_gives_the_same_result() {
    let source = "{ [ ( ) ] }\n<= >= == = < >\n// note\n@ + - * / ; : . , ?";
    let first = run(source);
    let second = run(source);
    assert_eq!(first.0, second.0);
    assert_eq!(first.1, second.1);
    assert_eq!(first.2, second.2);
}

#[test]
fn operator_sequences_reread_the_equal_sign() {
    let (tokens, errors, _) = run("<=<=");
    assert_eq!(
        kinds(&tokens),
        vec![TokenType::LessEqual, TokenType::Equal, TokenType::LessEqual, TokenType::Eof]
    );
    assert_eq!(lexemes(&tokens), vec!["<=", "=", "<=", ""]);
    assert!(errors.is_empty());

    let (tokens, _, _) = run(">==");
    assert_eq!(kinds(&tokens), vec![TokenType::GreaterEqual, TokenType::DoubleEqual, TokenType::Eof]);

    let (tokens, _, _) = run("> <");
    assert_eq!(kinds(&tokens), vec![TokenType::Greater, TokenType::Eof]);
}

#[test]
fn all_single_character_tokens() {
    let (tokens, errors, _) = run("{}[]():;.,?+-*/");
    assert_eq!(
        kinds(&tokens),
        vec![
            TokenType::LeftCurlyBracket,
            TokenType::RightCurlyBracket,
            TokenType::LeftSquareBracket,
            TokenType::RightSquareBracket,
            TokenType::LeftParenthesis,
            TokenType::RightParenthesis,
            TokenType::Colon,
            TokenType::Semicolon,
            TokenType::Dot,
            TokenType::Coma,
            TokenType::Question,
            TokenType::Plus,
            TokenType::Minus,
            TokenType::Star,
            TokenType::Slash,
            TokenType::Eof,
        ]
    );
    assert_eq!(
        lexemes(&tokens),
        vec!["{", "}", "[", "]", "(", ")", ":", ";", ".", ",", "?", "+", "-", "*", "/", ""]
    );
    assert!(errors.is_empty());
}

#[test]
fn token_lines_count_newlines_before_them() {
    let (tokens, _, _) = run("{\n\n}\r\n( )");
    assert_eq!(lines(&tokens), vec![1, 3, 4, 4, 4]);
}

#[test]
fn error_lines_and_multi_digit_numbers() {
    let source = format!("{}#", "\n".repeat(12));
    let (tokens, errors, had_error) = run(&source);
    assert_eq!(kinds(&tokens), vec![TokenType::Eof]);
    assert_eq!(tokens[0].line, 13);
    assert_eq!(errors.len(), 1);
    assert_eq!(errors[0].line, 13);
    assert_eq!(errors[0].message, "Unexpected char: '#' at line 13");
    assert!(had_error);
}

#[test]
fn non_ascii_character_is_an_error() {
    let (tokens, errors, _) = run("é+");
    assert_eq!(kinds(&tokens), vec![TokenType::Plus, TokenType::Eof]);
    assert_eq!(errors.len(), 1);
    assert_eq!(errors[0].message, "Unexpected char: 'é' at line 1");
}

#[test]
fn errors_keep_their_order() {
    let (_, errors, _) = run("a\nb c");
    let messages: Vec<&str> = errors.iter().map(|e| e.message.as_str()).collect();
    assert_eq!(
        messages,
        vec![
            "Unexpected char: 'a' at line 1",
            "Unexpected char: 'b' at line 2",
            "Unexpected char: 'c' at line 2",
        ]
    );
}

#[test]
fn second_scan_continues_from_the_end() {
    let mut lexer = Lexer::new(String::from("+\n-"));
    let (_, first) = lexer.scan_tokens();
    assert_eq!(first.len(), 3);
    let (errors, second) = lexer.scan_tokens();
    assert_eq!(kinds(&second), vec![TokenType::Eof]);
    assert_eq!(second[0].line, 2);
    assert_eq!(errors, Some(vec![]));
}

#[test]
fn decimal_notation() {
    assert_eq!(decimal_string(0), "0");
    assert_eq!(decimal_string(7), "7");
    assert_eq!(decimal_string(10), "10");
    assert_eq!(decimal_string(1234567890), "1234567890");
    assert_eq!(decimal_string(usize::MAX), usize::MAX.to_string());
}

#[test]
fn message_for_unexpected_char() {
    assert_eq!(unexpected_char_message('$', 42), "Unexpected char: '$' at line 42");
}
