use console_game::lexer::{Lexer, LexerError, Token};

fn kw(s: &str) -> Token {
    Token::Keyword(s.to_string())
}

#[test]
fn whitespace_only_gives_no_tokens() {
    assert_eq!(Lexer::tokenize("").unwrap(), vec![]);
    assert_eq!(Lexer::tokenize("   \t\n ").unwrap(), vec![]);
    assert_eq!(Lexer::tokenize("\u{3000}\u{a0}").unwrap(), vec![]);
}

#[test]
fn identifier_is_one_keyword() {
    assert_eq!(Lexer::tokenize("coins").unwrap(), vec![kw("coins")]);
    assert_eq!(Lexer::tokenize("a1_b2").unwrap(), vec![kw("a1_b2")]);
    assert_eq!(Lexer::tokenize("été").unwrap(), vec![kw("été")]);
    assert_eq!(Lexer::tokenize("  x ").unwrap(), vec![kw("x")]);
}

#[test]
fn integer_literals() {
    assert_eq!(Lexer::tokenize("-42").unwrap(), vec![Token::Int(-42)]);
    assert_eq!(Lexer::tokenize("42").unwrap(), vec![Token::Int(42)]);
    assert_eq!(Lexer::tokenize("0").unwrap(), vec![Token::Int(0)]);
    assert_eq!(
        Lexer::tokenize("9223372036854775807").unwrap(),
        vec![Token::Int(i64::MAX)]
    );
    assert_eq!(
        Lexer::tokenize("-9223372036854775808").unwrap(),
        vec![Token::Int(i64::MIN)]
    );
}

#[test]
fn overflowing_number_fails() {
    assert_eq!(
        Lexer::tokenize("9223372036854775808"),
        Err(LexerError::NumberParseError(0, "9223372036854775808".to_string()))
    );
    assert_eq!(
        Lexer::tokenize("f(-9223372036854775809)"),
        Err(LexerError::NumberParseError(2, "-9223372036854775809".to_string()))
    );
}

#[test]
fn underscores_in_number_fail_to_parse() {
    assert_eq!(
        Lexer::tokenize("1_000"),
        Err(LexerError::NumberParseError(0, "1_000".to_string()))
    );
}

#[test]
fn only_ascii_digits_continue_a_number() {
    assert_eq!(Lexer::tokenize("1\u{663}"), Err(LexerError::Unknown(1, '\u{663}')));
    assert_eq!(Lexer::tokenize("1\u{be}"), Err(LexerError::Unknown(1, '\u{be}')));
    assert_eq!(
        Lexer::tokenize("1\u{216b}").unwrap(),
        vec![Token::Int(1), kw("\u{216b}")]
    );
    assert_eq!(Lexer::tokenize("12_").unwrap_err(), LexerError::NumberParseError(0, "12_".to_string()));
}

#[test]
fn unknown_character_fails() {
    assert_eq!(Lexer::tokenize("$"), Err(LexerError::Unknown(0, '$')));
    assert_eq!(Lexer::tokenize("ab $"), Err(LexerError::Unknown(3, '$')));
}

#[test]
fn minus_without_digit_is_unknown() {
    assert_eq!(Lexer::tokenize("-x"), Err(LexerError::Unknown(0, '-')));
    assert_eq!(Lexer::tokenize("-"), Err(LexerError::Unknown(0, '-')));
}

#[test]
fn punctuation_tokens() {
    assert_eq!(
        Lexer::tokenize("a.b(1, -2)").unwrap(),
        vec![
            kw("a"),
            Token::Dot,
            kw("b"),
            Token::OpenParen,
            Token::Int(1),
            Token::Coma,
            Token::Int(-2),
            Token::CloseParen,
        ]
    );
}

#[test]
fn token_text() {
    assert_eq!(kw("coins").text(), "coins");
    assert_eq!(Token::Int(-42).text(), "-42");
    assert_eq!(Token::Int(i64::MIN).text(), "-9223372036854775808");
    assert_eq!(Token::Int(7).text(), "7");
    assert_eq!(Token::OpenParen.text(), "(");
    assert_eq!(Token::CloseParen.text(), ")");
    assert_eq!(Token::Dot.text(), ".");
    assert_eq!(Token::Coma.text(), ",");
}

#[test]
fn lexer_error_text() {
    assert_eq!(LexerError::Unknown(0, '$').text(), "Unexpected char '$' at 0");
    assert_eq!(
        LexerError::NumberParseError(12, "1_0".to_string()).text(),
        "Number '1_0' failed to parse at 12"
    );
}
