use console_game::lexer::{Lexer, Token};
use console_game::parser::{Arg, Instruction, Parser, ParserError};

fn parse(s: &str) -> Result<Instruction, ParserError> {
    Parser::parse(Lexer::tokenize(s).unwrap())
}

fn access(name: &str, next: Option<Instruction>) -> Instruction {
    Instruction::Access(name.to_string(), next.map(Box::new))
}

fn call(name: &str, args: Vec<i64>) -> Instruction {
    Instruction::FunctionCall(name.to_string(), args.into_iter().map(Arg::Int).collect())
}

#[test]
fn bare_name_is_access() {
    assert_eq!(parse("coins"), Ok(access("coins", None)));
}

#[test]
fn call_with_one_argument() {
    assert_eq!(parse("add(5)"), Ok(call("add", vec![5])));
}

#[test]
fn call_with_three_arguments() {
    assert_eq!(parse("add(1,2,3)"), Ok(call("add", vec![1, 2, 3])));
}

#[test]
fn call_with_no_arguments() {
    assert_eq!(parse("f()"), Ok(call("f", vec![])));
}

#[test]
fn trailing_comma_before_close_is_accepted() {
    assert_eq!(parse("f(1,)"), Ok(call("f", vec![1])));
}

#[test]
fn dotted_chain() {
    assert_eq!(
        parse("a.b.c"),
        Ok(access("a", Some(access("b", Some(access("c", None))))))
    );
    assert_eq!(parse("a.f(2)"), Ok(access("a", Some(call("f", vec![2])))));
}

#[test]
fn unclosed_call_fails() {
    assert_eq!(parse("f("), Err(ParserError::Expected(Token::CloseParen, None)));
    assert_eq!(parse("f(1,"), Err(ParserError::Expected(Token::CloseParen, None)));
}

#[test]
fn empty_input_fails() {
    assert_eq!(parse(""), Err(ParserError::ExpectedToken));
    assert_eq!(parse("a."), Err(ParserError::ExpectedToken));
}

#[test]
fn missing_comma_fails() {
    assert_eq!(
        parse("f(1 2)"),
        Err(ParserError::Expected(Token::CloseParen, Some(Token::Int(2))))
    );
}

#[test]
fn non_integer_argument_fails() {
    assert_eq!(
        parse("f(x)"),
        Err(ParserError::UnexpectedToken(Some(Token::Keyword("x".to_string()))))
    );
}

#[test]
fn non_keyword_start_fails() {
    assert_eq!(
        parse("(a)"),
        Err(ParserError::UnexpectedToken(Some(Token::OpenParen)))
    );
    assert_eq!(parse("5"), Err(ParserError::UnexpectedToken(Some(Token::Int(5)))));
}

#[test]
fn unexpected_token_after_keyword_fails() {
    assert_eq!(
        parse("a b"),
        Err(ParserError::UnexpectedToken(Some(Token::Keyword("b".to_string()))))
    );
    assert_eq!(parse("a)"), Err(ParserError::UnexpectedToken(Some(Token::CloseParen))));
}

#[test]
fn tokens_after_instruction_are_ignored() {
    assert_eq!(parse("f(1) g"), Ok(call("f", vec![1])));
}

#[test]
fn parsing_is_repeatable() {
    for text in ["coins", "add(1,2,3)", "a.b.c", "f(", "", "x y"] {
        let first = Parser::parse(Lexer::tokenize(text).unwrap());
        let second = Parser::parse(Lexer::tokenize(text).unwrap());
        assert_eq!(first, second);
    }
    assert_eq!(Lexer::tokenize("$"), Lexer::tokenize("$"));
}

#[test]
fn parser_error_text() {
    assert_eq!(ParserError::ExpectedToken.text(), "Expected a token but found none");
    assert_eq!(ParserError::UnexpectedToken(None).text(), "Unexpected token none");
    assert_eq!(
        ParserError::UnexpectedToken(Some(Token::Int(-3))).text(),
        "Unexpected token '-3'"
    );
    assert_eq!(
        ParserError::Expected(Token::CloseParen, None).text(),
        "Expected ')' but got none"
    );
    assert_eq!(
        ParserError::Expected(Token::CloseParen, Some(Token::Coma)).text(),
        "Expected ')' but got ','"
    );
}
