use vstd::prelude::*;

use crate::lexer::{lex, token_text, tokens_view, Token, TokenView};
use crate::text::push_char;

verus! {

/// An argument of a function call.
#[derive(Debug, Clone, Copy, PartialEq, Eq)]
pub enum Arg {
    Int(i64),
}

/// A parsed command: a chain of dotted member accesses that ends in a bare name or a call.
#[derive(Debug, PartialEq, Eq)]
pub enum Instruction {
    Access(String, Option<Box<Instruction>>),
    FunctionCall(String, Vec<Arg>),
}

pub enum InstructionView {
    Access(Seq<char>, Option<Box<InstructionView>>),
    FunctionCall(Seq<char>, Seq<Arg>),
}

impl View for Instruction {
    type V = InstructionView;

    open spec fn view(&self) -> InstructionView
        decreases self,
    {
        match self {
            Instruction::Access(name, None) => InstructionView::Access(name@, None),
            Instruction::Access(name, Some(next)) => InstructionView::Access(
                name@,
                Some(Box::new((**next).view())),
            ),
            Instruction::FunctionCall(name, args) => InstructionView::FunctionCall(name@, args@),
        }
    }
}

/// Why a token sequence is not a command.
#[derive(Debug, PartialEq, Eq)]
pub enum ParserError {
    UnexpectedToken(Option<Token>),
    ExpectedToken,
    Expected(Token, Option<Token>),
}

pub enum ParserErrorView {
    UnexpectedToken(Option<TokenView>),
    ExpectedToken,
    Expected(TokenView, Option<TokenView>),
}

pub open spec fn token_opt_view(t: Option<Token>) -> Option<TokenView> {
    match t {
        Some(t) => Some(t@),
        None => None,
    }
}

impl View for ParserError {
    type V = ParserErrorView;

    open spec fn view(&self) -> ParserErrorView {
        match self {
            ParserError::UnexpectedToken(t) => ParserErrorView::UnexpectedToken(
                token_opt_view(*t),
            ),
            ParserError::ExpectedToken => ParserErrorView::ExpectedToken,
            ParserError::Expected(e, t) => ParserErrorView::Expected(e@, token_opt_view(*t)),
        }
    }
}

/// A token in quotes, or `none` where there is no token.
pub open spec fn quoted_or_none(t: Option<TokenView>) -> Seq<char> {
    match t {
        Some(t) => seq!['\''] + token_text(t) + seq!['\''],
        None => "none"@,
    }
}

pub open spec fn parser_error_text(e: ParserErrorView) -> Seq<char> {
    match e {
        ParserErrorView::ExpectedToken => "Expected a token but found none"@,
        ParserErrorView::UnexpectedToken(t) => "Unexpected token "@ + quoted_or_none(t),
        ParserErrorView::Expected(x, t) => "Expected '"@ + token_text(x) + "' but got "@
            + quoted_or_none(t),
    }
}

/// Appends a token in quotes, or `none`.
fn push_quoted_or_none(s: &mut String, t: &Option<Token>)
    ensures
        final(s)@ == old(s)@ + quoted_or_none(token_opt_view(*t)),
{
    match t {
        Some(t) => {
            push_char(s, '\'');
            s.append(t.text().as_str());
            push_char(s, '\'');
        },
        None => {
            s.append("none");
        },
    }
    assert(final(s)@ =~= old(s)@ + quoted_or_none(token_opt_view(*t)));
}

impl ParserError {
    /// The message shown to the user for this error.
    pub fn text(&self) -> (r: String)
        ensures
            r@ == parser_error_text(self@),
    {
        let mut s = String::new();
        match self {
            ParserError::ExpectedToken => {
                s.append("Expected a token but found none");
            },
            ParserError::UnexpectedToken(t) => {
                s.append("Unexpected token ");
                push_quoted_or_none(&mut s, t);
            },
            ParserError::Expected(expected, got) => {
                s.append("Expected '");
                s.append(expected.text().as_str());
                s.append("' but got ");
                push_quoted_or_none(&mut s, got);
            },
        }
        assert(s@ =~= parser_error_text(self@));
        s
    }
}

/// The token at `i`, if there is one.
pub open spec fn token_at(ts: Seq<TokenView>, i: int) -> Option<TokenView> {
    if 0 <= i < ts.len() {
        Some(ts[i])
    } else {
        None
    }
}

/// The arguments of a call from index `i` on, where `i` follows `(` or `,`, through the closing `)`.
pub open spec fn args_from(ts: Seq<TokenView>, i: int) -> Result<Seq<Arg>, ParserErrorView>
    decreases ts.len() - i,
{
    if i < 0 || i >= ts.len() {
        Err(ParserErrorView::Expected(TokenView::CloseParen, None))
    } else {
        match ts[i] {
            TokenView::CloseParen => Ok(seq![]),
            TokenView::Int(n) => {
                if token_at(ts, i + 1) == Some(TokenView::Coma) {
                    match args_from(ts, i + 2) {
                        Ok(rest) => Ok(seq![Arg::Int(n)] + rest),
                        Err(e) => Err(e),
                    }
                } else if token_at(ts, i + 1) == Some(TokenView::CloseParen) {
                    Ok(seq![Arg::Int(n)])
                } else {
                    Err(ParserErrorView::Expected(TokenView::CloseParen, token_at(ts, i + 1)))
                }
            },
            _ => Err(ParserErrorView::UnexpectedToken(Some(ts[i]))),
        }
    }
}

/// The instruction that starts at index `i`; tokens after a complete instruction are ignored.
pub open spec fn instruction_from(ts: Seq<TokenView>, i: int) -> Result<
    InstructionView,
    ParserErrorView,
>
    decreases ts.len() - i,
{
    if i < 0 || i >= ts.len() {
        Err(ParserErrorView::ExpectedToken)
    } else {
        match ts[i] {
            TokenView::Keyword(name) => match token_at(ts, i + 1) {
                None => Ok(InstructionView::Access(name, None)),
                Some(TokenView::OpenParen) => match args_from(ts, i + 2) {
                    Ok(args) => Ok(InstructionView::FunctionCall(name, args)),
                    Err(e) => Err(e),
                },
                Some(TokenView::Dot) => match instruction_from(ts, i + 2) {
                    Ok(next) => Ok(InstructionView::Access(name, Some(Box::new(next)))),
                    Err(e) => Err(e),
                },
                Some(t) => Err(ParserErrorView::UnexpectedToken(Some(t))),
            },
            t => Err(ParserErrorView::UnexpectedToken(Some(t))),
        }
    }
}

/// The instruction that a token sequence starts with.
pub open spec fn parse_tokens(ts: Seq<TokenView>) -> Result<InstructionView, ParserErrorView> {
    instruction_from(ts, 0)
}

pub open spec fn parsed(r: Result<Instruction, ParserError>) -> Result<
    InstructionView,
    ParserErrorView,
> {
    match r {
        Ok(i) => Ok(i@),
        Err(e) => Err(e@),
    }
}

/// Tokenizing and then parsing depend on the text alone: the same text always gives
/// the same tokens, or the same error, and the same instruction, or the same error.
pub proof fn lemma_command_repeatable(a: Seq<char>, b: Seq<char>)
    requires
        a == b,
    ensures
        lex(a) == lex(b),
        lex(a) is Ok ==> parse_tokens(lex(a)->Ok_0) == parse_tokens(lex(b)->Ok_0),
{
}

/// Builds an `Instruction` from tokens by recursive descent.
pub struct Parser {
    tokens: Vec<Token>,
    pointer: usize,
}

impl Parser {
    /// The instruction that `tokens` starts with, or why there is none.
    pub fn parse(tokens: Vec<Token>) -> (r: Result<Instruction, ParserError>)
        ensures
            parsed(r) == parse_tokens(tokens_view(tokens@)),
    {
        let mut parser = Parser { tokens, pointer: 0 };
        parser.parse_instruction()
    }

    spec fn view_tokens(&self) -> Seq<TokenView> {
        tokens_view(self.tokens@)
    }

    fn peek(&self) -> (r: Option<Token>)
        ensures
            token_opt_view(r) == token_at(self.view_tokens(), self.pointer as int),
    {
        if self.pointer < self.tokens.len() {
            Some(self.tokens[self.pointer].clone())
        } else {
            None
        }
    }

    fn consume(&mut self) -> (r: Option<Token>)
        requires
            old(self).pointer <= old(self).tokens.len(),
        ensures
            token_opt_view(r) == token_at(old(self).view_tokens(), old(self).pointer as int),
            final(self).tokens == old(self).tokens,
            final(self).pointer == (if r is Some {
                old(self).pointer + 1
            } else {
                old(self).pointer as int
            }),
    {
        let token = self.peek();
        if token.is_some() {
            self.pointer = self.pointer + 1;
        }
        token
    }

    fn parse_instruction(&mut self) -> (r: Result<Instruction, ParserError>)
        requires
            old(self).pointer <= old(self).tokens.len(),
        ensures
            parsed(r) == instruction_from(old(self).view_tokens(), old(self).pointer as int),
            final(self).tokens == old(self).tokens,
            final(self).pointer <= final(self).tokens.len(),
        decreases old(self).tokens.len() - old(self).pointer,
    {
        let token = match self.consume() {
            Some(t) => t,
            None => {
                return Err(ParserError::ExpectedToken);
            },
        };
        let keyword = match token {
            Token::Keyword(keyword) => keyword,
            other => {
                return Err(ParserError::UnexpectedToken(Some(other)));
            },
        };
        match self.peek() {
            Some(Token::OpenParen) => {
                self.pointer = self.pointer + 1;
                let args = self.parse_args();
                match args {
                    Ok(args) => Ok(Instruction::FunctionCall(keyword, args)),
                    Err(e) => Err(e),
                }
            },
            Some(Token::Dot) => {
                self.pointer = self.pointer + 1;
                let next = self.parse_instruction();
                match next {
                    Ok(next) => {
                        let r = Instruction::Access(keyword, Some(Box::new(next)));
                        assert(r@ == InstructionView::Access(keyword@, Some(Box::new(next@))));
                        Ok(r)
                    },
                    Err(e) => Err(e),
                }
            },
            None => Ok(Instruction::Access(keyword, None)),
            Some(other) => Err(ParserError::UnexpectedToken(Some(other))),
        }
    }

    /// Reads the arguments of a call, the pointer standing just after its `(`.
    fn parse_args(&mut self) -> (r: Result<Vec<Arg>, ParserError>)
        requires
            old(self).pointer <= old(self).tokens.len(),
        ensures
            match r {
                Ok(args) => args_from(old(self).view_tokens(), old(self).pointer as int) == Ok::<
                    Seq<Arg>,
                    ParserErrorView,
                >(args@),
                Err(e) => args_from(old(self).view_tokens(), old(self).pointer as int) == Err::<
                    Seq<Arg>,
                    ParserErrorView,
                >(e@),
            },
            final(self).tokens == old(self).tokens,
            final(self).pointer <= final(self).tokens.len(),
    {
        let ghost ts = self.view_tokens();
        let ghost origin = self.pointer as int;
        let mut args: Vec<Arg> = Vec::new();
        loop
            invariant
                ts == self.view_tokens(),
                ts == old(self).view_tokens(),
                self.tokens == old(self).tokens,
                origin == old(self).pointer,
                self.pointer <= self.tokens.len(),
                args_from(ts, origin) == (match args_from(ts, self.pointer as int) {
                    Ok(rest) => Ok(args@ + rest),
                    Err(e) => Err(e),
                }),
            decreases self.tokens.len() - self.pointer,
        {
            let token = match self.consume() {
                Some(t) => t,
                None => {
                    return Err(ParserError::Expected(Token::CloseParen, None));
                },
            };
            let value = match token {
                Token::CloseParen => {
                    assert(args@ + seq![] =~= args@);
                    return Ok(args);
                },
                Token::Int(value) => value,
                other => {
                    return Err(ParserError::UnexpectedToken(Some(other)));
                },
            };
            let ghost before = args@;
            args.push(Arg::Int(value));
            match self.peek() {
                Some(Token::Coma) => {
                    self.pointer = self.pointer + 1;
                    assert(before + (seq![Arg::Int(value)] + args_from(
                        ts,
                        self.pointer as int,
                    )->Ok_0) =~= args@ + args_from(ts, self.pointer as int)->Ok_0);
                },
                Some(Token::CloseParen) => {
                    self.pointer = self.pointer + 1;
                    assert(before + seq![Arg::Int(value)] =~= args@);
                    return Ok(args);
                },
                other => {
                    return Err(ParserError::Expected(Token::CloseParen, other));
                },
            }
        }
    }
}

} // verus!
