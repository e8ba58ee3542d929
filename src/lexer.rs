use vstd::prelude::*;

use crate::text::{chars_of, push_char};

verus! {

/// One lexical unit of a command line.
#[derive(Debug, PartialEq, Eq)]
pub enum Token {
    Keyword(String),
    Int(i64),
    OpenParen,
    CloseParen,
    Dot,
    Coma,
}

/// The mathematical value of a `Token`.
pub enum TokenView {
    Keyword(Seq<char>),
    Int(i64),
    OpenParen,
    CloseParen,
    Dot,
    Coma,
}

impl View for Token {
    type V = TokenView;

    open spec fn view(&self) -> TokenView {
        match self {
            Token::Keyword(k) => TokenView::Keyword(k@),
            Token::Int(n) => TokenView::Int(*n),
            Token::OpenParen => TokenView::OpenParen,
            Token::CloseParen => TokenView::CloseParen,
            Token::Dot => TokenView::Dot,
            Token::Coma => TokenView::Coma,
        }
    }
}

impl Clone for Token {
    fn clone(&self) -> (r: Token)
        ensures
            r@ == self@,
    {
        match self {
            Token::Keyword(k) => Token::Keyword(k.clone()),
            Token::Int(n) => Token::Int(*n),
            Token::OpenParen => Token::OpenParen,
            Token::CloseParen => Token::CloseParen,
            Token::Dot => Token::Dot,
            Token::Coma => Token::Coma,
        }
    }
}

pub open spec fn tokens_view(ts: Seq<Token>) -> Seq<TokenView> {
    ts.map_values(|t: Token| t@)
}

/// Decimal digits of a non-negative integer, most significant first.
pub open spec fn nat_text(n: nat) -> Seq<char>
    decreases n,
{
    if n < 10 {
        seq![digit_char(n)]
    } else {
        nat_text(n / 10).push(digit_char(n % 10))
    }
}

pub open spec fn digit_char(d: nat) -> char {
    ((d + 48) as u8) as char
}

/// Decimal text of a signed integer, with a leading `-` when negative.
pub open spec fn int_text(n: int) -> Seq<char> {
    if n < 0 {
        seq!['-'] + nat_text((-n) as nat)
    } else {
        nat_text(n as nat)
    }
}

/// The source text that a token stands for.
pub open spec fn token_text(t: TokenView) -> Seq<char> {
    match t {
        TokenView::Keyword(k) => k,
        TokenView::Int(n) => int_text(n as int),
        TokenView::OpenParen => seq!['('],
        TokenView::CloseParen => seq![')'],
        TokenView::Dot => seq!['.'],
        TokenView::Coma => seq![','],
    }
}

impl Token {
    /// The source text of this token, as it would be written in a command.
    pub fn text(&self) -> (r: String)
        ensures
            r@ == token_text(self@),
    {
        match self {
            Token::Keyword(keyword) => keyword.clone(),
            Token::Int(value) => {
                let mut s = String::new();
                push_int(&mut s, *value);
                s
            },
            Token::OpenParen => {
                let mut s = String::new();
                push_char(&mut s, '(');
                s
            },
            Token::CloseParen => {
                let mut s = String::new();
                push_char(&mut s, ')');
                s
            },
            Token::Dot => {
                let mut s = String::new();
                push_char(&mut s, '.');
                s
            },
            Token::Coma => {
                let mut s = String::new();
                push_char(&mut s, ',');
                s
            },
        }
    }
}

/// Appends the decimal digits of `n` to `s`.
pub fn push_nat(s: &mut String, n: u64)
    ensures
        final(s)@ == old(s)@ + nat_text(n as nat),
    decreases n,
{
    if n < 10 {
        push_char(s, ((n as u8) + 48) as char);
        assert(final(s)@ =~= old(s)@ + nat_text(n as nat));
    } else {
        push_nat(s, n / 10);
        let d = (n % 10) as u8;
        push_char(s, (d + 48) as char);
        assert(final(s)@ =~= old(s)@ + nat_text(n as nat));
    }
}

/// Appends the decimal text of `n` to `s`.
pub fn push_int(s: &mut String, n: i64)
    ensures
        final(s)@ == old(s)@ + int_text(n as int),
{
    if n < 0 {
        push_char(s, '-');
        let m: u64 = if n == i64::MIN {
            9223372036854775808u64
        } else {
            (-n) as u64
        };
        push_nat(s, m);
        assert(final(s)@ =~= old(s)@ + int_text(n as int));
    } else {
        push_nat(s, n as u64);
    }
}

/// Why a command line could not be split into tokens. Positions count characters from 0.
#[derive(Debug, PartialEq, Eq)]
pub enum LexerError {
    Unknown(usize, char),
    NumberParseError(usize, String),
}

pub enum LexerErrorView {
    Unknown(int, char),
    NumberParseError(int, Seq<char>),
}

impl View for LexerError {
    type V = LexerErrorView;

    open spec fn view(&self) -> LexerErrorView {
        match self {
            LexerError::Unknown(i, c) => LexerErrorView::Unknown(*i as int, *c),
            LexerError::NumberParseError(i, s) => LexerErrorView::NumberParseError(*i as int, s@),
        }
    }
}

pub open spec fn lexer_error_text(e: LexerErrorView) -> Seq<char> {
    match e {
        LexerErrorView::Unknown(i, c) => "Unexpected char '"@ + seq![c] + "' at "@ + nat_text(
            i as nat,
        ),
        LexerErrorView::NumberParseError(i, s) => "Number '"@ + s + "' failed to parse at "@
            + nat_text(i as nat),
    }
}

impl LexerError {
    /// The message shown to the user for this error.
    pub fn text(&self) -> (r: String)
        ensures
            r@ == lexer_error_text(self@),
    {
        let mut s = String::new();
        match self {
            LexerError::Unknown(idx, c) => {
                s.append("Unexpected char '");
                push_char(&mut s, *c);
                s.append("' at ");
                push_nat(&mut s, *idx as u64);
                assert(s@ =~= lexer_error_text(self@));
            },
            LexerError::NumberParseError(idx, number) => {
                s.append("Number '");
                s.append(number.as_str());
                s.append("' failed to parse at ");
                push_nat(&mut s, *idx as u64);
                assert(s@ =~= lexer_error_text(self@));
            },
        }
        s
    }
}

/// The characters that `char::is_whitespace` accepts: those with Unicode's `White_Space`
/// property.
pub open spec fn whitespace_char(c: char) -> bool {
    let u = c as u32;
    ||| 0x09 <= u <= 0x0d
    ||| u == 0x20
    ||| u == 0x85
    ||| u == 0xa0
    ||| u == 0x1680
    ||| 0x2000 <= u <= 0x200a
    ||| u == 0x2028
    ||| u == 0x2029
    ||| u == 0x202f
    ||| u == 0x205f
    ||| u == 0x3000
}

/// Whether `c` is a whitespace character.
fn is_whitespace(c: char) -> (r: bool)
    ensures
        r == whitespace_char(c),
{
    let u = c as u32;
    (0x09 <= u && u <= 0x0d) || u == 0x20 || u == 0x85 || u == 0xa0 || u == 0x1680 || (0x2000
        <= u && u <= 0x200a) || u == 0x2028 || u == 0x2029 || u == 0x202f || u == 0x205f || u
        == 0x3000
}

/// What `char::is_alphabetic` answers for a character outside ASCII that is not whitespace.
pub uninterp spec fn unicode_alphabetic(c: char) -> bool;

/// What `char::is_numeric` answers for a character outside ASCII.
pub uninterp spec fn unicode_numeric(c: char) -> bool;

pub open spec fn is_ascii_letter(c: char) -> bool {
    ('a' <= c && c <= 'z') || ('A' <= c && c <= 'Z')
}

pub open spec fn is_ascii(c: char) -> bool {
    (c as u32) < 128
}

/// Whether `c` has Unicode's `Alphabetic` property: within ASCII the letters alone, and no
/// whitespace character.
pub open spec fn alphabetic_char(c: char) -> bool {
    if is_ascii(c) {
        is_ascii_letter(c)
    } else {
        !whitespace_char(c) && unicode_alphabetic(c)
    }
}

/// Whether `c` is numeric in Unicode's sense: within ASCII the digits alone.
pub open spec fn numeric_char(c: char) -> bool {
    if is_ascii(c) {
        is_digit(c)
    } else {
        unicode_numeric(c)
    }
}

/// Relies on `char::is_alphabetic`: the Unicode `Alphabetic` property, which within ASCII
/// holds of the letters alone and holds of no `White_Space` character.
#[verifier::external_body]
fn is_alphabetic(c: char) -> (r: bool)
    ensures
        r == alphabetic_char(c),
        !is_ascii(c) && !whitespace_char(c) ==> r == unicode_alphabetic(c),
{
    c.is_alphabetic()
}

/// Relies on `char::is_alphanumeric`, documented as `is_alphabetic() || is_numeric()`;
/// `is_numeric` holds, within ASCII, of the digits alone.
#[verifier::external_body]
fn is_alphanumeric(c: char) -> (r: bool)
    ensures
        r == (alphabetic_char(c) || numeric_char(c)),
        !is_ascii(c) ==> r == ((!whitespace_char(c) && unicode_alphabetic(c)) || unicode_numeric(
            c,
        )),
{
    c.is_alphanumeric()
}

pub open spec fn is_digit(c: char) -> bool {
    '0' <= c && c <= '9'
}

/// A character that continues a keyword.
pub open spec fn word_char(c: char) -> bool {
    alphabetic_char(c) || numeric_char(c) || c == '_'
}

/// A character that continues a number.
pub open spec fn number_char(c: char) -> bool {
    is_digit(c) || c == '_'
}

/// Where a number starts: a digit, or a minus sign directly followed by a digit.
pub open spec fn starts_number(s: Seq<char>, i: int) -> bool {
    is_digit(s[i]) || (s[i] == '-' && i + 1 < s.len() && is_digit(s[i + 1]))
}

/// The first index at or after `i` whose character does not satisfy `p`, or the length.
pub open spec fn run_end(s: Seq<char>, i: int, p: spec_fn(char) -> bool) -> int
    decreases s.len() - i,
{
    if 0 <= i < s.len() && p(s[i]) {
        run_end(s, i + 1, p)
    } else {
        i
    }
}

pub open spec fn all_digits(t: Seq<char>) -> bool {
    forall|k: int| 0 <= k < t.len() ==> is_digit(#[trigger] t[k])
}

pub open spec fn digit_value(c: char) -> int {
    (c as u32) - 48
}

/// The value of a run of decimal digits.
pub open spec fn decimal_value(t: Seq<char>) -> int
    decreases t.len(),
{
    if t.len() == 0 {
        0
    } else {
        decimal_value(t.drop_last()) * 10 + digit_value(t.last())
    }
}

/// The 64-bit signed integer that `t` spells (an optional `-`, then decimal digits), if any.
pub open spec fn int_of_text(t: Seq<char>) -> Option<i64> {
    if t.len() > 0 && t[0] == '-' {
        let d = t.drop_first();
        if d.len() > 0 && all_digits(d) && decimal_value(d) <= 0x8000_0000_0000_0000 {
            Some((-decimal_value(d)) as i64)
        } else {
            None
        }
    } else if t.len() > 0 && all_digits(t) && decimal_value(t) <= 0x7fff_ffff_ffff_ffff {
        Some(decimal_value(t) as i64)
    } else {
        None
    }
}

/// Puts `t` in front of a successful result.
pub open spec fn prepend(
    t: TokenView,
    r: Result<Seq<TokenView>, LexerErrorView>,
) -> Result<Seq<TokenView>, LexerErrorView> {
    match r {
        Ok(ts) => Ok(seq![t] + ts),
        Err(e) => Err(e),
    }
}

/// The end of the keyword characters that start at `i`.
pub open spec fn word_end(s: Seq<char>, i: int) -> int {
    run_end(s, i, |x: char| word_char(x))
}

/// The end of the number characters that start at `i`.
pub open spec fn number_end(s: Seq<char>, i: int) -> int {
    run_end(s, i, |x: char| number_char(x))
}

/// The tokens of `s` from index `i` on, or the first error met from there.
pub open spec fn lex_from(s: Seq<char>, i: int) -> Result<Seq<TokenView>, LexerErrorView>
    decreases s.len() - i,
    via lex_from_decreases
{
    if i < 0 || i >= s.len() {
        Ok(seq![])
    } else {
        let c = s[i];
        if whitespace_char(c) {
            lex_from(s, i + 1)
        } else if alphabetic_char(c) {
            let j = word_end(s, i + 1);
            prepend(TokenView::Keyword(s.subrange(i, j)), lex_from(s, j))
        } else if starts_number(s, i) {
            let j = number_end(s, i + 1);
            match int_of_text(s.subrange(i, j)) {
                Some(n) => prepend(TokenView::Int(n), lex_from(s, j)),
                None => Err(LexerErrorView::NumberParseError(i, s.subrange(i, j))),
            }
        } else if c == '(' {
            prepend(TokenView::OpenParen, lex_from(s, i + 1))
        } else if c == ')' {
            prepend(TokenView::CloseParen, lex_from(s, i + 1))
        } else if c == '.' {
            prepend(TokenView::Dot, lex_from(s, i + 1))
        } else if c == ',' {
            prepend(TokenView::Coma, lex_from(s, i + 1))
        } else {
            Err(LexerErrorView::Unknown(i, c))
        }
    }
}

proof fn lemma_run_end_bounds(s: Seq<char>, i: int, p: spec_fn(char) -> bool)
    requires
        0 <= i <= s.len(),
    ensures
        i <= run_end(s, i, p) <= s.len(),
    decreases s.len() - i,
{
    if i < s.len() && p(s[i]) {
        lemma_run_end_bounds(s, i + 1, p);
    }
}

proof fn lemma_word_end_bounds(s: Seq<char>, i: int)
    requires
        0 <= i <= s.len(),
    ensures
        i <= word_end(s, i) <= s.len(),
{
    lemma_run_end_bounds(s, i, |x: char| word_char(x));
}

proof fn lemma_number_end_bounds(s: Seq<char>, i: int)
    requires
        0 <= i <= s.len(),
    ensures
        i <= number_end(s, i) <= s.len(),
{
    lemma_run_end_bounds(s, i, |x: char| number_char(x));
}

#[via_fn]
proof fn lex_from_decreases(s: Seq<char>, i: int) {
    if 0 <= i < s.len() {
        lemma_word_end_bounds(s, i + 1);
        lemma_number_end_bounds(s, i + 1);
    }
}

/// The tokens of a whole command line, or the first error in it.
pub open spec fn lex(s: Seq<char>) -> Result<Seq<TokenView>, LexerErrorView> {
    lex_from(s, 0)
}

pub open spec fn lexed(r: Result<Vec<Token>, LexerError>) -> Result<Seq<TokenView>, LexerErrorView> {
    match r {
        Ok(ts) => Ok(tokens_view(ts@)),
        Err(e) => Err(e@),
    }
}

/// Adds `ts` in front of a successful result.
pub open spec fn prepend_all(
    ts: Seq<TokenView>,
    r: Result<Seq<TokenView>, LexerErrorView>,
) -> Result<Seq<TokenView>, LexerErrorView> {
    match r {
        Ok(rest) => Ok(ts + rest),
        Err(e) => Err(e),
    }
}

proof fn lemma_decimal_step(d: Seq<char>, k: int)
    requires
        0 <= k < d.len(),
    ensures
        decimal_value(d.subrange(0, k + 1)) == decimal_value(d.subrange(0, k)) * 10 + digit_value(
            d[k],
        ),
{
    assert(d.subrange(0, k + 1).drop_last() =~= d.subrange(0, k));
}

proof fn lemma_value_prefix(t: Seq<char>, k: int)
    requires
        all_digits(t),
        0 <= k <= t.len(),
    ensures
        0 <= decimal_value(t.subrange(0, k)) <= decimal_value(t),
    decreases t.len(),
{
    assert(t.subrange(0, t.len() as int) =~= t);
    if t.len() > 0 {
        let u = t.drop_last();
        assert(all_digits(u)) by {
            assert forall|j: int| 0 <= j < u.len() implies is_digit(#[trigger] u[j]) by {
                assert(u[j] == t[j]);
            }
        }
        assert(is_digit(t[t.len() - 1]));
        lemma_value_prefix(u, u.len() as int);
        if k < t.len() {
            lemma_value_prefix(u, k);
            assert(u.subrange(0, k) =~= t.subrange(0, k));
        }
    }
}

/// Reads the integer spelled by `t[start..end]`.
fn parse_int(t: &Vec<char>, start: usize, end: usize) -> (r: Option<i64>)
    requires
        start <= end <= t.len(),
    ensures
        r == int_of_text(t@.subrange(start as int, end as int)),
{
    let ghost w = t@.subrange(start as int, end as int);
    if start == end {
        return None;
    }
    let neg = t[start] == '-';
    let first: usize = if neg {
        start + 1
    } else {
        start
    };
    let ghost d = t@.subrange(first as int, end as int);
    assert(neg ==> d =~= w.drop_first());
    assert(!neg ==> d =~= w);
    if first == end {
        return None;
    }
    let limit: u64 = if neg {
        0x8000_0000_0000_0000
    } else {
        0x7fff_ffff_ffff_ffff
    };
    let mut acc: u64 = 0;
    let mut i: usize = first;
    assert(d.subrange(0, 0) =~= Seq::<char>::empty());
    while i < end
        invariant
            start <= first <= i <= end <= t.len(),
            first < end,
            d == t@.subrange(first as int, end as int),
            w == t@.subrange(start as int, end as int),
            w.len() > 0,
            neg == (w[0] == '-'),
            neg ==> d == w.drop_first(),
            !neg ==> d == w,
            limit == (if neg {
                0x8000_0000_0000_0000u64
            } else {
                0x7fff_ffff_ffff_ffffu64
            }),
            all_digits(d.subrange(0, i - first)),
            acc as int == decimal_value(d.subrange(0, i - first)),
            acc <= limit,
            limit >= 9,
        decreases end - i,
    {
        let c = t[i];
        assert(d[i - first] == c);
        if !('0' <= c && c <= '9') {
            return None;
        }
        let v = ((c as u32) - 48) as u64;
        proof {
            lemma_decimal_step(d, i - first);
        }
        if acc > (limit - v) / 10 {
            proof {
                assert(acc * 10 + v > limit) by (nonlinear_arith)
                    requires
                        acc > (limit - v) / 10,
                        v <= 9,
                        limit >= 9,
                ;
                if all_digits(d) {
                    lemma_value_prefix(d, i - first + 1);
                }
            }
            return None;
        }
        assert(acc * 10 + v <= limit) by (nonlinear_arith)
            requires
                acc <= (limit - v) / 10,
                v <= 9,
                limit >= 9,
        ;
        acc = acc * 10 + v;
        i = i + 1;
        assert(all_digits(d.subrange(0, i - first))) by {
            assert forall|j: int| 0 <= j < i - first implies is_digit(
                #[trigger] d.subrange(0, i - first)[j],
            ) by {
                if j < i - first - 1 {
                    assert(d.subrange(0, i - first)[j] == d.subrange(0, i - first - 1)[j]);
                }
            }
        }
    }
    assert(d.subrange(0, (end - first) as int) =~= d);
    if neg {
        if acc == limit {
            Some(i64::MIN)
        } else {
            Some(-(acc as i64))
        }
    } else {
        Some(acc as i64)
    }
}

proof fn lemma_whitespace_from(s: Seq<char>, i: int)
    requires
        0 <= i <= s.len(),
        forall|k: int| 0 <= k < s.len() ==> whitespace_char(#[trigger] s[k]),
    ensures
        lex_from(s, i) == Ok::<Seq<TokenView>, LexerErrorView>(seq![]),
    decreases s.len() - i,
{
    if i < s.len() {
        lemma_whitespace_from(s, i + 1);
    }
}

/// Text made of whitespace alone has no tokens.
pub proof fn lemma_whitespace_only(s: Seq<char>)
    requires
        forall|k: int| 0 <= k < s.len() ==> whitespace_char(#[trigger] s[k]),
    ensures
        lex(s) == Ok::<Seq<TokenView>, LexerErrorView>(seq![]),
{
    lemma_whitespace_from(s, 0);
}

proof fn lemma_run_to_end(s: Seq<char>, i: int, p: spec_fn(char) -> bool)
    requires
        0 <= i <= s.len(),
        forall|k: int| i <= k < s.len() ==> p(#[trigger] s[k]),
    ensures
        run_end(s, i, p) == s.len(),
    decreases s.len() - i,
{
    if i < s.len() {
        lemma_run_to_end(s, i + 1, p);
    }
}

/// An identifier, a letter followed by letters, digits or underscores, is one keyword token.
pub proof fn lemma_identifier_is_keyword(k: Seq<char>)
    requires
        k.len() > 0,
        alphabetic_char(k[0]),
        forall|i: int| 1 <= i < k.len() ==> word_char(#[trigger] k[i]),
    ensures
        lex(k) == Ok::<Seq<TokenView>, LexerErrorView>(seq![TokenView::Keyword(k)]),
{
    lemma_run_to_end(k, 1, |x: char| word_char(x));
    assert(word_end(k, 1) == k.len());
    assert(k.subrange(0, k.len() as int) =~= k);
    assert(lex_from(k, k.len() as int) == Ok::<Seq<TokenView>, LexerErrorView>(seq![]));
    assert(seq![TokenView::Keyword(k)] + seq![] =~= seq![TokenView::Keyword(k)]);
}

/// Splits a command line into tokens, scanning left to right with one character of lookahead.
pub struct Lexer {
    source: Vec<char>,
    pointer: usize,
}

impl Lexer {
    /// The tokens of `source`, or the first error met in it.
    pub fn tokenize(source: &str) -> (r: Result<Vec<Token>, LexerError>)
        ensures
            lexed(r) == lex(source@),
    {
        let mut lexer = Lexer { source: chars_of(source), pointer: 0 };
        lexer.tokens()
    }

    spec fn at(&self, i: int) -> Option<char> {
        if 0 <= i < self.source.len() {
            Some(self.source@[i])
        } else {
            None
        }
    }

    fn peek(&self) -> (r: Option<char>)
        ensures
            r == self.at(self.pointer as int),
    {
        if self.pointer < self.source.len() {
            Some(self.source[self.pointer])
        } else {
            None
        }
    }

    fn consume(&mut self) -> (r: Option<char>)
        requires
            old(self).pointer <= old(self).source.len(),
        ensures
            r == old(self).at(old(self).pointer as int),
            final(self).source == old(self).source,
            final(self).pointer == (if r is Some {
                old(self).pointer + 1
            } else {
                old(self).pointer as int
            }),
    {
        let c = self.peek();
        if c.is_some() {
            self.pointer = self.pointer + 1;
        }
        c
    }

    fn tokens(&mut self) -> (r: Result<Vec<Token>, LexerError>)
        requires
            old(self).pointer <= old(self).source.len(),
        ensures
            lexed(r) == lex_from(old(self).source@, old(self).pointer as int),
    {
        let ghost s = self.source@;
        let ghost origin = self.pointer as int;
        let mut tokens: Vec<Token> = Vec::new();
        loop
            invariant
                self.source@ == s,
                s == old(self).source@,
                origin == old(self).pointer,
                self.pointer <= self.source.len(),
                lex_from(s, origin) == prepend_all(tokens_view(tokens@), lex_from(s, self.pointer as int)),
            decreases self.source.len() - self.pointer,
        {
            let ghost i = self.pointer as int;
            let c = match self.consume() {
                Some(c) => c,
                None => {
                    assert(tokens_view(tokens@) + seq![] =~= tokens_view(tokens@));
                    return Ok(tokens);
                },
            };
            let ghost before = tokens_view(tokens@);
            if is_whitespace(c) {
                continue;
            } else if is_alphabetic(c) {
                let mut buffer = String::new();
                push_char(&mut buffer, c);
                loop
                    invariant
                        self.source@ == s,
                        0 <= i < self.pointer <= self.source.len(),
                        buffer@ == s.subrange(i, self.pointer as int),
                        word_end(s, i + 1) == word_end(s, self.pointer as int),
                    ensures
                        self.source@ == s,
                        0 <= i < self.pointer <= self.source.len(),
                        buffer@ == s.subrange(i, self.pointer as int),
                        word_end(s, i + 1) == self.pointer,
                    decreases self.source.len() - self.pointer,
                {
                    let x = match self.peek() {
                        Some(x) => x,
                        None => break,
                    };
                    if !is_alphanumeric(x) && x != '_' {
                        break;
                    }
                    self.pointer = self.pointer + 1;
                    push_char(&mut buffer, x);
                    assert(buffer@ =~= s.subrange(i, self.pointer as int));
                }
                let token = Token::Keyword(buffer);
                tokens.push(token);
                assert(tokens_view(tokens@) =~= before.push(token@));
                assert(before + (seq![token@] + lex_from(s, self.pointer as int)->Ok_0)
                    =~= before.push(token@) + lex_from(s, self.pointer as int)->Ok_0);
            } else if ('0' <= c && c <= '9') || (c == '-' && match self.peek() {
                Some(x) => '0' <= x && x <= '9',
                None => false,
            }) {
                let start = self.pointer - 1;
                let mut buffer = String::new();
                push_char(&mut buffer, c);
                loop
                    invariant
                        self.source@ == s,
                        start == i,
                        0 <= i < self.pointer <= self.source.len(),
                        buffer@ == s.subrange(i, self.pointer as int),
                        number_end(s, i + 1) == number_end(s, self.pointer as int),
                    ensures
                        self.source@ == s,
                        0 <= i < self.pointer <= self.source.len(),
                        buffer@ == s.subrange(i, self.pointer as int),
                        number_end(s, i + 1) == self.pointer,
                    decreases self.source.len() - self.pointer,
                {
                    let x = match self.peek() {
                        Some(x) => x,
                        None => break,
                    };
                    if !('0' <= x && x <= '9') && x != '_' {
                        break;
                    }
                    self.pointer = self.pointer + 1;
                    push_char(&mut buffer, x);
                    assert(buffer@ =~= s.subrange(i, self.pointer as int));
                }
                let value = match parse_int(&self.source, start, self.pointer) {
                    Some(v) => v,
                    None => {
                        return Err(LexerError::NumberParseError(start, buffer));
                    },
                };
                let token = Token::Int(value);
                tokens.push(token);
                assert(tokens_view(tokens@) =~= before.push(token@));
                assert(before + (seq![token@] + lex_from(s, self.pointer as int)->Ok_0)
                    =~= before.push(token@) + lex_from(s, self.pointer as int)->Ok_0);
            } else {
                let token = if c == '(' {
                    Token::OpenParen
                } else if c == ')' {
                    Token::CloseParen
                } else if c == '.' {
                    Token::Dot
                } else if c == ',' {
                    Token::Coma
                } else {
                    return Err(LexerError::Unknown(self.pointer - 1, c));
                };
                tokens.push(token);
                assert(tokens_view(tokens@) =~= before.push(token@));
                assert(before + (seq![token@] + lex_from(s, self.pointer as int)->Ok_0)
                    =~= before.push(token@) + lex_from(s, self.pointer as int)->Ok_0);
            }
        }
    }
}

} // verus!
