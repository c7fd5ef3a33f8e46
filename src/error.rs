use crate::lexer::{LexError, LexErrorKind, Token, TokenKind};
use crate::loc::{Annot, Loc};
use crate::parser::ParseError;
use vstd::prelude::*;
use vstd::string::StringExecFns;

verus! {

/// A failure while reading a line: in the lexer or in the parser.
#[derive(Debug, Clone, Copy, PartialEq, Eq, Hash, Structural)]
pub enum Error {
    Lexer(LexError),
    Parser(ParseError),
}

impl From<LexError> for Error {
    fn from(e: LexError) -> (r: Error)
        ensures
            r == Error::Lexer(e),
    {
        Error::Lexer(e)
    }
}

impl vstd::std_specs::convert::FromSpecImpl<LexError> for Error {
    open spec fn obeys_from_spec() -> bool {
        true
    }

    open spec fn from_spec(e: LexError) -> Error {
        Error::Lexer(e)
    }
}

impl From<ParseError> for Error {
    fn from(e: ParseError) -> (r: Error)
        ensures
            r == Error::Parser(e),
    {
        Error::Parser(e)
    }
}

impl vstd::std_specs::convert::FromSpecImpl<ParseError> for Error {
    open spec fn obeys_from_spec() -> bool {
        true
    }

    open spec fn from_spec(e: ParseError) -> Error {
        Error::Parser(e)
    }
}

/// A failure while evaluating a tree.
///
/// A value that leaves the `i64` range is refused as `Overflow` rather
/// than wrapped or saturated.
#[derive(Debug, Clone, Copy, PartialEq, Eq, Hash, Structural)]
pub enum InterpreterErrorKind {
    DivisionByZero,
    Overflow,
}

pub type InterpreterError = Annot<InterpreterErrorKind>;

pub open spec fn digit_char(d: nat) -> char {
    ((d + 48) as u8) as char
}

/// The decimal digits of `n`, without leading zeros.
pub open spec fn decimal(n: nat) -> Seq<char>
    decreases n,
{
    if n < 10 {
        seq![digit_char(n)]
    } else {
        decimal(n / 10).push(digit_char(n % 10))
    }
}

/// A range written `start-end`.
pub open spec fn loc_text(loc: Loc) -> Seq<char> {
    decimal(loc.0 as nat) + "-"@ + decimal(loc.1 as nat)
}

/// How a token is written in the input.
pub open spec fn token_text(k: TokenKind) -> Seq<char> {
    match k {
        TokenKind::Number(n) => decimal(n as nat),
        TokenKind::Plus => "+"@,
        TokenKind::Minus => "-"@,
        TokenKind::Asterisk => "*"@,
        TokenKind::Slash => "/"@,
        TokenKind::LParen => "("@,
        TokenKind::RParen => ")"@,
    }
}

pub open spec fn lex_error_text(e: LexError) -> Seq<char> {
    match e.value {
        LexErrorKind::InvalidChar(c) => loc_text(e.loc) + ": invalid char '"@ + seq![c] + "'"@,
        LexErrorKind::Eof => "End of file"@,
        LexErrorKind::NumberTooLarge => loc_text(e.loc) + ": number too large"@,
    }
}

pub open spec fn parse_error_text(e: ParseError) -> Seq<char> {
    match e {
        ParseError::UnexpectedToken(t) => loc_text(t.loc) + ": "@ + token_text(t.value)
            + " is not expected"@,
        ParseError::NotExpression(t) => loc_text(t.loc) + ": '"@ + token_text(t.value)
            + "' is not a start of expression"@,
        ParseError::NotOperator(t) => loc_text(t.loc) + ": '"@ + token_text(t.value)
            + "' is not an operator"@,
        ParseError::UnclosedOpenParen(t) => loc_text(t.loc) + ": '"@ + token_text(t.value)
            + "' is not closed"@,
        ParseError::RedundantExpression(t) => loc_text(t.loc) + ": expression after '"@
            + token_text(t.value) + "' is redundant"@,
        ParseError::Eof => "End of file"@,
    }
}

/// The range that a diagnostic underlines in an input of `len` bytes: a
/// lexer error's own range; the token's range for a parser error, widened
/// to the end of the input for a redundant expression; one past the end
/// for a premature end of the tokens.
pub open spec fn error_loc(e: Error, len: nat) -> Loc {
    match e {
        Error::Lexer(l) => l.loc,
        Error::Parser(p) => match p {
            ParseError::UnexpectedToken(t) => t.loc,
            ParseError::NotExpression(t) => t.loc,
            ParseError::NotOperator(t) => t.loc,
            ParseError::UnclosedOpenParen(t) => t.loc,
            ParseError::RedundantExpression(t) => Loc(t.loc.0, len as usize),
            ParseError::Eof => Loc(len as usize, (len + 1) as usize),
        },
    }
}

/// `n` copies of `c`.
pub open spec fn repeat(c: char, n: nat) -> Seq<char>
    decreases n,
{
    if n == 0 {
        Seq::empty()
    } else {
        repeat(c, (n - 1) as nat).push(c)
    }
}

/// The underline of `loc`: a space for each byte before it, a caret for
/// each byte in it.
pub open spec fn caret_text(loc: Loc) -> Seq<char> {
    repeat(' ', loc.0 as nat) + repeat('^', (loc.1 - loc.0) as nat)
}

/// Relies on `String::push`: appends the one character.
#[verifier::external_body]
fn push_char(s: &mut String, c: char)
    ensures
        final(s)@ == old(s)@.push(c),
{
    s.push(c);
}

fn push_decimal(s: &mut String, n: u64)
    ensures
        final(s)@ == old(s)@ + decimal(n as nat),
    decreases n,
{
    if n >= 10 {
        push_decimal(s, n / 10);
    }
    let d = (n % 10) as u8;
    push_char(s, (d + 48u8) as char);
    assert(final(s)@ =~= old(s)@ + decimal(n as nat));
}

fn push_loc(s: &mut String, loc: Loc)
    ensures
        final(s)@ == old(s)@ + loc_text(loc),
{
    let ghost s0 = s@;
    push_decimal(s, loc.0 as u64);
    s.append("-");
    push_decimal(s, loc.1 as u64);
    assert(s@ =~= s0 + loc_text(loc));
}

fn push_token(s: &mut String, k: TokenKind)
    ensures
        final(s)@ == old(s)@ + token_text(k),
{
    match k {
        TokenKind::Number(n) => push_decimal(s, n),
        TokenKind::Plus => s.append("+"),
        TokenKind::Minus => s.append("-"),
        TokenKind::Asterisk => s.append("*"),
        TokenKind::Slash => s.append("/"),
        TokenKind::LParen => s.append("("),
        TokenKind::RParen => s.append(")"),
    }
}

/// The message of a lexer error.
pub fn lex_error_message(e: &LexError) -> (r: String)
    ensures
        r@ == lex_error_text(*e),
{
    let mut s = String::new();
    match e.value {
        LexErrorKind::InvalidChar(c) => {
            push_loc(&mut s, e.loc);
            s.append(": invalid char '");
            push_char(&mut s, c);
            s.append("'");
        },
        LexErrorKind::Eof => s.append("End of file"),
        LexErrorKind::NumberTooLarge => {
            push_loc(&mut s, e.loc);
            s.append(": number too large");
        },
    }
    assert(s@ =~= lex_error_text(*e));
    s
}

fn token_message(t: &Token, before: &str, after: &str) -> (r: String)
    ensures
        r@ == loc_text(t.loc) + before@ + token_text(t.value) + after@,
{
    let mut s = String::new();
    push_loc(&mut s, t.loc);
    s.append(before);
    push_token(&mut s, t.value);
    s.append(after);
    assert(s@ =~= loc_text(t.loc) + before@ + token_text(t.value) + after@);
    s
}

/// The message of a parser error.
pub fn parse_error_message(e: &ParseError) -> (r: String)
    ensures
        r@ == parse_error_text(*e),
{
    match e {
        ParseError::UnexpectedToken(t) => token_message(t, ": ", " is not expected"),
        ParseError::NotExpression(t) => token_message(t, ": '", "' is not a start of expression"),
        ParseError::NotOperator(t) => token_message(t, ": '", "' is not an operator"),
        ParseError::UnclosedOpenParen(t) => token_message(t, ": '", "' is not closed"),
        ParseError::RedundantExpression(t) => token_message(
            t,
            ": expression after '",
            "' is redundant",
        ),
        ParseError::Eof => String::from_str("End of file"),
    }
}

/// The underline of `loc`, drawn under the input line.
pub fn caret_line(loc: Loc) -> (r: String)
    requires
        loc.wf(),
    ensures
        r@ == caret_text(loc),
{
    let mut s = String::new();
    let mut i: usize = 0;
    while i < loc.0
        invariant
            i <= loc.0,
            s@ == repeat(' ', i as nat),
        decreases loc.0 - i,
    {
        push_char(&mut s, ' ');
        i = i + 1;
    }
    let mut j: usize = loc.0;
    while j < loc.1
        invariant
            loc.0 <= j <= loc.1,
            s@ == repeat(' ', loc.0 as nat) + repeat('^', (j - loc.0) as nat),
        decreases loc.1 - j,
    {
        push_char(&mut s, '^');
        proof {
            assert(repeat('^', (j + 1 - loc.0) as nat) == repeat('^', (j - loc.0) as nat).push('^'));
        }
        j = j + 1;
        assert(s@ =~= repeat(' ', loc.0 as nat) + repeat('^', (j - loc.0) as nat));
    }
    s
}

impl Error {
    /// The message shown for the underlying lexer or parser error.
    pub fn message(&self) -> (r: String)
        ensures
            r@ == (match *self {
                Error::Lexer(l) => lex_error_text(l),
                Error::Parser(p) => parse_error_text(p),
            }),
    {
        match self {
            Error::Lexer(l) => lex_error_message(l),
            Error::Parser(p) => parse_error_message(p),
        }
    }

    /// The range to underline in `input`.
    pub fn location(&self, input: &str) -> (r: Loc)
        requires
            input.len() < usize::MAX,
        ensures
            r == error_loc(*self, input.len() as nat),
    {
        let len = input.len();
        match self {
            Error::Lexer(l) => l.loc,
            Error::Parser(p) => match p {
                ParseError::UnexpectedToken(t) => t.loc,
                ParseError::NotExpression(t) => t.loc,
                ParseError::NotOperator(t) => t.loc,
                ParseError::UnclosedOpenParen(t) => t.loc,
                ParseError::RedundantExpression(t) => Loc(t.loc.0, len),
                ParseError::Eof => Loc(len, len + 1),
            },
        }
    }

    /// The lines of the error's causal chain: this error's own message,
    /// then the underlying error's, prefixed by `caused by `.
    pub fn trace(&self) -> (r: Vec<String>)
        ensures
            r@.len() == 2,
            r@[0]@ == "parser error"@,
            r@[1]@ == "caused by "@ + (match *self {
                Error::Lexer(l) => lex_error_text(l),
                Error::Parser(p) => parse_error_text(p),
            }),
    {
        let mut cause = String::from_str("caused by ");
        let inner = self.message();
        cause.append(inner.as_str());
        let mut lines: Vec<String> = Vec::new();
        lines.push(String::from_str("parser error"));
        lines.push(cause);
        lines
    }
}

impl Annot<InterpreterErrorKind> {
    /// The short message of an evaluation error.
    pub fn message(&self) -> (r: String)
        ensures
            r@ == (match self.value {
                InterpreterErrorKind::DivisionByZero => "division by zero"@,
                InterpreterErrorKind::Overflow => "integer overflow"@,
            }),
    {
        match self.value {
            InterpreterErrorKind::DivisionByZero => String::from_str("division by zero"),
            InterpreterErrorKind::Overflow => String::from_str("integer overflow"),
        }
    }

    /// The longer explanation of an evaluation error.
    pub fn description(&self) -> (r: String)
        ensures
            r@ == (match self.value {
                InterpreterErrorKind::DivisionByZero =>
                    "the right hand expression of the division evaluates to zero"@,
                InterpreterErrorKind::Overflow =>
                    "the value does not fit in a 64-bit signed integer"@,
            }),
    {
        match self.value {
            InterpreterErrorKind::DivisionByZero => String::from_str(
                "the right hand expression of the division evaluates to zero",
            ),
            InterpreterErrorKind::Overflow => String::from_str(
                "the value does not fit in a 64-bit signed integer",
            ),
        }
    }
}

} // verus!
