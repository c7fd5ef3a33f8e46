use calculator::{
    caret_line, evaluate, lex, parse, Annot, AstKind, BinOpKind, Error, InterpreterErrorKind,
    LexErrorKind, Loc, ParseError, TokenKind,
};

fn tok(value: TokenKind, start: usize, end: usize) -> Annot<TokenKind> {
    Annot { value, loc: Loc(start, end) }
}

fn run(input: &str) -> Result<i64, calculator::InterpreterError> {
    let tokens = lex(input).expect("lexes");
    let ast = parse(tokens).expect("parses");
    evaluate(&ast)
}

fn parse_error(input: &str) -> ParseError {
    let tokens = lex(input).expect("lexes");
    match parse(tokens) {
        Err(e) => e,
        Ok(ast) => panic!("parsed: {:?}", ast),
    }
}

#[test]
fn lex_sum_and_product() {
    let tokens = lex("1+2*3").unwrap();
    assert_eq!(
        tokens,
        vec![
            tok(TokenKind::Number(1), 0, 1),
            tok(TokenKind::Plus, 1, 2),
            tok(TokenKind::Number(2), 2, 3),
            tok(TokenKind::Asterisk, 3, 4),
            tok(TokenKind::Number(3), 4, 5),
        ]
    );
}

#[test]
fn lex_invalid_char() {
    let err = lex("1+$").unwrap_err();
    assert_eq!(err, Annot { value: LexErrorKind::InvalidChar('$'), loc: Loc(2, 3) });
}

#[test]
fn lex_invalid_non_ascii_char() {
    let err = lex("1+é").unwrap_err();
    assert_eq!(err, Annot { value: LexErrorKind::InvalidChar('é'), loc: Loc(2, 4) });
    let err = lex("€").unwrap_err();
    assert_eq!(err, Annot { value: LexErrorKind::InvalidChar('€'), loc: Loc(0, 3) });
    assert_eq!(Error::from(err).message(), "0-3: invalid char '€'");
    assert_eq!(caret_line(Loc(0, 3)), "^^^");
}

#[test]
fn lex_skips_whitespace_and_reads_digit_runs() {
    let tokens = lex(" 12 \t( 345 )\n").unwrap();
    assert_eq!(
        tokens,
        vec![
            tok(TokenKind::Number(12), 1, 3),
            tok(TokenKind::LParen, 5, 6),
            tok(TokenKind::Number(345), 7, 10),
            tok(TokenKind::RParen, 11, 12),
        ]
    );
}

#[test]
fn lex_all_symbols() {
    let tokens = lex("+-*/()").unwrap();
    let kinds: Vec<TokenKind> = tokens.iter().map(|t| t.value).collect();
    assert_eq!(
        kinds,
        vec![
            TokenKind::Plus,
            TokenKind::Minus,
            TokenKind::Asterisk,
            TokenKind::Slash,
            TokenKind::LParen,
            TokenKind::RParen,
        ]
    );
}

#[test]
fn lex_empty_input() {
    assert_eq!(lex("").unwrap(), vec![]);
    assert_eq!(lex("   ").unwrap(), vec![]);
}

#[test]
fn lex_largest_literal() {
    let tokens = lex("18446744073709551615").unwrap();
    assert_eq!(tokens, vec![tok(TokenKind::Number(u64::MAX), 0, 20)]);
}

#[test]
fn lex_literal_too_large() {
    let err = lex("1+18446744073709551616").unwrap_err();
    assert_eq!(err, Annot { value: LexErrorKind::NumberTooLarge, loc: Loc(2, 22) });
}

#[test]
fn lex_twice_gives_same_tokens() {
    let input = String::from("(8 - 3) * 2");
    let first = lex(&input);
    let second = lex(&input);
    assert_eq!(first, second);
    assert_eq!(input, "(8 - 3) * 2");
}

#[test]
fn evaluate_precedence() {
    assert_eq!(run("1+2*3"), Ok(7));
}

#[test]
fn evaluate_parentheses() {
    assert_eq!(run("(1+2)*3"), Ok(9));
}

#[test]
fn evaluate_left_to_right() {
    assert_eq!(run("8-3-2"), Ok(3));
    assert_eq!(run("8/2/2"), Ok(2));
    assert_eq!(run("2*3/4"), Ok(1));
}

#[test]
fn evaluate_unary_minus() {
    assert_eq!(run("-3"), Ok(-3));
    assert_eq!(run("--3"), Ok(3));
    assert_eq!(run("2*-3"), Ok(-6));
    assert_eq!(run("-7/2"), Ok(-3));
}

#[test]
fn parse_builds_left_leaning_tree() {
    let ast = parse(lex("8-3-2").unwrap()).unwrap();
    assert_eq!(ast.loc, Loc(0, 5));
    match ast.value {
        AstKind::BinOp { op, l, r } => {
            assert_eq!(op.value, BinOpKind::Sub);
            assert_eq!(op.loc, Loc(3, 4));
            assert_eq!(l.loc, Loc(0, 3));
            assert_eq!(r.value, AstKind::Num(2));
        }
        other => panic!("unexpected node {:?}", other),
    }
}

#[test]
fn parse_unclosed_paren() {
    let err = parse_error("(1+2");
    assert_eq!(err, ParseError::UnclosedOpenParen(tok(TokenKind::LParen, 0, 1)));
    let e = Error::Parser(err);
    assert_eq!(e.location("(1+2"), Loc(0, 1));
}

#[test]
fn parse_paren_followed_by_other_token() {
    let err = parse_error("(1 2)");
    assert_eq!(err, ParseError::UnclosedOpenParen(tok(TokenKind::LParen, 0, 1)));
}

#[test]
fn parse_redundant_expression() {
    let input = "1 2";
    let err = parse_error(input);
    assert_eq!(err, ParseError::RedundantExpression(tok(TokenKind::Number(2), 2, 3)));
    assert_eq!(Error::from(err).location(input), Loc(2, 3));
    let err = parse_error("1 2 + 3");
    assert_eq!(Error::from(err).location("1 2 + 3"), Loc(2, 7));
}

#[test]
fn parse_not_expression() {
    let err = parse_error("*3");
    assert_eq!(err, ParseError::NotExpression(tok(TokenKind::Asterisk, 0, 1)));
    let err = parse_error("()");
    assert_eq!(err, ParseError::NotExpression(tok(TokenKind::RParen, 1, 2)));
}

#[test]
fn parse_end_of_input() {
    assert_eq!(parse_error("1+"), ParseError::Eof);
    assert_eq!(parse_error(""), ParseError::Eof);
    assert_eq!(Error::Parser(ParseError::Eof).location("1+"), Loc(2, 3));
}

#[test]
fn evaluate_division_by_zero() {
    let err = run("1/0").unwrap_err();
    assert_eq!(err.value, InterpreterErrorKind::DivisionByZero);
    assert_eq!(err.loc, Loc(0, 3));
    let err = run("2 + 6 / (3 - 3)").unwrap_err();
    assert_eq!(err.value, InterpreterErrorKind::DivisionByZero);
    assert_eq!(err.loc, Loc(4, 14));
}

#[test]
fn evaluate_overflow() {
    let err = run("9223372036854775807+1").unwrap_err();
    assert_eq!(err.value, InterpreterErrorKind::Overflow);
    assert_eq!(err.loc, Loc(0, 21));
    let err = run("9223372036854775808").unwrap_err();
    assert_eq!(err.value, InterpreterErrorKind::Overflow);
    assert_eq!(run("-9223372036854775807-1"), Ok(i64::MIN));
    let err = run("(-9223372036854775807-1)/-1").unwrap_err();
    assert_eq!(err.value, InterpreterErrorKind::Overflow);
}

#[test]
fn error_from_conversions() {
    let lex_err = lex("a").unwrap_err();
    assert_eq!(Error::from(lex_err), Error::Lexer(lex_err));
    assert_eq!(Error::from(ParseError::Eof), Error::Parser(ParseError::Eof));
    assert_eq!(Error::Lexer(lex_err).location("a"), Loc(0, 1));
}

#[test]
fn messages_of_errors() {
    let e = Error::from(lex("1+$").unwrap_err());
    assert_eq!(e.message(), "2-3: invalid char '$'");
    let e = Error::from(parse_error("1 2"));
    assert_eq!(e.message(), "2-3: expression after '2' is redundant");
    let e = Error::from(parse_error("(1+2"));
    assert_eq!(e.message(), "0-1: '(' is not closed");
    let e = Error::from(parse_error("10 + * 3"));
    assert_eq!(e.message(), "5-6: '*' is not a start of expression");
    assert_eq!(Error::from(ParseError::Eof).message(), "End of file");
    let e = Error::Parser(ParseError::UnexpectedToken(tok(TokenKind::Number(407), 12, 15)));
    assert_eq!(e.message(), "12-15: 407 is not expected");
    let e = Error::Parser(ParseError::NotOperator(tok(TokenKind::Slash, 0, 1)));
    assert_eq!(e.message(), "0-1: '/' is not an operator");
    let e = Error::from(lex("99999999999999999999").unwrap_err());
    assert_eq!(e.message(), "0-20: number too large");
}

#[test]
fn trace_of_error() {
    let e = Error::from(lex("1+$").unwrap_err());
    assert_eq!(
        e.trace(),
        vec!["parser error".to_string(), "caused by 2-3: invalid char '$'".to_string()]
    );
}

#[test]
fn interpreter_error_texts() {
    let err = run("1/0").unwrap_err();
    assert_eq!(err.message(), "division by zero");
    assert_eq!(
        err.description(),
        "the right hand expression of the division evaluates to zero"
    );
    let err = run("9223372036854775807*2").unwrap_err();
    assert_eq!(err.message(), "integer overflow");
}

#[test]
fn caret_line_underlines_range() {
    assert_eq!(caret_line(Loc(2, 3)), "  ^");
    assert_eq!(caret_line(Loc(0, 3)), "^^^");
    assert_eq!(caret_line(Loc(1, 1)), " ");
    assert_eq!(caret_line(Loc(0, 0)), "");
}
