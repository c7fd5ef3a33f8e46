use crate::lexer::{Token, TokenKind};
use crate::loc::{Annot, Loc};
use vstd::prelude::*;

verus! {

#[derive(Debug, Clone, Copy, PartialEq, Eq, Hash, Structural)]
pub enum UniOpKind {
    Minus,
}

pub type UniOp = Annot<UniOpKind>;

#[derive(Debug, Clone, Copy, PartialEq, Eq, Hash, Structural)]
pub enum BinOpKind {
    Add,
    Sub,
    Mul,
    Div,
}

pub type BinOp = Annot<BinOpKind>;

/// A node of the expression tree; each node carries the range it spans.
#[derive(Debug, PartialEq, Eq, Hash)]
pub enum AstKind {
    Num(u64),
    UniOp { op: UniOp, e: Box<Ast> },
    BinOp { op: BinOp, l: Box<Ast>, r: Box<Ast> },
}

pub type Ast = Annot<AstKind>;

/// Why parsing failed. Each variant but `Eof` carries the token at fault.
#[derive(Debug, Clone, Copy, PartialEq, Eq, Hash, Structural)]
pub enum ParseError {
    /// A token that its position does not allow.
    UnexpectedToken(Token),
    /// A token that cannot start an expression.
    NotExpression(Token),
    /// A token in an operator's place that is no operator.
    NotOperator(Token),
    /// An opening parenthesis that is never closed.
    UnclosedOpenParen(Token),
    /// The first token after a complete expression.
    RedundantExpression(Token),
    /// The tokens ended where an expression was needed.
    Eof,
}

pub open spec fn binop_node(op: BinOp, l: Ast, r: Ast) -> Ast {
    Annot { value: AstKind::BinOp { op, l: Box::new(l), r: Box::new(r) }, loc: l.loc.spec_merge(&r.loc) }
}

pub open spec fn additive_op(k: TokenKind) -> Option<BinOpKind> {
    match k {
        TokenKind::Plus => Some(BinOpKind::Add),
        TokenKind::Minus => Some(BinOpKind::Sub),
        _ => None,
    }
}

pub open spec fn multiplicative_op(k: TokenKind) -> Option<BinOpKind> {
    match k {
        TokenKind::Asterisk => Some(BinOpKind::Mul),
        TokenKind::Slash => Some(BinOpKind::Div),
        _ => None,
    }
}

/// `expr := muldiv (('+' | '-') muldiv)*`, from the token at `pos`; on
/// success, the tree and the position after it.
pub open spec fn parse_addsub(ts: Seq<Token>, pos: nat) -> Result<(Ast, nat), ParseError>
    decreases (ts.len() - pos) as nat, 4nat,
{
    match parse_muldiv(ts, pos) {
        Ok((lhs, p)) => if pos < p <= ts.len() {
            addsub_rest(ts, lhs, p)
        } else {
            Err(ParseError::Eof)
        },
        Err(e) => Err(e),
    }
}

/// The `(('+' | '-') muldiv)*` tail, folded to the left onto `lhs`.
pub open spec fn addsub_rest(ts: Seq<Token>, lhs: Ast, pos: nat) -> Result<(Ast, nat), ParseError>
    decreases (ts.len() - pos) as nat, 5nat,
{
    if pos < ts.len() && additive_op(ts[pos as int].value) is Some {
        let op = Annot { value: additive_op(ts[pos as int].value)->0, loc: ts[pos as int].loc };
        match parse_muldiv(ts, pos + 1) {
            Ok((rhs, p)) => if pos + 1 < p <= ts.len() {
                addsub_rest(ts, binop_node(op, lhs, rhs), p)
            } else {
                Err(ParseError::Eof)
            },
            Err(e) => Err(e),
        }
    } else {
        Ok((lhs, pos))
    }
}

/// `muldiv := unary (('*' | '/') unary)*`.
pub open spec fn parse_muldiv(ts: Seq<Token>, pos: nat) -> Result<(Ast, nat), ParseError>
    decreases (ts.len() - pos) as nat, 3nat,
{
    match parse_unary(ts, pos) {
        Ok((lhs, p)) => if pos < p <= ts.len() {
            muldiv_rest(ts, lhs, p)
        } else {
            Err(ParseError::Eof)
        },
        Err(e) => Err(e),
    }
}

/// The `(('*' | '/') unary)*` tail, folded to the left onto `lhs`.
pub open spec fn muldiv_rest(ts: Seq<Token>, lhs: Ast, pos: nat) -> Result<(Ast, nat), ParseError>
    decreases (ts.len() - pos) as nat, 5nat,
{
    if pos < ts.len() && multiplicative_op(ts[pos as int].value) is Some {
        let op = Annot { value: multiplicative_op(ts[pos as int].value)->0, loc: ts[pos as int].loc };
        match parse_unary(ts, pos + 1) {
            Ok((rhs, p)) => if pos + 1 < p <= ts.len() {
                muldiv_rest(ts, binop_node(op, lhs, rhs), p)
            } else {
                Err(ParseError::Eof)
            },
            Err(e) => Err(e),
        }
    } else {
        Ok((lhs, pos))
    }
}

/// `unary := '-' unary | primary`.
pub open spec fn parse_unary(ts: Seq<Token>, pos: nat) -> Result<(Ast, nat), ParseError>
    decreases (ts.len() - pos) as nat, 2nat,
{
    if pos < ts.len() && ts[pos as int].value == TokenKind::Minus {
        let op = Annot { value: UniOpKind::Minus, loc: ts[pos as int].loc };
        match parse_unary(ts, pos + 1) {
            Ok((e, p)) => Ok(
                (Annot { value: AstKind::UniOp { op, e: Box::new(e) }, loc: op.loc.spec_merge(&e.loc) }, p),
            ),
            Err(e) => Err(e),
        }
    } else {
        parse_primary(ts, pos)
    }
}

/// `primary := Number | '(' expr ')'`.
pub open spec fn parse_primary(ts: Seq<Token>, pos: nat) -> Result<(Ast, nat), ParseError>
    decreases (ts.len() - pos) as nat, 1nat,
{
    if pos >= ts.len() {
        Err(ParseError::Eof)
    } else {
        let tok = ts[pos as int];
        match tok.value {
            TokenKind::Number(n) => Ok((Annot { value: AstKind::Num(n), loc: tok.loc }, pos + 1)),
            TokenKind::LParen => match parse_addsub(ts, pos + 1) {
                Ok((e, p)) => if p < ts.len() && ts[p as int].value == TokenKind::RParen {
                    Ok((e, p + 1))
                } else {
                    Err(ParseError::UnclosedOpenParen(tok))
                },
                Err(e) => Err(e),
            },
            _ => Err(ParseError::NotExpression(tok)),
        }
    }
}

/// The tree of the whole token sequence `ts`.
pub open spec fn parse_tokens(ts: Seq<Token>) -> Result<Ast, ParseError> {
    match parse_addsub(ts, 0) {
        Ok((e, p)) => if p < ts.len() {
            Err(ParseError::RedundantExpression(ts[p as int]))
        } else {
            Ok(e)
        },
        Err(e) => Err(e),
    }
}

/// `r` is the outcome `m`, with the position as a `usize`.
pub open spec fn step_is(r: Result<(Ast, usize), ParseError>, m: Result<(Ast, nat), ParseError>) -> bool {
    match r {
        Ok((e, p)) => m == Ok::<(Ast, nat), ParseError>((e, p as nat)),
        Err(er) => m == Err::<(Ast, nat), ParseError>(er),
    }
}

/// On success the position moved forward and stayed within the tokens.
pub open spec fn advances(r: Result<(Ast, usize), ParseError>, pos: usize, len: nat) -> bool {
    r matches Ok((_, p)) ==> pos < p <= len
}

fn token_at(ts: &Vec<Token>, i: usize) -> (r: Token)
    requires
        i < ts@.len(),
    ensures
        r == ts@[i as int],
{
    Annot { value: ts[i].value, loc: ts[i].loc }
}

fn make_binop(op: BinOp, l: Ast, r: Ast) -> (n: Ast)
    ensures
        n == binop_node(op, l, r),
{
    let loc = l.loc.merge(&r.loc);
    Annot { value: AstKind::BinOp { op, l: Box::new(l), r: Box::new(r) }, loc }
}

fn additive_op_of(k: TokenKind) -> (r: Option<BinOpKind>)
    ensures
        r == additive_op(k),
{
    match k {
        TokenKind::Plus => Some(BinOpKind::Add),
        TokenKind::Minus => Some(BinOpKind::Sub),
        _ => None,
    }
}

fn multiplicative_op_of(k: TokenKind) -> (r: Option<BinOpKind>)
    ensures
        r == multiplicative_op(k),
{
    match k {
        TokenKind::Asterisk => Some(BinOpKind::Mul),
        TokenKind::Slash => Some(BinOpKind::Div),
        _ => None,
    }
}

fn addsub(ts: &Vec<Token>, pos: usize) -> (r: Result<(Ast, usize), ParseError>)
    requires
        pos <= ts@.len(),
    ensures
        step_is(r, parse_addsub(ts@, pos as nat)),
        advances(r, pos, ts@.len()),
    decreases (ts@.len() - pos) as nat, 4nat,
{
    let (mut lhs, mut p) = match muldiv(ts, pos) {
        Ok(x) => x,
        Err(e) => return Err(e),
    };
    while p < ts.len()
        invariant
            pos < p <= ts@.len(),
            parse_addsub(ts@, pos as nat) == addsub_rest(ts@, lhs, p as nat),
        ensures
            pos < p <= ts@.len(),
            parse_addsub(ts@, pos as nat) == Ok::<(Ast, nat), ParseError>((lhs, p as nat)),
        decreases ts@.len() - p,
    {
        let tok = token_at(ts, p);
        let kind = match additive_op_of(tok.value) {
            Some(k) => k,
            None => break,
        };
        let op = Annot { value: kind, loc: tok.loc };
        let (rhs, q) = match muldiv(ts, p + 1) {
            Ok(x) => x,
            Err(e) => return Err(e),
        };
        lhs = make_binop(op, lhs, rhs);
        p = q;
    }
    Ok((lhs, p))
}

fn muldiv(ts: &Vec<Token>, pos: usize) -> (r: Result<(Ast, usize), ParseError>)
    requires
        pos <= ts@.len(),
    ensures
        step_is(r, parse_muldiv(ts@, pos as nat)),
        advances(r, pos, ts@.len()),
    decreases (ts@.len() - pos) as nat, 3nat,
{
    let (mut lhs, mut p) = match unary(ts, pos) {
        Ok(x) => x,
        Err(e) => return Err(e),
    };
    while p < ts.len()
        invariant
            pos < p <= ts@.len(),
            parse_muldiv(ts@, pos as nat) == muldiv_rest(ts@, lhs, p as nat),
        ensures
            pos < p <= ts@.len(),
            parse_muldiv(ts@, pos as nat) == Ok::<(Ast, nat), ParseError>((lhs, p as nat)),
        decreases ts@.len() - p,
    {
        let tok = token_at(ts, p);
        let kind = match multiplicative_op_of(tok.value) {
            Some(k) => k,
            None => break,
        };
        let op = Annot { value: kind, loc: tok.loc };
        let (rhs, q) = match unary(ts, p + 1) {
            Ok(x) => x,
            Err(e) => return Err(e),
        };
        lhs = make_binop(op, lhs, rhs);
        p = q;
    }
    Ok((lhs, p))
}

fn unary(ts: &Vec<Token>, pos: usize) -> (r: Result<(Ast, usize), ParseError>)
    requires
        pos <= ts@.len(),
    ensures
        step_is(r, parse_unary(ts@, pos as nat)),
        advances(r, pos, ts@.len()),
    decreases (ts@.len() - pos) as nat, 2nat,
{
    if pos < ts.len() && ts[pos].value == TokenKind::Minus {
        let op = Annot { value: UniOpKind::Minus, loc: ts[pos].loc };
        match unary(ts, pos + 1) {
            Ok((e, p)) => {
                let loc = op.loc.merge(&e.loc);
                Ok((Annot { value: AstKind::UniOp { op, e: Box::new(e) }, loc }, p))
            },
            Err(e) => Err(e),
        }
    } else {
        primary(ts, pos)
    }
}

fn primary(ts: &Vec<Token>, pos: usize) -> (r: Result<(Ast, usize), ParseError>)
    requires
        pos <= ts@.len(),
    ensures
        step_is(r, parse_primary(ts@, pos as nat)),
        advances(r, pos, ts@.len()),
    decreases (ts@.len() - pos) as nat, 1nat,
{
    if pos >= ts.len() {
        return Err(ParseError::Eof);
    }
    let tok = token_at(ts, pos);
    match tok.value {
        TokenKind::Number(n) => Ok((Annot { value: AstKind::Num(n), loc: tok.loc }, pos + 1)),
        TokenKind::LParen => match addsub(ts, pos + 1) {
            Ok((e, p)) => {
                if p < ts.len() && ts[p].value == TokenKind::RParen {
                    Ok((e, p + 1))
                } else {
                    Err(ParseError::UnclosedOpenParen(tok))
                }
            },
            Err(e) => Err(e),
        },
        _ => Err(ParseError::NotExpression(tok)),
    }
}

/// Builds the expression tree of the whole token sequence: the grammar is
/// `expr := muldiv (('+' | '-') muldiv)*`, `muldiv := unary (('*' | '/')
/// unary)*`, `unary := '-' unary | primary`, `primary := Number | '(' expr
/// ')'`, with both binary levels folded to the left. A token left over
/// after the expression is refused as `RedundantExpression`.
pub fn parse(tokens: Vec<Token>) -> (r: Result<Ast, ParseError>)
    ensures
        r == parse_tokens(tokens@),
{
    match addsub(&tokens, 0) {
        Ok((e, p)) => {
            if p < tokens.len() {
                Err(ParseError::RedundantExpression(token_at(&tokens, p)))
            } else {
                Ok(e)
            }
        },
        Err(e) => Err(e),
    }
}

} // verus!
