use crate::error::{InterpreterError, InterpreterErrorKind};
use crate::loc::{Annot, Loc};
use crate::lexer::{Token, TokenKind};
use crate::parser::{
    additive_op, addsub_rest, binop_node, multiplicative_op, muldiv_rest, parse_addsub,
    parse_muldiv, parse_primary, parse_tokens, parse_unary, Ast, AstKind, BinOpKind, ParseError,
    UniOpKind,
};
use vstd::prelude::*;

verus! {

/// Integer division rounding toward zero, as Rust's `/` does.
pub open spec fn trunc_div(x: int, d: int) -> int
    recommends
        d != 0,
{
    if x == 0 {
        0
    } else if x > 0 && d > 0 {
        x / d
    } else if x < 0 && d < 0 {
        (-x) / (-d)
    } else if x < 0 {
        -((-x) / d)
    } else {
        -(x / (-d))
    }
}

pub open spec fn fits_i64(v: int) -> bool {
    i64::MIN <= v <= i64::MAX
}

/// `v` as a result, or an overflow at `loc` when it leaves the `i64` range.
pub open spec fn in_range(v: int, loc: Loc) -> Result<i64, InterpreterError> {
    if fits_i64(v) {
        Ok(v as i64)
    } else {
        Err(Annot { value: InterpreterErrorKind::Overflow, loc })
    }
}

/// Applies a binary operator to two evaluated operands; `loc` is the
/// operator node's range.
pub open spec fn apply_binop(op: BinOpKind, a: i64, b: i64, loc: Loc) -> Result<i64, InterpreterError> {
    match op {
        BinOpKind::Add => in_range(a + b, loc),
        BinOpKind::Sub => in_range(a - b, loc),
        BinOpKind::Mul => in_range(a * b, loc),
        BinOpKind::Div => if b == 0 {
            Err(Annot { value: InterpreterErrorKind::DivisionByZero, loc })
        } else {
            in_range(trunc_div(a as int, b as int), loc)
        },
    }
}

/// The value of the tree `e`: operands are evaluated left, then right; a
/// zero divisor fails with `DivisionByZero` over the division's range, and a
/// value outside `i64` fails with `Overflow` over the range of the node that
/// produced it.
pub open spec fn eval_ast(e: Ast) -> Result<i64, InterpreterError>
    decreases e,
{
    match e.value {
        AstKind::Num(n) => in_range(n as int, e.loc),
        AstKind::UniOp { op, e: sub } => match eval_ast(*sub) {
            Ok(v) => match op.value {
                UniOpKind::Minus => in_range(-v, e.loc),
            },
            Err(x) => Err(x),
        },
        AstKind::BinOp { op, l, r } => match eval_ast(*l) {
            Ok(a) => match eval_ast(*r) {
                Ok(b) => apply_binop(op.value, a, b, e.loc),
                Err(x) => Err(x),
            },
            Err(x) => Err(x),
        },
    }
}

/// The binary operator that the token `t` stands for.
pub open spec fn binop_of(t: Token) -> BinOpKind {
    match additive_op(t.value) {
        Some(k) => k,
        None => multiplicative_op(t.value)->0,
    }
}

/// The leaf of the number token `t`.
pub open spec fn leaf_of(t: Token) -> Ast {
    Annot { value: AstKind::Num(t.value->Number_0), loc: t.loc }
}

/// `t` is an operator of the level that `u` is of.
pub open spec fn same_level(t: Token, u: Token) -> bool {
    ||| additive_op(t.value) is Some && additive_op(u.value) is Some
    ||| multiplicative_op(t.value) is Some && multiplicative_op(u.value) is Some
}

proof fn lemma_leaf(ts: Seq<Token>, pos: nat)
    requires
        pos < ts.len(),
        ts[pos as int].value is Number,
    ensures
        parse_unary(ts, pos) == Ok::<(Ast, nat), ParseError>((leaf_of(ts[pos as int]), pos + 1)),
        pos + 1 == ts.len() || multiplicative_op(ts[pos + 1int].value) is None ==> parse_muldiv(ts, pos)
            == Ok::<(Ast, nat), ParseError>((leaf_of(ts[pos as int]), pos + 1)),
{
    assert(parse_primary(ts, pos) == Ok::<(Ast, nat), ParseError>((leaf_of(ts[pos as int]), pos + 1)));
    assert(parse_unary(ts, pos) == parse_primary(ts, pos));
    if pos + 1 == ts.len() || multiplicative_op(ts[pos + 1int].value) is None {
        assert(muldiv_rest(ts, leaf_of(ts[pos as int]), pos + 1)
            == Ok::<(Ast, nat), ParseError>((leaf_of(ts[pos as int]), pos + 1)));
    }
}

/// Operators of one precedence level group to the left: the five tokens
/// `a op1 b op2 c` parse as `(a op1 b) op2 c`, and evaluate by applying
/// `op1` first and `op2` to its result.
pub proof fn lemma_left_assoc(ts: Seq<Token>)
    requires
        ts.len() == 5,
        ts[0].value is Number,
        ts[2].value is Number,
        ts[4].value is Number,
        same_level(ts[1], ts[3]),
        ts[0].value->Number_0 <= i64::MAX,
        ts[2].value->Number_0 <= i64::MAX,
        ts[4].value->Number_0 <= i64::MAX,
    ensures
        ({
            let op1 = Annot { value: binop_of(ts[1]), loc: ts[1].loc };
            let op2 = Annot { value: binop_of(ts[3]), loc: ts[3].loc };
            let inner = binop_node(op1, leaf_of(ts[0]), leaf_of(ts[2]));
            let tree = binop_node(op2, inner, leaf_of(ts[4]));
            let a = ts[0].value->Number_0 as i64;
            let b = ts[2].value->Number_0 as i64;
            let c = ts[4].value->Number_0 as i64;
            &&& parse_tokens(ts) == Ok::<Ast, ParseError>(tree)
            &&& eval_ast(tree) == match apply_binop(op1.value, a, b, inner.loc) {
                Ok(x) => apply_binop(op2.value, x, c, tree.loc),
                Err(e) => Err(e),
            }
        }),
{
    let op1 = Annot { value: binop_of(ts[1]), loc: ts[1].loc };
    let op2 = Annot { value: binop_of(ts[3]), loc: ts[3].loc };
    let inner = binop_node(op1, leaf_of(ts[0]), leaf_of(ts[2]));
    let tree = binop_node(op2, inner, leaf_of(ts[4]));
    lemma_leaf(ts, 0);
    lemma_leaf(ts, 2);
    lemma_leaf(ts, 4);
    if additive_op(ts[1].value) is Some {
        assert(addsub_rest(ts, tree, 5) == Ok::<(Ast, nat), ParseError>((tree, 5)));
        assert(addsub_rest(ts, inner, 3) == addsub_rest(ts, tree, 5));
        assert(addsub_rest(ts, leaf_of(ts[0]), 1) == addsub_rest(ts, inner, 3));
        assert(parse_addsub(ts, 0) == Ok::<(Ast, nat), ParseError>((tree, 5)));
    } else {
        assert(muldiv_rest(ts, tree, 5) == Ok::<(Ast, nat), ParseError>((tree, 5)));
        assert(muldiv_rest(ts, inner, 3) == muldiv_rest(ts, tree, 5));
        assert(muldiv_rest(ts, leaf_of(ts[0]), 1) == muldiv_rest(ts, inner, 3));
        assert(parse_muldiv(ts, 0) == Ok::<(Ast, nat), ParseError>((tree, 5)));
        assert(addsub_rest(ts, tree, 5) == Ok::<(Ast, nat), ParseError>((tree, 5)));
        assert(parse_addsub(ts, 0) == Ok::<(Ast, nat), ParseError>((tree, 5)));
    }
    assert(parse_tokens(ts) == Ok::<Ast, ParseError>(tree));
    assert(eval_ast(leaf_of(ts[0])) == Ok::<i64, InterpreterError>(ts[0].value->Number_0 as i64));
    assert(eval_ast(leaf_of(ts[2])) == Ok::<i64, InterpreterError>(ts[2].value->Number_0 as i64));
    assert(eval_ast(leaf_of(ts[4])) == Ok::<i64, InterpreterError>(ts[4].value->Number_0 as i64));
    assert(eval_ast(inner) == apply_binop(
        op1.value,
        ts[0].value->Number_0 as i64,
        ts[2].value->Number_0 as i64,
        inner.loc,
    ));
}

fn overflow(loc: Loc) -> (r: InterpreterError)
    ensures
        r == (Annot { value: InterpreterErrorKind::Overflow, loc }),
{
    Annot { value: InterpreterErrorKind::Overflow, loc }
}

fn apply(op: BinOpKind, a: i64, b: i64, loc: Loc) -> (r: Result<i64, InterpreterError>)
    ensures
        r == apply_binop(op, a, b, loc),
{
    let v = match op {
        BinOpKind::Add => a.checked_add(b),
        BinOpKind::Sub => a.checked_sub(b),
        BinOpKind::Mul => a.checked_mul(b),
        BinOpKind::Div => {
            if b == 0 {
                return Err(Annot { value: InterpreterErrorKind::DivisionByZero, loc });
            }
            a.checked_div(b)
        },
    };
    match v {
        Some(x) => Ok(x),
        None => Err(overflow(loc)),
    }
}

/// Evaluates an expression tree to an integer.
pub fn evaluate(expr: &Ast) -> (r: Result<i64, InterpreterError>)
    ensures
        r == eval_ast(*expr),
    decreases expr,
{
    match &expr.value {
        AstKind::Num(n) => {
            if *n <= i64::MAX as u64 {
                Ok(*n as i64)
            } else {
                Err(overflow(expr.loc))
            }
        },
        AstKind::UniOp { op, e } => match evaluate(e) {
            Ok(v) => match op.value {
                UniOpKind::Minus => {
                    if v == i64::MIN {
                        Err(overflow(expr.loc))
                    } else {
                        Ok(-v)
                    }
                },
            },
            Err(x) => Err(x),
        },
        AstKind::BinOp { op, l, r } => match evaluate(l) {
            Ok(a) => match evaluate(r) {
                Ok(b) => apply(op.value, a, b, expr.loc),
                Err(x) => Err(x),
            },
            Err(x) => Err(x),
        },
    }
}

} // verus!
