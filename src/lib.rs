//! An integer calculator: a lexer, a recursive-descent parser and an
//! evaluator, each tracking the byte range of the input that every token,
//! tree node and error comes from.

pub mod error;
pub mod interpreter;
pub mod lexer;
pub mod loc;
pub mod parser;

pub use error::{caret_line, Error, InterpreterError, InterpreterErrorKind};
pub use interpreter::evaluate;
pub use lexer::{lex, LexError, LexErrorKind, Token, TokenKind};
pub use loc::{Annot, Loc};
pub use parser::{parse, Ast, AstKind, BinOp, BinOpKind, ParseError, UniOp, UniOpKind};
