//! The Lumen language: a tree-walking interpreter.
//!
//! The pipeline is three stages: `lex` turns source into tokens, `Parser`
//! turns tokens into an abstract syntax tree, and `Interpreter` evaluates the
//! tree against a store of lexical scopes, with functions capturing their
//! defining scope as closures. `interpret` runs all three and returns the
//! program's output. Each stage is proved against a definition of what it
//! computes: `lexer::lex_spec`, `parser_spec::parse_spec` and
//! `semantics::run_program`.

pub mod ast;
pub mod cli;
pub mod error;
pub mod eval_laws;
pub mod interpreter;
pub mod laws;
pub mod lex_laws;
pub mod lexer;
pub mod number;
pub mod parse_laws;
pub mod parser;
pub mod parser_spec;
pub mod semantics;
pub mod text;
pub mod text_laws;
pub mod token;
pub mod value;

pub use ast::{BinaryOp, Expr, LogicalOp, Stmt, UnaryOp};
pub use error::{LexError, LumenError, ParseError, RuntimeError};
pub use interpreter::{interpret, Function, Interpreter};
pub use lexer::lex;
pub use number::{Arith, NumberRequest};
pub use parser::Parser;
pub use token::{Token, TokenKind};
pub use value::{Environment, Value};
