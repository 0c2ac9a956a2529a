//! Error types for each stage, plus a unifying top-level error.

use vstd::prelude::*;
use crate::text::{decimal, decimal_string, join, owned};

verus! {

/// The abstract content of a positioned error: its message and its 1-based
/// line and column.
pub struct ErrorAt {
    pub message: Seq<char>,
    pub line: nat,
    pub col: nat,
}

/// A lexing error with its source position.
#[derive(Debug, Clone, PartialEq)]
pub struct LexError {
    pub message: String,
    pub line: usize,
    pub col: usize,
}

/// A parsing error with its source position.
#[derive(Debug, Clone, PartialEq)]
pub struct ParseError {
    pub message: String,
    pub line: usize,
    pub col: usize,
}

/// A runtime (evaluation) error.
#[derive(Debug, Clone, PartialEq)]
pub struct RuntimeError {
    pub message: String,
}

/// Any error from the full interpret pipeline.
#[derive(Debug, Clone, PartialEq)]
pub enum LumenError {
    Lex(LexError),
    Parse(ParseError),
    Runtime(RuntimeError),
}

impl View for LexError {
    type V = ErrorAt;

    open spec fn view(&self) -> ErrorAt {
        ErrorAt { message: self.message@, line: self.line as nat, col: self.col as nat }
    }
}

impl View for ParseError {
    type V = ErrorAt;

    open spec fn view(&self) -> ErrorAt {
        ErrorAt { message: self.message@, line: self.line as nat, col: self.col as nat }
    }
}

/// The text of an error positioned at `line`, `col`, for the stage named `stage`.
pub open spec fn positioned_text(stage: Seq<char>, e: ErrorAt) -> Seq<char> {
    stage + " error at line "@ + decimal(e.line) + ", col "@ + decimal(e.col) + ": "@ + e.message
}

/// The text of a runtime error with message `message`.
pub open spec fn runtime_text(message: Seq<char>) -> Seq<char> {
    "runtime error: "@ + message
}

fn render_positioned(stage: &str, message: &String, line: usize, col: usize) -> (r: String)
    ensures
        r@ == positioned_text(stage@, ErrorAt { message: message@, line: line as nat, col: col as nat }),
{
    let s = join(owned(stage), " error at line ");
    let s = join(s, decimal_string(line).as_str());
    let s = join(s, ", col ");
    let s = join(s, decimal_string(col).as_str());
    let s = join(s, ": ");
    join(s, message.as_str())
}

impl LexError {
    /// The error's text: `lex error at line L, col C: MESSAGE`.
    pub fn render(&self) -> (r: String)
        ensures
            r@ == positioned_text("lex"@, self@),
    {
        render_positioned("lex", &self.message, self.line, self.col)
    }
}

impl ParseError {
    /// The error's text: `parse error at line L, col C: MESSAGE`.
    pub fn render(&self) -> (r: String)
        ensures
            r@ == positioned_text("parse"@, self@),
    {
        render_positioned("parse", &self.message, self.line, self.col)
    }
}

impl RuntimeError {
    /// A runtime error carrying `message`.
    pub fn new(message: String) -> (r: Self)
        ensures
            r.message@ == message@,
    {
        RuntimeError { message }
    }

    /// The error's text: `runtime error: MESSAGE`.
    pub fn render(&self) -> (r: String)
        ensures
            r@ == runtime_text(self.message@),
    {
        join(owned("runtime error: "), self.message.as_str())
    }
}

impl LumenError {
    /// The text of the stage error this wraps.
    pub open spec fn text(&self) -> Seq<char> {
        match self {
            LumenError::Lex(e) => positioned_text("lex"@, e@),
            LumenError::Parse(e) => positioned_text("parse"@, e@),
            LumenError::Runtime(e) => runtime_text(e.message@),
        }
    }

    /// The text of the stage error this wraps.
    pub fn render(&self) -> (r: String)
        ensures
            r@ == self.text(),
    {
        match self {
            LumenError::Lex(e) => e.render(),
            LumenError::Parse(e) => e.render(),
            LumenError::Runtime(e) => e.render(),
        }
    }
}

} // verus!
