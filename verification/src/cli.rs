//! The command line's data, and one step of the interactive loop: a line of
//! source run against an interpreter whose globals persist between lines.

use vstd::prelude::*;
use crate::error::{positioned_text, runtime_text};
use crate::interpreter::{texts_view, Interpreter};
use crate::lexer::{lex, lex_spec};
use crate::number::{answers, computes, numbers_of, renders, NumberRequest, Numbers};
use crate::parser::Parser;
use crate::parser_spec::parse_spec;
use crate::semantics::{run_program, StateV};

verus! {

/// The parsed command line.
pub struct Cli {
    pub command: Command,
}

/// What the command line asks for.
pub enum Command {
    /// Run the Lumen source file at `path`.
    Run { path: String },
    /// Start an interactive session.
    Repl,
}

/// What running `line` against state `st` gives: the new state, and either
/// the output the line produced (which is then drained) or the text of the
/// first error. After a runtime error the output made before it stays in the
/// interpreter.
pub open spec fn line_spec(o: Numbers, st: StateV, line: Seq<char>) -> (StateV, Result<Seq<Seq<char>>, Seq<char>>) {
    match lex_spec(o.compute, line) {
        Err(e) => (st, Err(positioned_text("lex"@, e))),
        Ok(ts) => match parse_spec(ts) {
            Err(e) => (st, Err(positioned_text("parse"@, e))),
            Ok(ss) => {
                let (st1, r) = run_program(o, st, ss);
                match r {
                    Ok(()) => (StateV { output: Seq::empty(), ..st1 }, Ok(st1.output)),
                    Err(m) => (st1, Err(runtime_text(m))),
                }
            },
        },
    }
}

/// The abstract result of `run_line`.
pub open spec fn line_result(r: Result<Vec<String>, String>) -> Result<Seq<Seq<char>>, Seq<char>> {
    match r {
        Ok(out) => Ok(texts_view(out@)),
        Err(m) => Err(m@),
    }
}

/// Runs one line of source against `interpreter`, returning the output it
/// produced or the text of the error that stopped it.
pub fn run_line<C: Fn(NumberRequest) -> u64, R: Fn(u64) -> String>(
    interpreter: &mut Interpreter,
    line: &str,
    compute: &C,
    render: &R,
) -> (r: Result<Vec<String>, String>)
    requires
        old(interpreter).wf(),
        line@.len() < usize::MAX,
        computes(*compute),
        renders(*render),
    ensures
        final(interpreter).wf(),
        (final(interpreter)@, line_result(r)) == line_spec(numbers_of(*compute, *render), old(interpreter)@, line@),
{
    let tokens = match lex(line, compute) {
        Ok(tokens) => tokens,
        Err(e) => return Err(e.render()),
    };
    proof {
        crate::interpreter::lemma_lexed_tokens_terminated(answers(*compute), line@, tokens@);
    }
    let statements = match Parser::new(tokens).parse() {
        Ok(statements) => statements,
        Err(e) => return Err(e.render()),
    };
    match interpreter.run(statements.as_slice(), compute, render) {
        Ok(()) => Ok(interpreter.take_output()),
        Err(e) => Err(e.render()),
    }
}

} // verus!
