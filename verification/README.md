# lumen-core

A tree-walking interpreter for Lumen, a small dynamically-typed language with
variables, arithmetic and logic, comparisons, `if`/`else`, `while` loops, and
first-class functions with lexical closures, written in Verus; each stage is proved
to compute what a definition of that stage says.

## Layout

```text
src/lexer.rs        source text -> tokens            (proved against lex_spec)
src/parser.rs       tokens -> syntax tree            (proved against parser_spec)
src/parser_spec.rs  the grammar, as functions on abstract tokens
src/interpreter.rs  the evaluator and `interpret`    (proved against semantics)
src/semantics.rs    a definitional interpreter: what a program means
src/value.rs        values and the store of lexical scopes
src/number.rs       IEEE-754 doubles as bit patterns, and the numeric backend
src/laws.rs         properties of the whole: scopes, evaluation, output
src/cli.rs          the command line's data and one REPL step
app/main.rs         the `lumen` binary: argument parsing, files, stdin/stdout
```

## Numbers

A Lumen number is an `f64`. The library holds it as its bit pattern
(`u64`): negation, equality, ordering and the division-by-zero test are
computed and proved on the bits. Arithmetic, turning a literal's text into a
number, and printing a number are asked of a backend that the caller passes
in (`compute` and `render`); the binary and the tests use `f64` for it.

## Checking

The library verifies with Verus; `tests/` holds the test suite and `app/` the
command-line program, which parses arguments with `clap` and formats errors
with `thiserror`.
