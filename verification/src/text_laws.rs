//! Laws of numbers on the bits, of decimal text, of error texts and of the
//! pipeline's stages.

use vstd::prelude::*;
use crate::cli::line_spec;
use crate::error::{positioned_text, runtime_text, ErrorAt, LexError, LumenError, ParseError, RuntimeError};
use crate::interpreter::{initial_state, interpret_spec, Failure};
use crate::lexer::lex_spec;
use crate::number::{float_key, is_nan, is_zero, Numbers};
use crate::parser_spec::parse_spec;
use crate::semantics::{exec_stmt, run_program, step_limit, Flow, StateV};
use crate::text::{decimal, digit_char};
use crate::ast::StmtV;

verus! {

/// The digit a decimal character stands for.
pub open spec fn digit_value(c: char) -> int {
    c as int - '0' as int
}

/// The number a string of decimal digits denotes.
pub open spec fn digits_value(s: Seq<char>) -> int
    decreases s.len(),
{
    if s.len() == 0 {
        0
    } else {
        digits_value(s.drop_last()) * 10 + digit_value(s.last())
    }
}

#[verifier::spinoff_prover]
proof fn lemma_digit_char(d: nat)
    requires
        d < 10,
    ensures
        '0' <= digit_char(d) <= '9',
        digit_value(digit_char(d)) == d,
{
}

/// `decimal(n)` is the usual decimal numeral of `n`: only digits, no
/// leading zero unless `n` is zero, and it denotes `n`.
#[verifier::spinoff_prover]
pub proof fn law_decimal(n: nat)
    ensures
        decimal(n).len() > 0,
        forall|k: int| 0 <= k < decimal(n).len() ==> '0' <= #[trigger] decimal(n)[k] <= '9',
        decimal(n)[0] == '0' ==> n == 0,
        digits_value(decimal(n)) == n,
    decreases n,
{
    if n < 10 {
        lemma_digit_char(n);
        let d = decimal(n);
        assert(d.drop_last() =~= Seq::<char>::empty());
        assert(d.last() == digit_char(n));
        assert(digits_value(d.drop_last()) == 0);
    } else {
        law_decimal(n / 10);
        lemma_digit_char(n % 10);
        let d = decimal(n);
        assert(d.drop_last() =~= decimal(n / 10));
        assert forall|k: int| 0 <= k < d.len() implies '0' <= #[trigger] d[k] <= '9' by {
            if k < d.len() - 1 {
                assert(d[k] == decimal(n / 10)[k]);
            }
        }
        assert(d[0] == decimal(n / 10)[0]);
        assert(n / 10 > 0);
        assert(d.last() == digit_char(n % 10));
        assert(digits_value(d) == digits_value(decimal(n / 10)) * 10 + digit_value(digit_char(n % 10)));
    }
}

/// Zero is the number whose bits, the sign aside, are all clear: `0` and
/// `-0` and nothing else.
#[verifier::spinoff_prover]
pub proof fn law_zero(x: u64)
    ensures
        is_zero(x) == (x == 0 || x == 0x8000_0000_0000_0000u64),
{
    assert(((x & 0x7fff_ffff_ffff_ffffu64) == 0) == (x == 0 || x == 0x8000_0000_0000_0000u64)) by (bit_vector);
}

/// NaN is the bit patterns whose magnitude lies above that of infinity.
#[verifier::spinoff_prover]
pub proof fn law_nan(x: u64)
    ensures
        is_nan(x) == ((x & 0x7fff_ffff_ffff_ffffu64) > 0x7ff0_0000_0000_0000u64),
{
    assert(((x & 0x7ff0_0000_0000_0000u64) == 0x7ff0_0000_0000_0000u64 && (x & 0x000f_ffff_ffff_ffffu64) != 0)
        == ((x & 0x7fff_ffff_ffff_ffffu64) > 0x7ff0_0000_0000_0000u64)) by (bit_vector);
}

/// Numbers are ordered as doubles: two non-negative numbers by their bits,
/// two negative ones the other way round, and every negative number below
/// every non-negative one (the two zeros aside, which are equal).
#[verifier::spinoff_prover]
pub proof fn law_number_order(x: u64, y: u64)
    requires
        !is_nan(x),
        !is_nan(y),
    ensures
        x < 0x8000_0000_0000_0000u64 && y < 0x8000_0000_0000_0000u64 ==> (float_key(x) < float_key(y)) == (x < y),
        x >= 0x8000_0000_0000_0000u64 && y >= 0x8000_0000_0000_0000u64 ==> (float_key(x) < float_key(y)) == (x > y),
        x >= 0x8000_0000_0000_0000u64 && y < 0x8000_0000_0000_0000u64 ==> (float_key(x) < float_key(y)) == !(
        is_zero(x) && is_zero(y)),
        x < 0x8000_0000_0000_0000u64 ==> float_key(x) >= 0,
        x >= 0x8000_0000_0000_0000u64 ==> float_key(x) <= 0,
{
    assert(x < 0x8000_0000_0000_0000u64 ==> (x & 0x8000_0000_0000_0000u64) == 0 && (x & 0x7fff_ffff_ffff_ffffu64) == x) by (bit_vector);
    assert(y < 0x8000_0000_0000_0000u64 ==> (y & 0x8000_0000_0000_0000u64) == 0 && (y & 0x7fff_ffff_ffff_ffffu64) == y) by (bit_vector);
    assert(x >= 0x8000_0000_0000_0000u64 ==> (x & 0x8000_0000_0000_0000u64) != 0 && (x & 0x7fff_ffff_ffff_ffffu64) == x - 0x8000_0000_0000_0000u64) by (bit_vector);
    assert(y >= 0x8000_0000_0000_0000u64 ==> (y & 0x8000_0000_0000_0000u64) != 0 && (y & 0x7fff_ffff_ffff_ffffu64) == y - 0x8000_0000_0000_0000u64) by (bit_vector);
}

/// The text of each stage's error: `lex error at line L, col C: MESSAGE`,
/// `parse error at line L, col C: MESSAGE`, `runtime error: MESSAGE`.
#[verifier::spinoff_prover]
pub proof fn law_error_texts(l: LexError, p: ParseError, r: RuntimeError)
    ensures
        LumenError::Lex(l).text() == "lex"@ + " error at line "@ + decimal(l.line as nat) + ", col "@ + decimal(l.col as nat) + ": "@ + l.message@,
        LumenError::Parse(p).text() == "parse"@ + " error at line "@ + decimal(p.line as nat) + ", col "@ + decimal(p.col as nat) + ": "@ + p.message@,
        LumenError::Runtime(r).text() == "runtime error: "@ + r.message@,
{
}

/// The pipeline reports the first stage that fails, as that stage's
/// failure: a lex error when lexing fails, a parse error when lexing
/// succeeds and parsing fails, a runtime error when both succeed and the
/// program stops with an error from a fresh interpreter; otherwise the
/// output of the program, in order.
#[verifier::spinoff_prover]
pub proof fn law_interpret_stages(o: Numbers, source: Seq<char>)
    ensures
        lex_spec(o.compute, source) matches Err(e) ==> interpret_spec(o, source) == Err::<Seq<Seq<char>>, Failure>(Failure::Lex(e)),
        lex_spec(o.compute, source) matches Ok(ts) ==> (parse_spec(ts) matches Err(e) ==> interpret_spec(o, source)
            == Err::<Seq<Seq<char>>, Failure>(Failure::Parse(e))),
        lex_spec(o.compute, source) matches Ok(ts) ==> (parse_spec(ts) matches Ok(ss) ==> (
            run_program(o, initial_state(), ss).1 matches Err(m) ==> interpret_spec(o, source) == Err::<Seq<Seq<char>>, Failure>(Failure::Runtime(m)))),
        lex_spec(o.compute, source) matches Ok(ts) ==> (parse_spec(ts) matches Ok(ss) ==> (
            run_program(o, initial_state(), ss).1 is Ok ==> interpret_spec(o, source)
            == Ok::<Seq<Seq<char>>, Failure>(run_program(o, initial_state(), ss).0.output))),
{
}

/// A program runs its statements in order from the global scope: it stops
/// at a top-level `return` without error, and at the first error with it.
#[verifier::spinoff_prover]
pub proof fn law_run_program(o: Numbers, st: StateV, ss: Seq<StmtV>)
    ensures
        ss.len() == 0 ==> run_program(o, st, ss) == (st, Ok::<(), Seq<char>>(())),
        ss.len() > 0 ==> ({
            let (st1, f) = exec_stmt(o, step_limit(), st, 0, ss[0]);
            match f {
                Flow::Normal => run_program(o, st, ss) == run_program(o, st1, ss.subrange(1, ss.len() as int)),
                Flow::Return(_) => run_program(o, st, ss) == (st1, Ok::<(), Seq<char>>(())),
                Flow::Error(m) => run_program(o, st, ss) == (st1, Err::<(), Seq<char>>(m)),
            }
        }),
{
    reveal(run_program);
}

/// One REPL line: on success the line's output is handed back and drained,
/// keeping the rest of the state for the next line; on failure the text of
/// the stage's error is handed back.
#[verifier::spinoff_prover]
pub proof fn law_line(o: Numbers, st: StateV, line: Seq<char>)
    ensures
        lex_spec(o.compute, line) matches Err(e) ==> line_spec(o, st, line) == (st, Err::<Seq<Seq<char>>, Seq<char>>(
            "lex"@ + " error at line "@ + decimal(e.line) + ", col "@ + decimal(e.col) + ": "@ + e.message)),
        lex_spec(o.compute, line) matches Ok(ts) ==> (parse_spec(ts) matches Err(e) ==> line_spec(o, st, line) == (st, Err::<Seq<Seq<char>>, Seq<char>>(
            "parse"@ + " error at line "@ + decimal(e.line) + ", col "@ + decimal(e.col) + ": "@ + e.message))),
        lex_spec(o.compute, line) matches Ok(ts) ==> (parse_spec(ts) matches Ok(ss) ==> ({
            let (st1, r) = run_program(o, st, ss);
            match r {
                Ok(()) => line_spec(o, st, line) == (StateV { output: Seq::empty(), ..st1 }, Ok::<Seq<Seq<char>>, Seq<char>>(st1.output)),
                Err(m) => line_spec(o, st, line) == (st1, Err::<Seq<Seq<char>>, Seq<char>>("runtime error: "@ + m)),
            }
        })),
{
}

} // verus!
