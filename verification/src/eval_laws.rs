//! Laws of evaluation: what each expression and statement does, stated
//! over its inputs and results.

use vstd::prelude::*;
use crate::ast::{BinaryOp, ExprV, StmtV, UnaryOp};
use crate::laws::law_define_then_lookup;
use crate::text::decimal;
use crate::number::{float_eq, float_key, is_nan, is_zero, negate, Arith, Numbers, RequestV};
use crate::semantics::{
    call_value, display, eval_args, eval_binary, eval_expr, exec_block, exec_stmt, exec_while,
    is_truthy, release, with_env, Flow, FunctionV, StateV,
};
use crate::value::{empty_scope, env_wf, lookup, values_equal, ValueV};

verus! {

/// A value is true in a condition unless it is `false` or `nil`.
#[verifier::spinoff_prover]
pub proof fn law_truthiness(v: ValueV)
    ensures
        is_truthy(v) == !(v == ValueV::Nil || v == ValueV::Bool(false)),
{
}

/// How `print` writes each kind of value: a number as the backend renders
/// it, `true`/`false`, a string's own text, `nil`, and a named function as
/// `<fn NAME>`.
#[verifier::spinoff_prover]
pub proof fn law_display(render: spec_fn(u64) -> Seq<char>, st: StateV, x: u64, s: Seq<char>, id: nat)
    ensures
        display(render, st, ValueV::Number(x)) == render(x),
        display(render, st, ValueV::Bool(true)) == "true"@,
        display(render, st, ValueV::Bool(false)) == "false"@,
        display(render, st, ValueV::Str(s)) == s,
        display(render, st, ValueV::Nil) == "nil"@,
        id < st.functions.len() ==> (st.functions[id as int].name matches Some(n) ==> display(
            render,
            st,
            ValueV::Function(id),
        ) == "<fn "@ + n + ">"@),
{
}

/// Negation flips the sign: applied twice it is the identity, it keeps NaN
/// NaN, and it negates a number's position on the number line.
#[verifier::spinoff_prover]
pub proof fn law_negation(x: u64)
    ensures
        negate(negate(x)) == x,
        is_nan(negate(x)) == is_nan(x),
        is_zero(negate(x)) == is_zero(x),
        !is_nan(x) ==> float_key(negate(x)) == -float_key(x),
{
    assert((x ^ 0x8000_0000_0000_0000u64) ^ 0x8000_0000_0000_0000u64 == x) by (bit_vector);
    assert((x ^ 0x8000_0000_0000_0000u64) & 0x7fff_ffff_ffff_ffffu64 == x & 0x7fff_ffff_ffff_ffffu64) by (bit_vector);
    assert((x ^ 0x8000_0000_0000_0000u64) & 0x7ff0_0000_0000_0000u64 == x & 0x7ff0_0000_0000_0000u64) by (bit_vector);
    assert((x ^ 0x8000_0000_0000_0000u64) & 0x000f_ffff_ffff_ffffu64 == x & 0x000f_ffff_ffff_ffffu64) by (bit_vector);
    assert(((x ^ 0x8000_0000_0000_0000u64) & 0x8000_0000_0000_0000u64 != 0) == (x & 0x8000_0000_0000_0000u64 == 0)) by (bit_vector);
}

/// Two numbers are equal exactly when neither is NaN and they stand at the
/// same place on the number line (so the two zeros are equal).
#[verifier::spinoff_prover]
pub proof fn law_number_equality(x: u64, y: u64)
    ensures
        float_eq(x, y) == (!is_nan(x) && !is_nan(y) && float_key(x) == float_key(y)),
        float_eq(x, y) == float_eq(y, x),
        !is_nan(x) ==> float_eq(x, x),
        is_nan(x) ==> !float_eq(x, y),
{
    assert((x & 0x7fff_ffff_ffff_ffffu64 == y & 0x7fff_ffff_ffff_ffffu64
        && x & 0x8000_0000_0000_0000u64 == y & 0x8000_0000_0000_0000u64) ==> x == y) by (bit_vector);
    assert(((x & 0x8000_0000_0000_0000u64) != 0) == ((y & 0x8000_0000_0000_0000u64) != 0) ==> (x & 0x8000_0000_0000_0000u64 == y & 0x8000_0000_0000_0000u64)) by (bit_vector);
    let mx = (x & 0x7fff_ffff_ffff_ffffu64) as int;
    let my = (y & 0x7fff_ffff_ffff_ffffu64) as int;
    assert(mx >= 0 && my >= 0);
    if float_key(x) == float_key(y) {
        if ((x & 0x8000_0000_0000_0000u64) != 0) == ((y & 0x8000_0000_0000_0000u64) != 0) {
            assert(mx == my);
            assert(x == y);
        } else {
            assert(mx == 0 && my == 0);
            assert(is_zero(x) && is_zero(y));
        }
    }
    if is_zero(x) && is_zero(y) {
        assert(mx == 0 && my == 0);
        assert(float_key(x) == 0 && float_key(y) == 0);
    }
}

/// The arithmetic and comparison operators on values: `+ - * / %` on two
/// numbers ask the backend for that operation on the left and right operand
/// in that order (`/` and `%` only with a nonzero divisor), `+` on two
/// strings joins them left then right, and an operand of the wrong type is
/// an error.
#[verifier::spinoff_prover]
pub proof fn law_binary_values(compute: spec_fn(RequestV) -> u64, a: u64, b: u64, s: Seq<char>, t: Seq<char>, p: bool, q: bool)
    ensures
        eval_binary(compute, BinaryOp::Add, ValueV::Number(a), ValueV::Number(b))
            == Ok::<ValueV, Seq<char>>(ValueV::Number(compute(RequestV::Apply(Arith::Add, a, b)))),
        eval_binary(compute, BinaryOp::Sub, ValueV::Number(a), ValueV::Number(b))
            == Ok::<ValueV, Seq<char>>(ValueV::Number(compute(RequestV::Apply(Arith::Sub, a, b)))),
        eval_binary(compute, BinaryOp::Mul, ValueV::Number(a), ValueV::Number(b))
            == Ok::<ValueV, Seq<char>>(ValueV::Number(compute(RequestV::Apply(Arith::Mul, a, b)))),
        !is_zero(b) ==> eval_binary(compute, BinaryOp::Div, ValueV::Number(a), ValueV::Number(b))
            == Ok::<ValueV, Seq<char>>(ValueV::Number(compute(RequestV::Apply(Arith::Div, a, b)))),
        !is_zero(b) ==> eval_binary(compute, BinaryOp::Mod, ValueV::Number(a), ValueV::Number(b))
            == Ok::<ValueV, Seq<char>>(ValueV::Number(compute(RequestV::Apply(Arith::Rem, a, b)))),
        eval_binary(compute, BinaryOp::Add, ValueV::Str(s), ValueV::Str(t)) == Ok::<ValueV, Seq<char>>(ValueV::Str(s + t)),
        eval_binary(compute, BinaryOp::Add, ValueV::Str(s), ValueV::Number(b)) is Err,
        eval_binary(compute, BinaryOp::Sub, ValueV::Str(s), ValueV::Str(t)) is Err,
        eval_binary(compute, BinaryOp::Less, ValueV::Bool(p), ValueV::Number(b)) is Err,
        eval_binary(compute, BinaryOp::Eq, ValueV::Number(a), ValueV::Number(b))
            == Ok::<ValueV, Seq<char>>(ValueV::Bool(float_eq(a, b))),
        eval_binary(compute, BinaryOp::Eq, ValueV::Bool(p), ValueV::Bool(q)) == Ok::<ValueV, Seq<char>>(ValueV::Bool(p == q)),
        eval_binary(compute, BinaryOp::Eq, ValueV::Nil, ValueV::Nil) == Ok::<ValueV, Seq<char>>(ValueV::Bool(true)),
        eval_binary(compute, BinaryOp::Eq, ValueV::Nil, ValueV::Bool(p)) == Ok::<ValueV, Seq<char>>(ValueV::Bool(false)),
        eval_binary(compute, BinaryOp::Eq, ValueV::Number(a), ValueV::Str(s)) == Ok::<ValueV, Seq<char>>(ValueV::Bool(false)),
        eval_binary(compute, BinaryOp::NotEq, ValueV::Number(a), ValueV::Number(b))
            == Ok::<ValueV, Seq<char>>(ValueV::Bool(!float_eq(a, b))),
{
}

/// A literal evaluates to itself, and reading a variable gives what lookup
/// gives, or the error `undefined variable`; neither changes the state.
#[verifier::spinoff_prover]
pub proof fn law_literals_and_variables(o: Numbers, fuel: nat, st: StateV, env: int, x: u64, s: Seq<char>, b: bool, name: Seq<char>)
    ensures
        eval_expr(o, fuel, st, env, ExprV::Number(x)) == (st, Ok::<ValueV, Seq<char>>(ValueV::Number(x))),
        eval_expr(o, fuel, st, env, ExprV::Str(s)) == (st, Ok::<ValueV, Seq<char>>(ValueV::Str(s))),
        eval_expr(o, fuel, st, env, ExprV::Bool(b)) == (st, Ok::<ValueV, Seq<char>>(ValueV::Bool(b))),
        eval_expr(o, fuel, st, env, ExprV::Nil) == (st, Ok::<ValueV, Seq<char>>(ValueV::Nil)),
        eval_expr(o, fuel, st, env, ExprV::Variable(name)) == (st, match lookup(st.env, env, name) {
            Some(v) => Ok::<ValueV, Seq<char>>(v),
            None => Err("undefined variable '"@ + name + "'"@),
        }),
{
    reveal(eval_expr);
    reveal(eval_args);
    reveal(call_value);
}

/// `-e` negates a number and is an error on anything else; `!e` is the
/// opposite of `e`'s truthiness.
#[verifier::spinoff_prover]
pub proof fn law_unary(o: Numbers, fuel: nat, st: StateV, env: int, e: ExprV)
    ensures
        ({
            let (st1, r) = eval_expr(o, fuel, st, env, e);
            let neg = eval_expr(o, fuel, st, env, ExprV::Unary { op: UnaryOp::Negate, right: Box::new(e) });
            let not = eval_expr(o, fuel, st, env, ExprV::Unary { op: UnaryOp::Not, right: Box::new(e) });
            &&& neg.0 == st1
            &&& not.0 == st1
            &&& match r {
                Ok(ValueV::Number(x)) => neg.1 == Ok::<ValueV, Seq<char>>(ValueV::Number(negate(x))),
                Ok(v) => neg.1 == Err::<ValueV, Seq<char>>("operand of '-' must be a number"@),
                Err(m) => neg.1 == Err::<ValueV, Seq<char>>(m),
            }
            &&& match r {
                Ok(v) => not.1 == Ok::<ValueV, Seq<char>>(ValueV::Bool(!is_truthy(v))),
                Err(m) => not.1 == Err::<ValueV, Seq<char>>(m),
            }
        }),
{
    reveal(eval_expr);
    reveal(eval_args);
    reveal(call_value);
}

/// `e1 op e2` evaluates `e1`, then `e2` from the state `e1` left, then
/// applies the operator to the two values, left operand first.
#[verifier::spinoff_prover]
pub proof fn law_binary_order(o: Numbers, fuel: nat, st: StateV, env: int, l: ExprV, op: BinaryOp, r: ExprV)
    ensures
        ({
            let (st1, r1) = eval_expr(o, fuel, st, env, l);
            let (st2, r2) = eval_expr(o, fuel, st1, env, r);
            let res = eval_expr(o, fuel, st, env, ExprV::Binary { left: Box::new(l), op, right: Box::new(r) });
            match r1 {
                Err(m) => res == (st1, Err::<ValueV, Seq<char>>(m)),
                Ok(lv) => match r2 {
                    Err(m) => res == (st2, Err::<ValueV, Seq<char>>(m)),
                    Ok(rv) => res == (st2, eval_binary(o.compute, op, lv, rv)),
                },
            }
        }),
{
    reveal(eval_expr);
    reveal(eval_args);
    reveal(call_value);
}

/// Calling something that is not a function is the error `'V' is not
/// callable`, and calling a function with the wrong number of arguments is
/// the error `expected P argument(s) but got A`; neither changes the state.
#[verifier::spinoff_prover]
pub proof fn law_call_errors(o: Numbers, fuel: nat, st: StateV, callee: ValueV, args: Seq<ValueV>)
    ensures
        !(callee is Function) ==> call_value(o, fuel, st, callee, args) == (st, Err::<ValueV, Seq<char>>(
            "'"@ + display(o.render, st, callee) + "' is not callable"@,
        )),
        forall|id: nat|
            callee == ValueV::Function(id) && id < st.functions.len() && args.len() != st.functions[id as int].params.len()
                ==> #[trigger] call_value(o, fuel, st, ValueV::Function(id), args) == (st, Err::<ValueV, Seq<char>>(
                "expected "@ + decimal(st.functions[id as int].params.len()) + " argument(s) but got "@ + decimal(args.len()),
            )),
{
    reveal(eval_expr);
    reveal(eval_args);
    reveal(call_value);
    reveal(exec_stmt);
    reveal(exec_block);
    reveal(exec_while);
}

/// `print e` appends the text of `e`'s value to the output, one entry, and
/// changes nothing else; if `e` fails, nothing is printed.
#[verifier::spinoff_prover]
pub proof fn law_print(o: Numbers, fuel: nat, st: StateV, env: int, e: ExprV)
    ensures
        ({
            let (st1, r) = eval_expr(o, fuel, st, env, e);
            let (st2, f) = exec_stmt(o, fuel, st, env, StmtV::Print(e));
            match r {
                Ok(v) => {
                    &&& f == Flow::Normal
                    &&& st2.output == st1.output.push(display(o.render, st1, v))
                    &&& st2.env == st1.env
                    &&& st2.functions == st1.functions
                },
                Err(m) => f == Flow::Error(m) && st2 == st1,
            }
        }),
{
    reveal(eval_expr);
    reveal(eval_args);
    reveal(call_value);
    reveal(exec_stmt);
    reveal(exec_block);
    reveal(exec_while);
}

/// `if (c) t else e` runs `t` when `c` is truthy, else `e` (or nothing).
#[verifier::spinoff_prover]
pub proof fn law_if(o: Numbers, fuel: nat, st: StateV, env: int, c: ExprV, t: StmtV, e: Option<StmtV>)
    ensures
        ({
            let (st1, r) = eval_expr(o, fuel, st, env, c);
            let res = exec_stmt(o, fuel, st, env, StmtV::If {
                condition: c,
                then_branch: Box::new(t),
                else_branch: match e {
                    Some(s) => Some(Box::new(s)),
                    None => None,
                },
            });
            match r {
                Err(m) => res == (st1, Flow::Error(m)),
                Ok(v) => if is_truthy(v) {
                    res == exec_stmt(o, fuel, st1, env, t)
                } else {
                    match e {
                        Some(s) => res == exec_stmt(o, fuel, st1, env, s),
                        None => res == (st1, Flow::Normal),
                    }
                },
            }
        }),
{
    reveal(eval_expr);
    reveal(eval_args);
    reveal(call_value);
    reveal(exec_stmt);
    reveal(exec_block);
    reveal(exec_while);
}

/// `while (c) b` stops as soon as `c` is falsy; while it is truthy, `b` runs
/// and the loop starts again from the state `b` left (one step of fuel
/// spent); `b` ending in `return` or an error ends the loop with it.
#[verifier::spinoff_prover]
pub proof fn law_while(o: Numbers, fuel: nat, st: StateV, env: int, c: ExprV, b: StmtV)
    ensures
        ({
            let (st1, r) = eval_expr(o, fuel, st, env, c);
            let res = exec_stmt(o, fuel, st, env, StmtV::While { condition: c, body: Box::new(b) });
            match r {
                Err(m) => res == (st1, Flow::Error(m)),
                Ok(v) => if !is_truthy(v) {
                    res == (st1, Flow::Normal)
                } else {
                    let (st2, f) = exec_stmt(o, fuel, st1, env, b);
                    match f {
                        Flow::Normal => if fuel == 0 {
                            res == (st2, Flow::Error("evaluation limit reached"@))
                        } else {
                            res == exec_while(o, (fuel - 1) as nat, st2, env, c, b)
                        },
                        _ => res == (st2, f),
                    }
                },
            }
        }),
{
    reveal(eval_expr);
    reveal(eval_args);
    reveal(call_value);
    reveal(exec_stmt);
    reveal(exec_block);
    reveal(exec_while);
    assert(exec_stmt(o, fuel, st, env, StmtV::While { condition: c, body: Box::new(b) }) == exec_while(o, fuel, st, env, c, b));
}

/// `return e` ends with the value of `e`, and a bare `return` with `nil`.
#[verifier::spinoff_prover]
pub proof fn law_return(o: Numbers, fuel: nat, st: StateV, env: int, e: ExprV)
    ensures
        ({
            let (st1, r) = eval_expr(o, fuel, st, env, e);
            let res = exec_stmt(o, fuel, st, env, StmtV::Return(Some(e)));
            match r {
                Ok(v) => res == (st1, Flow::Return(v)),
                Err(m) => res == (st1, Flow::Error(m)),
            }
        }),
        exec_stmt(o, fuel, st, env, StmtV::Return(None)) == (st, Flow::Return(ValueV::Nil)),
{
    reveal(eval_expr);
    reveal(eval_args);
    reveal(call_value);
    reveal(exec_stmt);
    reveal(exec_block);
    reveal(exec_while);
}

/// `fn name(params) { body }` adds a new function value, named `name`, with
/// those parameters and body, closing over the current scope, and binds
/// `name` to it there.
#[verifier::spinoff_prover]
pub proof fn law_function_declaration(o: Numbers, fuel: nat, st: StateV, env: int, name: Seq<char>, params: Seq<Seq<char>>, body: Seq<StmtV>)
    requires
        env_wf(st.env),
        0 <= env < st.env.len(),
    ensures
        ({
            let (st2, f) = exec_stmt(o, fuel, st, env, StmtV::Function { name, params, body });
            &&& f == Flow::Normal
            &&& st2.functions == st.functions.push(FunctionV { name: Some(name), params, body, closure: env as nat })
            &&& lookup(st2.env, env, name) == Some(ValueV::Function(st.functions.len()))
            &&& st2.output == st.output
        }),
{
    reveal(eval_expr);
    reveal(eval_args);
    reveal(call_value);
    reveal(exec_stmt);
    reveal(exec_block);
    reveal(exec_while);
    law_define_then_lookup(st.env, env, name, ValueV::Function(st.functions.len()));
}

/// A block runs its statements in a fresh scope nested in the current one:
/// a variable it declares is gone when it ends, and a block that only
/// declares a variable leaves the state as it was.
#[verifier::spinoff_prover]
pub proof fn law_block_scope(o: Numbers, fuel: nat, st: StateV, env: int, name: Seq<char>)
    requires
        env_wf(st.env),
        0 <= env < st.env.len(),
    ensures
        exec_stmt(o, fuel, st, env, StmtV::Block(seq![StmtV::Var { name, initializer: None }])) == (st, Flow::Normal),
{
    reveal(eval_expr);
    reveal(eval_args);
    reveal(call_value);
    reveal(exec_stmt);
    reveal(exec_block);
    reveal(exec_while);
    let ss = seq![StmtV::Var { name, initializer: None }];
    let scope = st.env.len() as int;
    let st1 = with_env(st, st.env.push(empty_scope(Some(env as nat))));
    let s0 = ss[0];
    let (st2, f) = exec_stmt(o, fuel, st1, scope, s0);
    assert(f == Flow::Normal);
    assert(exec_stmt(o, fuel, st, env, StmtV::Block(ss)) == (release(st, exec_block(o, fuel, st1, scope, ss).0), exec_block(o, fuel, st1, scope, ss).1));
    assert(exec_block(o, fuel, st1, scope, ss) == exec_block(o, fuel, st2, scope, ss.subrange(1, 1)));
    assert(ss.subrange(1, 1) =~= Seq::<StmtV>::empty());
    assert(exec_block(o, fuel, st2, scope, Seq::<StmtV>::empty()) == (st2, Flow::Normal));
    assert(st2.env.subrange(0, scope) =~= st.env);
}

/// Values of different types are never equal; booleans, `nil` and
/// functions are equal exactly when they are the same.
#[verifier::spinoff_prover]
pub proof fn law_value_equality(x: u64, s: Seq<char>, p: bool, q: bool, f: nat, g: nat)
    ensures
        values_equal(ValueV::Bool(p), ValueV::Bool(q)) == (p == q),
        values_equal(ValueV::Nil, ValueV::Nil),
        values_equal(ValueV::Function(f), ValueV::Function(g)) == (f == g),
        !values_equal(ValueV::Number(x), ValueV::Str(s)),
        !values_equal(ValueV::Str(s), ValueV::Nil),
        !values_equal(ValueV::Bool(p), ValueV::Nil),
        !values_equal(ValueV::Number(x), ValueV::Bool(p)),
        !values_equal(ValueV::Function(f), ValueV::Nil),
        !values_equal(ValueV::Nil, ValueV::Bool(false)),
{
}

/// Whether every argument is a number literal.
pub open spec fn all_numbers(args: Seq<ExprV>) -> bool {
    forall|k: int| 0 <= k < args.len() ==> #[trigger] args[k] is Number
}

/// Arguments are evaluated left to right, each to its own value: a list of
/// number literals gives those numbers, in the same order.
#[verifier::spinoff_prover]
pub proof fn law_args_in_order(o: Numbers, fuel: nat, st: StateV, env: int, args: Seq<ExprV>)
    requires
        all_numbers(args),
    ensures
        eval_args(o, fuel, st, env, args).0 == st,
        eval_args(o, fuel, st, env, args).1 matches Ok(vs) && vs.len() == args.len() && forall|k: int|
            0 <= k < args.len() ==> #[trigger] vs[k] == ValueV::Number(args[k]->Number_0),
    decreases args.len(),
{
    reveal(eval_expr);
    reveal(eval_args);
    reveal(call_value);
    if args.len() > 0 {
        let rest = args.subrange(1, args.len() as int);
        assert forall|k: int| 0 <= k < rest.len() implies #[trigger] rest[k] is Number by {
            assert(rest[k] == args[k + 1]);
        }
        law_args_in_order(o, fuel, st, env, rest);
        let v = ValueV::Number(args[0]->Number_0);
        assert(eval_expr(o, fuel, st, env, args[0]) == (st, Ok::<ValueV, Seq<char>>(v)));
        let vs = eval_args(o, fuel, st, env, rest).1->Ok_0;
        let all = seq![v] + vs;
        assert forall|k: int| 0 <= k < args.len() implies #[trigger] all[k] == ValueV::Number(args[k]->Number_0) by {
            if k > 0 {
                assert(all[k] == vs[k - 1]);
                assert(rest[k - 1] == args[k]);
            }
        }
    }
}

/// The statements of a block run in order: each from the state the one
/// before left, up to the first that ends in `return` or an error, which
/// ends the block with it; an empty block does nothing.
#[verifier::spinoff_prover]
pub proof fn law_block_order(o: Numbers, fuel: nat, st: StateV, env: int, ss: Seq<StmtV>)
    ensures
        ss.len() == 0 ==> exec_block(o, fuel, st, env, ss) == (st, Flow::Normal),
        ss.len() > 0 ==> ({
            let (st1, f) = exec_stmt(o, fuel, st, env, ss[0]);
            match f {
                Flow::Normal => exec_block(o, fuel, st, env, ss) == exec_block(o, fuel, st1, env, ss.subrange(1, ss.len() as int)),
                _ => exec_block(o, fuel, st, env, ss) == (st1, f),
            }
        }),
{
    reveal(eval_expr);
    reveal(eval_args);
    reveal(call_value);
    reveal(exec_stmt);
    reveal(exec_block);
    reveal(exec_while);
}

} // verus!
