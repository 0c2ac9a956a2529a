//! The meaning of a Lumen program, stated as a definitional interpreter over
//! abstract syntax and abstract state.
//!
//! The state is the scope store, the table of function values created so
//! far, and the printed output. A function value is an index into the table,
//! and a scope an index into the store; a block or a call makes a fresh scope
//! under the scope it is lexically inside.
//!
//! `fuel` bounds how deeply calls may nest and how many times a `while` loop
//! may repeat; a program runs each top-level statement with `step_limit()`
//! (2^64 - 1), and running out of it is reported as the error
//! `limit_message()`. Numbers come from a `Numbers` backend.

use vstd::prelude::*;
use crate::ast::{BinaryOp, ExprV, LogicalOp, StmtV, UnaryOp};
use crate::number::{float_key, is_nan, is_zero, negate, Arith, Numbers, RequestV};
use crate::text::decimal;
use crate::value::{assign, define, empty_scope, lookup, values_equal, ScopeV, ValueV};

verus! {

/// A function value: its name, parameters, body and the scope it closes over.
pub struct FunctionV {
    pub name: Option<Seq<char>>,
    pub params: Seq<Seq<char>>,
    pub body: Seq<StmtV>,
    pub closure: nat,
}

/// The interpreter's state.
pub struct StateV {
    pub env: Seq<ScopeV>,
    pub functions: Seq<FunctionV>,
    pub output: Seq<Seq<char>>,
}

/// How a statement ended: normally, by `return` with a value, or by an error.
pub enum Flow {
    Normal,
    Return(ValueV),
    Error(Seq<char>),
}

pub open spec fn expr_size(e: ExprV) -> nat
    decreases e,
{
    match e {
        ExprV::Unary { right, .. } => 1 + expr_size(*right),
        ExprV::Binary { left, right, .. } => 1 + expr_size(*left) + expr_size(*right),
        ExprV::Logical { left, right, .. } => 1 + expr_size(*left) + expr_size(*right),
        ExprV::Assign { value, .. } => 1 + expr_size(*value),
        ExprV::Call { callee, args } => 1 + expr_size(*callee) + exprs_size(args),
        _ => 1,
    }
}

pub open spec fn exprs_size(s: Seq<ExprV>) -> nat
    decreases s,
{
    if s.len() == 0 {
        0
    } else {
        1 + expr_size(s[0]) + exprs_size(s.subrange(1, s.len() as int))
    }
}

pub open spec fn stmt_size(s: StmtV) -> nat
    decreases s,
{
    match s {
        StmtV::Expression(e) => 1 + expr_size(e),
        StmtV::Print(e) => 1 + expr_size(e),
        StmtV::Var { initializer, .. } => 1 + match initializer {
            Some(e) => expr_size(e),
            None => 0,
        },
        StmtV::Block(ss) => 1 + stmts_size(ss),
        StmtV::If { condition, then_branch, else_branch } => 1 + expr_size(condition) + stmt_size(*then_branch)
            + match else_branch {
                Some(b) => stmt_size(*b),
                None => 0,
            },
        StmtV::While { condition, body } => 2 + expr_size(condition) + stmt_size(*body),
        StmtV::Function { .. } => 1,
        StmtV::Return(e) => 1 + match e {
            Some(e) => expr_size(e),
            None => 0,
        },
    }
}

pub open spec fn stmts_size(s: Seq<StmtV>) -> nat
    decreases s,
{
    if s.len() == 0 {
        0
    } else {
        1 + stmt_size(s[0]) + stmts_size(s.subrange(1, s.len() as int))
    }
}

/// An argument is smaller than the argument list it is in.
pub proof fn lemma_expr_size_in(s: Seq<ExprV>, i: int)
    requires
        0 <= i < s.len(),
    ensures
        expr_size(s[i]) < exprs_size(s),
    decreases s.len(),
{
    if i > 0 {
        let t = s.subrange(1, s.len() as int);
        lemma_expr_size_in(t, i - 1);
        assert(t[i - 1] == s[i]);
    }
}

/// A statement is smaller than the statement list it is in.
pub proof fn lemma_stmt_size_in(s: Seq<StmtV>, i: int)
    requires
        0 <= i < s.len(),
    ensures
        stmt_size(s[i]) < stmts_size(s),
    decreases s.len(),
{
    if i > 0 {
        let t = s.subrange(1, s.len() as int);
        lemma_stmt_size_in(t, i - 1);
        assert(t[i - 1] == s[i]);
    }
}

/// A value is truthy unless it is `false` or `nil`.
pub open spec fn is_truthy(v: ValueV) -> bool {
    match v {
        ValueV::Nil => false,
        ValueV::Bool(b) => b,
        _ => true,
    }
}

/// The text `print` writes for `v`.
pub open spec fn display(render: spec_fn(u64) -> Seq<char>, st: StateV, v: ValueV) -> Seq<char> {
    match v {
        ValueV::Number(n) => render(n),
        ValueV::Bool(b) => if b { "true"@ } else { "false"@ },
        ValueV::Str(s) => s,
        ValueV::Nil => "nil"@,
        ValueV::Function(f) => if f < st.functions.len() && st.functions[f as int].name is Some {
            "<fn "@ + st.functions[f as int].name->0 + ">"@
        } else {
            "<fn>"@
        },
    }
}

pub open spec fn limit_message() -> Seq<char> {
    "evaluation limit reached"@
}

pub open spec fn undefined_message(name: Seq<char>) -> Seq<char> {
    "undefined variable '"@ + name + "'"@
}

pub open spec fn not_callable_message(render: spec_fn(u64) -> Seq<char>, st: StateV, v: ValueV) -> Seq<char> {
    "'"@ + display(render, st, v) + "' is not callable"@
}

pub open spec fn arity_message(expected: nat, got: nat) -> Seq<char> {
    "expected "@ + decimal(expected) + " argument(s) but got "@ + decimal(got)
}

pub open spec fn numbers_message(sym: Seq<char>) -> Seq<char> {
    "operands of '"@ + sym + "' must be numbers"@
}

pub open spec fn compare_message(sym: Seq<char>) -> Seq<char> {
    "cannot compare operands with '"@ + sym + "'"@
}

/// An arithmetic operation on two numbers; anything else is an error.
pub open spec fn numeric(compute: spec_fn(RequestV) -> u64, op: Arith, left: ValueV, right: ValueV, sym: Seq<char>) -> Result<ValueV, Seq<char>> {
    match (left, right) {
        (ValueV::Number(a), ValueV::Number(b)) => Ok(ValueV::Number(compute(RequestV::Apply(op, a, b)))),
        _ => Err(numbers_message(sym)),
    }
}

/// Whether the keys `a`, `b` are ordered as `op` says (`op` a comparison).
pub open spec fn ordered(op: BinaryOp, a: int, b: int) -> bool {
    match op {
        BinaryOp::Less => a < b,
        BinaryOp::LessEq => a <= b,
        BinaryOp::Greater => a > b,
        _ => a >= b,
    }
}

/// A comparison of two numbers; a NaN operand or a non-number is an error.
pub open spec fn compare(op: BinaryOp, left: ValueV, right: ValueV, sym: Seq<char>) -> Result<ValueV, Seq<char>> {
    match (left, right) {
        (ValueV::Number(a), ValueV::Number(b)) => if is_nan(a) || is_nan(b) {
            Err(compare_message(sym))
        } else {
            Ok(ValueV::Bool(ordered(op, float_key(a), float_key(b))))
        },
        _ => Err(numbers_message(sym)),
    }
}

/// The value of a binary operator applied to two values.
pub open spec fn eval_binary(compute: spec_fn(RequestV) -> u64, op: BinaryOp, left: ValueV, right: ValueV) -> Result<ValueV, Seq<char>> {
    match op {
        BinaryOp::Add => match (left, right) {
            (ValueV::Number(a), ValueV::Number(b)) => Ok(ValueV::Number(compute(RequestV::Apply(Arith::Add, a, b)))),
            (ValueV::Str(a), ValueV::Str(b)) => Ok(ValueV::Str(a + b)),
            _ => Err("operands of '+' must be two numbers or two strings"@),
        },
        BinaryOp::Sub => numeric(compute, Arith::Sub, left, right, "-"@),
        BinaryOp::Mul => numeric(compute, Arith::Mul, left, right, "*"@),
        BinaryOp::Div => match (left, right) {
            (ValueV::Number(a), ValueV::Number(b)) => if is_zero(b) {
                Err("division by zero"@)
            } else {
                Ok(ValueV::Number(compute(RequestV::Apply(Arith::Div, a, b))))
            },
            _ => Err("operands of '/' must be numbers"@),
        },
        BinaryOp::Mod => match (left, right) {
            (ValueV::Number(a), ValueV::Number(b)) => if is_zero(b) {
                Err("modulo by zero"@)
            } else {
                Ok(ValueV::Number(compute(RequestV::Apply(Arith::Rem, a, b))))
            },
            _ => Err("operands of '%' must be numbers"@),
        },
        BinaryOp::Eq => Ok(ValueV::Bool(values_equal(left, right))),
        BinaryOp::NotEq => Ok(ValueV::Bool(!values_equal(left, right))),
        BinaryOp::Less => compare(op, left, right, "<"@),
        BinaryOp::LessEq => compare(op, left, right, "<="@),
        BinaryOp::Greater => compare(op, left, right, ">"@),
        BinaryOp::GreaterEq => compare(op, left, right, ">="@),
    }
}

/// The state after a block or a call that began in state `st` and ended in
/// `st1`. When it made no function value, no closure can reach the scopes it
/// made, and they are released.
pub open spec fn release(st: StateV, st1: StateV) -> StateV {
    if st1.functions.len() == st.functions.len() {
        with_env(st1, st1.env.subrange(0, st.env.len() as int))
    } else {
        st1
    }
}

/// The store with `names[k]` bound to `vals[k]` in scope `s`, in order.
pub open spec fn define_all(e: Seq<ScopeV>, s: int, names: Seq<Seq<char>>, vals: Seq<ValueV>) -> Seq<ScopeV>
    decreases names.len(),
{
    if names.len() == 0 || vals.len() == 0 {
        e
    } else {
        define_all(define(e, s, names[0], vals[0]), s, names.subrange(1, names.len() as int), vals.subrange(1, vals.len() as int))
    }
}

/// The state with `env` as its store.
pub open spec fn with_env(st: StateV, env: Seq<ScopeV>) -> StateV {
    StateV { env, ..st }
}

/// Evaluates `e` in scope `env`.
#[verifier::opaque]
pub open spec fn eval_expr(o: Numbers, fuel: nat, st: StateV, env: int, e: ExprV) -> (StateV, Result<ValueV, Seq<char>>)
    decreases fuel, expr_size(e),
{
    match e {
        ExprV::Number(n) => (st, Ok(ValueV::Number(n))),
        ExprV::Str(s) => (st, Ok(ValueV::Str(s))),
        ExprV::Bool(b) => (st, Ok(ValueV::Bool(b))),
        ExprV::Nil => (st, Ok(ValueV::Nil)),
        ExprV::Variable(name) => match lookup(st.env, env, name) {
            Some(v) => (st, Ok(v)),
            None => (st, Err(undefined_message(name))),
        },
        ExprV::Assign { name, value } => {
            let (st1, r) = eval_expr(o, fuel, st, env, *value);
            match r {
                Err(m) => (st1, Err(m)),
                Ok(v) => match assign(st1.env, env, name, v) {
                    Some(e2) => (with_env(st1, e2), Ok(v)),
                    None => (st1, Err(undefined_message(name))),
                },
            }
        },
        ExprV::Unary { op, right } => {
            let (st1, r) = eval_expr(o, fuel, st, env, *right);
            match r {
                Err(m) => (st1, Err(m)),
                Ok(v) => match op {
                    UnaryOp::Negate => match v {
                        ValueV::Number(n) => (st1, Ok(ValueV::Number(negate(n)))),
                        _ => (st1, Err("operand of '-' must be a number"@)),
                    },
                    UnaryOp::Not => (st1, Ok(ValueV::Bool(!is_truthy(v)))),
                },
            }
        },
        ExprV::Logical { left, op, right } => {
            let (st1, r) = eval_expr(o, fuel, st, env, *left);
            match r {
                Err(m) => (st1, Err(m)),
                Ok(lv) => if (op == LogicalOp::Or && is_truthy(lv)) || (op == LogicalOp::And && !is_truthy(lv)) {
                    (st1, Ok(lv))
                } else {
                    eval_expr(o, fuel, st1, env, *right)
                },
            }
        },
        ExprV::Binary { left, op, right } => {
            let (st1, r1) = eval_expr(o, fuel, st, env, *left);
            match r1 {
                Err(m) => (st1, Err(m)),
                Ok(lv) => {
                    let (st2, r2) = eval_expr(o, fuel, st1, env, *right);
                    match r2 {
                        Err(m) => (st2, Err(m)),
                        Ok(rv) => (st2, eval_binary(o.compute, op, lv, rv)),
                    }
                },
            }
        },
        ExprV::Call { callee, args } => {
            let (st1, rc) = eval_expr(o, fuel, st, env, *callee);
            match rc {
                Err(m) => (st1, Err(m)),
                Ok(c) => {
                    let (st2, ra) = eval_args(o, fuel, st1, env, args);
                    match ra {
                        Err(m) => (st2, Err(m)),
                        Ok(vals) => call_value(o, fuel, st2, c, vals),
                    }
                },
            }
        },
    }
}

/// Evaluates `args` left to right.
#[verifier::opaque]
pub open spec fn eval_args(o: Numbers, fuel: nat, st: StateV, env: int, args: Seq<ExprV>) -> (StateV, Result<Seq<ValueV>, Seq<char>>)
    decreases fuel, exprs_size(args),
{
    if args.len() == 0 {
        (st, Ok(Seq::empty()))
    } else {
        let (st1, r) = eval_expr(o, fuel, st, env, args[0]);
        match r {
            Err(m) => (st1, Err(m)),
            Ok(v) => {
                let (st2, rs) = eval_args(o, fuel, st1, env, args.subrange(1, args.len() as int));
                match rs {
                    Err(m) => (st2, Err(m)),
                    Ok(vs) => (st2, Ok(seq![v] + vs)),
                }
            },
        }
    }
}

/// Calls `callee` with `args`: a fresh scope under the function's closure
/// binds the parameters, then the body runs; it yields the returned value,
/// or `nil` when the body ends without `return`. The scopes the call made
/// are then released if nothing can reach them.
#[verifier::opaque]
pub open spec fn call_value(o: Numbers, fuel: nat, st: StateV, callee: ValueV, args: Seq<ValueV>) -> (StateV, Result<ValueV, Seq<char>>)
    decreases fuel, 0nat,
{
    match callee {
        ValueV::Function(id) => if id >= st.functions.len() {
            (st, Err(not_callable_message(o.render, st, callee)))
        } else {
            let f = st.functions[id as int];
            if args.len() != f.params.len() {
                (st, Err(arity_message(f.params.len(), args.len())))
            } else if fuel == 0 {
                (st, Err(limit_message()))
            } else {
                let scope = st.env.len() as int;
                let env1 = define_all(st.env.push(empty_scope(Some(f.closure))), scope, f.params, args);
                let (st2, flow) = exec_block(o, (fuel - 1) as nat, with_env(st, env1), scope, f.body);
                let st3 = release(st, st2);
                match flow {
                    Flow::Normal => (st3, Ok(ValueV::Nil)),
                    Flow::Return(v) => (st3, Ok(v)),
                    Flow::Error(m) => (st3, Err(m)),
                }
            }
        },
        _ => (st, Err(not_callable_message(o.render, st, callee))),
    }
}

/// Executes `s` in scope `env`.
#[verifier::opaque]
pub open spec fn exec_stmt(o: Numbers, fuel: nat, st: StateV, env: int, s: StmtV) -> (StateV, Flow)
    decreases fuel, stmt_size(s),
{
    match s {
        StmtV::Expression(e) => {
            let (st1, r) = eval_expr(o, fuel, st, env, e);
            match r {
                Err(m) => (st1, Flow::Error(m)),
                Ok(_) => (st1, Flow::Normal),
            }
        },
        StmtV::Print(e) => {
            let (st1, r) = eval_expr(o, fuel, st, env, e);
            match r {
                Err(m) => (st1, Flow::Error(m)),
                Ok(v) => (StateV { output: st1.output.push(display(o.render, st1, v)), ..st1 }, Flow::Normal),
            }
        },
        StmtV::Var { name, initializer } => match initializer {
            Some(e) => {
                let (st1, r) = eval_expr(o, fuel, st, env, e);
                match r {
                    Err(m) => (st1, Flow::Error(m)),
                    Ok(v) => (with_env(st1, define(st1.env, env, name, v)), Flow::Normal),
                }
            },
            None => (with_env(st, define(st.env, env, name, ValueV::Nil)), Flow::Normal),
        },
        StmtV::Block(ss) => {
            let scope = st.env.len() as int;
            let (st1, flow) = exec_block(o, fuel, with_env(st, st.env.push(empty_scope(Some(env as nat)))), scope, ss);
            (release(st, st1), flow)
        },
        StmtV::If { condition, then_branch, else_branch } => {
            let (st1, r) = eval_expr(o, fuel, st, env, condition);
            match r {
                Err(m) => (st1, Flow::Error(m)),
                Ok(v) => if is_truthy(v) {
                    exec_stmt(o, fuel, st1, env, *then_branch)
                } else {
                    match else_branch {
                        Some(b) => exec_stmt(o, fuel, st1, env, *b),
                        None => (st1, Flow::Normal),
                    }
                },
            }
        },
        StmtV::While { condition, body } => exec_while(o, fuel, st, env, condition, *body),
        StmtV::Function { name, params, body } => {
            let id = st.functions.len();
            let f = FunctionV { name: Some(name), params, body, closure: env as nat };
            let st1 = StateV { functions: st.functions.push(f), ..st };
            (with_env(st1, define(st1.env, env, name, ValueV::Function(id))), Flow::Normal)
        },
        StmtV::Return(e) => match e {
            Some(e) => {
                let (st1, r) = eval_expr(o, fuel, st, env, e);
                match r {
                    Err(m) => (st1, Flow::Error(m)),
                    Ok(v) => (st1, Flow::Return(v)),
                }
            },
            None => (st, Flow::Return(ValueV::Nil)),
        },
    }
}

/// Executes `ss` in order in scope `env`, stopping at the first statement
/// that does not end normally.
#[verifier::opaque]
pub open spec fn exec_block(o: Numbers, fuel: nat, st: StateV, env: int, ss: Seq<StmtV>) -> (StateV, Flow)
    decreases fuel, stmts_size(ss),
{
    if ss.len() == 0 {
        (st, Flow::Normal)
    } else {
        let (st1, f) = exec_stmt(o, fuel, st, env, ss[0]);
        match f {
            Flow::Normal => exec_block(o, fuel, st1, env, ss.subrange(1, ss.len() as int)),
            _ => (st1, f),
        }
    }
}

/// Runs a `while` loop: while the condition is truthy, the body runs.
#[verifier::opaque]
pub open spec fn exec_while(o: Numbers, fuel: nat, st: StateV, env: int, condition: ExprV, body: StmtV) -> (StateV, Flow)
    decreases fuel, 1 + expr_size(condition) + stmt_size(body),
{
    let (st1, r) = eval_expr(o, fuel, st, env, condition);
    match r {
        Err(m) => (st1, Flow::Error(m)),
        Ok(v) => if !is_truthy(v) {
            (st1, Flow::Normal)
        } else {
            let (st2, f) = exec_stmt(o, fuel, st1, env, body);
            match f {
                Flow::Normal => if fuel == 0 {
                    (st2, Flow::Error(limit_message()))
                } else {
                    exec_while(o, (fuel - 1) as nat, st2, env, condition, body)
                },
                _ => (st2, f),
            }
        },
    }
}

/// The fuel each top-level statement runs with.
pub open spec fn step_limit() -> nat {
    0xffff_ffff_ffff_ffffnat
}

/// Runs a program's statements in the global scope `0`. A top-level `return`
/// stops the program without error.
#[verifier::opaque]
pub open spec fn run_program(o: Numbers, st: StateV, ss: Seq<StmtV>) -> (StateV, Result<(), Seq<char>>)
    decreases ss.len(),
{
    if ss.len() == 0 {
        (st, Ok(()))
    } else {
        let (st1, f) = exec_stmt(o, step_limit(), st, 0, ss[0]);
        match f {
            Flow::Normal => run_program(o, st1, ss.subrange(1, ss.len() as int)),
            Flow::Return(_) => (st1, Ok(())),
            Flow::Error(m) => (st1, Err(m)),
        }
    }
}

} // verus!
