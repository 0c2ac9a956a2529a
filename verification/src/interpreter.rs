//! The tree-walking evaluator, and the top-level `interpret` pipeline.
//!
//! Every step is proved to compute what `semantics` says: the evaluator's
//! state after an expression, a statement or a whole program, and the value,
//! control flow or error it ends with, are those of the definitional
//! interpreter.

use std::rc::Rc;
use vstd::prelude::*;
use crate::ast::{
    exprs_view, lemma_exprs_view_index, lemma_stmts_view_index, names_view, stmts_view, BinaryOp, Expr,
    LogicalOp, Stmt, UnaryOp,
};
use crate::error::{ErrorAt, LumenError, RuntimeError};
use crate::lexer::{lemma_lex_ends_with_eof, lex, lex_spec};
use crate::number::{
    answers, ask, computes, float_is_nan, float_is_zero, float_less, float_negate, numbers_of, renders, show,
    texts, Arith, NumberRequest, Numbers, RequestV,
};
use crate::parser::{eof_from, has_eof, lemma_eof_from, through_eof, Parser};
use crate::parser_spec::parse_spec;
use crate::semantics;
use crate::semantics::{FunctionV, StateV};
use crate::text::{decimal_string, join, join3, owned};
use crate::token::{lemma_eof_kind, tokens_view, Token, TokenV};
use crate::value::{empty_scope, env_wf, values_view, Environment, Value, ValueV};

verus! {

/// `Rc::clone`: another handle to the same shared value.
#[verifier::external_body]
fn share<T>(rc: &Rc<T>) -> (r: Rc<T>)
    ensures
        r == *rc,
{
    Rc::clone(rc)
}

/// A function value: its name, its parameters, its (shared) body, and the
/// scope it was defined in, which its calls nest inside.
pub struct Function {
    pub name: Option<String>,
    pub params: Vec<String>,
    pub body: Rc<Vec<Stmt>>,
    pub closure: usize,
}

pub open spec fn name_view(n: Option<String>) -> Option<Seq<char>> {
    match n {
        Some(s) => Some(s@),
        None => None,
    }
}

impl View for Function {
    type V = FunctionV;

    open spec fn view(&self) -> FunctionV {
        FunctionV {
            name: name_view(self.name),
            params: names_view(self.params@),
            body: stmts_view((*self.body)@),
            closure: self.closure as nat,
        }
    }
}

pub open spec fn functions_view(fs: Seq<Function>) -> Seq<FunctionV> {
    fs.map_values(|f: Function| f@)
}

pub open spec fn texts_view(s: Seq<String>) -> Seq<Seq<char>> {
    s.map_values(|t: String| t@)
}

/// A state the interpreter can be in: a well-formed store with its global
/// scope, and every function closing over a scope of the store.
pub open spec fn state_wf(st: StateV) -> bool {
    &&& env_wf(st.env)
    &&& st.env.len() > 0
    &&& forall|i: int| 0 <= i < st.functions.len() ==> #[trigger] st.functions[i].closure < st.env.len()
}

/// State `b` comes after `a`: no scope went away, and functions were only added.
pub open spec fn grows(a: StateV, b: StateV) -> bool {
    &&& a.env.len() <= b.env.len()
    &&& a.functions.len() <= b.functions.len()
    &&& forall|i: int| 0 <= i < a.functions.len() ==> #[trigger] b.functions[i] == a.functions[i]
}

/// The state a fresh interpreter starts in.
pub open spec fn initial_state() -> StateV {
    StateV { env: seq![empty_scope(None)], functions: Seq::empty(), output: Seq::empty() }
}

/// A value, or the message of the error that stopped its computation.
pub open spec fn value_result(r: Result<Value, RuntimeError>) -> Result<ValueV, Seq<char>> {
    match r {
        Ok(v) => Ok(v@),
        Err(e) => Err(e.message@),
    }
}

pub open spec fn values_result(r: Result<Vec<Value>, RuntimeError>) -> Result<Seq<ValueV>, Seq<char>> {
    match r {
        Ok(vs) => Ok(values_view(vs@)),
        Err(e) => Err(e.message@),
    }
}

pub open spec fn unit_result(r: Result<(), RuntimeError>) -> Result<(), Seq<char>> {
    match r {
        Ok(()) => Ok(()),
        Err(e) => Err(e.message@),
    }
}

/// Control flow that leaves a statement early: `return` with a value, or an error.
pub enum Interrupt {
    Return(Value),
    Error(RuntimeError),
}

impl From<RuntimeError> for Interrupt {
    fn from(error: RuntimeError) -> (r: Self) {
        Interrupt::Error(error)
    }
}

impl vstd::std_specs::convert::FromSpecImpl<RuntimeError> for Interrupt {
    open spec fn obeys_from_spec() -> bool {
        true
    }

    open spec fn from_spec(error: RuntimeError) -> Interrupt {
        Interrupt::Error(error)
    }
}

/// How a statement ended.
pub open spec fn flow_of(r: Result<(), Interrupt>) -> semantics::Flow {
    match r {
        Ok(()) => semantics::Flow::Normal,
        Err(Interrupt::Return(v)) => semantics::Flow::Return(v@),
        Err(Interrupt::Error(e)) => semantics::Flow::Error(e.message@),
    }
}

/// Whether a value counts as true: all but `false` and `nil` do.
pub fn is_truthy(value: &Value) -> (b: bool)
    ensures
        b == semantics::is_truthy(value@),
{
    match value {
        Value::Nil => false,
        Value::Bool(b) => *b,
        _ => true,
    }
}

fn numbers_error(sym: &str) -> (e: RuntimeError)
    ensures
        e.message@ == semantics::numbers_message(sym@),
{
    RuntimeError::new(join3("operands of '", sym, "' must be numbers"))
}

/// An arithmetic operator applied to two numbers; other operands are an error.
pub fn numeric<C: Fn(NumberRequest) -> u64>(compute: &C, op: Arith, left: Value, right: Value, sym: &str) -> (r: Result<Value, RuntimeError>)
    requires
        computes(*compute),
    ensures
        value_result(r) == semantics::numeric(answers(*compute), op, left@, right@, sym@),
{
    match (left, right) {
        (Value::Number(a), Value::Number(b)) => Ok(Value::Number(ask(compute, NumberRequest::Apply(op, a, b)))),
        _ => Err(numbers_error(sym)),
    }
}

/// A comparison operator (`op` one of `<`, `<=`, `>`, `>=`) applied to two
/// numbers; a NaN operand or a non-number is an error.
pub fn compare(op: BinaryOp, left: Value, right: Value, sym: &str) -> (r: Result<Value, RuntimeError>)
    ensures
        value_result(r) == semantics::compare(op, left@, right@, sym@),
{
    match (left, right) {
        (Value::Number(a), Value::Number(b)) => {
            if float_is_nan(a) || float_is_nan(b) {
                Err(RuntimeError::new(join3("cannot compare operands with '", sym, "'")))
            } else {
                let holds = match op {
                    BinaryOp::Less => float_less(a, b),
                    BinaryOp::LessEq => !float_less(b, a),
                    BinaryOp::Greater => float_less(b, a),
                    _ => !float_less(a, b),
                };
                Ok(Value::Bool(holds))
            }
        },
        _ => Err(numbers_error(sym)),
    }
}

/// A binary operator applied to two values.
pub fn eval_binary<C: Fn(NumberRequest) -> u64>(compute: &C, op: BinaryOp, left: Value, right: Value) -> (r: Result<Value, RuntimeError>)
    requires
        computes(*compute),
    ensures
        value_result(r) == semantics::eval_binary(answers(*compute), op, left@, right@),
{
    match op {
        BinaryOp::Add => match (left, right) {
            (Value::Number(a), Value::Number(b)) => Ok(Value::Number(ask(compute, NumberRequest::Apply(Arith::Add, a, b)))),
            (Value::Str(a), Value::Str(b)) => Ok(Value::Str(join(a, b.as_str()))),
            _ => Err(RuntimeError::new(owned("operands of '+' must be two numbers or two strings"))),
        },
        BinaryOp::Sub => numeric(compute, Arith::Sub, left, right, "-"),
        BinaryOp::Mul => numeric(compute, Arith::Mul, left, right, "*"),
        BinaryOp::Div => match (left, right) {
            (Value::Number(a), Value::Number(b)) => if float_is_zero(b) {
                Err(RuntimeError::new(owned("division by zero")))
            } else {
                Ok(Value::Number(ask(compute, NumberRequest::Apply(Arith::Div, a, b))))
            },
            _ => Err(RuntimeError::new(owned("operands of '/' must be numbers"))),
        },
        BinaryOp::Mod => match (left, right) {
            (Value::Number(a), Value::Number(b)) => if float_is_zero(b) {
                Err(RuntimeError::new(owned("modulo by zero")))
            } else {
                Ok(Value::Number(ask(compute, NumberRequest::Apply(Arith::Rem, a, b))))
            },
            _ => Err(RuntimeError::new(owned("operands of '%' must be numbers"))),
        },
        BinaryOp::Eq => Ok(Value::Bool(left.equals(&right))),
        BinaryOp::NotEq => Ok(Value::Bool(!left.equals(&right))),
        BinaryOp::Less => compare(op, left, right, "<"),
        BinaryOp::LessEq => compare(op, left, right, "<="),
        BinaryOp::Greater => compare(op, left, right, ">"),
        BinaryOp::GreaterEq => compare(op, left, right, ">="),
    }
}

/// The tree-walking interpreter: the scope store (scope `0` holds the
/// globals), the function values made so far, and the text of each `print`.
pub struct Interpreter {
    env: Environment,
    functions: Vec<Function>,
    output: Vec<String>,
}

impl View for Interpreter {
    type V = StateV;

    closed spec fn view(&self) -> StateV {
        StateV { env: self.env@, functions: functions_view(self.functions@), output: texts_view(self.output@) }
    }
}

/// The values `vs` before the values of `r`, if it has any.
pub open spec fn prepend_values(vs: Seq<ValueV>, r: (StateV, Result<Seq<ValueV>, Seq<char>>)) -> (StateV, Result<Seq<ValueV>, Seq<char>>) {
    (r.0, match r.1 {
        Ok(ws) => Ok(vs + ws),
        Err(m) => Err(m),
    })
}

fn undefined(name: &String) -> (e: RuntimeError)
    ensures
        e.message@ == semantics::undefined_message(name@),
{
    RuntimeError::new(join3("undefined variable '", name.as_str(), "'"))
}

fn limit_reached() -> (e: RuntimeError)
    ensures
        e.message@ == semantics::limit_message(),
{
    RuntimeError::new(owned("evaluation limit reached"))
}

fn arity_error(expected: usize, got: usize) -> (e: RuntimeError)
    ensures
        e.message@ == semantics::arity_message(expected as nat, got as nat),
{
    let s = join(owned("expected "), decimal_string(expected).as_str());
    let s = join(s, " argument(s) but got ");
    RuntimeError::new(join(s, decimal_string(got).as_str()))
}

impl Default for Interpreter {
    fn default() -> (it: Self)
        ensures
            it.wf(),
            it@ == initial_state(),
    {
        Interpreter::new()
    }
}

impl Interpreter {
    /// The interpreter's state is well formed.
    pub open spec fn wf(&self) -> bool {
        state_wf(self@)
    }

    /// A fresh interpreter: an empty global scope, no output.
    pub fn new() -> (it: Self)
        ensures
            it.wf(),
            it@ == initial_state(),
    {
        let it = Interpreter { env: Environment::new(), functions: Vec::new(), output: Vec::new() };
        assert(it@.functions =~= Seq::<FunctionV>::empty());
        assert(it@.output =~= Seq::<Seq<char>>::empty());
        it
    }

    /// The output produced so far (one entry per `print`).
    pub fn output(&self) -> (out: &[String])
        ensures
            texts_view(out@) == self@.output,
    {
        self.output.as_slice()
    }

    /// Drains the accumulated output.
    pub fn take_output(&mut self) -> (out: Vec<String>)
        ensures
            texts_view(out@) == old(self)@.output,
            final(self)@ == (StateV { output: Seq::empty(), ..old(self)@ }),
    {
        let mut out: Vec<String> = Vec::new();
        std::mem::swap(&mut out, &mut self.output);
        assert(self@.output =~= Seq::<Seq<char>>::empty());
        out
    }

    /// Consumes the interpreter, returning all collected output.
    pub fn into_output(self) -> (out: Vec<String>)
        ensures
            texts_view(out@) == self@.output,
    {
        self.output
    }

    /// The text `print` writes for `value`: a number as `render` gives it,
    /// `true`, `false`, a string's own text, `nil`, or `<fn NAME>` for a
    /// function (`<fn>` for one without a name).
    pub fn display<R: Fn(u64) -> String>(&self, render: &R, value: &Value) -> (s: String)
        requires
            renders(*render),
        ensures
            s@ == semantics::display(texts(*render), self@, value@),
    {
        match value {
            Value::Number(n) => show(render, *n),
            Value::Bool(b) => if *b { owned("true") } else { owned("false") },
            Value::Str(s) => s.clone(),
            Value::Nil => owned("nil"),
            Value::Function(f) => {
                if *f < self.functions.len() {
                    match &self.functions[*f].name {
                        Some(name) => join3("<fn ", name.as_str(), ">"),
                        None => owned("<fn>"),
                    }
                } else {
                    owned("<fn>")
                }
            },
        }
    }

    fn not_callable<R: Fn(u64) -> String>(&self, render: &R, value: &Value) -> (e: RuntimeError)
        requires
            renders(*render),
        ensures
            e.message@ == semantics::not_callable_message(texts(*render), self@, value@),
    {
        RuntimeError::new(join3("'", self.display(render, value).as_str(), "' is not callable"))
    }
}

impl Interpreter {
    /// Releases the scopes made since state `st`, which had `n` scopes and
    /// `count` functions, when no function was made since.
    fn release(&mut self, Ghost(st): Ghost<StateV>, n: usize, count: usize)
        requires
            old(self).wf(),
            state_wf(st),
            grows(st, old(self)@),
            n == st.env.len(),
            count == st.functions.len(),
        ensures
            final(self).wf(),
            final(self)@ == semantics::release(st, old(self)@),
            grows(st, final(self)@),
    {
        if self.functions.len() == count {
            self.env.truncate(n);
            proof {
                assert forall|k: int| 0 <= k < self@.functions.len() implies #[trigger] self@.functions[k].closure < self@.env.len() by {
                    assert(st.functions[k].closure < st.env.len());
                }
            }
        }
    }

    /// Evaluates `expr` in scope `env`.
    #[verifier::spinoff_prover]
    fn evaluate<C: Fn(NumberRequest) -> u64, R: Fn(u64) -> String>(
        &mut self,
        compute: &C,
        render: &R,
        fuel: u64,
        env: usize,
        expr: &Expr,
    ) -> (r: Result<Value, RuntimeError>)
        requires
            old(self).wf(),
            env < old(self)@.env.len(),
            computes(*compute),
            renders(*render),
        ensures
            final(self).wf(),
            grows(old(self)@, final(self)@),
            (final(self)@, value_result(r)) == semantics::eval_expr(
                numbers_of(*compute, *render),
                fuel as nat,
                old(self)@,
                env as int,
                expr@,
            ),
        decreases fuel, semantics::expr_size(expr@), 0nat,
    {
        proof {
            reveal(semantics::eval_expr);
        }
        match expr {
            Expr::Number(n) => Ok(Value::Number(*n)),
            Expr::Str(s) => Ok(Value::Str(s.clone())),
            Expr::Bool(b) => Ok(Value::Bool(*b)),
            Expr::Nil => Ok(Value::Nil),
            Expr::Variable(name) => match self.env.get_in(env, name) {
                Some(v) => Ok(v),
                None => Err(undefined(name)),
            },
            Expr::Assign { name, value } => {
                let v = match self.evaluate(compute, render, fuel, env, value) {
                    Ok(v) => v,
                    Err(e) => return Err(e),
                };
                let ghost st1 = self@;
                let ghost vv = v@;
                let result = v.duplicate();
                proof {
                    crate::value::lemma_assign_len(st1.env, env as int, name@, vv);
                }
                if self.env.assign_in(env, name, v) {
                    assert(self@ == semantics::with_env(st1, self.env@));
                    Ok(result)
                } else {
                    Err(undefined(name))
                }
            },
            Expr::Unary { op, right } => {
                let v = match self.evaluate(compute, render, fuel, env, right) {
                    Ok(v) => v,
                    Err(e) => return Err(e),
                };
                match op {
                    UnaryOp::Negate => match v {
                        Value::Number(n) => Ok(Value::Number(float_negate(n))),
                        _ => Err(RuntimeError::new(owned("operand of '-' must be a number"))),
                    },
                    UnaryOp::Not => Ok(Value::Bool(!is_truthy(&v))),
                }
            },
            Expr::Logical { left, op, right } => {
                let lv = match self.evaluate(compute, render, fuel, env, left) {
                    Ok(v) => v,
                    Err(e) => return Err(e),
                };
                let t = is_truthy(&lv);
                let stop = match op {
                    LogicalOp::Or => t,
                    LogicalOp::And => !t,
                };
                if stop {
                    Ok(lv)
                } else {
                    self.evaluate(compute, render, fuel, env, right)
                }
            },
            Expr::Binary { left, op, right } => {
                let lv = match self.evaluate(compute, render, fuel, env, left) {
                    Ok(v) => v,
                    Err(e) => return Err(e),
                };
                let rv = match self.evaluate(compute, render, fuel, env, right) {
                    Ok(v) => v,
                    Err(e) => return Err(e),
                };
                eval_binary(compute, *op, lv, rv)
            },
            Expr::Call { callee, args } => {
                let f = match self.evaluate(compute, render, fuel, env, callee) {
                    Ok(v) => v,
                    Err(e) => return Err(e),
                };
                let vals = match self.evaluate_args(compute, render, fuel, env, args) {
                    Ok(vs) => vs,
                    Err(e) => return Err(e),
                };
                self.call_function(compute, render, fuel, f, vals)
            },
        }
    }

    /// Evaluates `args` left to right.
    #[verifier::spinoff_prover]
    fn evaluate_args<C: Fn(NumberRequest) -> u64, R: Fn(u64) -> String>(
        &mut self,
        compute: &C,
        render: &R,
        fuel: u64,
        env: usize,
        args: &Vec<Expr>,
    ) -> (r: Result<Vec<Value>, RuntimeError>)
        requires
            old(self).wf(),
            env < old(self)@.env.len(),
            computes(*compute),
            renders(*render),
        ensures
            final(self).wf(),
            grows(old(self)@, final(self)@),
            (final(self)@, values_result(r)) == semantics::eval_args(
                numbers_of(*compute, *render),
                fuel as nat,
                old(self)@,
                env as int,
                exprs_view(args@),
            ),
        decreases fuel, semantics::exprs_size(exprs_view(args@)), 0nat,
    {
        let ghost o = numbers_of(*compute, *render);
        let ghost es = exprs_view(args@);
        let ghost st0 = self@;
        proof {
            lemma_exprs_view_index(args@);
            assert(es.subrange(0, es.len() as int) =~= es);
        }
        let mut values: Vec<Value> = Vec::new();
        assert(values_view(values@) =~= Seq::<ValueV>::empty());
        let mut i: usize = 0;
        while i < args.len()
            invariant
                self.wf(),
                env < self@.env.len(),
                grows(st0, self@),
                st0 == old(self)@,
                computes(*compute),
                renders(*render),
                o == numbers_of(*compute, *render),
                es == exprs_view(args@),
                es.len() == args@.len(),
                forall|k: int| 0 <= k < args@.len() ==> #[trigger] es[k] == args@[k]@,
                i <= args.len(),
                semantics::eval_args(o, fuel as nat, st0, env as int, es) == prepend_values(
                    values_view(values@),
                    semantics::eval_args(o, fuel as nat, self@, env as int, es.subrange(i as int, es.len() as int)),
                ),
            decreases args.len() - i,
        {
            let ghost sub = es.subrange(i as int, es.len() as int);
            let ghost vs0 = values_view(values@);
            proof {
                semantics::lemma_expr_size_in(es, i as int);
                reveal(semantics::eval_args);
                assert(sub[0] == es[i as int]);
                assert(sub.subrange(1, sub.len() as int) =~= es.subrange(i + 1, es.len() as int));
            }
            let v = match self.evaluate(compute, render, fuel, env, &args[i]) {
                Ok(v) => v,
                Err(e) => return Err(e),
            };
            let ghost vv = v@;
            values.push(v);
            proof {
                assert(values_view(values@) =~= vs0 + seq![vv]);
                assert(vs0 + (seq![vv] + seq![]) =~= (vs0 + seq![vv]) + seq![]);
                assert forall|ws: Seq<ValueV>| #[trigger] (vs0 + (seq![vv] + ws)) == (vs0 + seq![vv]) + ws by {
                    assert(vs0 + (seq![vv] + ws) =~= (vs0 + seq![vv]) + ws);
                }
            }
            i += 1;
        }
        proof {
            reveal(semantics::eval_args);
            assert(values_view(values@) + Seq::<ValueV>::empty() =~= values_view(values@));
        }
        Ok(values)
    }

    /// Calls `callee` with `args`.
    #[verifier::spinoff_prover]
    fn call_function<C: Fn(NumberRequest) -> u64, R: Fn(u64) -> String>(
        &mut self,
        compute: &C,
        render: &R,
        fuel: u64,
        callee: Value,
        args: Vec<Value>,
    ) -> (r: Result<Value, RuntimeError>)
        requires
            old(self).wf(),
            computes(*compute),
            renders(*render),
        ensures
            final(self).wf(),
            grows(old(self)@, final(self)@),
            (final(self)@, value_result(r)) == semantics::call_value(
                numbers_of(*compute, *render),
                fuel as nat,
                old(self)@,
                callee@,
                values_view(args@),
            ),
        decreases fuel, 0nat, 0nat,
    {
        proof {
            reveal(semantics::call_value);
        }
        let ghost o = numbers_of(*compute, *render);
        let ghost st0 = self@;
        let id = match &callee {
            Value::Function(id) => *id,
            _ => return Err(self.not_callable(render, &callee)),
        };
        if id >= self.functions.len() {
            return Err(self.not_callable(render, &callee));
        }
        let n = self.functions[id].params.len();
        if args.len() != n {
            return Err(arity_error(n, args.len()));
        }
        if fuel == 0 {
            return Err(limit_reached());
        }
        let ghost f = st0.functions[id as int];
        assert(f == self.functions@[id as int]@);
        let closure = self.functions[id].closure;
        assert(closure < st0.env.len());
        let scope = self.env.with_parent(closure);
        let ghost env1 = self.env@;
        let ghost vals = values_view(args@);
        assert(self@.functions == st0.functions);
        assert(f.params.len() == n);
        assert(f.params.subrange(0, n as int) =~= f.params);
        assert(vals.subrange(0, n as int) =~= vals);
        let mut i: usize = 0;
        while i < n
            invariant
                self.wf(),
                self@.functions == st0.functions,
                self@.output == st0.output,
                st0 == old(self)@,
                state_wf(st0),
                st0.env.len() < self@.env.len(),
                scope == st0.env.len(),
                id < self.functions@.len(),
                f == self.functions@[id as int]@,
                n == self.functions@[id as int].params@.len(),
                n == args@.len(),
                vals == values_view(args@),
                i <= n,
                semantics::define_all(env1, scope as int, f.params, vals) == semantics::define_all(
                    self@.env,
                    scope as int,
                    f.params.subrange(i as int, n as int),
                    vals.subrange(i as int, n as int),
                ),
            decreases n - i,
        {
            let name = self.functions[id].params[i].clone();
            let value = args[i].duplicate();
            let ghost ps = f.params.subrange(i as int, n as int);
            let ghost ws = vals.subrange(i as int, n as int);
            proof {
                assert(ps[0] == name@);
                assert(ws[0] == value@);
                assert(ps.subrange(1, ps.len() as int) =~= f.params.subrange(i + 1, n as int));
                assert(ws.subrange(1, ws.len() as int) =~= vals.subrange(i + 1, n as int));
            }
            self.env.define(scope, name, value);
            proof {
                assert forall|k: int| 0 <= k < self@.functions.len() implies #[trigger] self@.functions[k].closure < self@.env.len() by {
                    assert(st0.functions[k].closure < st0.env.len());
                }
            }
            i += 1;
        }
        proof {
            assert(f.params.subrange(n as int, n as int) =~= Seq::<Seq<char>>::empty());
            assert(vals.subrange(n as int, n as int) =~= Seq::<ValueV>::empty());
            assert(self@ == semantics::with_env(st0, self@.env));
        }
        let body = share(&self.functions[id].body);
        let count = self.functions.len();
        let r = self.exec_block(compute, render, fuel - 1, scope, &*body);
        self.release(Ghost(st0), scope, count);
        match r {
            Ok(()) => Ok(Value::Nil),
            Err(Interrupt::Return(v)) => Ok(v),
            Err(Interrupt::Error(e)) => Err(e),
        }
    }

    /// Executes `stmts` in order in scope `env`.
    #[verifier::spinoff_prover]
    fn exec_block<C: Fn(NumberRequest) -> u64, R: Fn(u64) -> String>(
        &mut self,
        compute: &C,
        render: &R,
        fuel: u64,
        env: usize,
        stmts: &Vec<Stmt>,
    ) -> (r: Result<(), Interrupt>)
        requires
            old(self).wf(),
            env < old(self)@.env.len(),
            computes(*compute),
            renders(*render),
        ensures
            final(self).wf(),
            grows(old(self)@, final(self)@),
            (final(self)@, flow_of(r)) == semantics::exec_block(
                numbers_of(*compute, *render),
                fuel as nat,
                old(self)@,
                env as int,
                stmts_view(stmts@),
            ),
        decreases fuel, semantics::stmts_size(stmts_view(stmts@)), 0nat,
    {
        let ghost o = numbers_of(*compute, *render);
        let ghost ss = stmts_view(stmts@);
        let ghost st0 = self@;
        proof {
            lemma_stmts_view_index(stmts@);
            assert(ss.subrange(0, ss.len() as int) =~= ss);
        }
        let mut i: usize = 0;
        while i < stmts.len()
            invariant
                self.wf(),
                env < self@.env.len(),
                grows(st0, self@),
                st0 == old(self)@,
                computes(*compute),
                renders(*render),
                o == numbers_of(*compute, *render),
                ss == stmts_view(stmts@),
                ss.len() == stmts@.len(),
                forall|k: int| 0 <= k < stmts@.len() ==> #[trigger] ss[k] == stmts@[k]@,
                i <= stmts.len(),
                semantics::exec_block(o, fuel as nat, st0, env as int, ss) == semantics::exec_block(
                    o,
                    fuel as nat,
                    self@,
                    env as int,
                    ss.subrange(i as int, ss.len() as int),
                ),
            decreases stmts.len() - i,
        {
            let ghost sub = ss.subrange(i as int, ss.len() as int);
            proof {
                semantics::lemma_stmt_size_in(ss, i as int);
                reveal(semantics::exec_block);
                assert(sub[0] == ss[i as int]);
                assert(sub.subrange(1, sub.len() as int) =~= ss.subrange(i + 1, ss.len() as int));
            }
            match self.execute(compute, render, fuel, env, &stmts[i]) {
                Ok(()) => {},
                Err(x) => return Err(x),
            }
            i += 1;
        }
        proof {
            reveal(semantics::exec_block);
        }
        Ok(())
    }

    /// Executes `stmt` in scope `env`.
    #[verifier::spinoff_prover]
    fn execute<C: Fn(NumberRequest) -> u64, R: Fn(u64) -> String>(
        &mut self,
        compute: &C,
        render: &R,
        fuel: u64,
        env: usize,
        stmt: &Stmt,
    ) -> (r: Result<(), Interrupt>)
        requires
            old(self).wf(),
            env < old(self)@.env.len(),
            computes(*compute),
            renders(*render),
        ensures
            final(self).wf(),
            grows(old(self)@, final(self)@),
            (final(self)@, flow_of(r)) == semantics::exec_stmt(
                numbers_of(*compute, *render),
                fuel as nat,
                old(self)@,
                env as int,
                stmt@,
            ),
        decreases fuel, semantics::stmt_size(stmt@), 0nat,
    {
        proof {
            reveal(semantics::exec_stmt);
        }
        let ghost o = numbers_of(*compute, *render);
        let ghost st0 = self@;
        match stmt {
            Stmt::Expression(e) => match self.evaluate(compute, render, fuel, env, e) {
                Ok(_) => Ok(()),
                Err(e) => Err(Interrupt::from(e)),
            },
            Stmt::Print(e) => {
                let v = match self.evaluate(compute, render, fuel, env, e) {
                    Ok(v) => v,
                    Err(e) => return Err(Interrupt::from(e)),
                };
                let text = self.display(render, &v);
                let ghost st1 = self@;
                self.output.push(text);
                assert(self@.output =~= st1.output.push(text@));
                Ok(())
            },
            Stmt::Var { name, initializer } => {
                let v = match initializer {
                    Some(e) => match self.evaluate(compute, render, fuel, env, e) {
                        Ok(v) => v,
                        Err(e) => return Err(Interrupt::from(e)),
                    },
                    None => Value::Nil,
                };
                let ghost st1 = self@;
                self.env.define(env, name.clone(), v);
                assert(self@ == semantics::with_env(st1, self.env@));
                Ok(())
            },
            Stmt::Block(stmts) => {
                let n = self.env.len();
                let count = self.functions.len();
                let scope = self.env.with_parent(env);
                assert(self@ == semantics::with_env(st0, self.env@));
                proof {
                    assert forall|k: int| 0 <= k < self@.functions.len() implies #[trigger] self@.functions[k].closure < self@.env.len() by {
                        assert(st0.functions[k].closure < st0.env.len());
                    }
                }
                let r = self.exec_block(compute, render, fuel, scope, stmts);
                self.release(Ghost(st0), n, count);
                r
            },
            Stmt::If { condition, then_branch, else_branch } => {
                let v = match self.evaluate(compute, render, fuel, env, condition) {
                    Ok(v) => v,
                    Err(e) => return Err(Interrupt::from(e)),
                };
                if is_truthy(&v) {
                    self.execute(compute, render, fuel, env, then_branch)
                } else {
                    match else_branch {
                        Some(b) => self.execute(compute, render, fuel, env, b),
                        None => Ok(()),
                    }
                }
            },
            Stmt::While { condition, body } => self.execute_while(compute, render, fuel, env, condition, body),
            Stmt::Function { name, params, body } => {
                let id = self.functions.len();
                let function = Function {
                    name: Some(name.clone()),
                    params: clone_names(params),
                    body: share(body),
                    closure: env,
                };
                self.functions.push(function);
                let ghost st1 = self@;
                assert(st1.functions =~= st0.functions.push(function@));
                self.env.define(env, name.clone(), Value::Function(id));
                assert(self@ == semantics::with_env(st1, self.env@));
                Ok(())
            },
            Stmt::Return(e) => {
                let v = match e {
                    Some(e) => match self.evaluate(compute, render, fuel, env, e) {
                        Ok(v) => v,
                        Err(e) => return Err(Interrupt::from(e)),
                    },
                    None => Value::Nil,
                };
                Err(Interrupt::Return(v))
            },
        }
    }

    /// Runs a `while` loop: the condition is evaluated before each pass, and
    /// the body runs while it is truthy.
    #[verifier::spinoff_prover]
    fn execute_while<C: Fn(NumberRequest) -> u64, R: Fn(u64) -> String>(
        &mut self,
        compute: &C,
        render: &R,
        fuel: u64,
        env: usize,
        condition: &Expr,
        body: &Stmt,
    ) -> (r: Result<(), Interrupt>)
        requires
            old(self).wf(),
            env < old(self)@.env.len(),
            computes(*compute),
            renders(*render),
        ensures
            final(self).wf(),
            grows(old(self)@, final(self)@),
            (final(self)@, flow_of(r)) == semantics::exec_while(
                numbers_of(*compute, *render),
                fuel as nat,
                old(self)@,
                env as int,
                condition@,
                body@,
            ),
        decreases fuel, 1 + semantics::expr_size(condition@) + semantics::stmt_size(body@), 0nat,
    {
        let ghost o = numbers_of(*compute, *render);
        let ghost st0 = self@;
        let mut left: u64 = fuel;
        loop
            invariant
                self.wf(),
                env < self@.env.len(),
                grows(st0, self@),
                st0 == old(self)@,
                computes(*compute),
                renders(*render),
                o == numbers_of(*compute, *render),
                left <= fuel,
                semantics::exec_while(o, fuel as nat, st0, env as int, condition@, body@) == semantics::exec_while(
                    o,
                    left as nat,
                    self@,
                    env as int,
                    condition@,
                    body@,
                ),
            decreases left,
        {
            proof {
                reveal(semantics::exec_while);
            }
            let v = match self.evaluate(compute, render, left, env, condition) {
                Ok(v) => v,
                Err(e) => return Err(Interrupt::from(e)),
            };
            if !is_truthy(&v) {
                return Ok(());
            }
            match self.execute(compute, render, left, env, body) {
                Ok(()) => {},
                Err(x) => return Err(x),
            }
            if left == 0 {
                return Err(Interrupt::from(limit_reached()));
            }
            left = left - 1;
        }
    }
}

/// A copy of a list of names.
fn clone_names(names: &Vec<String>) -> (r: Vec<String>)
    ensures
        names_view(r@) == names_view(names@),
{
    let mut r: Vec<String> = Vec::new();
    let mut i: usize = 0;
    while i < names.len()
        invariant
            i <= names@.len(),
            r@.len() == i,
            forall|k: int| 0 <= k < i ==> #[trigger] r@[k]@ == names@[k]@,
        decreases names@.len() - i,
    {
        r.push(names[i].clone());
        i += 1;
    }
    assert(names_view(r@) =~= names_view(names@));
    r
}

impl Interpreter {
    /// Executes a program in the global scope. A top-level `return` simply
    /// stops execution.
    #[verifier::spinoff_prover]
    pub fn run<C: Fn(NumberRequest) -> u64, R: Fn(u64) -> String>(
        &mut self,
        statements: &[Stmt],
        compute: &C,
        render: &R,
    ) -> (r: Result<(), RuntimeError>)
        requires
            old(self).wf(),
            computes(*compute),
            renders(*render),
        ensures
            final(self).wf(),
            (final(self)@, unit_result(r)) == semantics::run_program(
                numbers_of(*compute, *render),
                old(self)@,
                stmts_view(statements@),
            ),
    {
        let ghost o = numbers_of(*compute, *render);
        let ghost ss = stmts_view(statements@);
        let ghost st0 = self@;
        proof {
            lemma_stmts_view_index(statements@);
            assert(ss.subrange(0, ss.len() as int) =~= ss);
        }
        let mut i: usize = 0;
        while i < statements.len()
            invariant
                self.wf(),
                st0 == old(self)@,
                computes(*compute),
                renders(*render),
                o == numbers_of(*compute, *render),
                ss == stmts_view(statements@),
                ss.len() == statements@.len(),
                forall|k: int| 0 <= k < statements@.len() ==> #[trigger] ss[k] == statements@[k]@,
                i <= statements.len(),
                semantics::run_program(o, st0, ss) == semantics::run_program(
                    o,
                    self@,
                    ss.subrange(i as int, ss.len() as int),
                ),
            decreases statements.len() - i,
        {
            let ghost sub = ss.subrange(i as int, ss.len() as int);
            proof {
                reveal(semantics::run_program);
                assert(sub[0] == ss[i as int]);
                assert(sub.subrange(1, sub.len() as int) =~= ss.subrange(i + 1, ss.len() as int));
            }
            match self.execute(compute, render, 0xffff_ffff_ffff_ffffu64, 0, &statements[i]) {
                Ok(()) => {},
                Err(Interrupt::Return(_)) => return Ok(()),
                Err(Interrupt::Error(e)) => return Err(e),
            }
            i += 1;
        }
        proof {
            reveal(semantics::run_program);
        }
        Ok(())
    }
}

/// How the whole pipeline can fail: at lexing, at parsing, or at run time.
pub enum Failure {
    Lex(ErrorAt),
    Parse(ErrorAt),
    Runtime(Seq<char>),
}

/// What running `source` gives: the text of each `print`, in order, or the
/// first stage's error. The program starts from a fresh interpreter.
pub open spec fn interpret_spec(o: Numbers, source: Seq<char>) -> Result<Seq<Seq<char>>, Failure> {
    match lex_spec(o.compute, source) {
        Err(e) => Err(Failure::Lex(e)),
        Ok(ts) => match parse_spec(ts) {
            Err(e) => Err(Failure::Parse(e)),
            Ok(ss) => {
                let (st, r) = semantics::run_program(o, initial_state(), ss);
                match r {
                    Ok(()) => Ok(st.output),
                    Err(m) => Err(Failure::Runtime(m)),
                }
            },
        },
    }
}

/// The abstract outcome of `interpret`.
pub open spec fn outcome_of(r: Result<Vec<String>, LumenError>) -> Result<Seq<Seq<char>>, Failure> {
    match r {
        Ok(out) => Ok(texts_view(out@)),
        Err(LumenError::Lex(e)) => Err(Failure::Lex(e@)),
        Err(LumenError::Parse(e)) => Err(Failure::Parse(e@)),
        Err(LumenError::Runtime(e)) => Err(Failure::Runtime(e.message@)),
    }
}

/// The tokens of a successful lex, which the parser accepts and reads whole.
pub proof fn lemma_lexed_tokens_terminated(compute: spec_fn(RequestV) -> u64, source: Seq<char>, tokens: Seq<Token>)
    requires
        lex_spec(compute, source) == Ok::<Seq<TokenV>, ErrorAt>(tokens_view(tokens)),
    ensures
        has_eof(tokens),
        through_eof(tokens) == tokens,
{
    lemma_lex_ends_with_eof(compute, source, 0, 1, 1);
    let n = tokens.len();
    let tv = tokens_view(tokens);
    assert(tv.len() == n);
    assert(tv[n - 1] == tokens[n - 1]@);
    lemma_eof_kind(tokens[n - 1].kind);
    assert(tokens[n - 1].kind is Eof);
    lemma_eof_from(tokens, 0);
    if let Some(k) = eof_from(tokens, 0) {
        if k < n - 1 {
            assert(tv[k] == tokens[k]@);
            lemma_eof_kind(tokens[k].kind);
        }
        assert(tokens.subrange(0, n as int) =~= tokens);
    }
}

/// Lexes, parses, and runs `source`, returning the collected `print` output.
/// Numbers are computed by `compute` and printed by `render`.
pub fn interpret<C: Fn(NumberRequest) -> u64, R: Fn(u64) -> String>(
    source: &str,
    compute: &C,
    render: &R,
) -> (r: Result<Vec<String>, LumenError>)
    requires
        source@.len() < usize::MAX,
        computes(*compute),
        renders(*render),
    ensures
        outcome_of(r) == interpret_spec(numbers_of(*compute, *render), source@),
{
    let tokens = match lex(source, compute) {
        Ok(tokens) => tokens,
        Err(e) => return Err(LumenError::Lex(e)),
    };
    proof {
        lemma_lexed_tokens_terminated(answers(*compute), source@, tokens@);
    }
    let statements = match Parser::new(tokens).parse() {
        Ok(statements) => statements,
        Err(e) => return Err(LumenError::Parse(e)),
    };
    let mut interpreter = Interpreter::new();
    match interpreter.run(statements.as_slice(), compute, render) {
        Ok(()) => Ok(interpreter.into_output()),
        Err(e) => Err(LumenError::Runtime(e)),
    }
}

} // verus!
