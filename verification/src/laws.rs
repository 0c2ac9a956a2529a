//! What holds of the library as a whole: the laws of the scope store, of
//! evaluation and of the pipeline's stages.

use vstd::prelude::*;
use crate::ast::{BinaryOp, ExprV, LogicalOp, StmtV};
use crate::lexer::{
    ident_end, lemma_ident_end, lemma_lex_ends_with_eof, lemma_lex_positions, lemma_line_end, lemma_number_end,
    lemma_string_end, lex_from, lex_spec, line_end, number_end, one_based, pair_kinds, single_kind, starts_identifier,
    string_end, is_digit,
};
use crate::parser_spec::comparison_op;
use crate::number::{float_key, is_nan, is_zero, Numbers, RequestV};
use crate::semantics::{
    call_value, define_all, display, eval_args, eval_binary, eval_expr, exec_block, exec_stmt, exec_while,
    expr_size, exprs_size, is_truthy, release, run_program, step_limit, stmt_size, stmts_size, with_env, Flow,
    StateV,
};
use crate::token::Kind;
use crate::value::{
    assign, define, empty_scope, env_wf, find, lemma_assign_len, lemma_find_from, lookup, scope_define, scope_ok,
    values_equal, ScopeV, ValueV,
};

verus! {

proof fn lemma_find_push(names: Seq<Seq<char>>, n: Seq<char>, m: Seq<char>)
    ensures
        find(names.push(n), m) == if find(names, m) is Some { find(names, m) } else if m == n {
            Some(names.len() as int)
        } else {
            None
        },
{
    lemma_find_from(names, m, 0);
    lemma_find_from(names.push(n), m, 0);
    let p = names.push(n);
    if let Some(j) = find(names, m) {
        if let Some(k) = find(p, m) {
            if k < j {
                assert(p[k] == names[k]);
            }
            if j < k {
                assert(p[j] == names[j]);
            }
        } else {
            assert(p[j] == names[j]);
        }
    } else {
        if let Some(k) = find(p, m) {
            if k < names.len() {
                assert(p[k] == names[k]);
            }
        } else {
            if m == n {
                assert(p[names.len() as int] == n);
            }
        }
    }
}

/// Binding `n` in a scope leaves what any other name means in that scope.
proof fn lemma_scope_define_other(sc: ScopeV, n: Seq<char>, v: ValueV, m: Seq<char>)
    requires
        sc.names.len() == sc.values.len(),
        m != n,
    ensures
        find(scope_define(sc, n, v).names, m) == find(sc.names, m),
        find(sc.names, m) matches Some(i) ==> scope_define(sc, n, v).values[i] == sc.values[i],
        scope_define(sc, n, v).parent == sc.parent,
        scope_define(sc, n, v).names.len() == scope_define(sc, n, v).values.len(),
{
    lemma_find_from(sc.names, n, 0);
    lemma_find_from(sc.names, m, 0);
    lemma_find_push(sc.names, n, m);
}

/// Binding a name in a scope and then looking it up from that scope gives
/// the value bound.
pub proof fn law_define_then_lookup(e: Seq<ScopeV>, s: int, n: Seq<char>, v: ValueV)
    requires
        env_wf(e),
        0 <= s < e.len(),
    ensures
        lookup(define(e, s, n, v), s, n) == Some(v),
{
    assert(scope_ok(e, s));
    let sc = e[s];
    lemma_find_from(sc.names, n, 0);
    lemma_find_push(sc.names, n, n);
    let d = define(e, s, n, v);
    assert(d[s] == scope_define(sc, n, v));
}

/// Binding `n` in any scope leaves what every other name means, seen from
/// every scope.
pub proof fn law_define_keeps_other_names(e: Seq<ScopeV>, s: int, n: Seq<char>, v: ValueV, t: int, m: Seq<char>)
    requires
        env_wf(e),
        0 <= s < e.len(),
        m != n,
    ensures
        lookup(define(e, s, n, v), t, m) == lookup(e, t, m),
    decreases t,
{
    let d = define(e, s, n, v);
    if 0 <= t < e.len() {
        assert(scope_ok(e, t));
        assert(scope_ok(e, s));
        lemma_scope_define_other(e[s], n, v, m);
        assert(d[t].names == e[t].names || t == s);
        if find(e[t].names, m) is None {
            if let Some(p) = e[t].parent {
                law_define_keeps_other_names(e, s, n, v, p as int, m);
            }
        }
    }
}

/// Binding a name in a scope is invisible from the scopes made before it,
/// which are never nested inside it: an inner scope's binding shadows an
/// outer one without changing it.
pub proof fn law_define_invisible_outside(e: Seq<ScopeV>, s: int, n: Seq<char>, v: ValueV, t: int, m: Seq<char>)
    requires
        env_wf(e),
        0 <= s < e.len(),
        t < s,
    ensures
        lookup(define(e, s, n, v), t, m) == lookup(e, t, m),
    decreases t,
{
    let d = define(e, s, n, v);
    if 0 <= t {
        assert(scope_ok(e, t));
        assert(d[t] == e[t]);
        if find(e[t].names, m) is None {
            if let Some(p) = e[t].parent {
                law_define_invisible_outside(e, s, n, v, p as int, m);
            }
        }
    }
}

/// Adding a scope changes nothing seen from the scopes already there.
pub proof fn law_new_scope_keeps_lookup(e: Seq<ScopeV>, sc: ScopeV, s: int, n: Seq<char>)
    requires
        env_wf(e),
        0 <= s < e.len(),
    ensures
        lookup(e.push(sc), s, n) == lookup(e, s, n),
    decreases s,
{
    assert(scope_ok(e, s));
    assert(e.push(sc)[s] == e[s]);
    if find(e[s].names, n) is None {
        if let Some(p) = e[s].parent {
            law_new_scope_keeps_lookup(e, sc, p as int, n);
        }
    }
}

/// A scope that does not bind a name sees the binding its parent sees.
pub proof fn law_child_sees_parent(e: Seq<ScopeV>, c: int, n: Seq<char>)
    requires
        env_wf(e),
        0 <= c < e.len(),
        e[c].parent is Some,
        find(e[c].names, n) is None,
    ensures
        lookup(e, c, n) == lookup(e, e[c].parent->0 as int, n),
{
    assert(scope_ok(e, c));
}

/// Assignment finds a binding exactly when lookup does.
pub proof fn law_assign_iff_bound(e: Seq<ScopeV>, s: int, n: Seq<char>, v: ValueV)
    ensures
        (assign(e, s, n, v) is Some) == (lookup(e, s, n) is Some),
    decreases s,
{
    if 0 <= s < e.len() && find(e[s].names, n) is None {
        if let Some(p) = e[s].parent {
            if p < s {
                law_assign_iff_bound(e, p as int, n, v);
            }
        }
    }
}

/// After an assignment, the name means the value assigned.
pub proof fn law_assign_then_lookup(e: Seq<ScopeV>, s: int, n: Seq<char>, v: ValueV)
    requires
        env_wf(e),
    ensures
        assign(e, s, n, v) matches Some(e2) ==> lookup(e2, s, n) == Some(v),
    decreases s,
{
    if 0 <= s < e.len() {
        assert(scope_ok(e, s));
        lemma_find_from(e[s].names, n, 0);
        match find(e[s].names, n) {
            Some(i) => {},
            None => {
                if let Some(p) = e[s].parent {
                    law_assign_then_lookup(e, p as int, n, v);
                    if let Some(e2) = assign(e, s, n, v) {
                        crate::value::lemma_assign_len(e, p as int, n, v);
                        lemma_assign_changes_below(e, p as int, n, v, s);
                    }
                }
            },
        }
    }
}

/// Assignment seen from `s` changes only scopes at or before `s`.
proof fn lemma_assign_changes_below(e: Seq<ScopeV>, s: int, n: Seq<char>, v: ValueV, u: int)
    requires
        env_wf(e),
        s < u,
    ensures
        assign(e, s, n, v) matches Some(e2) ==> 0 <= u < e.len() ==> e2[u] == e[u],
    decreases s,
{
    if 0 <= s < e.len() {
        assert(scope_ok(e, s));
        if find(e[s].names, n) is None {
            if let Some(p) = e[s].parent {
                lemma_assign_changes_below(e, p as int, n, v, u);
            }
        }
    }
}

/// `a` is a prefix of `b`.
pub open spec fn prefix<A>(a: Seq<A>, b: Seq<A>) -> bool {
    a.len() <= b.len() && forall|i: int| 0 <= i < a.len() ==> #[trigger] a[i] == b[i]
}

/// State `b` comes after state `a`: the output only had text appended,
/// the function table only had functions added, and no scope went away.
pub open spec fn extends(a: StateV, b: StateV) -> bool {
    &&& prefix(a.output, b.output)
    &&& prefix(a.functions, b.functions)
    &&& a.env.len() <= b.env.len()
}

proof fn lemma_extends_trans(a: StateV, b: StateV, c: StateV)
    requires
        extends(a, b),
        extends(b, c),
    ensures
        extends(a, c),
{
    assert forall|i: int| 0 <= i < a.output.len() implies #[trigger] a.output[i] == c.output[i] by {
        assert(a.output[i] == b.output[i]);
    }
    assert forall|i: int| 0 <= i < a.functions.len() implies #[trigger] a.functions[i] == c.functions[i] by {
        assert(a.functions[i] == b.functions[i]);
    }
}

proof fn lemma_release_extends(st: StateV, st1: StateV)
    requires
        extends(st, st1),
    ensures
        extends(st, release(st, st1)),
{
}

proof fn lemma_define_all_len(e: Seq<ScopeV>, s: int, names: Seq<Seq<char>>, vals: Seq<ValueV>)
    requires
        0 <= s < e.len(),
    ensures
        define_all(e, s, names, vals).len() == e.len(),
    decreases names.len(),
{
    if names.len() > 0 && vals.len() > 0 {
        lemma_define_all_len(define(e, s, names[0], vals[0]), s, names.subrange(1, names.len() as int), vals.subrange(1, vals.len() as int));
    }
}

proof fn lemma_eval_expr_extends(o: Numbers, fuel: nat, st: StateV, env: int, e: ExprV)
    requires
        0 <= env < st.env.len(),
    ensures
        extends(st, eval_expr(o, fuel, st, env, e).0),
    decreases fuel, expr_size(e),
{
    reveal(eval_expr);
    reveal(eval_args);
    reveal(call_value);
    reveal(exec_stmt);
    reveal(exec_block);
    reveal(exec_while);
    match e {
        ExprV::Assign { name, value } => {
            lemma_eval_expr_extends(o, fuel, st, env, *value);
            let (st1, r) = eval_expr(o, fuel, st, env, *value);
            if let Ok(v) = r {
                lemma_assign_len(st1.env, env, name, v);
                if let Some(e2) = assign(st1.env, env, name, v) {
                    lemma_extends_trans(st, st1, with_env(st1, e2));
                }
            }
        },
        ExprV::Unary { op, right } => {
            lemma_eval_expr_extends(o, fuel, st, env, *right);
        },
        ExprV::Logical { left, op, right } => {
            lemma_eval_expr_extends(o, fuel, st, env, *left);
            let (st1, r) = eval_expr(o, fuel, st, env, *left);
            lemma_eval_expr_extends(o, fuel, st1, env, *right);
            lemma_extends_trans(st, st1, eval_expr(o, fuel, st1, env, *right).0);
        },
        ExprV::Binary { left, op, right } => {
            lemma_eval_expr_extends(o, fuel, st, env, *left);
            let (st1, r) = eval_expr(o, fuel, st, env, *left);
            lemma_eval_expr_extends(o, fuel, st1, env, *right);
            lemma_extends_trans(st, st1, eval_expr(o, fuel, st1, env, *right).0);
        },
        ExprV::Call { callee, args } => {
            lemma_eval_expr_extends(o, fuel, st, env, *callee);
            let (st1, rc) = eval_expr(o, fuel, st, env, *callee);
            lemma_eval_args_extends(o, fuel, st1, env, args);
            let (st2, ra) = eval_args(o, fuel, st1, env, args);
            lemma_extends_trans(st, st1, st2);
            if let Ok(c) = rc {
                if let Ok(vals) = ra {
                    lemma_call_value_extends(o, fuel, st2, c, vals);
                    lemma_extends_trans(st, st2, call_value(o, fuel, st2, c, vals).0);
                }
            }
        },
        _ => {},
    }
}

proof fn lemma_eval_args_extends(o: Numbers, fuel: nat, st: StateV, env: int, args: Seq<ExprV>)
    requires
        0 <= env < st.env.len(),
    ensures
        extends(st, eval_args(o, fuel, st, env, args).0),
    decreases fuel, exprs_size(args),
{
    reveal(eval_expr);
    reveal(eval_args);
    reveal(call_value);
    reveal(exec_stmt);
    reveal(exec_block);
    reveal(exec_while);
    if args.len() > 0 {
        lemma_eval_expr_extends(o, fuel, st, env, args[0]);
        let (st1, r) = eval_expr(o, fuel, st, env, args[0]);
        lemma_eval_args_extends(o, fuel, st1, env, args.subrange(1, args.len() as int));
        lemma_extends_trans(st, st1, eval_args(o, fuel, st1, env, args.subrange(1, args.len() as int)).0);
    }
}

proof fn lemma_call_value_extends(o: Numbers, fuel: nat, st: StateV, callee: ValueV, args: Seq<ValueV>)
    requires
        st.env.len() > 0,
    ensures
        extends(st, call_value(o, fuel, st, callee, args).0),
    decreases fuel, 0nat,
{
    reveal(eval_expr);
    reveal(eval_args);
    reveal(call_value);
    reveal(exec_stmt);
    reveal(exec_block);
    reveal(exec_while);
    if let ValueV::Function(id) = callee {
        if id < st.functions.len() {
            let f = st.functions[id as int];
            if args.len() == f.params.len() && fuel > 0 {
                let scope = st.env.len() as int;
                let env1 = define_all(st.env.push(empty_scope(Some(f.closure))), scope, f.params, args);
                lemma_define_all_len(st.env.push(empty_scope(Some(f.closure))), scope, f.params, args);
                lemma_exec_block_extends(o, (fuel - 1) as nat, with_env(st, env1), scope, f.body);
                let st2 = exec_block(o, (fuel - 1) as nat, with_env(st, env1), scope, f.body).0;
                lemma_extends_trans(st, with_env(st, env1), st2);
                lemma_release_extends(st, st2);
            }
        }
    }
}

proof fn lemma_exec_stmt_extends(o: Numbers, fuel: nat, st: StateV, env: int, s: StmtV)
    requires
        0 <= env < st.env.len(),
    ensures
        extends(st, exec_stmt(o, fuel, st, env, s).0),
    decreases fuel, stmt_size(s),
{
    reveal(eval_expr);
    reveal(eval_args);
    reveal(call_value);
    reveal(exec_stmt);
    reveal(exec_block);
    reveal(exec_while);
    match s {
        StmtV::Expression(e) => {
            lemma_eval_expr_extends(o, fuel, st, env, e);
        },
        StmtV::Print(e) => {
            lemma_eval_expr_extends(o, fuel, st, env, e);
            let (st1, r) = eval_expr(o, fuel, st, env, e);
            if let Ok(v) = r {
                let st2 = StateV { output: st1.output.push(display(o.render, st1, v)), ..st1 };
                lemma_extends_trans(st, st1, st2);
            }
        },
        StmtV::Var { name, initializer } => {
            if let Some(e) = initializer {
                lemma_eval_expr_extends(o, fuel, st, env, e);
                let (st1, r) = eval_expr(o, fuel, st, env, e);
                if let Ok(v) = r {
                    lemma_extends_trans(st, st1, with_env(st1, define(st1.env, env, name, v)));
                }
            }
        },
        StmtV::Block(ss) => {
            let scope = st.env.len() as int;
            let st1 = with_env(st, st.env.push(empty_scope(Some(env as nat))));
            lemma_exec_block_extends(o, fuel, st1, scope, ss);
            lemma_extends_trans(st, st1, exec_block(o, fuel, st1, scope, ss).0);
            lemma_release_extends(st, exec_block(o, fuel, st1, scope, ss).0);
        },
        StmtV::If { condition, then_branch, else_branch } => {
            lemma_eval_expr_extends(o, fuel, st, env, condition);
            let (st1, r) = eval_expr(o, fuel, st, env, condition);
            lemma_exec_stmt_extends(o, fuel, st1, env, *then_branch);
            lemma_extends_trans(st, st1, exec_stmt(o, fuel, st1, env, *then_branch).0);
            if let Some(b) = else_branch {
                lemma_exec_stmt_extends(o, fuel, st1, env, *b);
                lemma_extends_trans(st, st1, exec_stmt(o, fuel, st1, env, *b).0);
            }
        },
        StmtV::While { condition, body } => {
            lemma_exec_while_extends(o, fuel, st, env, condition, *body);
        },
        StmtV::Function { .. } => {},
        StmtV::Return(e) => {
            if let Some(e) = e {
                lemma_eval_expr_extends(o, fuel, st, env, e);
            }
        },
    }
}

proof fn lemma_exec_block_extends(o: Numbers, fuel: nat, st: StateV, env: int, ss: Seq<StmtV>)
    requires
        0 <= env < st.env.len(),
    ensures
        extends(st, exec_block(o, fuel, st, env, ss).0),
    decreases fuel, stmts_size(ss),
{
    reveal(eval_expr);
    reveal(eval_args);
    reveal(call_value);
    reveal(exec_stmt);
    reveal(exec_block);
    reveal(exec_while);
    if ss.len() > 0 {
        lemma_exec_stmt_extends(o, fuel, st, env, ss[0]);
        let (st1, f) = exec_stmt(o, fuel, st, env, ss[0]);
        lemma_exec_block_extends(o, fuel, st1, env, ss.subrange(1, ss.len() as int));
        lemma_extends_trans(st, st1, exec_block(o, fuel, st1, env, ss.subrange(1, ss.len() as int)).0);
    }
}

proof fn lemma_exec_while_extends(o: Numbers, fuel: nat, st: StateV, env: int, condition: ExprV, body: StmtV)
    requires
        0 <= env < st.env.len(),
    ensures
        extends(st, exec_while(o, fuel, st, env, condition, body).0),
    decreases fuel, 1 + expr_size(condition) + stmt_size(body),
{
    reveal(eval_expr);
    reveal(eval_args);
    reveal(call_value);
    reveal(exec_stmt);
    reveal(exec_block);
    reveal(exec_while);
    lemma_eval_expr_extends(o, fuel, st, env, condition);
    let (st1, r) = eval_expr(o, fuel, st, env, condition);
    lemma_exec_stmt_extends(o, fuel, st1, env, body);
    let (st2, f) = exec_stmt(o, fuel, st1, env, body);
    lemma_extends_trans(st, st1, st2);
    if fuel > 0 {
        lemma_exec_while_extends(o, (fuel - 1) as nat, st2, env, condition, body);
        lemma_extends_trans(st, st2, exec_while(o, (fuel - 1) as nat, st2, env, condition, body).0);
    }
}

/// Running a program only appends to the output, only adds functions, and
/// never removes a scope: what was printed before stays printed, in order.
pub proof fn law_run_extends(o: Numbers, st: StateV, ss: Seq<StmtV>)
    requires
        st.env.len() > 0,
    ensures
        extends(st, run_program(o, st, ss).0),
    decreases ss.len(),
{
    reveal(run_program);
    if ss.len() > 0 {
        lemma_exec_stmt_extends(o, step_limit(), st, 0, ss[0]);
        let (st1, f) = exec_stmt(o, step_limit(), st, 0, ss[0]);
        law_run_extends(o, st1, ss.subrange(1, ss.len() as int));
        lemma_extends_trans(st, st1, run_program(o, st1, ss.subrange(1, ss.len() as int)).0);
    }
}

/// `and` and `or` give one of their operands: the left one when it decides
/// the result (`or` with a truthy left operand, `and` with a falsy one), and
/// then the right operand is not evaluated; otherwise whatever the right
/// operand gives.
pub proof fn law_logical_operands(o: Numbers, fuel: nat, st: StateV, env: int, left: ExprV, op: LogicalOp, right: ExprV)
    ensures
        ({
            let e = ExprV::Logical { left: Box::new(left), op, right: Box::new(right) };
            let (st1, rl) = eval_expr(o, fuel, st, env, left);
            match rl {
                Err(m) => eval_expr(o, fuel, st, env, e) == (st1, Err::<ValueV, Seq<char>>(m)),
                Ok(lv) => if (op == LogicalOp::Or) == is_truthy(lv) {
                    eval_expr(o, fuel, st, env, e) == (st1, Ok::<ValueV, Seq<char>>(lv))
                } else {
                    eval_expr(o, fuel, st, env, e) == eval_expr(o, fuel, st1, env, right)
                },
            }
        }),
{
    reveal(eval_expr);
    reveal(eval_args);
    reveal(call_value);
}

/// `/` and `%` by zero, of either sign, are runtime errors.
pub proof fn law_division_by_zero(compute: spec_fn(RequestV) -> u64, a: u64, b: u64)
    requires
        is_zero(b),
    ensures
        eval_binary(compute, BinaryOp::Div, ValueV::Number(a), ValueV::Number(b)) == Err::<ValueV, Seq<char>>("division by zero"@),
        eval_binary(compute, BinaryOp::Mod, ValueV::Number(a), ValueV::Number(b)) == Err::<ValueV, Seq<char>>("modulo by zero"@),
{
}

/// Whether running `s` can end in a `return` (one inside a function that
/// `s` declares belongs to that function).
pub open spec fn may_return(s: StmtV) -> bool
    decreases stmt_size(s),
{
    match s {
        StmtV::Return(_) => true,
        StmtV::Block(ss) => may_return_any(ss),
        StmtV::If { then_branch, else_branch, .. } => may_return(*then_branch) || match else_branch {
            Some(b) => may_return(*b),
            None => false,
        },
        StmtV::While { body, .. } => may_return(*body),
        _ => false,
    }
}

/// Whether one of `ss` can end in a `return`.
pub open spec fn may_return_any(ss: Seq<StmtV>) -> bool
    decreases stmts_size(ss),
{
    if ss.len() == 0 {
        false
    } else {
        may_return(ss[0]) || may_return_any(ss.subrange(1, ss.len() as int))
    }
}

proof fn lemma_stmt_no_return(o: Numbers, fuel: nat, st: StateV, env: int, s: StmtV)
    requires
        !may_return(s),
    ensures
        !(exec_stmt(o, fuel, st, env, s).1 is Return),
    decreases fuel, stmt_size(s),
{
    reveal(eval_expr);
    reveal(eval_args);
    reveal(call_value);
    reveal(exec_stmt);
    reveal(exec_block);
    reveal(exec_while);
    match s {
        StmtV::Block(ss) => {
            let scope = st.env.len() as int;
            lemma_block_no_return(o, fuel, with_env(st, st.env.push(empty_scope(Some(env as nat)))), scope, ss);
        },
        StmtV::If { condition, then_branch, else_branch } => {
            let (st1, r) = eval_expr(o, fuel, st, env, condition);
            lemma_stmt_no_return(o, fuel, st1, env, *then_branch);
            if let Some(b) = else_branch {
                lemma_stmt_no_return(o, fuel, st1, env, *b);
            }
        },
        StmtV::While { condition, body } => {
            lemma_while_no_return(o, fuel, st, env, condition, *body);
        },
        _ => {},
    }
}

proof fn lemma_block_no_return(o: Numbers, fuel: nat, st: StateV, env: int, ss: Seq<StmtV>)
    requires
        !may_return_any(ss),
    ensures
        !(exec_block(o, fuel, st, env, ss).1 is Return),
    decreases fuel, stmts_size(ss),
{
    reveal(eval_expr);
    reveal(eval_args);
    reveal(call_value);
    reveal(exec_stmt);
    reveal(exec_block);
    reveal(exec_while);
    if ss.len() > 0 {
        lemma_stmt_no_return(o, fuel, st, env, ss[0]);
        let (st1, f) = exec_stmt(o, fuel, st, env, ss[0]);
        lemma_block_no_return(o, fuel, st1, env, ss.subrange(1, ss.len() as int));
    }
}

proof fn lemma_while_no_return(o: Numbers, fuel: nat, st: StateV, env: int, condition: ExprV, body: StmtV)
    requires
        !may_return(body),
    ensures
        !(exec_while(o, fuel, st, env, condition, body).1 is Return),
    decreases fuel, 1 + expr_size(condition) + stmt_size(body),
{
    reveal(eval_expr);
    reveal(eval_args);
    reveal(call_value);
    reveal(exec_stmt);
    reveal(exec_block);
    reveal(exec_while);
    let (st1, r) = eval_expr(o, fuel, st, env, condition);
    lemma_stmt_no_return(o, fuel, st1, env, body);
    let (st2, f) = exec_stmt(o, fuel, st1, env, body);
    if fuel > 0 {
        lemma_while_no_return(o, (fuel - 1) as nat, st2, env, condition, body);
    }
}

/// A function whose body has no `return` yields `nil` when its call ends
/// without error.
pub proof fn law_no_return_yields_nil(o: Numbers, fuel: nat, st: StateV, id: nat, args: Seq<ValueV>)
    requires
        id < st.functions.len(),
        !may_return_any(st.functions[id as int].body),
    ensures
        call_value(o, fuel, st, ValueV::Function(id), args).1 matches Ok(v) ==> v == ValueV::Nil,
{
    reveal(eval_expr);
    reveal(eval_args);
    reveal(call_value);
    reveal(exec_stmt);
    reveal(exec_block);
    reveal(exec_while);
    let f = st.functions[id as int];
    if args.len() == f.params.len() && fuel > 0 {
        let scope = st.env.len() as int;
        let env1 = define_all(st.env.push(empty_scope(Some(f.closure))), scope, f.params, args);
        lemma_block_no_return(o, (fuel - 1) as nat, with_env(st, env1), scope, f.body);
    }
}

/// A successful tokenization ends with `Eof`.
pub proof fn law_lex_ends_with_eof(compute: spec_fn(RequestV) -> u64, source: Seq<char>)
    ensures
        lex_spec(compute, source) matches Ok(ts) ==> ts.len() > 0 && ts[ts.len() - 1].kind == Kind::Eof,
{
    lemma_lex_ends_with_eof(compute, source, 0, 1, 1);
}

/// Every token of a successful tokenization carries a 1-based line and column.
pub proof fn law_lex_positions_one_based(compute: spec_fn(RequestV) -> u64, source: Seq<char>)
    ensures
        lex_spec(compute, source) matches Ok(ts) ==> one_based(ts),
{
    lemma_lex_positions(compute, source, 0, 1, 1);
}

/// Value equality is symmetric.
pub proof fn law_values_equal_symmetric(a: ValueV, b: ValueV)
    ensures
        values_equal(a, b) == values_equal(b, a),
{
}

/// Releasing the scopes from `n` on changes nothing seen from an earlier
/// scope: every name there means what it meant.
pub proof fn law_release_keeps_lookup(e: Seq<ScopeV>, n: int, s: int, name: Seq<char>)
    requires
        env_wf(e),
        0 <= s < n <= e.len(),
    ensures
        lookup(e.subrange(0, n), s, name) == lookup(e, s, name),
    decreases s,
{
    assert(scope_ok(e, s));
    assert(e.subrange(0, n)[s] == e[s]);
    if find(e[s].names, name) is None {
        if let Some(p) = e[s].parent {
            law_release_keeps_lookup(e, n, p as int, name);
        }
    }
}

/// Releasing the scopes from `n` on changes nothing an assignment seen from
/// an earlier scope does to the scopes that stay.
pub proof fn law_release_keeps_assign(e: Seq<ScopeV>, n: int, s: int, name: Seq<char>, v: ValueV)
    requires
        env_wf(e),
        0 <= s < n <= e.len(),
    ensures
        match assign(e, s, name, v) {
            Some(e2) => assign(e.subrange(0, n), s, name, v) == Some(e2.subrange(0, n)),
            None => assign(e.subrange(0, n), s, name, v) is None,
        },
    decreases s,
{
    assert(scope_ok(e, s));
    let t = e.subrange(0, n);
    assert(t[s] == e[s]);
    match find(e[s].names, name) {
        Some(i) => {
            let sc = ScopeV { values: e[s].values.update(i, v), ..e[s] };
            assert(t.update(s, sc) =~= e.update(s, sc).subrange(0, n));
        },
        None => {
            if let Some(p) = e[s].parent {
                law_release_keeps_assign(e, n, p as int, name, v);
            }
        },
    }
}

/// No name occurs twice in `names`.
pub open spec fn distinct(names: Seq<Seq<char>>) -> bool {
    forall|i: int, j: int| 0 <= i < j < names.len() ==> names[i] != names[j]
}

proof fn lemma_define_all_fresh(e: Seq<ScopeV>, s: int, names: Seq<Seq<char>>, vals: Seq<ValueV>)
    requires
        0 <= s < e.len(),
        names.len() == vals.len(),
        distinct(e[s].names + names),
    ensures
        define_all(e, s, names, vals).len() == e.len(),
        define_all(e, s, names, vals)[s] == (ScopeV { names: e[s].names + names, values: e[s].values + vals, ..e[s] }),
        forall|t: int| 0 <= t < e.len() && t != s ==> #[trigger] define_all(e, s, names, vals)[t] == e[t],
    decreases names.len(),
{
    if names.len() > 0 {
        let sc = e[s];
        let n0 = names[0];
        lemma_find_from(sc.names, n0, 0);
        assert forall|j: int| 0 <= j < sc.names.len() implies sc.names[j] != n0 by {
            assert((sc.names + names)[j] == sc.names[j]);
            assert((sc.names + names)[sc.names.len() as int] == n0);
        }
        let e1 = define(e, s, n0, vals[0]);
        assert(e1[s].names == sc.names.push(n0));
        let rest = names.subrange(1, names.len() as int);
        let vrest = vals.subrange(1, vals.len() as int);
        assert(e1[s].names + rest =~= sc.names + names);
        lemma_define_all_fresh(e1, s, rest, vrest);
        assert(e1[s].values + vrest =~= sc.values + vals);
    } else {
        assert(e[s].names + names =~= e[s].names);
        assert(e[s].values + vals =~= e[s].values);
    }
}

/// A call runs its function's body in a fresh scope whose parent is the
/// scope the function was defined in (not the caller's), and in which each
/// parameter is bound to its argument; the call gives what the body returns,
/// or `nil`.
pub proof fn law_call_is_lexical(o: Numbers, fuel: nat, st: StateV, id: nat, args: Seq<ValueV>)
    requires
        id < st.functions.len(),
        args.len() == st.functions[id as int].params.len(),
        distinct(st.functions[id as int].params),
        fuel > 0,
    ensures
        ({
            let f = st.functions[id as int];
            let scope = st.env.len() as int;
            let env1 = define_all(st.env.push(empty_scope(Some(f.closure))), scope, f.params, args);
            let (st2, flow) = exec_block(o, (fuel - 1) as nat, with_env(st, env1), scope, f.body);
            &&& env1.len() == st.env.len() + 1
            &&& env1[scope].parent == Some(f.closure)
            &&& forall|k: int| 0 <= k < args.len() ==> lookup(env1, scope, #[trigger] f.params[k]) == Some(args[k])
            &&& call_value(o, fuel, st, ValueV::Function(id), args) == (release(st, st2), match flow {
                Flow::Normal => Ok::<ValueV, Seq<char>>(ValueV::Nil),
                Flow::Return(v) => Ok(v),
                Flow::Error(m) => Err(m),
            })
        }),
{
    reveal(eval_expr);
    reveal(eval_args);
    reveal(call_value);
    reveal(exec_stmt);
    reveal(exec_block);
    reveal(exec_while);
    let f = st.functions[id as int];
    let scope = st.env.len() as int;
    let e0 = st.env.push(empty_scope(Some(f.closure)));
    assert(e0[scope].names + f.params =~= f.params);
    lemma_define_all_fresh(e0, scope, f.params, args);
    let env1 = define_all(e0, scope, f.params, args);
    assert(env1[scope].names =~= f.params);
    assert(env1[scope].values =~= args);
    assert forall|k: int| 0 <= k < args.len() implies lookup(env1, scope, #[trigger] f.params[k]) == Some(args[k]) by {
        lemma_find_from(f.params, f.params[k], 0);
    }
}

/// An assignment expression yields the value assigned: when `e` evaluates to
/// `v` and `name` is bound, `name = e` evaluates to `v` and afterwards `name`
/// means `v`; when `name` is unbound it is the error `undefined variable`,
/// and an error of `e` passes through.
pub proof fn law_assignment_yields_value(o: Numbers, fuel: nat, st: StateV, env: int, name: Seq<char>, e: ExprV)
    requires
        env_wf(eval_expr(o, fuel, st, env, e).0.env),
    ensures
        ({
            let (st1, r) = eval_expr(o, fuel, st, env, e);
            let (st2, r2) = eval_expr(o, fuel, st, env, ExprV::Assign { name, value: Box::new(e) });
            match r {
                Ok(v) => if lookup(st1.env, env, name) is Some {
                    &&& r2 == Ok::<ValueV, Seq<char>>(v)
                    &&& lookup(st2.env, env, name) == Some(v)
                    &&& st2.output == st1.output
                } else {
                    r2 == Err::<ValueV, Seq<char>>("undefined variable '"@ + name + "'"@) && st2 == st1
                },
                Err(m) => r2 == Err::<ValueV, Seq<char>>(m) && st2 == st1,
            }
        }),
{
    reveal(eval_expr);
    reveal(eval_args);
    reveal(call_value);
    let (st1, r) = eval_expr(o, fuel, st, env, e);
    if let Ok(v) = r {
        law_assign_iff_bound(st1.env, env, name, v);
        law_assign_then_lookup(st1.env, env, name, v);
    }
}

/// `var n;` binds `n` to `nil` in the current scope, and does exactly what
/// `var n = nil;` does.
pub proof fn law_var_without_initializer_is_nil(o: Numbers, fuel: nat, st: StateV, env: int, name: Seq<char>)
    requires
        env_wf(st.env),
        0 <= env < st.env.len(),
    ensures
        exec_stmt(o, fuel, st, env, StmtV::Var { name, initializer: None }).1 == Flow::Normal,
        lookup(exec_stmt(o, fuel, st, env, StmtV::Var { name, initializer: None }).0.env, env, name) == Some(ValueV::Nil),
        exec_stmt(o, fuel, st, env, StmtV::Var { name, initializer: None })
            == exec_stmt(o, fuel, st, env, StmtV::Var { name, initializer: Some(ExprV::Nil) }),
{
    reveal(eval_expr);
    reveal(eval_args);
    reveal(call_value);
    reveal(exec_stmt);
    reveal(exec_block);
    reveal(exec_while);
    law_define_then_lookup(st.env, env, name, ValueV::Nil);
    assert(eval_expr(o, fuel, st, env, ExprV::Nil) == (st, Ok::<ValueV, Seq<char>>(ValueV::Nil)));
}

/// Two strings are equal exactly when their texts are: `==` gives `true`
/// and `!=` gives `false` for equal texts, and the other way round for
/// different ones.
pub proof fn law_string_equality(compute: spec_fn(RequestV) -> u64, x: Seq<char>, y: Seq<char>)
    ensures
        values_equal(ValueV::Str(x), ValueV::Str(y)) == (x == y),
        eval_binary(compute, BinaryOp::Eq, ValueV::Str(x), ValueV::Str(y)) == Ok::<ValueV, Seq<char>>(ValueV::Bool(x == y)),
        eval_binary(compute, BinaryOp::NotEq, ValueV::Str(x), ValueV::Str(y)) == Ok::<ValueV, Seq<char>>(ValueV::Bool(x != y)),
{
}

/// Each comparison token parses to the operator that compares as it reads,
/// on every pair of non-NaN numbers: `<` is strictly less, `<=` less or
/// equal, `>` strictly greater, `>=` greater or equal. In particular `x > x`
/// and `x < x` are false and `x >= x` and `x <= x` true.
pub proof fn law_comparison_tokens(compute: spec_fn(RequestV) -> u64, a: u64, b: u64)
    requires
        !is_nan(a),
        !is_nan(b),
    ensures
        comparison_op(Kind::Less) matches Some(op) && eval_binary(compute, op, ValueV::Number(a), ValueV::Number(b))
            == Ok::<ValueV, Seq<char>>(ValueV::Bool(float_key(a) < float_key(b))),
        comparison_op(Kind::LessEq) matches Some(op) && eval_binary(compute, op, ValueV::Number(a), ValueV::Number(b))
            == Ok::<ValueV, Seq<char>>(ValueV::Bool(float_key(a) <= float_key(b))),
        comparison_op(Kind::Greater) matches Some(op) && eval_binary(compute, op, ValueV::Number(a), ValueV::Number(b))
            == Ok::<ValueV, Seq<char>>(ValueV::Bool(float_key(a) > float_key(b))),
        comparison_op(Kind::GreaterEq) matches Some(op) && eval_binary(compute, op, ValueV::Number(a), ValueV::Number(b))
            == Ok::<ValueV, Seq<char>>(ValueV::Bool(float_key(a) >= float_key(b))),
        comparison_op(Kind::Greater) matches Some(op) && eval_binary(compute, op, ValueV::Number(a), ValueV::Number(a))
            == Ok::<ValueV, Seq<char>>(ValueV::Bool(false)),
{
}

/// Wherever the lexer stands on a space or a tab, it skips it as whitespace:
/// what follows is lexed from the next character, one column on, and the
/// blank itself is never an error.
pub proof fn law_blanks_are_skipped(compute: spec_fn(RequestV) -> u64, chars: Seq<char>, i: int, line: nat, col: nat)
    requires
        0 <= i < chars.len(),
        chars[i] == ' ' || chars[i] == '\t',
    ensures
        lex_from(compute, chars, i, line, col) == lex_from(compute, chars, i + 1, line, col + 1),
{
}

/// `a` and `b` have the same length and agree from index `i` on.
pub open spec fn same_from(a: Seq<char>, b: Seq<char>, i: int) -> bool {
    a.len() == b.len() && forall|k: int| i <= k < a.len() ==> a[k] == b[k]
}

proof fn lemma_ends_suffix(a: Seq<char>, b: Seq<char>, i: int)
    requires
        0 <= i,
        same_from(a, b, i),
    ensures
        line_end(a, i) == line_end(b, i),
        string_end(a, i) == string_end(b, i),
        number_end(a, i, false) == number_end(b, i, false),
        number_end(a, i, true) == number_end(b, i, true),
        ident_end(a, i) == ident_end(b, i),
    decreases a.len() - i,
{
    if i < a.len() {
        lemma_ends_suffix(a, b, i + 1);
    }
}

/// What the lexer gives from index `i` on depends only on the characters
/// from `i` on.
proof fn lemma_lex_suffix(compute: spec_fn(RequestV) -> u64, a: Seq<char>, b: Seq<char>, i: int, line: nat, col: nat)
    requires
        0 <= i,
        same_from(a, b, i),
    ensures
        lex_from(compute, a, i, line, col) == lex_from(compute, b, i, line, col),
    decreases a.len() - i,
{
    if i < a.len() {
        let c = a[i];
        lemma_ends_suffix(a, b, i);
        lemma_ends_suffix(a, b, i + 1);
        if c == ' ' || c == '\t' || c == '\r' {
            lemma_lex_suffix(compute, a, b, i + 1, line, col + 1);
        } else if c == '\n' {
            lemma_lex_suffix(compute, a, b, i + 1, line + 1, 1);
        } else if c == '/' && i + 1 < a.len() && a[i + 1] == '/' {
            let j = line_end(a, i);
            lemma_line_end(a, i);
            lemma_lex_suffix(compute, a, b, j, line, (col + (j - i)) as nat);
        } else if single_kind(c) is Some {
            lemma_lex_suffix(compute, a, b, i + 1, line, col + 1);
        } else if pair_kinds(c) is Some {
            if i + 1 < a.len() && a[i + 1] == '=' {
                lemma_lex_suffix(compute, a, b, i + 2, line, col + 2);
            } else {
                lemma_lex_suffix(compute, a, b, i + 1, line, col + 1);
            }
        } else if c == '"' {
            lemma_string_end(a, i + 1);
            if let Some(j) = string_end(a, i + 1) {
                assert(a.subrange(i + 1, j) =~= b.subrange(i + 1, j));
                lemma_lex_suffix(compute, a, b, j + 1, line, (col + (j + 1 - i)) as nat);
            }
        } else if is_digit(c) {
            let j = number_end(a, i, false);
            lemma_number_end(a, i, false);
            assert(a.subrange(i, j) =~= b.subrange(i, j));
            lemma_lex_suffix(compute, a, b, j, line, (col + (j - i)) as nat);
        } else if starts_identifier(c) {
            let j = ident_end(a, i);
            lemma_ident_end(a, i);
            assert(a.subrange(i, j) =~= b.subrange(i, j));
            lemma_lex_suffix(compute, a, b, j, line, (col + (j - i)) as nat);
        }
    }
}

/// A tab between tokens lexes exactly as a space does: putting a tab in
/// place of a space where the lexer stands gives the same result, tokens
/// and positions alike. (For `i == 0`, line 1, column 1, this is
/// `lex_spec` of the whole source.)
pub proof fn law_tab_lexes_as_space(compute: spec_fn(RequestV) -> u64, chars: Seq<char>, i: int, line: nat, col: nat)
    requires
        0 <= i < chars.len(),
        chars[i] == ' ',
    ensures
        lex_from(compute, chars.update(i, '\t'), i, line, col) == lex_from(compute, chars, i, line, col),
{
    let t = chars.update(i, '\t');
    law_blanks_are_skipped(compute, t, i, line, col);
    law_blanks_are_skipped(compute, chars, i, line, col);
    lemma_lex_suffix(compute, t, chars, i + 1, line, col + 1);
}

} // verus!
