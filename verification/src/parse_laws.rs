//! Laws of the grammar: how operator tokens read, at every precedence level.

use vstd::prelude::*;
use crate::ast::{BinaryOp, ExprV, LogicalOp, StmtV, UnaryOp};
use crate::error::ErrorAt;
use crate::parser_spec::{
    comparison_op, equality_op, factor_op, p_and, p_and_rest, p_assignment, p_call, p_call_rest, p_comparison,
    p_comparison_rest, p_declaration, p_equality, p_equality_rest, p_expression, p_factor, p_factor_rest, p_or,
    p_or_rest, p_primary, p_program, p_statement, p_term, p_term_rest, p_unary, parse_spec, term_op, binary,
    logical, p_finish_call, p_var, p_function, p_block, p_if, p_while, p_return, p_args, p_params,
};
use crate::token::{Kind, TokenV};

verus! {

/// A token that ends an operand at every level: no operator, no call, no `=`.
pub open spec fn ends_operand(k: Kind) -> bool {
    &&& k != Kind::LParen
    &&& factor_op(k) is None
    &&& term_op(k) is None
    &&& comparison_op(k) is None
    &&& equality_op(k) is None
    &&& k != Kind::And
    &&& k != Kind::Or
    &&& k != Kind::Eq
}

#[verifier::spinoff_prover]
proof fn lemma_unary_number(ts: Seq<TokenV>, pos: int, n: u64)
    requires
        0 <= pos,
        pos + 1 < ts.len(),
        ts[pos].kind == Kind::Number(n),
        ts[pos + 1].kind != Kind::LParen,
    ensures
        p_unary(ts, pos) == (Ok::<ExprV, ErrorAt>(ExprV::Number(n)), pos + 1),
{
    reveal(p_unary);
    reveal(p_call);
    reveal(p_call_rest);
    reveal(p_primary);
    reveal(p_expression);
    reveal(p_finish_call);
    let e = ExprV::Number(n);
    assert(p_primary(ts, pos) == (Ok::<ExprV, ErrorAt>(e), pos + 1));
    assert(p_call_rest(ts, pos + 1, e) == (Ok::<ExprV, ErrorAt>(e), pos + 1));
    assert(p_call(ts, pos) == (Ok::<ExprV, ErrorAt>(e), pos + 1));
}

#[verifier::spinoff_prover]
proof fn lemma_factor_from(ts: Seq<TokenV>, pos: int, e: ExprV, p: int)
    requires
        p_unary(ts, pos) == (Ok::<ExprV, ErrorAt>(e), p),
        pos <= p < ts.len(),
    ensures
        p_factor(ts, pos) == p_factor_rest(ts, p, e),
{
    reveal(p_factor);
    reveal(p_unary);
    reveal(p_factor_rest);
}

#[verifier::spinoff_prover]
proof fn lemma_term_from(ts: Seq<TokenV>, pos: int, e: ExprV, p: int)
    requires
        p_factor(ts, pos) == (Ok::<ExprV, ErrorAt>(e), p),
        pos <= p < ts.len(),
    ensures
        p_term(ts, pos) == p_term_rest(ts, p, e),
{
    reveal(p_term);
    reveal(p_factor);
    reveal(p_term_rest);
}

#[verifier::spinoff_prover]
proof fn lemma_comparison_from(ts: Seq<TokenV>, pos: int, e: ExprV, p: int)
    requires
        p_term(ts, pos) == (Ok::<ExprV, ErrorAt>(e), p),
        pos <= p < ts.len(),
    ensures
        p_comparison(ts, pos) == p_comparison_rest(ts, p, e),
{
    reveal(p_comparison);
    reveal(p_term);
    reveal(p_comparison_rest);
}

#[verifier::spinoff_prover]
proof fn lemma_equality_from(ts: Seq<TokenV>, pos: int, e: ExprV, p: int)
    requires
        p_comparison(ts, pos) == (Ok::<ExprV, ErrorAt>(e), p),
        pos <= p < ts.len(),
    ensures
        p_equality(ts, pos) == p_equality_rest(ts, p, e),
{
    reveal(p_equality);
    reveal(p_comparison);
    reveal(p_equality_rest);
}

#[verifier::spinoff_prover]
proof fn lemma_and_from(ts: Seq<TokenV>, pos: int, e: ExprV, p: int)
    requires
        p_equality(ts, pos) == (Ok::<ExprV, ErrorAt>(e), p),
        pos <= p < ts.len(),
    ensures
        p_and(ts, pos) == p_and_rest(ts, p, e),
{
    reveal(p_and);
    reveal(p_equality);
    reveal(p_and_rest);
}

#[verifier::spinoff_prover]
proof fn lemma_or_from(ts: Seq<TokenV>, pos: int, e: ExprV, p: int)
    requires
        p_and(ts, pos) == (Ok::<ExprV, ErrorAt>(e), p),
        pos <= p < ts.len(),
    ensures
        p_or(ts, pos) == p_or_rest(ts, p, e),
{
    reveal(p_or);
    reveal(p_and);
    reveal(p_or_rest);
}

#[verifier::spinoff_prover]
proof fn lemma_expression_from(ts: Seq<TokenV>, pos: int, e: ExprV, p: int)
    requires
        p_or(ts, pos) == (Ok::<ExprV, ErrorAt>(e), p),
        pos <= p < ts.len(),
        ts[p].kind != Kind::Eq,
    ensures
        p_expression(ts, pos) == (Ok::<ExprV, ErrorAt>(e), p),
{
    reveal(p_expression);
    reveal(p_assignment);
    reveal(p_or);
}

#[verifier::spinoff_prover]
proof fn lemma_factor_rest_stop(ts: Seq<TokenV>, p: int, e: ExprV)
    requires
        0 <= p < ts.len(),
        factor_op(ts[p].kind) is None,
    ensures
        p_factor_rest(ts, p, e) == (Ok::<ExprV, ErrorAt>(e), p),
{
    reveal(p_factor_rest);
    reveal(p_unary);
}

#[verifier::spinoff_prover]
proof fn lemma_term_rest_stop(ts: Seq<TokenV>, p: int, e: ExprV)
    requires
        0 <= p < ts.len(),
        term_op(ts[p].kind) is None,
    ensures
        p_term_rest(ts, p, e) == (Ok::<ExprV, ErrorAt>(e), p),
{
    reveal(p_term_rest);
    reveal(p_factor);
}

#[verifier::spinoff_prover]
proof fn lemma_comparison_rest_stop(ts: Seq<TokenV>, p: int, e: ExprV)
    requires
        0 <= p < ts.len(),
        comparison_op(ts[p].kind) is None,
    ensures
        p_comparison_rest(ts, p, e) == (Ok::<ExprV, ErrorAt>(e), p),
{
    reveal(p_comparison_rest);
    reveal(p_term);
}

#[verifier::spinoff_prover]
proof fn lemma_equality_rest_stop(ts: Seq<TokenV>, p: int, e: ExprV)
    requires
        0 <= p < ts.len(),
        equality_op(ts[p].kind) is None,
    ensures
        p_equality_rest(ts, p, e) == (Ok::<ExprV, ErrorAt>(e), p),
{
    reveal(p_equality_rest);
    reveal(p_comparison);
}

#[verifier::spinoff_prover]
proof fn lemma_and_rest_stop(ts: Seq<TokenV>, p: int, e: ExprV)
    requires
        0 <= p < ts.len(),
        ts[p].kind != Kind::And,
    ensures
        p_and_rest(ts, p, e) == (Ok::<ExprV, ErrorAt>(e), p),
{
    reveal(p_and_rest);
    reveal(p_equality);
}

#[verifier::spinoff_prover]
proof fn lemma_or_rest_stop(ts: Seq<TokenV>, p: int, e: ExprV)
    requires
        0 <= p < ts.len(),
        ts[p].kind != Kind::Or,
    ensures
        p_or_rest(ts, p, e) == (Ok::<ExprV, ErrorAt>(e), p),
{
    reveal(p_or_rest);
    reveal(p_and);
}

/// The rest of each level, at a token that continues none of them.
#[verifier::spinoff_prover]
proof fn lemma_rests_stop(ts: Seq<TokenV>, p: int, e: ExprV)
    requires
        0 <= p < ts.len(),
        ends_operand(ts[p].kind),
    ensures
        p_factor_rest(ts, p, e) == (Ok::<ExprV, ErrorAt>(e), p),
        p_term_rest(ts, p, e) == (Ok::<ExprV, ErrorAt>(e), p),
        p_comparison_rest(ts, p, e) == (Ok::<ExprV, ErrorAt>(e), p),
        p_equality_rest(ts, p, e) == (Ok::<ExprV, ErrorAt>(e), p),
        p_and_rest(ts, p, e) == (Ok::<ExprV, ErrorAt>(e), p),
        p_or_rest(ts, p, e) == (Ok::<ExprV, ErrorAt>(e), p),
{
    lemma_factor_rest_stop(ts, p, e);
    lemma_term_rest_stop(ts, p, e);
    lemma_comparison_rest_stop(ts, p, e);
    lemma_equality_rest_stop(ts, p, e);
    lemma_and_rest_stop(ts, p, e);
    lemma_or_rest_stop(ts, p, e);
}

#[verifier::spinoff_prover]
proof fn lemma_factor_rest_op(ts: Seq<TokenV>, p: int, left: ExprV, right: ExprV, q: int)
    requires
        0 <= p < ts.len(),
        factor_op(ts[p].kind) is Some,
        p_unary(ts, p + 1) == (Ok::<ExprV, ErrorAt>(right), q),
        p + 1 <= q < ts.len(),
    ensures
        p_factor_rest(ts, p, left) == p_factor_rest(ts, q, binary(left, factor_op(ts[p].kind)->0, right)),
{
    reveal(p_factor_rest);
    reveal(p_unary);
}

#[verifier::spinoff_prover]
proof fn lemma_term_rest_op(ts: Seq<TokenV>, p: int, left: ExprV, right: ExprV, q: int)
    requires
        0 <= p < ts.len(),
        term_op(ts[p].kind) is Some,
        p_factor(ts, p + 1) == (Ok::<ExprV, ErrorAt>(right), q),
        p + 1 <= q < ts.len(),
    ensures
        p_term_rest(ts, p, left) == p_term_rest(ts, q, binary(left, term_op(ts[p].kind)->0, right)),
{
    reveal(p_term_rest);
    reveal(p_factor);
}

#[verifier::spinoff_prover]
proof fn lemma_comparison_rest_op(ts: Seq<TokenV>, p: int, left: ExprV, right: ExprV, q: int)
    requires
        0 <= p < ts.len(),
        comparison_op(ts[p].kind) is Some,
        p_term(ts, p + 1) == (Ok::<ExprV, ErrorAt>(right), q),
        p + 1 <= q < ts.len(),
    ensures
        p_comparison_rest(ts, p, left) == p_comparison_rest(ts, q, binary(left, comparison_op(ts[p].kind)->0, right)),
{
    reveal(p_comparison_rest);
    reveal(p_term);
}

#[verifier::spinoff_prover]
proof fn lemma_equality_rest_op(ts: Seq<TokenV>, p: int, left: ExprV, right: ExprV, q: int)
    requires
        0 <= p < ts.len(),
        equality_op(ts[p].kind) is Some,
        p_comparison(ts, p + 1) == (Ok::<ExprV, ErrorAt>(right), q),
        p + 1 <= q < ts.len(),
    ensures
        p_equality_rest(ts, p, left) == p_equality_rest(ts, q, binary(left, equality_op(ts[p].kind)->0, right)),
{
    reveal(p_equality_rest);
    reveal(p_comparison);
}

#[verifier::spinoff_prover]
proof fn lemma_and_rest_op(ts: Seq<TokenV>, p: int, left: ExprV, right: ExprV, q: int)
    requires
        0 <= p < ts.len(),
        ts[p].kind == Kind::And,
        p_equality(ts, p + 1) == (Ok::<ExprV, ErrorAt>(right), q),
        p + 1 <= q < ts.len(),
    ensures
        p_and_rest(ts, p, left) == p_and_rest(ts, q, logical(left, LogicalOp::And, right)),
{
    reveal(p_and_rest);
    reveal(p_equality);
}

#[verifier::spinoff_prover]
proof fn lemma_or_rest_op(ts: Seq<TokenV>, p: int, left: ExprV, right: ExprV, q: int)
    requires
        0 <= p < ts.len(),
        ts[p].kind == Kind::Or,
        p_and(ts, p + 1) == (Ok::<ExprV, ErrorAt>(right), q),
        p + 1 <= q < ts.len(),
    ensures
        p_or_rest(ts, p, left) == p_or_rest(ts, q, logical(left, LogicalOp::Or, right)),
{
    reveal(p_or_rest);
    reveal(p_and);
}

/// A number followed by a token that ends operands is that number at every level.
#[verifier::spinoff_prover]
proof fn lemma_number_operand(ts: Seq<TokenV>, pos: int, n: u64)
    requires
        0 <= pos,
        pos + 1 < ts.len(),
        ts[pos].kind == Kind::Number(n),
        ends_operand(ts[pos + 1].kind),
    ensures
        p_factor(ts, pos) == (Ok::<ExprV, ErrorAt>(ExprV::Number(n)), pos + 1),
        p_term(ts, pos) == (Ok::<ExprV, ErrorAt>(ExprV::Number(n)), pos + 1),
        p_comparison(ts, pos) == (Ok::<ExprV, ErrorAt>(ExprV::Number(n)), pos + 1),
        p_equality(ts, pos) == (Ok::<ExprV, ErrorAt>(ExprV::Number(n)), pos + 1),
        p_and(ts, pos) == (Ok::<ExprV, ErrorAt>(ExprV::Number(n)), pos + 1),
{
    let e = ExprV::Number(n);
    let p = pos + 1;
    lemma_unary_number(ts, pos, n);
    lemma_rests_stop(ts, p, e);
    lemma_factor_from(ts, pos, e, p);
    lemma_term_from(ts, pos, e, p);
    lemma_comparison_from(ts, pos, e, p);
    lemma_equality_from(ts, pos, e, p);
    lemma_and_from(ts, pos, e, p);
}

/// An expression statement `e ;` followed by `Eof` is the whole program.
#[verifier::spinoff_prover]
proof fn lemma_expression_program(ts: Seq<TokenV>, e: ExprV, p: int)
    requires
        0 < p,
        p + 2 == ts.len(),
        p_expression(ts, 0) == (Ok::<ExprV, ErrorAt>(e), p),
        ts[0].kind is Number,
        ts[p].kind == Kind::Semicolon,
        ts[p + 1].kind == Kind::Eof,
    ensures
        parse_spec(ts) == Ok::<Seq<StmtV>, ErrorAt>(seq![StmtV::Expression(e)]),
{
    reveal(p_program);
    reveal(p_declaration);
    reveal(p_statement);
    reveal(p_expression);
    reveal(p_var);
    reveal(p_function);
    reveal(p_block);
    reveal(p_if);
    reveal(p_while);
    reveal(p_return);
    assert(p_declaration(ts, 0) == (Ok::<StmtV, ErrorAt>(StmtV::Expression(e)), p + 1));
    assert(p_program(ts, p + 1, seq![StmtV::Expression(e)]) == (Ok::<Seq<StmtV>, ErrorAt>(seq![StmtV::Expression(e)]), p + 1));
    assert(Seq::<StmtV>::empty().push(StmtV::Expression(e)) =~= seq![StmtV::Expression(e)]);
}

/// The tokens `a k b ; Eof`, for numbers `a`, `b` and a token kind `k`.
pub open spec fn binary_program(ts: Seq<TokenV>, a: u64, k: Kind, b: u64) -> bool {
    &&& ts.len() == 5
    &&& ts[0].kind == Kind::Number(a)
    &&& ts[1].kind == k
    &&& ts[2].kind == Kind::Number(b)
    &&& ts[3].kind == Kind::Semicolon
    &&& ts[4].kind == Kind::Eof
}

/// The program `a k b;` with `k` an operator reading as `op`.
pub open spec fn reads_as(ts: Seq<TokenV>, a: u64, op: BinaryOp, b: u64) -> bool {
    parse_spec(ts) == Ok::<Seq<StmtV>, ErrorAt>(seq![StmtV::Expression(ExprV::Binary {
        left: Box::new(ExprV::Number(a)),
        op,
        right: Box::new(ExprV::Number(b)),
    })])
}

/// The program `a k b;` with `k` the logical operator `op`.
pub open spec fn reads_as_logical(ts: Seq<TokenV>, a: u64, op: LogicalOp, b: u64) -> bool {
    parse_spec(ts) == Ok::<Seq<StmtV>, ErrorAt>(seq![StmtV::Expression(ExprV::Logical {
        left: Box::new(ExprV::Number(a)),
        op,
        right: Box::new(ExprV::Number(b)),
    })])
}

/// Each operator token reads as its own operator, with the operand before it
/// on the left and the one after it on the right: `a * b;` is `a` times `b`,
/// `a > b;` is `a` greater than `b`, `a and b;` is `a` and `b`, and so on
/// for `/ % + - < <= >= == != or`.
#[verifier::spinoff_prover]
pub proof fn law_operator_tokens(ts: Seq<TokenV>, a: u64, k: Kind, b: u64)
    requires
        binary_program(ts, a, k, b),
    ensures
        k == Kind::Star ==> reads_as(ts, a, BinaryOp::Mul, b),
        k == Kind::Slash ==> reads_as(ts, a, BinaryOp::Div, b),
        k == Kind::Percent ==> reads_as(ts, a, BinaryOp::Mod, b),
        k == Kind::Plus ==> reads_as(ts, a, BinaryOp::Add, b),
        k == Kind::Minus ==> reads_as(ts, a, BinaryOp::Sub, b),
        k == Kind::Less ==> reads_as(ts, a, BinaryOp::Less, b),
        k == Kind::LessEq ==> reads_as(ts, a, BinaryOp::LessEq, b),
        k == Kind::Greater ==> reads_as(ts, a, BinaryOp::Greater, b),
        k == Kind::GreaterEq ==> reads_as(ts, a, BinaryOp::GreaterEq, b),
        k == Kind::EqEq ==> reads_as(ts, a, BinaryOp::Eq, b),
        k == Kind::NotEq ==> reads_as(ts, a, BinaryOp::NotEq, b),
        k == Kind::And ==> reads_as_logical(ts, a, LogicalOp::And, b),
        k == Kind::Or ==> reads_as_logical(ts, a, LogicalOp::Or, b),
{
    let ea = ExprV::Number(a);
    let eb = ExprV::Number(b);
    lemma_number_operand(ts, 2, b);
    lemma_unary_number(ts, 2, b);
    if factor_op(k) is Some {
        let e = binary(ea, factor_op(k)->0, eb);
        lemma_unary_number(ts, 0, a);
        lemma_factor_rest_op(ts, 1, ea, eb, 3);
        lemma_rests_stop(ts, 3, e);
        lemma_factor_from(ts, 0, ea, 1);
        lemma_term_from(ts, 0, e, 3);
        lemma_comparison_from(ts, 0, e, 3);
        lemma_equality_from(ts, 0, e, 3);
        lemma_and_from(ts, 0, e, 3);
        lemma_or_from(ts, 0, e, 3);
        lemma_expression_from(ts, 0, e, 3);
        lemma_expression_program(ts, e, 3);
    } else if term_op(k) is Some {
        let e = binary(ea, term_op(k)->0, eb);
        lemma_unary_number(ts, 0, a);
        lemma_factor_rest_stop(ts, 1, ea);
        lemma_factor_from(ts, 0, ea, 1);
        lemma_term_rest_op(ts, 1, ea, eb, 3);
        lemma_rests_stop(ts, 3, e);
        lemma_term_from(ts, 0, ea, 1);
        lemma_comparison_from(ts, 0, e, 3);
        lemma_equality_from(ts, 0, e, 3);
        lemma_and_from(ts, 0, e, 3);
        lemma_or_from(ts, 0, e, 3);
        lemma_expression_from(ts, 0, e, 3);
        lemma_expression_program(ts, e, 3);
    } else if comparison_op(k) is Some {
        let e = binary(ea, comparison_op(k)->0, eb);
        lemma_unary_number(ts, 0, a);
        lemma_factor_rest_stop(ts, 1, ea);
        lemma_term_rest_stop(ts, 1, ea);
        lemma_factor_from(ts, 0, ea, 1);
        lemma_term_from(ts, 0, ea, 1);
        lemma_comparison_rest_op(ts, 1, ea, eb, 3);
        lemma_rests_stop(ts, 3, e);
        lemma_comparison_from(ts, 0, ea, 1);
        lemma_equality_from(ts, 0, e, 3);
        lemma_and_from(ts, 0, e, 3);
        lemma_or_from(ts, 0, e, 3);
        lemma_expression_from(ts, 0, e, 3);
        lemma_expression_program(ts, e, 3);
    } else if equality_op(k) is Some {
        let e = binary(ea, equality_op(k)->0, eb);
        lemma_unary_number(ts, 0, a);
        lemma_factor_rest_stop(ts, 1, ea);
        lemma_term_rest_stop(ts, 1, ea);
        lemma_comparison_rest_stop(ts, 1, ea);
        lemma_factor_from(ts, 0, ea, 1);
        lemma_term_from(ts, 0, ea, 1);
        lemma_comparison_from(ts, 0, ea, 1);
        lemma_equality_rest_op(ts, 1, ea, eb, 3);
        lemma_rests_stop(ts, 3, e);
        lemma_equality_from(ts, 0, ea, 1);
        lemma_and_from(ts, 0, e, 3);
        lemma_or_from(ts, 0, e, 3);
        lemma_expression_from(ts, 0, e, 3);
        lemma_expression_program(ts, e, 3);
    } else if k == Kind::And {
        let e = logical(ea, LogicalOp::And, eb);
        lemma_unary_number(ts, 0, a);
        lemma_factor_rest_stop(ts, 1, ea);
        lemma_term_rest_stop(ts, 1, ea);
        lemma_comparison_rest_stop(ts, 1, ea);
        lemma_equality_rest_stop(ts, 1, ea);
        lemma_factor_from(ts, 0, ea, 1);
        lemma_term_from(ts, 0, ea, 1);
        lemma_comparison_from(ts, 0, ea, 1);
        lemma_equality_from(ts, 0, ea, 1);
        lemma_and_rest_op(ts, 1, ea, eb, 3);
        lemma_rests_stop(ts, 3, e);
        lemma_and_from(ts, 0, ea, 1);
        lemma_or_from(ts, 0, e, 3);
        lemma_expression_from(ts, 0, e, 3);
        lemma_expression_program(ts, e, 3);
    } else if k == Kind::Or {
        let e = logical(ea, LogicalOp::Or, eb);
        lemma_unary_number(ts, 0, a);
        lemma_factor_rest_stop(ts, 1, ea);
        lemma_term_rest_stop(ts, 1, ea);
        lemma_comparison_rest_stop(ts, 1, ea);
        lemma_equality_rest_stop(ts, 1, ea);
        lemma_and_rest_stop(ts, 1, ea);
        lemma_factor_from(ts, 0, ea, 1);
        lemma_term_from(ts, 0, ea, 1);
        lemma_comparison_from(ts, 0, ea, 1);
        lemma_equality_from(ts, 0, ea, 1);
        lemma_and_from(ts, 0, ea, 1);
        lemma_or_rest_op(ts, 1, ea, eb, 3);
        lemma_rests_stop(ts, 3, e);
        lemma_or_from(ts, 0, ea, 1);
        lemma_expression_from(ts, 0, e, 3);
        lemma_expression_program(ts, e, 3);
    }
}

/// A literal or a name parses to itself.
#[verifier::spinoff_prover]
pub proof fn law_primary_tokens(ts: Seq<TokenV>, pos: int)
    requires
        0 <= pos < ts.len(),
    ensures
        ts[pos].kind matches Kind::Number(n) ==> p_primary(ts, pos) == (Ok::<ExprV, ErrorAt>(ExprV::Number(n)), pos + 1),
        ts[pos].kind matches Kind::Str(t) ==> p_primary(ts, pos) == (Ok::<ExprV, ErrorAt>(ExprV::Str(t)), pos + 1),
        ts[pos].kind matches Kind::Identifier(x) ==> p_primary(ts, pos) == (Ok::<ExprV, ErrorAt>(ExprV::Variable(x)), pos + 1),
        ts[pos].kind == Kind::True ==> p_primary(ts, pos) == (Ok::<ExprV, ErrorAt>(ExprV::Bool(true)), pos + 1),
        ts[pos].kind == Kind::False ==> p_primary(ts, pos) == (Ok::<ExprV, ErrorAt>(ExprV::Bool(false)), pos + 1),
        ts[pos].kind == Kind::Nil ==> p_primary(ts, pos) == (Ok::<ExprV, ErrorAt>(ExprV::Nil), pos + 1),
{
    reveal(p_primary);
    reveal(p_expression);
}

/// The expression a name or number at `pos` stands for.
pub open spec fn atom(k: Kind) -> ExprV {
    match k {
        Kind::Identifier(x) => ExprV::Variable(x),
        Kind::Number(n) => ExprV::Number(n),
        _ => ExprV::Nil,
    }
}

#[verifier::spinoff_prover]
proof fn lemma_unary_atom(ts: Seq<TokenV>, pos: int)
    requires
        0 <= pos,
        pos + 1 < ts.len(),
        ts[pos].kind is Number || ts[pos].kind is Identifier,
        ts[pos + 1].kind != Kind::LParen,
    ensures
        p_unary(ts, pos) == (Ok::<ExprV, ErrorAt>(atom(ts[pos].kind)), pos + 1),
{
    reveal(p_unary);
    reveal(p_call);
    reveal(p_call_rest);
    reveal(p_primary);
    reveal(p_expression);
    reveal(p_finish_call);
    let e = atom(ts[pos].kind);
    assert(p_primary(ts, pos) == (Ok::<ExprV, ErrorAt>(e), pos + 1));
    assert(p_call_rest(ts, pos + 1, e) == (Ok::<ExprV, ErrorAt>(e), pos + 1));
    assert(p_call(ts, pos) == (Ok::<ExprV, ErrorAt>(e), pos + 1));
}

/// From a unary-level result `e` ending at `p`, where the token at `p`
/// continues no binary level, up to `p_or`.
#[verifier::spinoff_prover]
proof fn lemma_or_from_unary(ts: Seq<TokenV>, pos: int, e: ExprV, p: int)
    requires
        p_unary(ts, pos) == (Ok::<ExprV, ErrorAt>(e), p),
        0 <= pos <= p < ts.len(),
        factor_op(ts[p].kind) is None,
        term_op(ts[p].kind) is None,
        comparison_op(ts[p].kind) is None,
        equality_op(ts[p].kind) is None,
        ts[p].kind != Kind::And,
        ts[p].kind != Kind::Or,
    ensures
        p_or(ts, pos) == (Ok::<ExprV, ErrorAt>(e), p),
{
    lemma_factor_rest_stop(ts, p, e);
    lemma_term_rest_stop(ts, p, e);
    lemma_comparison_rest_stop(ts, p, e);
    lemma_equality_rest_stop(ts, p, e);
    lemma_and_rest_stop(ts, p, e);
    lemma_or_rest_stop(ts, p, e);
    lemma_factor_from(ts, pos, e, p);
    lemma_term_from(ts, pos, e, p);
    lemma_comparison_from(ts, pos, e, p);
    lemma_equality_from(ts, pos, e, p);
    lemma_and_from(ts, pos, e, p);
    lemma_or_from(ts, pos, e, p);
}

#[verifier::spinoff_prover]
proof fn lemma_unary_prefix(ts: Seq<TokenV>, pos: int, e: ExprV, p: int)
    requires
        0 <= pos < ts.len(),
        ts[pos].kind == Kind::Minus || ts[pos].kind == Kind::Bang,
        p_unary(ts, pos + 1) == (Ok::<ExprV, ErrorAt>(e), p),
    ensures
        ts[pos].kind == Kind::Minus ==> p_unary(ts, pos) == (Ok::<ExprV, ErrorAt>(ExprV::Unary { op: UnaryOp::Negate, right: Box::new(e) }), p),
        ts[pos].kind == Kind::Bang ==> p_unary(ts, pos) == (Ok::<ExprV, ErrorAt>(ExprV::Unary { op: UnaryOp::Not, right: Box::new(e) }), p),
{
    reveal(p_unary);
    reveal(p_call);
}

/// A whole program of one declaration.
#[verifier::spinoff_prover]
proof fn lemma_single_declaration(ts: Seq<TokenV>, st: StmtV, p: int)
    requires
        0 < p < ts.len(),
        ts[0].kind != Kind::Eof,
        p_declaration(ts, 0) == (Ok::<StmtV, ErrorAt>(st), p),
        ts[p].kind == Kind::Eof,
    ensures
        parse_spec(ts) == Ok::<Seq<StmtV>, ErrorAt>(seq![st]),
{
    reveal(p_program);
    reveal(p_declaration);
    assert(p_program(ts, p, seq![st]) == (Ok::<Seq<StmtV>, ErrorAt>(seq![st]), p));
    assert(Seq::<StmtV>::empty().push(st) =~= seq![st]);
}

/// `-a;` is the negation of `a` and `!a;` its logical not.
#[verifier::spinoff_prover]
pub proof fn law_unary_tokens(ts: Seq<TokenV>, k: Kind, a: u64)
    requires
        ts.len() == 4,
        ts[0].kind == k,
        ts[1].kind == Kind::Number(a),
        ts[2].kind == Kind::Semicolon,
        ts[3].kind == Kind::Eof,
    ensures
        k == Kind::Minus ==> parse_spec(ts) == Ok::<Seq<StmtV>, ErrorAt>(seq![StmtV::Expression(
            ExprV::Unary { op: UnaryOp::Negate, right: Box::new(ExprV::Number(a)) },
        )]),
        k == Kind::Bang ==> parse_spec(ts) == Ok::<Seq<StmtV>, ErrorAt>(seq![StmtV::Expression(
            ExprV::Unary { op: UnaryOp::Not, right: Box::new(ExprV::Number(a)) },
        )]),
{
    if k == Kind::Minus || k == Kind::Bang {
        let ea = ExprV::Number(a);
        lemma_unary_atom(ts, 1);
        lemma_unary_prefix(ts, 0, ea, 2);
        let u = if k == Kind::Minus {
            ExprV::Unary { op: UnaryOp::Negate, right: Box::new(ea) }
        } else {
            ExprV::Unary { op: UnaryOp::Not, right: Box::new(ea) }
        };
        lemma_or_from_unary(ts, 0, u, 2);
        lemma_expression_from(ts, 0, u, 2);
        reveal(p_declaration);
        reveal(p_statement);
        reveal(p_expression);
        assert(p_declaration(ts, 0) == (Ok::<StmtV, ErrorAt>(StmtV::Expression(u)), 3int));
        lemma_single_declaration(ts, StmtV::Expression(u), 3);
    }
}

/// `print a;` is a print statement of `a`.
#[verifier::spinoff_prover]
pub proof fn law_print_tokens(ts: Seq<TokenV>, a: u64)
    requires
        ts.len() == 4,
        ts[0].kind == Kind::Print,
        ts[1].kind == Kind::Number(a),
        ts[2].kind == Kind::Semicolon,
        ts[3].kind == Kind::Eof,
    ensures
        parse_spec(ts) == Ok::<Seq<StmtV>, ErrorAt>(seq![StmtV::Print(ExprV::Number(a))]),
{
    let ea = ExprV::Number(a);
    reveal(p_declaration);
    reveal(p_statement);
    reveal(p_expression);
    reveal(p_var);
    reveal(p_return);
    lemma_unary_atom(ts, 1);
    lemma_or_from_unary(ts, 1, ea, 2);
    lemma_expression_from(ts, 1, ea, 2);
    assert(p_declaration(ts, 0) == (Ok::<StmtV, ErrorAt>(StmtV::Print(ea)), 3int));
    lemma_single_declaration(ts, StmtV::Print(ea), 3);
}

/// `return a;` returns `a`, and `return;` returns nothing.
#[verifier::spinoff_prover]
pub proof fn law_return_tokens(ts: Seq<TokenV>, a: u64)
    ensures
        ts.len() == 4 && ts[0].kind == Kind::Return && ts[1].kind == Kind::Number(a) && ts[2].kind == Kind::Semicolon
            && ts[3].kind == Kind::Eof ==> parse_spec(ts) == Ok::<Seq<StmtV>, ErrorAt>(seq![StmtV::Return(Some(ExprV::Number(a)))]),
        ts.len() == 3 && ts[0].kind == Kind::Return && ts[1].kind == Kind::Semicolon && ts[2].kind == Kind::Eof
            ==> parse_spec(ts) == Ok::<Seq<StmtV>, ErrorAt>(seq![StmtV::Return(None)]),
{
    let ea = ExprV::Number(a);
    reveal(p_declaration);
    reveal(p_statement);
    reveal(p_expression);
    reveal(p_var);
    reveal(p_return);
    if ts.len() == 4 && ts[0].kind == Kind::Return && ts[1].kind == Kind::Number(a) && ts[2].kind == Kind::Semicolon
        && ts[3].kind == Kind::Eof {
        lemma_unary_atom(ts, 1);
        lemma_or_from_unary(ts, 1, ea, 2);
        lemma_expression_from(ts, 1, ea, 2);
        assert(p_return(ts, 1) == (Ok::<StmtV, ErrorAt>(StmtV::Return(Some(ea))), 3int));
        assert(p_declaration(ts, 0) == (Ok::<StmtV, ErrorAt>(StmtV::Return(Some(ea))), 3int));
        lemma_single_declaration(ts, StmtV::Return(Some(ea)), 3);
    }
    if ts.len() == 3 && ts[0].kind == Kind::Return && ts[1].kind == Kind::Semicolon && ts[2].kind == Kind::Eof {
        assert(p_return(ts, 1) == (Ok::<StmtV, ErrorAt>(StmtV::Return(None)), 2int));
        assert(p_declaration(ts, 0) == (Ok::<StmtV, ErrorAt>(StmtV::Return(None)), 2int));
        lemma_single_declaration(ts, StmtV::Return(None), 2);
    }
}

/// `var x = a;` declares `x` with the value `a`, and `var x;` declares it
/// without one.
#[verifier::spinoff_prover]
pub proof fn law_var_tokens(ts: Seq<TokenV>, x: Seq<char>, a: u64)
    ensures
        ts.len() == 6 && ts[0].kind == Kind::Var && ts[1].kind == Kind::Identifier(x) && ts[2].kind == Kind::Eq
            && ts[3].kind == Kind::Number(a) && ts[4].kind == Kind::Semicolon && ts[5].kind == Kind::Eof
            ==> parse_spec(ts) == Ok::<Seq<StmtV>, ErrorAt>(seq![StmtV::Var { name: x, initializer: Some(ExprV::Number(a)) }]),
        ts.len() == 4 && ts[0].kind == Kind::Var && ts[1].kind == Kind::Identifier(x) && ts[2].kind == Kind::Semicolon
            && ts[3].kind == Kind::Eof ==> parse_spec(ts) == Ok::<Seq<StmtV>, ErrorAt>(seq![StmtV::Var { name: x, initializer: None }]),
{
    let ea = ExprV::Number(a);
    reveal(p_declaration);
    reveal(p_statement);
    reveal(p_expression);
    reveal(p_var);
    reveal(p_return);
    if ts.len() == 6 && ts[0].kind == Kind::Var && ts[1].kind == Kind::Identifier(x) && ts[2].kind == Kind::Eq
        && ts[3].kind == Kind::Number(a) && ts[4].kind == Kind::Semicolon && ts[5].kind == Kind::Eof {
        lemma_unary_atom(ts, 3);
        lemma_or_from_unary(ts, 3, ea, 4);
        lemma_expression_from(ts, 3, ea, 4);
        let v = StmtV::Var { name: x, initializer: Some(ea) };
        assert(p_var(ts, 1) == (Ok::<StmtV, ErrorAt>(v), 5int));
        assert(p_declaration(ts, 0) == (Ok::<StmtV, ErrorAt>(v), 5int));
        lemma_single_declaration(ts, v, 5);
    }
    if ts.len() == 4 && ts[0].kind == Kind::Var && ts[1].kind == Kind::Identifier(x) && ts[2].kind == Kind::Semicolon
        && ts[3].kind == Kind::Eof {
        let v = StmtV::Var { name: x, initializer: None };
        assert(p_var(ts, 1) == (Ok::<StmtV, ErrorAt>(v), 3int));
        assert(p_declaration(ts, 0) == (Ok::<StmtV, ErrorAt>(v), 3int));
        lemma_single_declaration(ts, v, 3);
    }
}

/// `x = a;` assigns `a` to `x`.
#[verifier::spinoff_prover]
pub proof fn law_assignment_tokens(ts: Seq<TokenV>, x: Seq<char>, a: u64)
    requires
        ts.len() == 5,
        ts[0].kind == Kind::Identifier(x),
        ts[1].kind == Kind::Eq,
        ts[2].kind == Kind::Number(a),
        ts[3].kind == Kind::Semicolon,
        ts[4].kind == Kind::Eof,
    ensures
        parse_spec(ts) == Ok::<Seq<StmtV>, ErrorAt>(
            seq![StmtV::Expression(ExprV::Assign { name: x, value: Box::new(ExprV::Number(a)) })],
        ),
{
    let ea = ExprV::Number(a);
    reveal(p_declaration);
    reveal(p_statement);
    reveal(p_expression);
    lemma_unary_atom(ts, 0);
    lemma_or_from_unary(ts, 0, ExprV::Variable(x), 1);
    lemma_unary_atom(ts, 2);
    lemma_or_from_unary(ts, 2, ea, 3);
    lemma_assignment_end(ts, 2, ea, 3);
    lemma_assignment_target(ts, 0, x, 1, ea, 3);
    let asg = ExprV::Assign { name: x, value: Box::new(ea) };
    assert(p_expression(ts, 0) == (Ok::<ExprV, ErrorAt>(asg), 3int));
    assert(p_declaration(ts, 0) == (Ok::<StmtV, ErrorAt>(StmtV::Expression(asg)), 4int));
    lemma_single_declaration(ts, StmtV::Expression(asg), 4);
}

#[verifier::spinoff_prover]
proof fn lemma_assignment_end(ts: Seq<TokenV>, pos: int, e: ExprV, p: int)
    requires
        p_or(ts, pos) == (Ok::<ExprV, ErrorAt>(e), p),
        0 <= pos <= p < ts.len(),
        ts[p].kind != Kind::Eq,
    ensures
        p_assignment(ts, pos) == (Ok::<ExprV, ErrorAt>(e), p),
{
    reveal(p_assignment);
    reveal(p_or);
}

#[verifier::spinoff_prover]
proof fn lemma_assignment_target(ts: Seq<TokenV>, pos: int, x: Seq<char>, p: int, v: ExprV, q: int)
    requires
        p_or(ts, pos) == (Ok::<ExprV, ErrorAt>(ExprV::Variable(x)), p),
        0 <= pos <= p < ts.len(),
        ts[p].kind == Kind::Eq,
        p_assignment(ts, p + 1) == (Ok::<ExprV, ErrorAt>(v), q),
    ensures
        p_assignment(ts, pos) == (Ok::<ExprV, ErrorAt>(ExprV::Assign { name: x, value: Box::new(v) }), q),
{
    reveal(p_assignment);
    reveal(p_or);
}

/// A missing `;` is reported at the token where it was expected:
/// `print a` then the end is `expected ';' after value` there, and `a` then
/// the end is `expected ';' after expression` there.
#[verifier::spinoff_prover]
pub proof fn law_missing_semicolon(ts: Seq<TokenV>, a: u64)
    requires
        ts.len() == 3,
        ts[1].kind == Kind::Number(a) || ts[0].kind == Kind::Number(a),
        ts[2].kind == Kind::Eof,
    ensures
        ts[0].kind == Kind::Print && ts[1].kind == Kind::Number(a) ==> parse_spec(ts) == Err::<Seq<StmtV>, ErrorAt>(
            ErrorAt { message: "expected ';' after value"@, line: ts[2].line, col: ts[2].col },
        ),
        ts[0].kind == Kind::Number(a) && ts[1].kind == Kind::Eof ==> parse_spec(ts) == Err::<Seq<StmtV>, ErrorAt>(
            ErrorAt { message: "expected ';' after expression"@, line: ts[1].line, col: ts[1].col },
        ),
{
    let ea = ExprV::Number(a);
    reveal(p_program);
    reveal(p_declaration);
    reveal(p_statement);
    reveal(p_expression);
    reveal(p_var);
    reveal(p_return);
    if ts[0].kind == Kind::Print && ts[1].kind == Kind::Number(a) {
        lemma_unary_atom(ts, 1);
        lemma_or_from_unary(ts, 1, ea, 2);
        lemma_expression_from(ts, 1, ea, 2);
    }
    if ts[0].kind == Kind::Number(a) && ts[1].kind == Kind::Eof {
        lemma_unary_atom(ts, 0);
        lemma_or_from_unary(ts, 0, ea, 1);
        lemma_expression_from(ts, 0, ea, 1);
    }
}

/// `if (c) t else e`: the condition is the expression in the parentheses,
/// the statement after them is the then-branch and the one after `else` the
/// else-branch; without `else` there is no else-branch.
#[verifier::spinoff_prover]
pub proof fn law_if_parts(ts: Seq<TokenV>, pos: int, c: ExprV, p: int, t: StmtV, q: int, e: StmtV, w: int)
    requires
        0 <= pos < ts.len(),
        ts[pos].kind == Kind::If,
        ts[pos + 1].kind == Kind::LParen,
        p_expression(ts, pos + 2) == (Ok::<ExprV, ErrorAt>(c), p),
        pos + 2 <= p < ts.len(),
        ts[p].kind == Kind::RParen,
        p_statement(ts, p + 1) == (Ok::<StmtV, ErrorAt>(t), q),
        p + 1 <= q < ts.len(),
    ensures
        ts[q].kind != Kind::Else ==> p_statement(ts, pos) == (Ok::<StmtV, ErrorAt>(StmtV::If {
            condition: c,
            then_branch: Box::new(t),
            else_branch: None,
        }), q),
        ts[q].kind == Kind::Else && p_statement(ts, q + 1) == (Ok::<StmtV, ErrorAt>(e), w)
            ==> p_statement(ts, pos) == (Ok::<StmtV, ErrorAt>(StmtV::If {
            condition: c,
            then_branch: Box::new(t),
            else_branch: Some(Box::new(e)),
        }), w),
{
    reveal(p_statement);
    reveal(p_if);
    reveal(p_expression);
    reveal(p_block);
    reveal(p_while);
    reveal(p_return);
}

/// `while (c) b`: the condition is the expression in the parentheses and
/// the body the statement after them.
#[verifier::spinoff_prover]
pub proof fn law_while_parts(ts: Seq<TokenV>, pos: int, c: ExprV, p: int, b: StmtV, q: int)
    requires
        0 <= pos < ts.len(),
        ts[pos].kind == Kind::While,
        ts[pos + 1].kind == Kind::LParen,
        p_expression(ts, pos + 2) == (Ok::<ExprV, ErrorAt>(c), p),
        pos + 2 <= p < ts.len(),
        ts[p].kind == Kind::RParen,
        p_statement(ts, p + 1) == (Ok::<StmtV, ErrorAt>(b), q),
    ensures
        p_statement(ts, pos) == (Ok::<StmtV, ErrorAt>(StmtV::While { condition: c, body: Box::new(b) }), q),
{
    reveal(p_statement);
    reveal(p_while);
    reveal(p_expression);
    reveal(p_block);
    reveal(p_if);
    reveal(p_return);
}

/// `{ ... }`: the statements of a block are its declarations up to the `}`,
/// in order.
#[verifier::spinoff_prover]
pub proof fn law_block_parts(ts: Seq<TokenV>, pos: int, d: StmtV, p: int)
    requires
        0 <= pos,
        pos + 1 < ts.len(),
        ts[pos + 1].kind != Kind::RBrace,
        ts[pos + 1].kind != Kind::Eof,
        p_declaration(ts, pos + 1) == (Ok::<StmtV, ErrorAt>(d), p),
        pos + 2 <= p < ts.len(),
        ts[p].kind == Kind::RBrace,
    ensures
        ts[pos].kind == Kind::LBrace ==> p_statement(ts, pos) == (Ok::<StmtV, ErrorAt>(StmtV::Block(seq![d])), p + 1),
        p_block(ts, pos + 1, Seq::empty()) == (Ok::<Seq<StmtV>, ErrorAt>(seq![d]), p + 1),
{
    reveal(p_statement);
    reveal(p_block);
    reveal(p_declaration);
    reveal(p_expression);
    reveal(p_if);
    reveal(p_while);
    reveal(p_return);
    assert(Seq::<StmtV>::empty().push(d) =~= seq![d]);
    assert(p_block(ts, p, seq![d]) == (Ok::<Seq<StmtV>, ErrorAt>(seq![d]), p + 1));
}

/// A call's arguments are the expressions between its parentheses, in
/// order, and its callee the expression before them: `f()`, `f(a)`,
/// `f(a, b)`.
#[verifier::spinoff_prover]
pub proof fn law_call_parts(ts: Seq<TokenV>, pos: int, f: ExprV, a: ExprV, p: int, b: ExprV, q: int)
    requires
        0 <= pos < ts.len(),
        p_expression(ts, pos) == (Ok::<ExprV, ErrorAt>(a), p),
        pos <= p < ts.len(),
    ensures
        ts[pos].kind == Kind::RParen ==> p_finish_call(ts, pos, f) == (Ok::<ExprV, ErrorAt>(ExprV::Call { callee: Box::new(f), args: Seq::empty() }), pos + 1),
        ts[pos].kind != Kind::RParen && ts[p].kind == Kind::RParen ==> p_finish_call(ts, pos, f) == (Ok::<ExprV, ErrorAt>(
            ExprV::Call { callee: Box::new(f), args: seq![a] },
        ), p + 1),
        ts[pos].kind != Kind::RParen && ts[p].kind == Kind::Comma && p_expression(ts, p + 1) == (Ok::<ExprV, ErrorAt>(b), q)
            && p + 1 <= q < ts.len() && ts[q].kind == Kind::RParen ==> p_finish_call(ts, pos, f) == (Ok::<ExprV, ErrorAt>(
            ExprV::Call { callee: Box::new(f), args: seq![a, b] },
        ), q + 1),
{
    reveal(p_finish_call);
    reveal(p_args);
    reveal(p_expression);
    assert(Seq::<ExprV>::empty().push(a) =~= seq![a]);
    assert(seq![a].push(b) =~= seq![a, b]);
}

/// `fn f(a, b) { ... }` declares a function named `f` whose parameters are
/// `a` then `b` and whose body is the block's statements; `fn f() { ... }`
/// one without parameters.
#[verifier::spinoff_prover]
pub proof fn law_function_parts(ts: Seq<TokenV>, pos: int, f: Seq<char>, a: Seq<char>, b: Seq<char>, body: Seq<StmtV>, q: int)
    requires
        0 <= pos,
        pos + 8 < ts.len(),
        ts[pos].kind == Kind::Fn,
        ts[pos + 1].kind == Kind::Identifier(f),
        ts[pos + 2].kind == Kind::LParen,
    ensures
        ts[pos + 3].kind == Kind::Identifier(a) && ts[pos + 4].kind == Kind::Comma && ts[pos + 5].kind == Kind::Identifier(b)
            && ts[pos + 6].kind == Kind::RParen && ts[pos + 7].kind == Kind::LBrace
            && p_block(ts, pos + 8, Seq::empty()) == (Ok::<Seq<StmtV>, ErrorAt>(body), q) ==> p_declaration(ts, pos) == (
            Ok::<StmtV, ErrorAt>(StmtV::Function { name: f, params: seq![a, b], body }),
            q,
        ),
        ts[pos + 3].kind == Kind::RParen && ts[pos + 4].kind == Kind::LBrace
            && p_block(ts, pos + 5, Seq::empty()) == (Ok::<Seq<StmtV>, ErrorAt>(body), q) ==> p_declaration(ts, pos) == (
            Ok::<StmtV, ErrorAt>(StmtV::Function { name: f, params: Seq::empty(), body }),
            q,
        ),
{
    reveal(p_declaration);
    reveal(p_function);
    reveal(p_params);
    reveal(p_block);
    reveal(p_var);
    reveal(p_statement);
    assert(Seq::<Seq<char>>::empty().push(a).push(b) =~= seq![a, b]);
    if ts[pos + 3].kind == Kind::Identifier(a) && ts[pos + 4].kind == Kind::Comma && ts[pos + 5].kind == Kind::Identifier(b)
        && ts[pos + 6].kind == Kind::RParen {
        let one = Seq::<Seq<char>>::empty().push(a);
        assert(p_params(ts, pos + 5, one) == (Ok::<Seq<Seq<char>>, ErrorAt>(one.push(b)), pos + 6));
        assert(p_params(ts, pos + 3, Seq::empty()) == (Ok::<Seq<Seq<char>>, ErrorAt>(one.push(b)), pos + 6));
    }
}

/// A parenthesised expression is the expression inside.
#[verifier::spinoff_prover]
pub proof fn law_grouping(ts: Seq<TokenV>, pos: int, e: ExprV, p: int)
    requires
        0 <= pos < ts.len(),
        ts[pos].kind == Kind::LParen,
        p_expression(ts, pos + 1) == (Ok::<ExprV, ErrorAt>(e), p),
        pos + 1 <= p < ts.len(),
        ts[p].kind == Kind::RParen,
    ensures
        p_primary(ts, pos) == (Ok::<ExprV, ErrorAt>(e), p + 1),
{
    reveal(p_primary);
    reveal(p_expression);
}

} // verus!
