//! The grammar, stated as a recursive-descent function over abstract tokens.
//!
//! Each `p_*` function takes the token sequence and a position and gives the
//! parsed node (or the first error) together with the position after it.
//! Precedence, lowest to highest: assignment, `or`, `and`, equality,
//! comparison, term (`+ -`), factor (`* / %`), unary, call, primary; binary
//! operators associate to the left, assignment to the right.

use vstd::prelude::*;
use crate::ast::{BinaryOp, ExprV, LogicalOp, StmtV, UnaryOp};
use crate::error::ErrorAt;
use crate::token::{Kind, TokenV};

verus! {

/// Whether the token at `pos` is of kind `k` (used for kinds without text).
pub open spec fn checks(ts: Seq<TokenV>, pos: int, k: Kind) -> bool {
    ts[pos].kind == k
}

/// An error with `message`, positioned at the token at `pos`.
pub open spec fn error_at(ts: Seq<TokenV>, pos: int, message: Seq<char>) -> ErrorAt {
    ErrorAt { message, line: ts[pos].line, col: ts[pos].col }
}

/// The outcome when a sub-parse did not move forward; no well-formed token
/// sequence ever gives it.
pub open spec fn stalled() -> ErrorAt {
    ErrorAt { message: Seq::empty(), line: 0, col: 0 }
}

/// `from <= p` and `p` is a position of `ts`.
pub open spec fn within(ts: Seq<TokenV>, from: int, p: int) -> bool {
    from <= p < ts.len()
}

pub open spec fn factor_op(k: Kind) -> Option<BinaryOp> {
    match k {
        Kind::Star => Some(BinaryOp::Mul),
        Kind::Slash => Some(BinaryOp::Div),
        Kind::Percent => Some(BinaryOp::Mod),
        _ => None,
    }
}

pub open spec fn term_op(k: Kind) -> Option<BinaryOp> {
    match k {
        Kind::Plus => Some(BinaryOp::Add),
        Kind::Minus => Some(BinaryOp::Sub),
        _ => None,
    }
}

pub open spec fn comparison_op(k: Kind) -> Option<BinaryOp> {
    match k {
        Kind::Less => Some(BinaryOp::Less),
        Kind::LessEq => Some(BinaryOp::LessEq),
        Kind::Greater => Some(BinaryOp::Greater),
        Kind::GreaterEq => Some(BinaryOp::GreaterEq),
        _ => None,
    }
}

pub open spec fn equality_op(k: Kind) -> Option<BinaryOp> {
    match k {
        Kind::EqEq => Some(BinaryOp::Eq),
        Kind::NotEq => Some(BinaryOp::NotEq),
        _ => None,
    }
}

pub open spec fn binary(left: ExprV, op: BinaryOp, right: ExprV) -> ExprV {
    ExprV::Binary { left: Box::new(left), op, right: Box::new(right) }
}

pub open spec fn logical(left: ExprV, op: LogicalOp, right: ExprV) -> ExprV {
    ExprV::Logical { left: Box::new(left), op, right: Box::new(right) }
}

#[verifier::opaque]
pub open spec fn p_primary(ts: Seq<TokenV>, pos: int) -> (Result<ExprV, ErrorAt>, int)
    decreases ts.len() - pos, 1nat,
{
    if !(0 <= pos < ts.len()) {
        (Err(stalled()), pos)
    } else {
        match ts[pos].kind {
            Kind::Number(n) => (Ok(ExprV::Number(n)), pos + 1),
            Kind::Str(s) => (Ok(ExprV::Str(s)), pos + 1),
            Kind::True => (Ok(ExprV::Bool(true)), pos + 1),
            Kind::False => (Ok(ExprV::Bool(false)), pos + 1),
            Kind::Nil => (Ok(ExprV::Nil), pos + 1),
            Kind::Identifier(name) => (Ok(ExprV::Variable(name)), pos + 1),
            Kind::LParen => {
                let (r, p) = p_expression(ts, pos + 1);
                match r {
                    Err(e) => (Err(e), p),
                    Ok(e) => if !within(ts, pos + 1, p) {
                        (Err(stalled()), p)
                    } else if checks(ts, p, Kind::RParen) {
                        (Ok(e), p + 1)
                    } else {
                        (Err(error_at(ts, p, "expected ')' after expression"@)), p)
                    },
                }
            },
            _ => (Err(error_at(ts, pos, "unexpected token in expression"@)), pos),
        }
    }
}

#[verifier::opaque]
pub open spec fn p_args(ts: Seq<TokenV>, pos: int, callee: ExprV, acc: Seq<ExprV>) -> (Result<ExprV, ErrorAt>, int)
    decreases ts.len() - pos, 19nat,
{
    if !(0 <= pos < ts.len()) {
        (Err(stalled()), pos)
    } else {
        let (r, p) = p_expression(ts, pos);
        match r {
            Err(e) => (Err(e), p),
            Ok(a) => if !within(ts, pos, p) {
                (Err(stalled()), p)
            } else if checks(ts, p, Kind::Comma) {
                p_args(ts, p + 1, callee, acc.push(a))
            } else if checks(ts, p, Kind::RParen) {
                (Ok(ExprV::Call { callee: Box::new(callee), args: acc.push(a) }), p + 1)
            } else {
                (Err(error_at(ts, p, "expected ')' after arguments"@)), p)
            },
        }
    }
}

#[verifier::opaque]
pub open spec fn p_finish_call(ts: Seq<TokenV>, pos: int, callee: ExprV) -> (Result<ExprV, ErrorAt>, int)
    decreases ts.len() - pos, 20nat,
{
    if !(0 <= pos < ts.len()) {
        (Err(stalled()), pos)
    } else if checks(ts, pos, Kind::RParen) {
        (Ok(ExprV::Call { callee: Box::new(callee), args: Seq::empty() }), pos + 1)
    } else {
        p_args(ts, pos, callee, Seq::empty())
    }
}

#[verifier::opaque]
pub open spec fn p_call_rest(ts: Seq<TokenV>, pos: int, callee: ExprV) -> (Result<ExprV, ErrorAt>, int)
    decreases ts.len() - pos, 2nat,
{
    if !(0 <= pos < ts.len()) {
        (Err(stalled()), pos)
    } else if checks(ts, pos, Kind::LParen) {
        let (r, p) = p_finish_call(ts, pos + 1, callee);
        match r {
            Err(e) => (Err(e), p),
            Ok(e) => if within(ts, pos + 1, p) { p_call_rest(ts, p, e) } else { (Err(stalled()), p) },
        }
    } else {
        (Ok(callee), pos)
    }
}

#[verifier::opaque]
pub open spec fn p_call(ts: Seq<TokenV>, pos: int) -> (Result<ExprV, ErrorAt>, int)
    decreases ts.len() - pos, 3nat,
{
    let (r, p) = p_primary(ts, pos);
    match r {
        Err(e) => (Err(e), p),
        Ok(e) => if within(ts, pos, p) { p_call_rest(ts, p, e) } else { (Err(stalled()), p) },
    }
}

#[verifier::opaque]
pub open spec fn p_unary(ts: Seq<TokenV>, pos: int) -> (Result<ExprV, ErrorAt>, int)
    decreases ts.len() - pos, 4nat,
{
    if !(0 <= pos < ts.len()) {
        (Err(stalled()), pos)
    } else if checks(ts, pos, Kind::Bang) {
        let (r, p) = p_unary(ts, pos + 1);
        match r {
            Err(e) => (Err(e), p),
            Ok(e) => (Ok(ExprV::Unary { op: UnaryOp::Not, right: Box::new(e) }), p),
        }
    } else if checks(ts, pos, Kind::Minus) {
        let (r, p) = p_unary(ts, pos + 1);
        match r {
            Err(e) => (Err(e), p),
            Ok(e) => (Ok(ExprV::Unary { op: UnaryOp::Negate, right: Box::new(e) }), p),
        }
    } else {
        p_call(ts, pos)
    }
}

#[verifier::opaque]
pub open spec fn p_factor_rest(ts: Seq<TokenV>, pos: int, left: ExprV) -> (Result<ExprV, ErrorAt>, int)
    decreases ts.len() - pos, 5nat,
{
    if !(0 <= pos < ts.len()) {
        (Err(stalled()), pos)
    } else {
        match factor_op(ts[pos].kind) {
            None => (Ok(left), pos),
            Some(op) => {
                let (r, p) = p_unary(ts, pos + 1);
                match r {
                    Err(e) => (Err(e), p),
                    Ok(right) => if within(ts, pos + 1, p) {
                        p_factor_rest(ts, p, binary(left, op, right))
                    } else {
                        (Err(stalled()), p)
                    },
                }
            },
        }
    }
}

#[verifier::opaque]
pub open spec fn p_factor(ts: Seq<TokenV>, pos: int) -> (Result<ExprV, ErrorAt>, int)
    decreases ts.len() - pos, 6nat,
{
    let (r, p) = p_unary(ts, pos);
    match r {
        Err(e) => (Err(e), p),
        Ok(e) => if within(ts, pos, p) { p_factor_rest(ts, p, e) } else { (Err(stalled()), p) },
    }
}

#[verifier::opaque]
pub open spec fn p_term_rest(ts: Seq<TokenV>, pos: int, left: ExprV) -> (Result<ExprV, ErrorAt>, int)
    decreases ts.len() - pos, 7nat,
{
    if !(0 <= pos < ts.len()) {
        (Err(stalled()), pos)
    } else {
        match term_op(ts[pos].kind) {
            None => (Ok(left), pos),
            Some(op) => {
                let (r, p) = p_factor(ts, pos + 1);
                match r {
                    Err(e) => (Err(e), p),
                    Ok(right) => if within(ts, pos + 1, p) {
                        p_term_rest(ts, p, binary(left, op, right))
                    } else {
                        (Err(stalled()), p)
                    },
                }
            },
        }
    }
}

#[verifier::opaque]
pub open spec fn p_term(ts: Seq<TokenV>, pos: int) -> (Result<ExprV, ErrorAt>, int)
    decreases ts.len() - pos, 8nat,
{
    let (r, p) = p_factor(ts, pos);
    match r {
        Err(e) => (Err(e), p),
        Ok(e) => if within(ts, pos, p) { p_term_rest(ts, p, e) } else { (Err(stalled()), p) },
    }
}

#[verifier::opaque]
pub open spec fn p_comparison_rest(ts: Seq<TokenV>, pos: int, left: ExprV) -> (Result<ExprV, ErrorAt>, int)
    decreases ts.len() - pos, 9nat,
{
    if !(0 <= pos < ts.len()) {
        (Err(stalled()), pos)
    } else {
        match comparison_op(ts[pos].kind) {
            None => (Ok(left), pos),
            Some(op) => {
                let (r, p) = p_term(ts, pos + 1);
                match r {
                    Err(e) => (Err(e), p),
                    Ok(right) => if within(ts, pos + 1, p) {
                        p_comparison_rest(ts, p, binary(left, op, right))
                    } else {
                        (Err(stalled()), p)
                    },
                }
            },
        }
    }
}

#[verifier::opaque]
pub open spec fn p_comparison(ts: Seq<TokenV>, pos: int) -> (Result<ExprV, ErrorAt>, int)
    decreases ts.len() - pos, 10nat,
{
    let (r, p) = p_term(ts, pos);
    match r {
        Err(e) => (Err(e), p),
        Ok(e) => if within(ts, pos, p) { p_comparison_rest(ts, p, e) } else { (Err(stalled()), p) },
    }
}

#[verifier::opaque]
pub open spec fn p_equality_rest(ts: Seq<TokenV>, pos: int, left: ExprV) -> (Result<ExprV, ErrorAt>, int)
    decreases ts.len() - pos, 11nat,
{
    if !(0 <= pos < ts.len()) {
        (Err(stalled()), pos)
    } else {
        match equality_op(ts[pos].kind) {
            None => (Ok(left), pos),
            Some(op) => {
                let (r, p) = p_comparison(ts, pos + 1);
                match r {
                    Err(e) => (Err(e), p),
                    Ok(right) => if within(ts, pos + 1, p) {
                        p_equality_rest(ts, p, binary(left, op, right))
                    } else {
                        (Err(stalled()), p)
                    },
                }
            },
        }
    }
}

#[verifier::opaque]
pub open spec fn p_equality(ts: Seq<TokenV>, pos: int) -> (Result<ExprV, ErrorAt>, int)
    decreases ts.len() - pos, 12nat,
{
    let (r, p) = p_comparison(ts, pos);
    match r {
        Err(e) => (Err(e), p),
        Ok(e) => if within(ts, pos, p) { p_equality_rest(ts, p, e) } else { (Err(stalled()), p) },
    }
}

#[verifier::opaque]
pub open spec fn p_and_rest(ts: Seq<TokenV>, pos: int, left: ExprV) -> (Result<ExprV, ErrorAt>, int)
    decreases ts.len() - pos, 13nat,
{
    if !(0 <= pos < ts.len()) {
        (Err(stalled()), pos)
    } else if checks(ts, pos, Kind::And) {
        let (r, p) = p_equality(ts, pos + 1);
        match r {
            Err(e) => (Err(e), p),
            Ok(right) => if within(ts, pos + 1, p) {
                p_and_rest(ts, p, logical(left, LogicalOp::And, right))
            } else {
                (Err(stalled()), p)
            },
        }
    } else {
        (Ok(left), pos)
    }
}

#[verifier::opaque]
pub open spec fn p_and(ts: Seq<TokenV>, pos: int) -> (Result<ExprV, ErrorAt>, int)
    decreases ts.len() - pos, 14nat,
{
    let (r, p) = p_equality(ts, pos);
    match r {
        Err(e) => (Err(e), p),
        Ok(e) => if within(ts, pos, p) { p_and_rest(ts, p, e) } else { (Err(stalled()), p) },
    }
}

#[verifier::opaque]
pub open spec fn p_or_rest(ts: Seq<TokenV>, pos: int, left: ExprV) -> (Result<ExprV, ErrorAt>, int)
    decreases ts.len() - pos, 15nat,
{
    if !(0 <= pos < ts.len()) {
        (Err(stalled()), pos)
    } else if checks(ts, pos, Kind::Or) {
        let (r, p) = p_and(ts, pos + 1);
        match r {
            Err(e) => (Err(e), p),
            Ok(right) => if within(ts, pos + 1, p) {
                p_or_rest(ts, p, logical(left, LogicalOp::Or, right))
            } else {
                (Err(stalled()), p)
            },
        }
    } else {
        (Ok(left), pos)
    }
}

#[verifier::opaque]
pub open spec fn p_or(ts: Seq<TokenV>, pos: int) -> (Result<ExprV, ErrorAt>, int)
    decreases ts.len() - pos, 16nat,
{
    let (r, p) = p_and(ts, pos);
    match r {
        Err(e) => (Err(e), p),
        Ok(e) => if within(ts, pos, p) { p_or_rest(ts, p, e) } else { (Err(stalled()), p) },
    }
}

#[verifier::opaque]
pub open spec fn p_assignment(ts: Seq<TokenV>, pos: int) -> (Result<ExprV, ErrorAt>, int)
    decreases ts.len() - pos, 17nat,
{
    let (r, p) = p_or(ts, pos);
    match r {
        Err(e) => (Err(e), p),
        Ok(e) => if !within(ts, pos, p) {
            (Err(stalled()), p)
        } else if checks(ts, p, Kind::Eq) {
            let (v, q) = p_assignment(ts, p + 1);
            match v {
                Err(err) => (Err(err), q),
                Ok(value) => match e {
                    ExprV::Variable(name) => (Ok(ExprV::Assign { name, value: Box::new(value) }), q),
                    _ => (Err(error_at(ts, q - 1, "invalid assignment target"@)), q),
                },
            }
        } else {
            (Ok(e), p)
        },
    }
}

#[verifier::opaque]
pub open spec fn p_expression(ts: Seq<TokenV>, pos: int) -> (Result<ExprV, ErrorAt>, int)
    decreases ts.len() - pos, 18nat,
{
    p_assignment(ts, pos)
}

/// `stmt` when the token at `p` is a `;`, else the error `message` there.
pub open spec fn ending_semicolon(ts: Seq<TokenV>, p: int, stmt: StmtV, message: Seq<char>) -> (Result<StmtV, ErrorAt>, int) {
    if checks(ts, p, Kind::Semicolon) {
        (Ok(stmt), p + 1)
    } else {
        (Err(error_at(ts, p, message)), p)
    }
}

#[verifier::opaque]
pub open spec fn p_return(ts: Seq<TokenV>, pos: int) -> (Result<StmtV, ErrorAt>, int)
    decreases ts.len() - pos, 19nat,
{
    if !(0 <= pos < ts.len()) {
        (Err(stalled()), pos)
    } else if checks(ts, pos, Kind::Semicolon) {
        (Ok(StmtV::Return(None)), pos + 1)
    } else {
        let (r, p) = p_expression(ts, pos);
        match r {
            Err(e) => (Err(e), p),
            Ok(v) => if within(ts, pos, p) {
                ending_semicolon(ts, p, StmtV::Return(Some(v)), "expected ';' after return value"@)
            } else {
                (Err(stalled()), p)
            },
        }
    }
}

#[verifier::opaque]
pub open spec fn p_if(ts: Seq<TokenV>, pos: int) -> (Result<StmtV, ErrorAt>, int)
    decreases ts.len() - pos, 19nat,
{
    if !(0 <= pos < ts.len()) {
        (Err(stalled()), pos)
    } else if !checks(ts, pos, Kind::LParen) {
        (Err(error_at(ts, pos, "expected '(' after 'if'"@)), pos)
    } else {
        let (r, p) = p_expression(ts, pos + 1);
        match r {
            Err(e) => (Err(e), p),
            Ok(condition) => if !within(ts, pos + 1, p) {
                (Err(stalled()), p)
            } else if !checks(ts, p, Kind::RParen) {
                (Err(error_at(ts, p, "expected ')' after if condition"@)), p)
            } else {
                let (t, q) = p_statement(ts, p + 1);
                match t {
                    Err(e) => (Err(e), q),
                    Ok(then_branch) => if !within(ts, p + 1, q) {
                        (Err(stalled()), q)
                    } else if checks(ts, q, Kind::Else) {
                        let (f, w) = p_statement(ts, q + 1);
                        match f {
                            Err(e) => (Err(e), w),
                            Ok(else_branch) => (Ok(StmtV::If {
                                condition,
                                then_branch: Box::new(then_branch),
                                else_branch: Some(Box::new(else_branch)),
                            }), w),
                        }
                    } else {
                        (Ok(StmtV::If { condition, then_branch: Box::new(then_branch), else_branch: None }), q)
                    },
                }
            },
        }
    }
}

#[verifier::opaque]
pub open spec fn p_while(ts: Seq<TokenV>, pos: int) -> (Result<StmtV, ErrorAt>, int)
    decreases ts.len() - pos, 19nat,
{
    if !(0 <= pos < ts.len()) {
        (Err(stalled()), pos)
    } else if !checks(ts, pos, Kind::LParen) {
        (Err(error_at(ts, pos, "expected '(' after 'while'"@)), pos)
    } else {
        let (r, p) = p_expression(ts, pos + 1);
        match r {
            Err(e) => (Err(e), p),
            Ok(condition) => if !within(ts, pos + 1, p) {
                (Err(stalled()), p)
            } else if !checks(ts, p, Kind::RParen) {
                (Err(error_at(ts, p, "expected ')' after while condition"@)), p)
            } else {
                let (b, q) = p_statement(ts, p + 1);
                match b {
                    Err(e) => (Err(e), q),
                    Ok(body) => (Ok(StmtV::While { condition, body: Box::new(body) }), q),
                }
            },
        }
    }
}

#[verifier::opaque]
pub open spec fn p_statement(ts: Seq<TokenV>, pos: int) -> (Result<StmtV, ErrorAt>, int)
    decreases ts.len() - pos, 21nat,
{
    if !(0 <= pos < ts.len()) {
        (Err(stalled()), pos)
    } else if checks(ts, pos, Kind::Print) {
        let (r, p) = p_expression(ts, pos + 1);
        match r {
            Err(e) => (Err(e), p),
            Ok(v) => if within(ts, pos + 1, p) {
                ending_semicolon(ts, p, StmtV::Print(v), "expected ';' after value"@)
            } else {
                (Err(stalled()), p)
            },
        }
    } else if checks(ts, pos, Kind::LBrace) {
        let (r, p) = p_block(ts, pos + 1, Seq::empty());
        match r {
            Err(e) => (Err(e), p),
            Ok(ss) => (Ok(StmtV::Block(ss)), p),
        }
    } else if checks(ts, pos, Kind::If) {
        p_if(ts, pos + 1)
    } else if checks(ts, pos, Kind::While) {
        p_while(ts, pos + 1)
    } else if checks(ts, pos, Kind::Return) {
        p_return(ts, pos + 1)
    } else {
        let (r, p) = p_expression(ts, pos);
        match r {
            Err(e) => (Err(e), p),
            Ok(v) => if within(ts, pos, p) {
                ending_semicolon(ts, p, StmtV::Expression(v), "expected ';' after expression"@)
            } else {
                (Err(stalled()), p)
            },
        }
    }
}

#[verifier::opaque]
pub open spec fn p_block(ts: Seq<TokenV>, pos: int, acc: Seq<StmtV>) -> (Result<Seq<StmtV>, ErrorAt>, int)
    decreases ts.len() - pos, 23nat,
{
    if !(0 <= pos < ts.len()) {
        (Err(stalled()), pos)
    } else if !checks(ts, pos, Kind::RBrace) && !checks(ts, pos, Kind::Eof) {
        let (r, p) = p_declaration(ts, pos);
        match r {
            Err(e) => (Err(e), p),
            Ok(d) => if within(ts, pos + 1, p) { p_block(ts, p, acc.push(d)) } else { (Err(stalled()), p) },
        }
    } else if checks(ts, pos, Kind::RBrace) {
        (Ok(acc), pos + 1)
    } else {
        (Err(error_at(ts, pos, "expected '}' after block"@)), pos)
    }
}

#[verifier::opaque]
pub open spec fn p_var(ts: Seq<TokenV>, pos: int) -> (Result<StmtV, ErrorAt>, int)
    decreases ts.len() - pos, 19nat,
{
    if !(0 <= pos < ts.len()) {
        (Err(stalled()), pos)
    } else {
        match ts[pos].kind {
            Kind::Identifier(name) => {
                let q = pos + 1;
                if q >= ts.len() {
                    (Err(stalled()), q)
                } else if checks(ts, q, Kind::Eq) {
                    let (r, p) = p_expression(ts, q + 1);
                    match r {
                        Err(e) => (Err(e), p),
                        Ok(init) => if within(ts, q + 1, p) {
                            ending_semicolon(ts, p, StmtV::Var { name, initializer: Some(init) },
                                "expected ';' after variable declaration"@)
                        } else {
                            (Err(stalled()), p)
                        },
                    }
                } else {
                    ending_semicolon(ts, q, StmtV::Var { name, initializer: None },
                        "expected ';' after variable declaration"@)
                }
            },
            _ => (Err(error_at(ts, pos, "expected variable name"@)), pos),
        }
    }
}

#[verifier::opaque]
pub open spec fn p_params(ts: Seq<TokenV>, pos: int, acc: Seq<Seq<char>>) -> (Result<Seq<Seq<char>>, ErrorAt>, int)
    decreases ts.len() - pos, 19nat,
{
    if !(0 <= pos < ts.len()) {
        (Err(stalled()), pos)
    } else {
        match ts[pos].kind {
            Kind::Identifier(name) => if pos + 1 >= ts.len() {
                (Err(stalled()), pos + 1)
            } else if checks(ts, pos + 1, Kind::Comma) {
                p_params(ts, pos + 2, acc.push(name))
            } else {
                (Ok(acc.push(name)), pos + 1)
            },
            _ => (Err(error_at(ts, pos, "expected parameter name"@)), pos),
        }
    }
}

#[verifier::opaque]
pub open spec fn p_function(ts: Seq<TokenV>, pos: int) -> (Result<StmtV, ErrorAt>, int)
    decreases ts.len() - pos, 19nat,
{
    if !(0 <= pos < ts.len()) {
        (Err(stalled()), pos)
    } else {
        match ts[pos].kind {
            Kind::Identifier(name) => if pos + 1 >= ts.len() {
                (Err(stalled()), pos + 1)
            } else if !checks(ts, pos + 1, Kind::LParen) {
                (Err(error_at(ts, pos + 1, "expected '(' after function name"@)), pos + 1)
            } else if pos + 2 >= ts.len() {
                (Err(stalled()), pos + 2)
            } else {
                let s = pos + 2;
                let (pr, p) = if checks(ts, s, Kind::RParen) {
                    (Ok(Seq::<Seq<char>>::empty()), s)
                } else {
                    p_params(ts, s, Seq::empty())
                };
                match pr {
                    Err(e) => (Err(e), p),
                    Ok(params) => if !within(ts, s, p) {
                        (Err(stalled()), p)
                    } else if !checks(ts, p, Kind::RParen) {
                        (Err(error_at(ts, p, "expected ')' after parameters"@)), p)
                    } else if p + 1 >= ts.len() {
                        (Err(stalled()), p + 1)
                    } else if !checks(ts, p + 1, Kind::LBrace) {
                        (Err(error_at(ts, p + 1, "expected '{' before function body"@)), p + 1)
                    } else {
                        let (b, q) = p_block(ts, p + 2, Seq::empty());
                        match b {
                            Err(e) => (Err(e), q),
                            Ok(body) => (Ok(StmtV::Function { name, params, body }), q),
                        }
                    },
                }
            },
            _ => (Err(error_at(ts, pos, "expected function name"@)), pos),
        }
    }
}

#[verifier::opaque]
pub open spec fn p_declaration(ts: Seq<TokenV>, pos: int) -> (Result<StmtV, ErrorAt>, int)
    decreases ts.len() - pos, 22nat,
{
    if !(0 <= pos < ts.len()) {
        (Err(stalled()), pos)
    } else if checks(ts, pos, Kind::Var) {
        p_var(ts, pos + 1)
    } else if checks(ts, pos, Kind::Fn) {
        p_function(ts, pos + 1)
    } else {
        p_statement(ts, pos)
    }
}

#[verifier::opaque]
pub open spec fn p_program(ts: Seq<TokenV>, pos: int, acc: Seq<StmtV>) -> (Result<Seq<StmtV>, ErrorAt>, int)
    decreases ts.len() - pos, 23nat,
{
    if !(0 <= pos < ts.len()) {
        (Err(stalled()), pos)
    } else if checks(ts, pos, Kind::Eof) {
        (Ok(acc), pos)
    } else {
        let (r, p) = p_declaration(ts, pos);
        match r {
            Err(e) => (Err(e), p),
            Ok(d) => if within(ts, pos + 1, p) { p_program(ts, p, acc.push(d)) } else { (Err(stalled()), p) },
        }
    }
}

/// The statements of a whole token sequence, or the first parse error.
pub open spec fn parse_spec(ts: Seq<TokenV>) -> Result<Seq<StmtV>, ErrorAt> {
    p_program(ts, 0, Seq::empty()).0
}

} // verus!
