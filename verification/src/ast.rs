//! The abstract syntax tree: expressions and statements, and their abstract
//! (specification) counterparts, in which text is a character sequence.

use std::rc::Rc;
use vstd::prelude::*;

verus! {

/// An expression node. A number is the bit pattern of an IEEE-754 double.
#[derive(Debug)]
pub enum Expr {
    Number(u64),
    Str(String),
    Bool(bool),
    Nil,
    Variable(String),
    Unary { op: UnaryOp, right: Box<Expr> },
    Binary { left: Box<Expr>, op: BinaryOp, right: Box<Expr> },
    Logical { left: Box<Expr>, op: LogicalOp, right: Box<Expr> },
    Assign { name: String, value: Box<Expr> },
    Call { callee: Box<Expr>, args: Vec<Expr> },
}

#[derive(Debug, Clone, Copy, PartialEq, Eq, Structural)]
pub enum UnaryOp {
    Negate,
    Not,
}

#[derive(Debug, Clone, Copy, PartialEq, Eq, Structural)]
pub enum BinaryOp {
    Add,
    Sub,
    Mul,
    Div,
    Mod,
    Eq,
    NotEq,
    Less,
    LessEq,
    Greater,
    GreaterEq,
}

#[derive(Debug, Clone, Copy, PartialEq, Eq, Structural)]
pub enum LogicalOp {
    And,
    Or,
}

/// A statement node. A function's body is shared, so that the function
/// values made from it need not copy it.
#[derive(Debug)]
pub enum Stmt {
    Expression(Expr),
    Print(Expr),
    Var { name: String, initializer: Option<Expr> },
    Block(Vec<Stmt>),
    If { condition: Expr, then_branch: Box<Stmt>, else_branch: Option<Box<Stmt>> },
    While { condition: Expr, body: Box<Stmt> },
    Function { name: String, params: Vec<String>, body: Rc<Vec<Stmt>> },
    Return(Option<Expr>),
}

/// The abstract expression.
pub enum ExprV {
    Number(u64),
    Str(Seq<char>),
    Bool(bool),
    Nil,
    Variable(Seq<char>),
    Unary { op: UnaryOp, right: Box<ExprV> },
    Binary { left: Box<ExprV>, op: BinaryOp, right: Box<ExprV> },
    Logical { left: Box<ExprV>, op: LogicalOp, right: Box<ExprV> },
    Assign { name: Seq<char>, value: Box<ExprV> },
    Call { callee: Box<ExprV>, args: Seq<ExprV> },
}

/// The abstract statement.
pub enum StmtV {
    Expression(ExprV),
    Print(ExprV),
    Var { name: Seq<char>, initializer: Option<ExprV> },
    Block(Seq<StmtV>),
    If { condition: ExprV, then_branch: Box<StmtV>, else_branch: Option<Box<StmtV>> },
    While { condition: ExprV, body: Box<StmtV> },
    Function { name: Seq<char>, params: Seq<Seq<char>>, body: Seq<StmtV> },
    Return(Option<ExprV>),
}

pub open spec fn expr_view(e: Expr) -> ExprV
    decreases e,
{
    match e {
        Expr::Number(n) => ExprV::Number(n),
        Expr::Str(s) => ExprV::Str(s@),
        Expr::Bool(b) => ExprV::Bool(b),
        Expr::Nil => ExprV::Nil,
        Expr::Variable(name) => ExprV::Variable(name@),
        Expr::Unary { op, right } => ExprV::Unary { op, right: Box::new(expr_view(*right)) },
        Expr::Binary { left, op, right } => ExprV::Binary {
            left: Box::new(expr_view(*left)),
            op,
            right: Box::new(expr_view(*right)),
        },
        Expr::Logical { left, op, right } => ExprV::Logical {
            left: Box::new(expr_view(*left)),
            op,
            right: Box::new(expr_view(*right)),
        },
        Expr::Assign { name, value } => ExprV::Assign { name: name@, value: Box::new(expr_view(*value)) },
        Expr::Call { callee, args } => ExprV::Call {
            callee: Box::new(expr_view(*callee)),
            args: exprs_view(args@),
        },
    }
}

pub open spec fn exprs_view(s: Seq<Expr>) -> Seq<ExprV>
    decreases s,
{
    if s.len() == 0 {
        Seq::empty()
    } else {
        exprs_view(s.subrange(0, s.len() - 1)).push(expr_view(s[s.len() - 1]))
    }
}

pub open spec fn names_view(s: Seq<String>) -> Seq<Seq<char>> {
    s.map_values(|n: String| n@)
}

pub open spec fn stmt_view(s: Stmt) -> StmtV
    decreases s,
{
    match s {
        Stmt::Expression(e) => StmtV::Expression(expr_view(e)),
        Stmt::Print(e) => StmtV::Print(expr_view(e)),
        Stmt::Var { name, initializer } => StmtV::Var {
            name: name@,
            initializer: match initializer {
                Some(e) => Some(expr_view(e)),
                None => None,
            },
        },
        Stmt::Block(v) => StmtV::Block(stmts_view(v@)),
        Stmt::If { condition, then_branch, else_branch } => StmtV::If {
            condition: expr_view(condition),
            then_branch: Box::new(stmt_view(*then_branch)),
            else_branch: match else_branch {
                Some(b) => Some(Box::new(stmt_view(*b))),
                None => None,
            },
        },
        Stmt::While { condition, body } => StmtV::While {
            condition: expr_view(condition),
            body: Box::new(stmt_view(*body)),
        },
        Stmt::Function { name, params, body } => StmtV::Function {
            name: name@,
            params: names_view(params@),
            body: stmts_view((*body)@),
        },
        Stmt::Return(e) => StmtV::Return(
            match e {
                Some(e) => Some(expr_view(e)),
                None => None,
            },
        ),
    }
}

pub open spec fn stmts_view(s: Seq<Stmt>) -> Seq<StmtV>
    decreases s,
{
    if s.len() == 0 {
        Seq::empty()
    } else {
        stmts_view(s.subrange(0, s.len() - 1)).push(stmt_view(s[s.len() - 1]))
    }
}

impl View for Expr {
    type V = ExprV;

    open spec fn view(&self) -> ExprV {
        expr_view(*self)
    }
}

impl View for Stmt {
    type V = StmtV;

    open spec fn view(&self) -> StmtV {
        stmt_view(*self)
    }
}

pub proof fn lemma_exprs_view_push(s: Seq<Expr>, e: Expr)
    ensures
        exprs_view(s.push(e)) == exprs_view(s).push(expr_view(e)),
{
    assert(s.push(e).subrange(0, s.len() as int) =~= s);
}

pub proof fn lemma_stmts_view_push(s: Seq<Stmt>, e: Stmt)
    ensures
        stmts_view(s.push(e)) == stmts_view(s).push(stmt_view(e)),
{
    assert(s.push(e).subrange(0, s.len() as int) =~= s);
}

pub proof fn lemma_exprs_view_index(s: Seq<Expr>)
    ensures
        exprs_view(s).len() == s.len(),
        forall|i: int| 0 <= i < s.len() ==> #[trigger] exprs_view(s)[i] == expr_view(s[i]),
    decreases s.len(),
{
    if s.len() > 0 {
        let t = s.subrange(0, s.len() - 1);
        lemma_exprs_view_index(t);
        assert forall|i: int| 0 <= i < s.len() implies #[trigger] exprs_view(s)[i] == expr_view(s[i]) by {
            if i < s.len() - 1 {
                assert(t[i] == s[i]);
            }
        }
    }
}

pub proof fn lemma_stmts_view_index(s: Seq<Stmt>)
    ensures
        stmts_view(s).len() == s.len(),
        forall|i: int| 0 <= i < s.len() ==> #[trigger] stmts_view(s)[i] == stmt_view(s[i]),
    decreases s.len(),
{
    if s.len() > 0 {
        let t = s.subrange(0, s.len() - 1);
        lemma_stmts_view_index(t);
        assert forall|i: int| 0 <= i < s.len() implies #[trigger] stmts_view(s)[i] == stmt_view(s[i]) by {
            if i < s.len() - 1 {
                assert(t[i] == s[i]);
            }
        }
    }
}

} // verus!
