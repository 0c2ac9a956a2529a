//! Recursive-descent parser: tokens -> AST, with correct operator precedence.
//!
//! Precedence, lowest to highest: assignment, `or`, `and`, equality,
//! comparison, term (`+ -`), factor (`* / %`), unary, call, primary. Each level
//! is its own method, so `1 + 2 * 3` parses as `1 + (2 * 3)`. Every method is
//! proved to compute the matching `p_*` function of `parser_spec`.

use std::rc::Rc;
use vstd::prelude::*;
use crate::ast::{
    exprs_view, lemma_exprs_view_push, lemma_stmts_view_push, names_view, stmts_view, BinaryOp,
    Expr, ExprV, LogicalOp, Stmt, StmtV, UnaryOp,
};
use crate::error::{ErrorAt, ParseError};
use crate::parser_spec::{
    checks, comparison_op, equality_op, error_at, factor_op, p_and, p_and_rest, p_args,
    p_assignment, p_block, p_call, p_call_rest, p_comparison, p_comparison_rest, p_declaration,
    p_equality, p_equality_rest, p_expression, p_factor, p_factor_rest, p_finish_call,
    p_function, p_if, p_or, p_or_rest, p_params, p_primary, p_program, p_return, p_statement,
    p_term, p_term_rest, p_unary, p_var, p_while, term_op,
};
use crate::text::owned;
use crate::token::{kind_view, lemma_eof_kind, lemma_kind_view, lemma_kind_view_textless, textless, tokens_view, Kind, Token, TokenKind, TokenV};

verus! {

/// What an expression parse gave, against what the grammar says.
pub open spec fn expr_outcome(s: (Result<ExprV, ErrorAt>, int), r: Result<Expr, ParseError>, pos: usize) -> bool {
    match r {
        Ok(e) => s == (Ok::<ExprV, ErrorAt>(e@), pos as int),
        Err(err) => s.0 == Err::<ExprV, ErrorAt>(err@),
    }
}

/// What a statement parse gave, against what the grammar says.
pub open spec fn stmt_outcome(s: (Result<StmtV, ErrorAt>, int), r: Result<Stmt, ParseError>, pos: usize) -> bool {
    match r {
        Ok(st) => s == (Ok::<StmtV, ErrorAt>(st@), pos as int),
        Err(err) => s.0 == Err::<StmtV, ErrorAt>(err@),
    }
}

/// What a statement-list parse gave, against what the grammar says.
pub open spec fn stmts_outcome(s: (Result<Seq<StmtV>, ErrorAt>, int), r: Result<Vec<Stmt>, ParseError>, pos: usize) -> bool {
    match r {
        Ok(ss) => s == (Ok::<Seq<StmtV>, ErrorAt>(stmts_view(ss@)), pos as int),
        Err(err) => s.0 == Err::<Seq<StmtV>, ErrorAt>(err@),
    }
}

/// The statements of a parse, against what the grammar says.
pub open spec fn program_outcome(s: Result<Seq<StmtV>, ErrorAt>, r: Result<Vec<Stmt>, ParseError>) -> bool {
    match r {
        Ok(ss) => s == Ok::<Seq<StmtV>, ErrorAt>(stmts_view(ss@)),
        Err(err) => s == Err::<Seq<StmtV>, ErrorAt>(err@),
    }
}

/// The index of the first `Eof` at or after `i`, if there is one.
pub open spec fn eof_from(tokens: Seq<Token>, i: int) -> Option<int>
    decreases tokens.len() - i,
{
    if i < 0 || i >= tokens.len() {
        None
    } else if tokens[i].kind is Eof {
        Some(i)
    } else {
        eof_from(tokens, i + 1)
    }
}

/// Whether a token vector can be parsed: some token is `Eof`.
pub open spec fn has_eof(tokens: Seq<Token>) -> bool {
    exists|i: int| 0 <= i < tokens.len() && (#[trigger] tokens[i]).kind is Eof
}

/// The tokens up to and including the first `Eof`: the parser never looks
/// past it.
pub open spec fn through_eof(tokens: Seq<Token>) -> Seq<Token> {
    match eof_from(tokens, 0) {
        Some(k) => tokens.subrange(0, k + 1),
        None => tokens,
    }
}

pub proof fn lemma_eof_from(tokens: Seq<Token>, i: int)
    requires
        0 <= i,
    ensures
        eof_from(tokens, i) matches Some(k) ==> i <= k < tokens.len() && tokens[k].kind is Eof
            && forall|l: int| i <= l < k ==> !((#[trigger] tokens[l]).kind is Eof),
        eof_from(tokens, i) is None ==> forall|l: int| i <= l < tokens.len() ==> !((#[trigger] tokens[l]).kind is Eof),
    decreases tokens.len() - i,
{
    if i < tokens.len() && !(tokens[i].kind is Eof) {
        lemma_eof_from(tokens, i + 1);
    }
}

pub struct Parser {
    tokens: Vec<Token>,
    pos: usize,
}

impl Parser {
    /// The abstract tokens being parsed.
    pub closed spec fn toks(&self) -> Seq<TokenV> {
        tokens_view(self.tokens@)
    }

    /// The position of the next token.
    pub closed spec fn at(&self) -> int {
        self.pos as int
    }

    /// The tokens end with `Eof` and the position is one of them.
    pub closed spec fn wf(&self) -> bool {
        &&& self.tokens@.len() > 0
        &&& self.toks()[self.tokens@.len() - 1].kind == Kind::Eof
        &&& self.pos < self.tokens@.len()
        &&& self.tokens@.len() <= usize::MAX
    }

    closed spec fn follows(&self, next: &Parser) -> bool {
        next.wf() && next.tokens == self.tokens
    }

    /// A parser at the start of `tokens`, which it reads up to their first
    /// `Eof`.
    #[verifier::spinoff_prover]
    pub fn new(tokens: Vec<Token>) -> (p: Self)
        requires
            has_eof(tokens@),
        ensures
            p.wf(),
            p.toks() == tokens_view(through_eof(tokens@)),
            p.at() == 0,
    {
        proof {
            lemma_kind_view_textless();
            lemma_eof_from(tokens@, 0);
            let w = choose|w: int| 0 <= w < tokens@.len() && (#[trigger] tokens@[w]).kind is Eof;
            assert(!(tokens@[w].kind is Eof) ==> false);
        }
        let ghost t0 = tokens@;
        let mut tokens = tokens;
        let n = tokens.len();
        let mut k: usize = 0;
        while !tokens[k].kind.is(&TokenKind::Eof)
            invariant
                tokens@ == t0,
                n == t0.len(),
                k < n,
                eof_from(t0, 0) is Some,
                eof_from(t0, 0) == eof_from(t0, k as int),
                kind_view(TokenKind::Eof) == Kind::Eof,
            decreases tokens@.len() - k,
        {
            proof {
                lemma_eof_kind(tokens@[k as int].kind);
                lemma_eof_from(t0, k + 1);
            }
            k += 1;
        }
        proof {
            lemma_eof_kind(tokens@[k as int].kind);
        }
        tokens.truncate(k + 1);
        let p = Self { tokens, pos: 0 };
        assert(p.tokens@ == through_eof(t0));
        assert(p.toks()[p.tokens@.len() - 1] == p.tokens@[p.tokens@.len() - 1]@);
        p
    }

    /// Parses the whole token stream into a list of statements.
    #[verifier::spinoff_prover]
    pub fn parse(self) -> (r: Result<Vec<Stmt>, ParseError>)
        requires
            self.wf(),
        ensures
            program_outcome(p_program(self.toks(), self.at(), Seq::empty()).0, r),
    {
        proof { lemma_kind_view_textless(); reveal(p_program); reveal(p_declaration); }
        let ghost ts = self.toks();
        let ghost pos0 = self.pos as int;
        let mut parser = self;
        let mut statements: Vec<Stmt> = Vec::new();
        assert(stmts_view(statements@) =~= Seq::<StmtV>::empty());
        while !parser.is_at_end()
            invariant
                parser.wf(),
                ts == parser.toks(),
                ts == self.toks(),
                pos0 == self.at(),
                pos0 <= parser.pos,
                p_program(ts, pos0, Seq::empty()) == p_program(ts, parser.pos as int, stmts_view(statements@)),
            decreases parser.tokens@.len() - parser.pos,
        {
            proof { lemma_kind_view_textless(); reveal(p_program); reveal(p_declaration); }
            let ghost before = statements@;
            let d = parser.declaration()?;
            statements.push(d);
            proof { lemma_stmts_view_push(before, d); }
        }
        Ok(statements)
    }

    // --- Token cursor helpers ---

    #[verifier::spinoff_prover]
    fn peek(&self) -> (t: &Token)
        requires
            self.wf(),
        ensures
            t@ == self.toks()[self.at()],
    {
        &self.tokens[self.pos]
    }

    #[verifier::spinoff_prover]
    fn previous(&self) -> (t: &Token)
        requires
            self.wf(),
            self.pos > 0,
        ensures
            t@ == self.toks()[self.at() - 1],
    {
        &self.tokens[self.pos - 1]
    }

    #[verifier::spinoff_prover]
    fn is_at_end(&self) -> (b: bool)
        requires
            self.wf(),
        ensures
            b == checks(self.toks(), self.at(), Kind::Eof),
    {
        proof { lemma_kind_view_textless(); }
        self.peek().kind.is(&TokenKind::Eof)
    }

    #[verifier::spinoff_prover]
    fn advance(&mut self)
        requires
            old(self).wf(),
        ensures
            old(self).follows(final(self)),
            final(self).at() == old(self).at() + if checks(old(self).toks(), old(self).at(), Kind::Eof) {
                0int
            } else {
                1int
            },
    {
        proof { lemma_kind_view_textless(); }
        if !self.is_at_end() {
            self.pos += 1;
        }
    }

    #[verifier::spinoff_prover]
    fn check(&self, kind: &TokenKind) -> (b: bool)
        requires
            self.wf(),
            textless(kind@),
        ensures
            b == checks(self.toks(), self.at(), kind@),
    {
        self.peek().kind.is(kind)
    }

    #[verifier::spinoff_prover]
    fn match_kind(&mut self, kind: &TokenKind) -> (b: bool)
        requires
            old(self).wf(),
            !(kind@ is Eof),
            textless(kind@),
        ensures
            old(self).follows(final(self)),
            b == checks(old(self).toks(), old(self).at(), kind@),
            final(self).at() == old(self).at() + if b { 1int } else { 0int },
    {
        proof { lemma_kind_view_textless(); }
        if self.check(kind) {
            self.advance();
            true
        } else {
            false
        }
    }

    #[verifier::spinoff_prover]
    fn consume(&mut self, kind: &TokenKind, message: &str) -> (r: Result<(), ParseError>)
        requires
            old(self).wf(),
            !(kind@ is Eof),
            textless(kind@),
        ensures
            old(self).follows(final(self)),
            match r {
                Ok(()) => checks(old(self).toks(), old(self).at(), kind@) && final(self).at() == old(self).at() + 1,
                Err(e) => !checks(old(self).toks(), old(self).at(), kind@)
                    && e@ == error_at(old(self).toks(), old(self).at(), message@),
            },
    {
        proof { lemma_kind_view_textless(); }
        if self.check(kind) {
            self.advance();
            Ok(())
        } else {
            Err(self.error(message))
        }
    }

    #[verifier::spinoff_prover]
    fn consume_identifier(&mut self, message: &str) -> (r: Result<String, ParseError>)
        requires
            old(self).wf(),
        ensures
            old(self).follows(final(self)),
            match r {
                Ok(name) => old(self).toks()[old(self).at()].kind == Kind::Identifier(name@)
                    && final(self).at() == old(self).at() + 1,
                Err(e) => !(old(self).toks()[old(self).at()].kind is Identifier)
                    && e@ == error_at(old(self).toks(), old(self).at(), message@),
            },
    {
        proof { lemma_kind_view_textless(); }
        let t = self.peek();
        proof { lemma_kind_view(t.kind); }
        match &t.kind {
            TokenKind::Identifier(name) => {
                let name = name.clone();
                self.advance();
                Ok(name)
            },
            _ => Err(self.error(message)),
        }
    }

    #[verifier::spinoff_prover]
    fn error(&self, message: &str) -> (e: ParseError)
        requires
            self.wf(),
        ensures
            e@ == error_at(self.toks(), self.at(), message@),
    {
        let token = self.peek();
        ParseError { message: owned(message), line: token.line, col: token.col }
    }

    // --- Declarations & statements ---

    #[verifier::spinoff_prover]
    fn declaration(&mut self) -> (r: Result<Stmt, ParseError>)
        requires
            old(self).wf(),
        ensures
            old(self).follows(final(self)),
            stmt_outcome(p_declaration(old(self).toks(), old(self).at()), r, final(self).pos),
            r is Ok ==> old(self).pos < final(self).pos,
        decreases old(self).tokens@.len() - old(self).pos, 22nat,
    {
        proof { lemma_kind_view_textless(); reveal(p_declaration); reveal(p_var); reveal(p_function); reveal(p_statement); }
        if self.match_kind(&TokenKind::Var) {
            self.var_declaration()
        } else if self.match_kind(&TokenKind::Fn) {
            self.function()
        } else {
            self.statement()
        }
    }

    #[verifier::spinoff_prover]
    fn var_declaration(&mut self) -> (r: Result<Stmt, ParseError>)
        requires
            old(self).wf(),
        ensures
            old(self).follows(final(self)),
            stmt_outcome(p_var(old(self).toks(), old(self).at()), r, final(self).pos),
            r is Ok ==> old(self).pos < final(self).pos,
        decreases old(self).tokens@.len() - old(self).pos, 19nat,
    {
        proof { lemma_kind_view_textless(); reveal(p_var); reveal(p_expression); }
        let name = self.consume_identifier("expected variable name")?;
        let initializer = if self.match_kind(&TokenKind::Eq) {
            let e = self.expression()?;
            Some(e)
        } else {
            None
        };
        self.consume(&TokenKind::Semicolon, "expected ';' after variable declaration")?;
        Ok(Stmt::Var { name, initializer })
    }

    #[verifier::spinoff_prover]
    fn function(&mut self) -> (r: Result<Stmt, ParseError>)
        requires
            old(self).wf(),
        ensures
            old(self).follows(final(self)),
            stmt_outcome(p_function(old(self).toks(), old(self).at()), r, final(self).pos),
            r is Ok ==> old(self).pos < final(self).pos,
        decreases old(self).tokens@.len() - old(self).pos, 19nat,
    {
        proof { lemma_kind_view_textless(); reveal(p_function); reveal(p_params); reveal(p_block); }
        let ghost ts = self.toks();
        let name = self.consume_identifier("expected function name")?;
        self.consume(&TokenKind::LParen, "expected '(' after function name")?;
        let ghost s = self.pos as int;
        let mut params: Vec<String> = Vec::new();
        if !self.check(&TokenKind::RParen) {
            assert(names_view(params@) =~= Seq::<Seq<char>>::empty());
            #[verifier::loop_isolation(false)]
            loop
                invariant
                    self.wf(),
                    self.tokens == old(self).tokens,
                    ts == self.toks(),
                    s <= self.pos,
                    p_params(ts, s, Seq::empty()) == p_params(ts, self.pos as int, names_view(params@)),
                decreases self.tokens@.len() - self.pos,
            {
                proof { lemma_kind_view_textless(); reveal(p_function); reveal(p_params); reveal(p_block); }
                let p = self.consume_identifier("expected parameter name")?;
                let ghost before = params@;
                params.push(p);
                assert(names_view(params@) =~= names_view(before).push(p@));
                if !self.match_kind(&TokenKind::Comma) {
                    break;
                }
            }
        }
        self.consume(&TokenKind::RParen, "expected ')' after parameters")?;
        self.consume(&TokenKind::LBrace, "expected '{' before function body")?;
        let body = self.block()?;
        Ok(Stmt::Function { name, params, body: Rc::new(body) })
    }

    #[verifier::spinoff_prover]
    fn block(&mut self) -> (r: Result<Vec<Stmt>, ParseError>)
        requires
            old(self).wf(),
        ensures
            old(self).follows(final(self)),
            stmts_outcome(p_block(old(self).toks(), old(self).at(), Seq::empty()), r, final(self).pos),
            r is Ok ==> old(self).pos < final(self).pos,
        decreases old(self).tokens@.len() - old(self).pos, 23nat,
    {
        proof { lemma_kind_view_textless(); reveal(p_block); reveal(p_declaration); }
        let ghost ts = self.toks();
        let ghost pos0 = self.pos as int;
        let mut statements: Vec<Stmt> = Vec::new();
        assert(stmts_view(statements@) =~= Seq::<StmtV>::empty());
        while !self.check(&TokenKind::RBrace) && !self.is_at_end()
            invariant
                kind_view(TokenKind::RBrace) == Kind::RBrace,
                self.wf(),
                self.tokens == old(self).tokens,
                ts == self.toks(),
                ts == old(self).toks(),
                pos0 == old(self).pos,
                pos0 <= self.pos,
                p_block(ts, pos0, Seq::empty()) == p_block(ts, self.pos as int, stmts_view(statements@)),
            decreases self.tokens@.len() - self.pos,
        {
            proof { lemma_kind_view_textless(); reveal(p_block); reveal(p_declaration); }
            let ghost before = statements@;
            let d = self.declaration()?;
            statements.push(d);
            proof { lemma_stmts_view_push(before, d); }
        }
        self.consume(&TokenKind::RBrace, "expected '}' after block")?;
        Ok(statements)
    }

    #[verifier::spinoff_prover]
    fn statement(&mut self) -> (r: Result<Stmt, ParseError>)
        requires
            old(self).wf(),
        ensures
            old(self).follows(final(self)),
            stmt_outcome(p_statement(old(self).toks(), old(self).at()), r, final(self).pos),
            r is Ok ==> old(self).pos < final(self).pos,
        decreases old(self).tokens@.len() - old(self).pos, 21nat,
    {
        proof { lemma_kind_view_textless(); reveal(p_statement); reveal(p_expression); reveal(p_block); reveal(p_if); reveal(p_while); reveal(p_return); }
        if self.match_kind(&TokenKind::Print) {
            let value = self.expression()?;
            self.consume(&TokenKind::Semicolon, "expected ';' after value")?;
            Ok(Stmt::Print(value))
        } else if self.match_kind(&TokenKind::LBrace) {
            let statements = self.block()?;
            Ok(Stmt::Block(statements))
        } else if self.match_kind(&TokenKind::If) {
            self.if_statement()
        } else if self.match_kind(&TokenKind::While) {
            self.while_statement()
        } else if self.match_kind(&TokenKind::Return) {
            self.return_statement()
        } else {
            let expr = self.expression()?;
            self.consume(&TokenKind::Semicolon, "expected ';' after expression")?;
            Ok(Stmt::Expression(expr))
        }
    }

    #[verifier::spinoff_prover]
    fn if_statement(&mut self) -> (r: Result<Stmt, ParseError>)
        requires
            old(self).wf(),
        ensures
            old(self).follows(final(self)),
            stmt_outcome(p_if(old(self).toks(), old(self).at()), r, final(self).pos),
            r is Ok ==> old(self).pos < final(self).pos,
        decreases old(self).tokens@.len() - old(self).pos, 19nat,
    {
        proof { lemma_kind_view_textless(); reveal(p_if); reveal(p_expression); reveal(p_statement); }
        self.consume(&TokenKind::LParen, "expected '(' after 'if'")?;
        let condition = self.expression()?;
        self.consume(&TokenKind::RParen, "expected ')' after if condition")?;
        let then_stmt = self.statement()?;
        let then_branch = Box::new(then_stmt);
        let else_branch = if self.match_kind(&TokenKind::Else) {
            let else_stmt = self.statement()?;
            Some(Box::new(else_stmt))
        } else {
            None
        };
        Ok(Stmt::If { condition, then_branch, else_branch })
    }

    #[verifier::spinoff_prover]
    fn while_statement(&mut self) -> (r: Result<Stmt, ParseError>)
        requires
            old(self).wf(),
        ensures
            old(self).follows(final(self)),
            stmt_outcome(p_while(old(self).toks(), old(self).at()), r, final(self).pos),
            r is Ok ==> old(self).pos < final(self).pos,
        decreases old(self).tokens@.len() - old(self).pos, 19nat,
    {
        proof { lemma_kind_view_textless(); reveal(p_while); reveal(p_expression); reveal(p_statement); }
        self.consume(&TokenKind::LParen, "expected '(' after 'while'")?;
        let condition = self.expression()?;
        self.consume(&TokenKind::RParen, "expected ')' after while condition")?;
        let body_stmt = self.statement()?;
        Ok(Stmt::While { condition, body: Box::new(body_stmt) })
    }

    #[verifier::spinoff_prover]
    fn return_statement(&mut self) -> (r: Result<Stmt, ParseError>)
        requires
            old(self).wf(),
        ensures
            old(self).follows(final(self)),
            stmt_outcome(p_return(old(self).toks(), old(self).at()), r, final(self).pos),
            r is Ok ==> old(self).pos < final(self).pos,
        decreases old(self).tokens@.len() - old(self).pos, 19nat,
    {
        proof { lemma_kind_view_textless(); reveal(p_return); reveal(p_expression); }
        let value = if self.check(&TokenKind::Semicolon) {
            None
        } else {
            let e = self.expression()?;
            Some(e)
        };
        self.consume(&TokenKind::Semicolon, "expected ';' after return value")?;
        Ok(Stmt::Return(value))
    }

    // --- Expressions (precedence climbing) ---

    #[verifier::spinoff_prover]
    fn expression(&mut self) -> (r: Result<Expr, ParseError>)
        requires
            old(self).wf(),
        ensures
            old(self).follows(final(self)),
            expr_outcome(p_expression(old(self).toks(), old(self).at()), r, final(self).pos),
            r is Ok ==> old(self).pos < final(self).pos,
        decreases old(self).tokens@.len() - old(self).pos, 18nat,
    {
        proof { lemma_kind_view_textless(); reveal(p_expression); reveal(p_assignment); }
        self.assignment()
    }

    #[verifier::spinoff_prover]
    fn assignment(&mut self) -> (r: Result<Expr, ParseError>)
        requires
            old(self).wf(),
        ensures
            old(self).follows(final(self)),
            expr_outcome(p_assignment(old(self).toks(), old(self).at()), r, final(self).pos),
            r is Ok ==> old(self).pos < final(self).pos,
        decreases old(self).tokens@.len() - old(self).pos, 17nat,
    {
        proof { lemma_kind_view_textless(); reveal(p_assignment); reveal(p_or); }
        let expr = self.or()?;
        if self.match_kind(&TokenKind::Eq) {
            let value = self.assignment()?;
            match expr {
                Expr::Variable(name) => Ok(Expr::Assign { name, value: Box::new(value) }),
                _ => {
                    let prev = self.previous();
                    Err(ParseError { message: owned("invalid assignment target"), line: prev.line, col: prev.col })
                },
            }
        } else {
            Ok(expr)
        }
    }

    #[verifier::spinoff_prover]
    fn or(&mut self) -> (r: Result<Expr, ParseError>)
        requires
            old(self).wf(),
        ensures
            old(self).follows(final(self)),
            expr_outcome(p_or(old(self).toks(), old(self).at()), r, final(self).pos),
            r is Ok ==> old(self).pos < final(self).pos,
        decreases old(self).tokens@.len() - old(self).pos, 16nat,
    {
        proof { lemma_kind_view_textless(); reveal(p_or); reveal(p_or_rest); reveal(p_and); }
        let ghost ts = self.toks();
        let ghost pos0 = self.pos as int;
        let mut expr = self.and()?;
        loop
            invariant
                self.wf(),
                self.tokens == old(self).tokens,
                ts == self.toks(),
                ts == old(self).toks(),
                pos0 == old(self).pos,
                pos0 < self.pos,
                p_or(ts, pos0) == p_or_rest(ts, self.pos as int, expr@),
            ensures
                self.wf(),
                self.tokens == old(self).tokens,
                pos0 < self.pos,
                p_or(ts, pos0) == (Ok::<ExprV, ErrorAt>(expr@), self.pos as int),
            decreases self.tokens@.len() - self.pos,
        {
            proof { lemma_kind_view_textless(); reveal(p_or); reveal(p_or_rest); reveal(p_and); }
            if !self.match_kind(&TokenKind::Or) {
                break;
            }
            let right = self.and()?;
            expr = Expr::Logical { left: Box::new(expr), op: LogicalOp::Or, right: Box::new(right) };
        }
        Ok(expr)
    }

    #[verifier::spinoff_prover]
    fn and(&mut self) -> (r: Result<Expr, ParseError>)
        requires
            old(self).wf(),
        ensures
            old(self).follows(final(self)),
            expr_outcome(p_and(old(self).toks(), old(self).at()), r, final(self).pos),
            r is Ok ==> old(self).pos < final(self).pos,
        decreases old(self).tokens@.len() - old(self).pos, 14nat,
    {
        proof { lemma_kind_view_textless(); reveal(p_and); reveal(p_and_rest); reveal(p_equality); }
        let ghost ts = self.toks();
        let ghost pos0 = self.pos as int;
        let mut expr = self.equality()?;
        loop
            invariant
                self.wf(),
                self.tokens == old(self).tokens,
                ts == self.toks(),
                ts == old(self).toks(),
                pos0 == old(self).pos,
                pos0 < self.pos,
                p_and(ts, pos0) == p_and_rest(ts, self.pos as int, expr@),
            ensures
                self.wf(),
                self.tokens == old(self).tokens,
                pos0 < self.pos,
                p_and(ts, pos0) == (Ok::<ExprV, ErrorAt>(expr@), self.pos as int),
            decreases self.tokens@.len() - self.pos,
        {
            proof { lemma_kind_view_textless(); reveal(p_and); reveal(p_and_rest); reveal(p_equality); }
            if !self.match_kind(&TokenKind::And) {
                break;
            }
            let right = self.equality()?;
            expr = Expr::Logical { left: Box::new(expr), op: LogicalOp::And, right: Box::new(right) };
        }
        Ok(expr)
    }

    #[verifier::spinoff_prover]
    fn equality_operator(&mut self) -> (r: Option<BinaryOp>)
        requires
            old(self).wf(),
        ensures
            old(self).follows(final(self)),
            r == equality_op(old(self).toks()[old(self).at()].kind),
            final(self).at() == old(self).at() + if r is Some { 1int } else { 0int },
    {
        proof { lemma_kind_view_textless(); }
        if self.match_kind(&TokenKind::EqEq) {
            Some(BinaryOp::Eq)
        } else if self.match_kind(&TokenKind::NotEq) {
            Some(BinaryOp::NotEq)
        } else {
            None
        }
    }

    #[verifier::spinoff_prover]
    fn equality(&mut self) -> (r: Result<Expr, ParseError>)
        requires
            old(self).wf(),
        ensures
            old(self).follows(final(self)),
            expr_outcome(p_equality(old(self).toks(), old(self).at()), r, final(self).pos),
            r is Ok ==> old(self).pos < final(self).pos,
        decreases old(self).tokens@.len() - old(self).pos, 12nat,
    {
        proof { lemma_kind_view_textless(); reveal(p_equality); reveal(p_equality_rest); reveal(p_comparison); }
        let ghost ts = self.toks();
        let ghost pos0 = self.pos as int;
        let mut expr = self.comparison()?;
        loop
            invariant
                self.wf(),
                self.tokens == old(self).tokens,
                ts == self.toks(),
                ts == old(self).toks(),
                pos0 == old(self).pos,
                pos0 < self.pos,
                p_equality(ts, pos0) == p_equality_rest(ts, self.pos as int, expr@),
            ensures
                self.wf(),
                self.tokens == old(self).tokens,
                pos0 < self.pos,
                p_equality(ts, pos0) == (Ok::<ExprV, ErrorAt>(expr@), self.pos as int),
            decreases self.tokens@.len() - self.pos,
        {
            proof { lemma_kind_view_textless(); reveal(p_equality); reveal(p_equality_rest); reveal(p_comparison); }
            let found = self.equality_operator();
            if found.is_none() {
                break;
            }
            let op = found.unwrap();
            let right = self.comparison()?;
            expr = Expr::Binary { left: Box::new(expr), op, right: Box::new(right) };
        }
        Ok(expr)
    }

    #[verifier::spinoff_prover]
    fn comparison_operator(&mut self) -> (r: Option<BinaryOp>)
        requires
            old(self).wf(),
        ensures
            old(self).follows(final(self)),
            r == comparison_op(old(self).toks()[old(self).at()].kind),
            final(self).at() == old(self).at() + if r is Some { 1int } else { 0int },
    {
        proof { lemma_kind_view_textless(); }
        if self.match_kind(&TokenKind::Less) {
            Some(BinaryOp::Less)
        } else if self.match_kind(&TokenKind::LessEq) {
            Some(BinaryOp::LessEq)
        } else if self.match_kind(&TokenKind::Greater) {
            Some(BinaryOp::Greater)
        } else if self.match_kind(&TokenKind::GreaterEq) {
            Some(BinaryOp::GreaterEq)
        } else {
            None
        }
    }

    #[verifier::spinoff_prover]
    fn comparison(&mut self) -> (r: Result<Expr, ParseError>)
        requires
            old(self).wf(),
        ensures
            old(self).follows(final(self)),
            expr_outcome(p_comparison(old(self).toks(), old(self).at()), r, final(self).pos),
            r is Ok ==> old(self).pos < final(self).pos,
        decreases old(self).tokens@.len() - old(self).pos, 10nat,
    {
        proof { lemma_kind_view_textless(); reveal(p_comparison); reveal(p_comparison_rest); reveal(p_term); }
        let ghost ts = self.toks();
        let ghost pos0 = self.pos as int;
        let mut expr = self.term()?;
        loop
            invariant
                self.wf(),
                self.tokens == old(self).tokens,
                ts == self.toks(),
                ts == old(self).toks(),
                pos0 == old(self).pos,
                pos0 < self.pos,
                p_comparison(ts, pos0) == p_comparison_rest(ts, self.pos as int, expr@),
            ensures
                self.wf(),
                self.tokens == old(self).tokens,
                pos0 < self.pos,
                p_comparison(ts, pos0) == (Ok::<ExprV, ErrorAt>(expr@), self.pos as int),
            decreases self.tokens@.len() - self.pos,
        {
            proof { lemma_kind_view_textless(); reveal(p_comparison); reveal(p_comparison_rest); reveal(p_term); }
            let found = self.comparison_operator();
            if found.is_none() {
                break;
            }
            let op = found.unwrap();
            let right = self.term()?;
            expr = Expr::Binary { left: Box::new(expr), op, right: Box::new(right) };
        }
        Ok(expr)
    }

    #[verifier::spinoff_prover]
    fn term_operator(&mut self) -> (r: Option<BinaryOp>)
        requires
            old(self).wf(),
        ensures
            old(self).follows(final(self)),
            r == term_op(old(self).toks()[old(self).at()].kind),
            final(self).at() == old(self).at() + if r is Some { 1int } else { 0int },
    {
        proof { lemma_kind_view_textless(); }
        if self.match_kind(&TokenKind::Plus) {
            Some(BinaryOp::Add)
        } else if self.match_kind(&TokenKind::Minus) {
            Some(BinaryOp::Sub)
        } else {
            None
        }
    }

    #[verifier::spinoff_prover]
    fn term(&mut self) -> (r: Result<Expr, ParseError>)
        requires
            old(self).wf(),
        ensures
            old(self).follows(final(self)),
            expr_outcome(p_term(old(self).toks(), old(self).at()), r, final(self).pos),
            r is Ok ==> old(self).pos < final(self).pos,
        decreases old(self).tokens@.len() - old(self).pos, 8nat,
    {
        proof { lemma_kind_view_textless(); reveal(p_term); reveal(p_term_rest); reveal(p_factor); }
        let ghost ts = self.toks();
        let ghost pos0 = self.pos as int;
        let mut expr = self.factor()?;
        loop
            invariant
                self.wf(),
                self.tokens == old(self).tokens,
                ts == self.toks(),
                ts == old(self).toks(),
                pos0 == old(self).pos,
                pos0 < self.pos,
                p_term(ts, pos0) == p_term_rest(ts, self.pos as int, expr@),
            ensures
                self.wf(),
                self.tokens == old(self).tokens,
                pos0 < self.pos,
                p_term(ts, pos0) == (Ok::<ExprV, ErrorAt>(expr@), self.pos as int),
            decreases self.tokens@.len() - self.pos,
        {
            proof { lemma_kind_view_textless(); reveal(p_term); reveal(p_term_rest); reveal(p_factor); }
            let found = self.term_operator();
            if found.is_none() {
                break;
            }
            let op = found.unwrap();
            let right = self.factor()?;
            expr = Expr::Binary { left: Box::new(expr), op, right: Box::new(right) };
        }
        Ok(expr)
    }

    #[verifier::spinoff_prover]
    fn factor_operator(&mut self) -> (r: Option<BinaryOp>)
        requires
            old(self).wf(),
        ensures
            old(self).follows(final(self)),
            r == factor_op(old(self).toks()[old(self).at()].kind),
            final(self).at() == old(self).at() + if r is Some { 1int } else { 0int },
    {
        proof { lemma_kind_view_textless(); }
        if self.match_kind(&TokenKind::Star) {
            Some(BinaryOp::Mul)
        } else if self.match_kind(&TokenKind::Slash) {
            Some(BinaryOp::Div)
        } else if self.match_kind(&TokenKind::Percent) {
            Some(BinaryOp::Mod)
        } else {
            None
        }
    }

    #[verifier::spinoff_prover]
    fn factor(&mut self) -> (r: Result<Expr, ParseError>)
        requires
            old(self).wf(),
        ensures
            old(self).follows(final(self)),
            expr_outcome(p_factor(old(self).toks(), old(self).at()), r, final(self).pos),
            r is Ok ==> old(self).pos < final(self).pos,
        decreases old(self).tokens@.len() - old(self).pos, 6nat,
    {
        proof { lemma_kind_view_textless(); reveal(p_factor); reveal(p_factor_rest); reveal(p_unary); }
        let ghost ts = self.toks();
        let ghost pos0 = self.pos as int;
        let mut expr = self.unary()?;
        loop
            invariant
                self.wf(),
                self.tokens == old(self).tokens,
                ts == self.toks(),
                ts == old(self).toks(),
                pos0 == old(self).pos,
                pos0 < self.pos,
                p_factor(ts, pos0) == p_factor_rest(ts, self.pos as int, expr@),
            ensures
                self.wf(),
                self.tokens == old(self).tokens,
                pos0 < self.pos,
                p_factor(ts, pos0) == (Ok::<ExprV, ErrorAt>(expr@), self.pos as int),
            decreases self.tokens@.len() - self.pos,
        {
            proof { lemma_kind_view_textless(); reveal(p_factor); reveal(p_factor_rest); reveal(p_unary); }
            let found = self.factor_operator();
            if found.is_none() {
                break;
            }
            let op = found.unwrap();
            let right = self.unary()?;
            expr = Expr::Binary { left: Box::new(expr), op, right: Box::new(right) };
        }
        Ok(expr)
    }

    #[verifier::spinoff_prover]
    fn unary(&mut self) -> (r: Result<Expr, ParseError>)
        requires
            old(self).wf(),
        ensures
            old(self).follows(final(self)),
            expr_outcome(p_unary(old(self).toks(), old(self).at()), r, final(self).pos),
            r is Ok ==> old(self).pos < final(self).pos,
        decreases old(self).tokens@.len() - old(self).pos, 4nat,
    {
        proof { lemma_kind_view_textless(); reveal(p_unary); reveal(p_call); }
        if self.match_kind(&TokenKind::Bang) {
            let right = self.unary()?;
            Ok(Expr::Unary { op: UnaryOp::Not, right: Box::new(right) })
        } else if self.match_kind(&TokenKind::Minus) {
            let right = self.unary()?;
            Ok(Expr::Unary { op: UnaryOp::Negate, right: Box::new(right) })
        } else {
            self.call()
        }
    }

    #[verifier::spinoff_prover]
    fn call(&mut self) -> (r: Result<Expr, ParseError>)
        requires
            old(self).wf(),
        ensures
            old(self).follows(final(self)),
            expr_outcome(p_call(old(self).toks(), old(self).at()), r, final(self).pos),
            r is Ok ==> old(self).pos < final(self).pos,
        decreases old(self).tokens@.len() - old(self).pos, 3nat,
    {
        proof { lemma_kind_view_textless(); reveal(p_call); reveal(p_call_rest); reveal(p_primary); reveal(p_finish_call); }
        let ghost ts = self.toks();
        let ghost pos0 = self.pos as int;
        let mut expr = self.primary()?;
        while self.check(&TokenKind::LParen)
            invariant
                kind_view(TokenKind::LParen) == Kind::LParen,
                self.wf(),
                self.tokens == old(self).tokens,
                ts == self.toks(),
                ts == old(self).toks(),
                pos0 == old(self).pos,
                pos0 < self.pos,
                p_call(ts, pos0) == p_call_rest(ts, self.pos as int, expr@),
            decreases self.tokens@.len() - self.pos,
        {
            proof { lemma_kind_view_textless(); reveal(p_call); reveal(p_call_rest); reveal(p_primary); reveal(p_finish_call); }
            self.advance();
            expr = self.finish_call(expr)?;
        }
        Ok(expr)
    }

    #[verifier::spinoff_prover]
    fn finish_call(&mut self, callee: Expr) -> (r: Result<Expr, ParseError>)
        requires
            old(self).wf(),
        ensures
            old(self).follows(final(self)),
            expr_outcome(p_finish_call(old(self).toks(), old(self).at(), callee@), r, final(self).pos),
            r is Ok ==> old(self).pos < final(self).pos,
        decreases old(self).tokens@.len() - old(self).pos, 20nat,
    {
        proof { lemma_kind_view_textless(); reveal(p_finish_call); reveal(p_args); reveal(p_expression); }
        let ghost ts = self.toks();
        let ghost pos0 = self.pos as int;
        let ghost c = callee@;
        let mut args: Vec<Expr> = Vec::new();
        assert(exprs_view(args@) =~= Seq::<ExprV>::empty());
        if !self.check(&TokenKind::RParen) {
            loop
                invariant_except_break
                    p_finish_call(ts, pos0, c) == p_args(ts, self.pos as int, c, exprs_view(args@)),
                invariant
                    self.wf(),
                    self.tokens == old(self).tokens,
                    ts == self.toks(),
                    ts == old(self).toks(),
                    pos0 == old(self).pos,
                    pos0 <= self.pos,
                    c == callee@,
                ensures
                    self.wf(),
                    self.tokens == old(self).tokens,
                    pos0 < self.pos,
                    p_finish_call(ts, pos0, c) == if checks(ts, self.pos as int, Kind::RParen) {
                        (Ok(ExprV::Call { callee: Box::new(c), args: exprs_view(args@) }), self.pos + 1)
                    } else {
                        (Err(error_at(ts, self.pos as int, "expected ')' after arguments"@)), self.pos as int)
                    },
                decreases self.tokens@.len() - self.pos,
            {
                proof { lemma_kind_view_textless(); reveal(p_finish_call); reveal(p_args); reveal(p_expression); }
                let ghost before = args@;
                let a = self.expression()?;
                args.push(a);
                proof { lemma_exprs_view_push(before, a); }
                if !self.match_kind(&TokenKind::Comma) {
                    break;
                }
            }
        }
        self.consume(&TokenKind::RParen, "expected ')' after arguments")?;
        Ok(Expr::Call { callee: Box::new(callee), args })
    }

    #[verifier::spinoff_prover]
    fn primary(&mut self) -> (r: Result<Expr, ParseError>)
        requires
            old(self).wf(),
        ensures
            old(self).follows(final(self)),
            expr_outcome(p_primary(old(self).toks(), old(self).at()), r, final(self).pos),
            r is Ok ==> old(self).pos < final(self).pos,
        decreases old(self).tokens@.len() - old(self).pos, 1nat,
    {
        proof { lemma_kind_view_textless(); reveal(p_primary); reveal(p_expression); }
        let token = self.peek();
        proof { lemma_kind_view(token.kind); }
        match &token.kind {
            TokenKind::Number(n) => {
                let n = *n;
                self.advance();
                Ok(Expr::Number(n))
            },
            TokenKind::Str(s) => {
                let s = s.clone();
                self.advance();
                Ok(Expr::Str(s))
            },
            TokenKind::True => {
                self.advance();
                Ok(Expr::Bool(true))
            },
            TokenKind::False => {
                self.advance();
                Ok(Expr::Bool(false))
            },
            TokenKind::Nil => {
                self.advance();
                Ok(Expr::Nil)
            },
            TokenKind::Identifier(name) => {
                let name = name.clone();
                self.advance();
                Ok(Expr::Variable(name))
            },
            TokenKind::LParen => {
                self.advance();
                let expr = self.expression()?;
                self.consume(&TokenKind::RParen, "expected ')' after expression")?;
                Ok(expr)
            },
            _ => Err(self.error("unexpected token in expression")),
        }
    }
}

} // verus!
