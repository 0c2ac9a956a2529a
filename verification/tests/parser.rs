use lumen_core::{lex, Arith, BinaryOp, Expr, LogicalOp, NumberRequest, ParseError, Parser, Stmt, Token, TokenKind, UnaryOp};

fn compute(q: NumberRequest) -> u64 {
    match q {
        NumberRequest::Literal(text) => text.parse::<f64>().expect("a number literal").to_bits(),
        NumberRequest::Apply(op, a, b) => {
            let (a, b) = (f64::from_bits(a), f64::from_bits(b));
            let r = match op {
                Arith::Add => a + b,
                Arith::Sub => a - b,
                Arith::Mul => a * b,
                Arith::Div => a / b,
                Arith::Rem => a % b,
            };
            r.to_bits()
        }
    }
}


fn parse_expr(src: &str) -> Expr {
    let tokens = lex(src, &compute).unwrap();
    let statements = Parser::new(tokens).parse().unwrap();
    match statements.into_iter().next().unwrap() {
        Stmt::Expression(expr) => expr,
        other => panic!("expected an expression statement, got {other:?}"),
    }
}

fn parse_error(src: &str) -> ParseError {
    let tokens = lex(src, &compute).unwrap();
    match Parser::new(tokens).parse() {
        Err(e) => e,
        Ok(s) => panic!("expected a parse error, got {s:?}"),
    }
}

#[test]
fn multiplication_binds_tighter_than_addition() {
    let expr = parse_expr("1 + 2 * 3;");
    match expr {
        Expr::Binary { op: BinaryOp::Add, right, .. } => {
            assert!(matches!(*right, Expr::Binary { op: BinaryOp::Mul, .. }));
        }
        other => panic!("expected addition at the root, got {other:?}"),
    }
}

#[test]
fn grouping_overrides_precedence() {
    let expr = parse_expr("(1 + 2) * 3;");
    match expr {
        Expr::Binary { op: BinaryOp::Mul, left, .. } => {
            assert!(matches!(*left, Expr::Binary { op: BinaryOp::Add, .. }));
        }
        other => panic!("expected multiplication at the root, got {other:?}"),
    }
}

#[test]
fn parses_comparison() {
    let expr = parse_expr("1 < 2;");
    assert!(matches!(expr, Expr::Binary { op: BinaryOp::Less, .. }));
}

#[test]
fn parses_var_declaration() {
    let tokens = lex("var x = 5;", &compute).unwrap();
    let statements = Parser::new(tokens).parse().unwrap();
    assert!(matches!(statements[0], Stmt::Var { .. }));
}

#[test]
fn parses_function_declaration() {
    let tokens = lex("fn add(a, b) { return a + b; }", &compute).unwrap();
    let statements = Parser::new(tokens).parse().unwrap();
    assert!(matches!(statements[0], Stmt::Function { .. }));
}

#[test]
fn missing_semicolon_is_error() {
    let tokens = lex("var x = 1", &compute).unwrap();
    assert!(Parser::new(tokens).parse().is_err());
}

#[test]
fn operators_associate_left() {
    match parse_expr("1 - 2 - 3;") {
        Expr::Binary { op: BinaryOp::Sub, left, right } => {
            assert!(matches!(*left, Expr::Binary { op: BinaryOp::Sub, .. }));
            assert!(matches!(*right, Expr::Number(n) if n == 3.0f64.to_bits()));
        }
        other => panic!("expected subtraction at the root, got {other:?}"),
    }
}

#[test]
fn assignment_associates_right() {
    match parse_expr("a = b = 1;") {
        Expr::Assign { name, value } => {
            assert_eq!(name, "a");
            assert!(matches!(*value, Expr::Assign { ref name, .. } if name == "b"));
        }
        other => panic!("expected an assignment, got {other:?}"),
    }
}

#[test]
fn logical_precedence() {
    match parse_expr("a or b and c;") {
        Expr::Logical { op: LogicalOp::Or, right, .. } => {
            assert!(matches!(*right, Expr::Logical { op: LogicalOp::And, .. }));
        }
        other => panic!("expected `or` at the root, got {other:?}"),
    }
}

#[test]
fn unary_and_calls() {
    match parse_expr("-f(1, 2)(3);") {
        Expr::Unary { op: UnaryOp::Negate, right } => match *right {
            Expr::Call { callee, args } => {
                assert_eq!(args.len(), 1);
                assert!(matches!(*callee, Expr::Call { ref args, .. } if args.len() == 2));
            }
            other => panic!("expected a call, got {other:?}"),
        },
        other => panic!("expected a negation, got {other:?}"),
    }
    assert!(matches!(parse_expr("!!true;"), Expr::Unary { op: UnaryOp::Not, .. }));
}

#[test]
fn parses_statements() {
    let tokens = lex("if (x) print 1; else { print 2; } while (y) x = 1; return; { }", &compute).unwrap();
    let statements = Parser::new(tokens).parse().unwrap();
    assert_eq!(statements.len(), 4);
    assert!(matches!(statements[0], Stmt::If { else_branch: Some(_), .. }));
    assert!(matches!(statements[1], Stmt::While { .. }));
    assert!(matches!(statements[2], Stmt::Return(None)));
    assert!(matches!(statements[3], Stmt::Block(ref b) if b.is_empty()));
}

#[test]
fn parse_error_messages() {
    assert_eq!(
        parse_error("var x = 1"),
        ParseError { message: "expected ';' after variable declaration".into(), line: 1, col: 10 }
    );
    assert_eq!(
        parse_error("1 = 2;"),
        ParseError { message: "invalid assignment target".into(), line: 1, col: 5 }
    );
    assert_eq!(
        parse_error("print ;"),
        ParseError { message: "unexpected token in expression".into(), line: 1, col: 7 }
    );
    assert_eq!(
        parse_error("fn (a) {}"),
        ParseError { message: "expected function name".into(), line: 1, col: 4 }
    );
    assert_eq!(
        parse_error("fn f(a, ) {}"),
        ParseError { message: "expected parameter name".into(), line: 1, col: 9 }
    );
    assert_eq!(
        parse_error("{ print 1;"),
        ParseError { message: "expected '}' after block".into(), line: 1, col: 11 }
    );
    assert_eq!(
        parse_error("f(1;"),
        ParseError { message: "expected ')' after arguments".into(), line: 1, col: 4 }
    );
}

#[test]
fn empty_program_parses() {
    let statements = Parser::new(lex("", &compute).unwrap()).parse().unwrap();
    assert!(statements.is_empty());
}

#[test]
fn parsing_stops_at_the_first_eof() {
    let mut tokens = lex("print 1;", &compute).unwrap();
    tokens.push(Token { kind: TokenKind::Semicolon, line: 9, col: 9 });
    tokens.push(Token { kind: TokenKind::Eof, line: 9, col: 10 });
    let statements = Parser::new(tokens).parse().unwrap();
    assert_eq!(statements.len(), 1);
    assert!(matches!(statements[0], Stmt::Print(Expr::Number(n)) if n == 1.0f64.to_bits()));
    let tokens = vec![
        Token { kind: TokenKind::Eof, line: 1, col: 1 },
        Token { kind: TokenKind::Print, line: 1, col: 2 },
    ];
    assert!(Parser::new(tokens).parse().unwrap().is_empty());
}
