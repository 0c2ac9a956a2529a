use lumen_core::cli::run_line;
use lumen_core::interpreter::{compare, eval_binary, is_truthy};
use lumen_core::{interpret, Arith, BinaryOp, Interpreter, LumenError, NumberRequest, Value};

fn compute(q: NumberRequest) -> u64 {
    match q {
        NumberRequest::Literal(text) => text.parse::<f64>().expect("a number literal").to_bits(),
        NumberRequest::Apply(op, a, b) => {
            let (a, b) = (f64::from_bits(a), f64::from_bits(b));
            let r = match op {
                Arith::Add => a + b,
                Arith::Sub => a - b,
                Arith::Mul => a * b,
                Arith::Div => a / b,
                Arith::Rem => a % b,
            };
            r.to_bits()
        }
    }
}

fn render(x: u64) -> String {
    format!("{}", f64::from_bits(x))
}

fn run(src: &str) -> Vec<String> {
    interpret(src, &compute, &render).expect("program should run without error")
}

fn runtime_message(src: &str) -> String {
    match interpret(src, &compute, &render) {
        Err(LumenError::Runtime(e)) => e.message,
        other => panic!("expected a runtime error, got {other:?}"),
    }
}

fn num(x: f64) -> Value {
    Value::Number(x.to_bits())
}

#[test]
fn arithmetic_respects_precedence() {
    assert_eq!(run("print 1 + 2 * 3;"), vec!["7"]);
}

#[test]
fn grouping_changes_result() {
    assert_eq!(run("print (1 + 2) * 3;"), vec!["9"]);
}

#[test]
fn string_concatenation() {
    assert_eq!(run("print \"foo\" + \"bar\";"), vec!["foobar"]);
}

#[test]
fn variables_and_assignment() {
    assert_eq!(run("var x = 10; x = x + 5; print x;"), vec!["15"]);
}

#[test]
fn if_else_branches() {
    assert_eq!(
        run("if (1 < 2) { print \"yes\"; } else { print \"no\"; }"),
        vec!["yes"]
    );
}

#[test]
fn while_loop_accumulates() {
    let src = "var i = 0; var s = 0; while (i < 5) { s = s + i; i = i + 1; } print s;";
    assert_eq!(run(src), vec!["10"]);
}

#[test]
fn function_call_and_return() {
    assert_eq!(
        run("fn add(a, b) { return a + b; } print add(3, 4);"),
        vec!["7"]
    );
}

#[test]
fn recursion_computes_fibonacci() {
    let src = "fn fib(n) { if (n < 2) { return n; } return fib(n - 1) + fib(n - 2); } \
               print fib(10);";
    assert_eq!(run(src), vec!["55"]);
}

#[test]
fn closure_captures_mutable_state() {
    let src = "fn make() { var count = 0; fn next() { count = count + 1; return count; } \
               return next; } var c = make(); print c(); print c(); print c();";
    assert_eq!(run(src), vec!["1", "2", "3"]);
}

#[test]
fn closures_have_independent_state() {
    let src = "fn make() { var count = 0; fn next() { count = count + 1; return count; } \
               return next; } var a = make(); var b = make(); \
               print a(); print a(); print b();";
    assert_eq!(run(src), vec!["1", "2", "1"]);
}

#[test]
fn logical_and_short_circuits() {
    let src = "var x = 0; fn bump() { x = x + 1; return true; } false and bump(); print x;";
    assert_eq!(run(src), vec!["0"]);
}

#[test]
fn modulo_operator() {
    assert_eq!(run("print 17 % 5;"), vec!["2"]);
}

#[test]
fn comparison_yields_bool() {
    assert_eq!(run("print 3 <= 3;"), vec!["true"]);
}

#[test]
fn undefined_variable_is_runtime_error() {
    assert!(interpret("print y;", &compute, &render).is_err());
}

#[test]
fn division_by_zero_is_runtime_error() {
    assert!(interpret("print 1 / 0;", &compute, &render).is_err());
}

#[test]
fn fibonacci_sequence_program() {
    let src = "
        fn fib(n) {
            if (n < 2) { return n; }
            return fib(n - 1) + fib(n - 2);
        }
        var i = 0;
        while (i < 10) {
            print fib(i);
            i = i + 1;
        }
    ";
    assert_eq!(
        run(src),
        vec!["0", "1", "1", "2", "3", "5", "8", "13", "21", "34"]
    );
}

#[test]
fn counter_closures_program() {
    let src = "
        fn make_counter() {
            var count = 0;
            fn increment() { count = count + 1; return count; }
            return increment;
        }
        var counter = make_counter();
        print counter();
        print counter();
        print counter();
        var other = make_counter();
        print other();
    ";
    assert_eq!(run(src), vec!["1", "2", "3", "1"]);
}

#[test]
fn fizzbuzz_program() {
    let src = "
        var n = 1;
        while (n <= 15) {
            if (n % 3 == 0 and n % 5 == 0) { print \"FizzBuzz\"; }
            else if (n % 3 == 0) { print \"Fizz\"; }
            else if (n % 5 == 0) { print \"Buzz\"; }
            else { print n; }
            n = n + 1;
        }
    ";
    assert_eq!(
        run(src),
        vec![
            "1", "2", "Fizz", "4", "Buzz", "Fizz", "7", "8", "Fizz", "Buzz", "11", "Fizz", "13",
            "14", "FizzBuzz"
        ]
    );
}

#[test]
fn nested_scopes_resolve_correctly() {
    let src = "
        var x = 1;
        { var x = 2; print x; }
        print x;
    ";
    assert_eq!(run(src), vec!["2", "1"]);
}

#[test]
fn readme_counter_example() {
    let src = "
        fn make_counter() {
            var count = 0;
            fn next() {
                count = count + 1;
                return count;
            }
            return next;
        }

        var counter = make_counter();
        print counter(); // 1
        print counter(); // 2
    ";
    assert_eq!(run(src), vec!["1", "2"]);
}

#[test]
fn division_and_decimals() {
    assert_eq!(run("print 7 / 2; print 2.5 * 2; print 0.1 + 0.2;"), vec!["3.5", "5", "0.30000000000000004"]);
}

#[test]
fn modulo_by_zero_is_runtime_error() {
    assert_eq!(runtime_message("print 5 % 0;"), "modulo by zero");
    assert_eq!(runtime_message("print 5 / (0 * -1);"), "division by zero");
}

#[test]
fn runtime_error_messages() {
    assert_eq!(runtime_message("print y;"), "undefined variable 'y'");
    assert_eq!(runtime_message("y = 1;"), "undefined variable 'y'");
    assert_eq!(runtime_message("print -\"a\";"), "operand of '-' must be a number");
    assert_eq!(runtime_message("print 1 + \"a\";"), "operands of '+' must be two numbers or two strings");
    assert_eq!(runtime_message("print 1 - true;"), "operands of '-' must be numbers");
    assert_eq!(runtime_message("print nil * 2;"), "operands of '*' must be numbers");
    assert_eq!(runtime_message("print \"a\" / 2;"), "operands of '/' must be numbers");
    assert_eq!(runtime_message("print \"a\" % 2;"), "operands of '%' must be numbers");
    assert_eq!(runtime_message("print \"a\" < 2;"), "operands of '<' must be numbers");
    assert_eq!(runtime_message("print 1 >= nil;"), "operands of '>=' must be numbers");
    assert_eq!(runtime_message("var x = 3; x();"), "'3' is not callable");
    assert_eq!(runtime_message("\"s\"();"), "'s' is not callable");
    assert_eq!(
        runtime_message("fn f(a, b) { return a; } f(1);"),
        "expected 2 argument(s) but got 1"
    );
}

#[test]
fn function_values_print_by_name() {
    assert_eq!(run("fn f() {} print f; print f == f; fn g() {} print f == g;"), vec!["<fn f>", "true", "false"]);
}

#[test]
fn function_without_return_yields_nil() {
    assert_eq!(run("fn f() { var a = 1; } print f();"), vec!["nil"]);
    assert_eq!(run("fn g() { return; } print g();"), vec!["nil"]);
}

#[test]
fn logical_operators_return_operands() {
    assert_eq!(
        run("print nil or \"x\"; print 1 and 2; print false or nil; print 0 and 3; print nil and 1; print 1 or 2;"),
        vec!["x", "2", "nil", "3", "nil", "1"]
    );
    let src = "var x = 0; fn bump() { x = x + 1; return true; } true or bump(); print x; false or bump(); print x;";
    assert_eq!(run(src), vec!["0", "1"]);
}

#[test]
fn truthiness_and_not() {
    assert_eq!(run("print !nil; print !false; print !0; print !\"\";"), vec!["true", "true", "false", "false"]);
    assert!(!is_truthy(&Value::Nil));
    assert!(!is_truthy(&Value::Bool(false)));
    assert!(is_truthy(&num(0.0)));
    assert!(is_truthy(&Value::Str(String::new())));
}

#[test]
fn equality_of_values() {
    assert_eq!(run("print 1 == 1; print \"a\" == \"a\"; print nil == nil; print 1 == \"1\"; print 1 != 2;"), vec!["true", "true", "true", "false", "true"]);
    assert_eq!(num(0.0), num(-0.0));
    assert_ne!(num(f64::NAN), num(f64::NAN));
}

#[test]
fn comparisons_of_numbers() {
    assert_eq!(run("print 1 < 2; print 2 > 1; print -1 < 0; print 2 >= 3; print -2 <= -2;"), vec!["true", "true", "true", "false", "true"]);
    assert!(matches!(
        compare(BinaryOp::Less, num(f64::NAN), num(1.0), "<"),
        Err(e) if e.message == "cannot compare operands with '<'"
    ));
    assert!(matches!(compare(BinaryOp::Greater, num(-0.0), num(0.0), ">"), Ok(Value::Bool(false))));
    assert!(matches!(compare(BinaryOp::GreaterEq, num(-0.0), num(0.0), ">="), Ok(Value::Bool(true))));
    assert!(matches!(compare(BinaryOp::Less, num(-3.5), num(-2.0), "<"), Ok(Value::Bool(true))));
}

#[test]
fn binary_operators_on_values() {
    assert!(matches!(eval_binary(&compute, BinaryOp::Sub, num(5.0), num(7.0)), Ok(v) if v == num(-2.0)));
    assert!(matches!(
        eval_binary(&compute, BinaryOp::Div, num(1.0), num(-0.0)),
        Err(e) if e.message == "division by zero"
    ));
    assert!(matches!(
        eval_binary(&compute, BinaryOp::Add, Value::Str("a".to_string()), Value::Str("b".to_string())),
        Ok(Value::Str(s)) if s == "ab"
    ));
}

#[test]
fn negation_flips_sign() {
    assert_eq!(run("print -3; print --3; print -(1 - 1);"), vec!["-3", "3", "-0"]);
}

#[test]
fn top_level_return_stops_program() {
    assert_eq!(run("print 1; return; print 2;"), vec!["1"]);
}

#[test]
fn blocks_assign_outer_variables() {
    assert_eq!(run("var x = 1; { x = 2; var y = 3; } print x;"), vec!["2"]);
    assert_eq!(runtime_message("{ var y = 3; } print y;"), "undefined variable 'y'");
}

#[test]
fn lexical_not_dynamic_scope() {
    let src = "var x = \"global\"; fn show() { print x; } fn f() { var x = \"local\"; show(); } f();";
    assert_eq!(run(src), vec!["global"]);
}

#[test]
fn pipeline_errors_by_stage() {
    assert!(matches!(interpret("print @;", &compute, &render), Err(LumenError::Lex(_))));
    assert!(matches!(interpret("print 1", &compute, &render), Err(LumenError::Parse(_))));
    match interpret("print @;", &compute, &render) {
        Err(e) => assert_eq!(e.render(), "lex error at line 1, col 7: unexpected character '@'"),
        Ok(_) => panic!("expected an error"),
    }
    match interpret("print 1 / 0;", &compute, &render) {
        Err(e) => assert_eq!(e.render(), "runtime error: division by zero"),
        Ok(_) => panic!("expected an error"),
    }
}

#[test]
fn interpreter_output_is_append_only() {
    let mut it = Interpreter::new();
    let tokens = lumen_core::lex("print 1; print 2;", &compute).unwrap();
    let stmts = lumen_core::Parser::new(tokens).parse().unwrap();
    it.run(&stmts, &compute, &render).unwrap();
    assert_eq!(it.output(), &["1".to_string(), "2".to_string()]);
    it.run(&stmts, &compute, &render).unwrap();
    assert_eq!(it.output().len(), 4);
    assert_eq!(it.take_output(), vec!["1", "2", "1", "2"]);
    assert!(it.output().is_empty());
    assert_eq!(it.into_output(), Vec::<String>::new());
}

#[test]
fn repl_lines_share_globals() {
    let mut it = Interpreter::new();
    assert_eq!(run_line(&mut it, "var x = 40;", &compute, &render), Ok(vec![]));
    assert_eq!(run_line(&mut it, "x = x + 2; print x;", &compute, &render), Ok(vec!["42".to_string()]));
    assert_eq!(
        run_line(&mut it, "print x; print nope;", &compute, &render),
        Err("runtime error: undefined variable 'nope'".to_string())
    );
    assert_eq!(run_line(&mut it, "print 1;", &compute, &render), Ok(vec!["42".to_string(), "1".to_string()]));
    assert_eq!(
        run_line(&mut it, "var = 1;", &compute, &render),
        Err("parse error at line 1, col 5: expected variable name".to_string())
    );
    assert_eq!(
        run_line(&mut it, "\"open", &compute, &render),
        Err("lex error at line 1, col 1: unterminated string".to_string())
    );
}

#[test]
fn long_loop_with_block_body() {
    let src = "var i = 0; var s = 0; while (i < 100000) { var t = i % 7; s = s + t; i = i + 1; } print s;";
    assert_eq!(run(src), vec!["299995"]);
}

#[test]
fn closures_made_in_loops_keep_their_scopes() {
    let src = "var fs = nil; var i = 0; \
               fn keep(f, g) { fn both() { return f() + g(); } return both; } \
               fn konst(v) { fn get() { return v; } return get; } \
               var acc = konst(0); \
               while (i < 4) { { var j = i * 10; acc = keep(acc, konst(j)); } i = i + 1; } \
               print acc();";
    assert_eq!(run(src), vec!["60"]);
}

#[test]
fn parameters_bind_in_order() {
    assert_eq!(run("fn f(a, b, c) { print a; print b; print c; } f(1, \"two\", nil);"), vec!["1", "two", "nil"]);
    assert_eq!(run("fn f(a, a) { return a; } print f(1, 2);"), vec!["2"]);
    assert_eq!(run("var a = 5; fn f(a) { a = a + 1; return a; } print f(1); print a;"), vec!["2", "5"]);
}
