use jlox::errors::Errors;
use jlox::heap::{Heap, LoxProperty, NativeKind, LIST_POP, LIST_PUSH};
use jlox::interpreter::{runtime_error, seconds, Interpreter};
use jlox::lox::Lox;
use jlox::operators::{binary, check_arity, evaluates_right, unary};
use jlox::token::{Token, TokenKind, TokenType};
use jlox::values::{boolean, nil, number, string, LoxObj, LoxPrimitive, Piece};

fn render(line: &Vec<Piece>) -> String {
    let mut text = String::new();
    for piece in line {
        match piece {
            Piece::Text(s) => text.push_str(s),
            Piece::Number(bits) => text.push_str(&f64::from_bits(*bits).to_string()),
        }
    }
    text
}

fn output_of(lox: &Lox) -> Vec<String> {
    lox.interpreter.output.iter().map(render).collect()
}

fn run_ok(source: &str) -> Vec<String> {
    let mut lox = Lox::new();
    match lox.run(source) {
        Ok(()) => {}
        Err(errors) => panic!("{}", errors.to_string()),
    }
    output_of(&lox)
}

fn runtime_failure(source: &str) -> (Vec<String>, usize, String) {
    let mut lox = Lox::new();
    match lox.run(source) {
        Err(Errors::Runtime(error)) => (output_of(&lox), error.line, error.message),
        Err(errors) => panic!("{}", errors.to_string()),
        Ok(()) => panic!("the program ran without an error"),
    }
}

fn static_failure(source: &str) -> String {
    let mut lox = Lox::new();
    match lox.run(source) {
        Err(Errors::Parsing(errors)) => {
            assert_eq!(errors.len(), 1);
            assert!(output_of(&lox).is_empty());
            errors[0].to_string()
        }
        Err(errors) => panic!("{}", errors.to_string()),
        Ok(()) => panic!("the program ran without an error"),
    }
}

fn num(value: f64) -> LoxObj {
    number(value.to_bits())
}

fn as_number(value: &LoxObj) -> f64 {
    match value {
        LoxObj::Primitive(LoxPrimitive::Number(bits)) => f64::from_bits(*bits),
        _ => panic!("expected a number"),
    }
}

fn as_bool(value: &LoxObj) -> bool {
    match value {
        LoxObj::Primitive(LoxPrimitive::Bool(b)) => *b,
        _ => panic!("expected a boolean"),
    }
}

fn token(token_type: TokenType, lexeme: &str) -> Token {
    Token::new(token_type, lexeme.to_string(), 7, 0)
}

#[test]
fn and_evaluates_its_right_operand_only_after_a_truthy_left() {
    let source = "var n = 0; fun hit() { n = n + 1; return true; }\n\
                  print false and hit(); print n; print true and hit(); print n;\n\
                  print nil and hit(); print n;";
    assert_eq!(run_ok(source), vec!["false", "0", "true", "1", "nil", "1"]);
}

#[test]
fn or_evaluates_its_right_operand_only_after_a_falsy_left() {
    let source = "var n = 0; fun hit() { n = n + 1; return 7; }\n\
                  print 1 or hit(); print n; print false or hit(); print n;\n\
                  print nil or hit(); print n;";
    assert_eq!(run_ok(source), vec!["1", "0", "7", "1", "7", "2"]);
}

#[test]
fn logical_decision_follows_truthiness() {
    assert!(evaluates_right(TokenKind::And, &boolean(true)));
    assert!(!evaluates_right(TokenKind::And, &boolean(false)));
    assert!(!evaluates_right(TokenKind::And, &nil()));
    assert!(evaluates_right(TokenKind::And, &num(0.0)));
    assert!(!evaluates_right(TokenKind::Or, &boolean(true)));
    assert!(evaluates_right(TokenKind::Or, &boolean(false)));
    assert!(evaluates_right(TokenKind::Or, &nil()));
    assert!(!evaluates_right(TokenKind::Or, &string(String::new())));
}

#[test]
fn initializer_with_a_bare_return_still_gives_the_instance() {
    let source = "class C { init(n) { this.n = n; if (n > 0) return; this.n = 0 - 1; } }\n\
                  var a = C(5); print a.n; var b = C(0); print b.n; print a; print a.init(9); print a.n;";
    assert_eq!(run_ok(source), vec!["5", "-1", "C instance", "C instance", "9"]);
}

#[test]
fn call_with_wrong_number_of_arguments_is_a_runtime_error() {
    assert_eq!(
        runtime_failure("fun f(a, b) {}\nf(1);"),
        (vec![], 2, "Expected 2 arguments but got 1.".to_string())
    );
    assert_eq!(
        runtime_failure("fun f() {} f(1, 2, 3);"),
        (vec![], 1, "Expected 0 arguments but got 3.".to_string())
    );
    assert_eq!(
        runtime_failure("class C { init(a) {} } C();"),
        (vec![], 1, "Expected 1 arguments but got 0.".to_string())
    );
    assert_eq!(
        runtime_failure("class C {} C(1);"),
        (vec![], 1, "Expected 0 arguments but got 1.".to_string())
    );
    assert_eq!(
        runtime_failure("clock(1);"),
        (vec![], 1, "Expected 0 arguments but got 1.".to_string())
    );
    assert_eq!(run_ok("fun f(a, b) { return a + b; } print f(1, 2);"), vec!["3"]);
}

#[test]
fn arity_check_fails_exactly_when_the_numbers_differ() {
    let paren = token(TokenType::RightParen, ")");
    for expected in 0..4 {
        for got in 0..4 {
            assert_eq!(check_arity(&paren, expected, got).is_err(), expected != got);
        }
    }
    let error = check_arity(&paren, 10, 255).unwrap_err();
    assert_eq!(error.line, 7);
    assert_eq!(error.message, "Expected 10 arguments but got 255.");
}

#[test]
fn arity_of_an_inherited_initializer() {
    assert_eq!(run_ok("class A { init(x) { this.x = x; } } class B < A {} print B(3).x;"), vec!["3"]);
}

#[test]
fn only_functions_and_classes_can_be_called() {
    assert_eq!(
        runtime_failure("\"text\"();"),
        (vec![], 1, "Can only call functions and classes.".to_string())
    );
    assert_eq!(
        runtime_failure("class C {} var c = C(); c();"),
        (vec![], 1, "Can only call functions and classes.".to_string())
    );
    assert_eq!(runtime_failure("nil();").2, "Can only call functions and classes.");
}

#[test]
fn equality_of_primitives_is_by_value() {
    assert_eq!(
        run_ok("print 1 == 1.0; print \"a\" == \"a\"; print \"a\" == \"b\"; print nil == nil; print true == true; print true == false; print 1 == 2;"),
        vec!["true", "true", "false", "true", "true", "false", "false"]
    );
    assert_eq!(
        run_ok("print 1 == \"1\"; print nil == false; print 0 == false; print \"\" == nil; print 1 != 2; print 1 != 1;"),
        vec!["false", "false", "false", "false", "true", "false"]
    );
}

#[test]
fn equality_of_objects_is_identity() {
    let source = "class C {} var a = C(); var b = C(); var c = a;\n\
                  print a == a; print a == b; print a == c; print a != b;\n\
                  fun f() {} fun g() {} var h = f; print f == f; print f == g; print f == h;\n\
                  print C == C; print a == C; print a == nil; print clock == clock;";
    assert_eq!(
        run_ok(source),
        vec!["true", "false", "true", "true", "true", "false", "true", "true", "false", "false", "true"]
    );
}

#[test]
fn two_accesses_of_a_method_give_different_bound_methods() {
    assert_eq!(run_ok("class C { m() {} } var c = C(); print c.m == c.m; var m = c.m; print m == m;"), vec!["false", "true"]);
}

#[test]
fn equality_follows_ieee_for_numbers() {
    assert!(as_bool(&num(0.0).is_equal(&num(-0.0))));
    assert!(!as_bool(&num(f64::NAN).is_equal(&num(f64::NAN))));
    assert!(as_bool(&num(f64::NAN).is_diff(&num(f64::NAN))));
    assert!(as_bool(&num(1.5).is_equal(&num(1.5))));
    assert!(!LoxObj::Instance(0).equals(&LoxObj::Instance(1)));
    assert!(LoxObj::Instance(1).equals(&LoxObj::Instance(1)));
    assert!(!LoxObj::Instance(1).equals(&LoxObj::Class(1)));
    assert!(!LoxObj::List(0).equals(&nil()));
}

#[test]
fn arithmetic_on_numbers() {
    let plus = token(TokenType::Plus, "+");
    let minus = token(TokenType::Minus, "-");
    let star = token(TokenType::Star, "*");
    let slash = token(TokenType::Slash, "/");
    assert_eq!(as_number(&binary(&num(1.5), &plus, &num(2.25)).unwrap()), 3.75);
    assert_eq!(as_number(&binary(&num(1.5), &minus, &num(2.25)).unwrap()), -0.75);
    assert_eq!(as_number(&binary(&num(1.5), &star, &num(2.0)).unwrap()), 3.0);
    assert_eq!(as_number(&binary(&num(1.0), &slash, &num(8.0)).unwrap()), 0.125);
    assert_eq!(as_number(&binary(&num(0.1), &plus, &num(0.2)).unwrap()), 0.1 + 0.2);
    assert_eq!(as_number(&binary(&num(1.0), &slash, &num(3.0)).unwrap()), 1.0 / 3.0);
    assert_eq!(as_number(&binary(&num(1.0), &slash, &num(0.0)).unwrap()), f64::INFINITY);
    assert!(as_number(&binary(&num(0.0), &slash, &num(0.0)).unwrap()).is_nan());
    assert_eq!(as_number(&binary(&num(1e308), &star, &num(10.0)).unwrap()), f64::INFINITY);
}

#[test]
fn comparison_of_numbers() {
    let cases = [(1.0, 2.0), (2.0, 1.0), (2.0, 2.0), (-0.0, 0.0), (f64::NAN, 1.0), (1.0, f64::NAN)];
    let greater = token(TokenType::Greater, ">");
    let greater_equal = token(TokenType::GreaterEqual, ">=");
    let less = token(TokenType::Less, "<");
    let less_equal = token(TokenType::LessEqual, "<=");
    for (a, b) in cases {
        assert_eq!(as_bool(&binary(&num(a), &greater, &num(b)).unwrap()), a > b);
        assert_eq!(as_bool(&binary(&num(a), &greater_equal, &num(b)).unwrap()), a >= b);
        assert_eq!(as_bool(&binary(&num(a), &less, &num(b)).unwrap()), a < b);
        assert_eq!(as_bool(&binary(&num(a), &less_equal, &num(b)).unwrap()), a <= b);
    }
}

#[test]
fn plus_joins_strings() {
    let plus = token(TokenType::Plus, "+");
    let joined = binary(&string("ab".to_string()), &plus, &string("cd".to_string())).unwrap();
    assert!(joined.equals(&string("abcd".to_string())));
    assert_eq!(run_ok("print \"a\" + \"b\" + \"\";"), vec!["ab"]);
}

#[test]
fn operators_refuse_operands_of_the_wrong_kind() {
    assert_eq!(runtime_failure("1 + \"a\";").2, "Operands must be two numbers or two strings.");
    assert_eq!(runtime_failure("nil + nil;").2, "Operands must be two numbers or two strings.");
    assert_eq!(runtime_failure("true + 1;").2, "Operands must be two numbers or two strings.");
    for operator in ["-", "*", "/", "<", "<=", ">", ">="] {
        assert_eq!(runtime_failure(&format!("1 {} \"a\";", operator)).2, "Operands must be numbers.");
        assert_eq!(runtime_failure(&format!("nil {} 1;", operator)).2, "Operands must be numbers.");
        assert_eq!(runtime_failure(&format!("\"a\" {} \"b\";", operator)).2, "Operands must be numbers.");
    }
    assert_eq!(runtime_failure("-\"a\";").2, "Operand must be a number.");
    assert_eq!(runtime_failure("-nil;").2, "Operand must be a number.");
    assert_eq!(runtime_failure("\n\n-true;").1, 3);
}

#[test]
fn unary_operators() {
    let minus = token(TokenType::Minus, "-");
    let bang = token(TokenType::Bang, "!");
    assert_eq!(as_number(&unary(&minus, &num(2.5)).unwrap()), -2.5);
    assert_eq!(as_number(&unary(&minus, &num(-0.0)).unwrap()).to_bits(), 0.0f64.to_bits());
    assert!(!as_bool(&unary(&bang, &num(0.0)).unwrap()));
    assert!(as_bool(&unary(&bang, &nil()).unwrap()));
    assert!(unary(&token(TokenType::Plus, "+"), &num(1.0)).is_err());
    assert!(binary(&num(1.0), &token(TokenType::Bang, "!"), &num(1.0)).is_err());
    assert_eq!(run_ok("print -3; print !true; print !!nil; print -(-3);"), vec!["-3", "false", "false", "3"]);
}

#[test]
fn only_nil_and_false_are_falsy() {
    let source = "if (nil) print 1; else print 2; if (false) print 1; else print 2;\n\
                  if (0) print 1; else print 2; if (\"\") print 1; else print 2; if (true) print 1;\n\
                  class C {} if (C) print 1; if (C()) print 1; if (clock) print 1;";
    assert_eq!(run_ok(source), vec!["2", "2", "1", "1", "1", "1", "1", "1"]);
    assert!(LoxObj::List(0).is_truthy());
    assert!(!nil().is_truthy());
    assert!(!LoxPrimitive::Bool(false).is_truthy());
    assert!(LoxPrimitive::String(String::new()).is_truthy());
}

#[test]
fn values_are_written_as_the_language_writes_them() {
    let source = "print nil; print true; print \"text\"; print 12; print 1.5; print -0.25;\n\
                  fun f() {} print f; class C { m() {} } print C; print C(); print C().m; print clock;";
    assert_eq!(
        run_ok(source),
        vec!["nil", "true", "text", "12", "1.5", "-0.25", "<fn f>", "C", "C instance", "<fn m>", "<native fn>"]
    );
}

#[test]
fn variables_and_scopes() {
    assert_eq!(run_ok("var a = 1; var a = 2; print a; a = 3; print a; print a = 4;"), vec!["2", "3", "4"]);
    assert_eq!(run_ok("var a = 1; { var a = 2; print a; { a = 3; } print a; } print a;"), vec!["2", "3", "1"]);
    assert_eq!(run_ok("var a; print a;"), vec!["nil"]);
    assert_eq!(runtime_failure("print a;"), (vec![], 1, "Undefined variable 'a'.".to_string()));
    assert_eq!(runtime_failure("a = 1;"), (vec![], 1, "Undefined variable 'a'.".to_string()));
    assert_eq!(runtime_failure("print 1;\n{ var a = 1; }\nprint a;").0, vec!["1"]);
}

#[test]
fn closure_sees_updates_made_after_it_was_captured() {
    let source = "var a = 1; fun show() { print a; } show(); a = 2; show();\n\
                  fun outer() { var x = 1; fun get() { return x; } x = 5; return get; } print outer()();";
    assert_eq!(run_ok(source), vec!["1", "2", "5"]);
}

#[test]
fn closures_of_one_scope_share_it() {
    let source = "fun pair() { var n = 0; fun inc() { n = n + 1; } fun get() { return n; }\n\
                  class P {} var p = P(); p.inc = inc; p.get = get; return p; }\n\
                  var p = pair(); var inc = p.inc; var get = p.get; inc(); inc(); print get();\n\
                  var q = pair(); var get2 = q.get; print get2();";
    assert_eq!(run_ok(source), vec!["2", "0"]);
}

#[test]
fn control_flow() {
    assert_eq!(run_ok("var i = 0; while (i < 3) { print i; i = i + 1; }"), vec!["0", "1", "2"]);
    assert_eq!(run_ok("for (var i = 0; i < 3; i = i + 1) print i;"), vec!["0", "1", "2"]);
    assert_eq!(run_ok("var i = 5; for (; i > 3;) i = i - 1; print i;"), vec!["3"]);
    assert_eq!(run_ok("if (1 < 2) print \"y\"; else print \"n\"; if (1 > 2) print \"y\";"), vec!["y"]);
    assert_eq!(
        run_ok("fun f() { for (var i = 0; ; i = i + 1) { if (i == 3) return i; } } print f();"),
        vec!["3"]
    );
    assert_eq!(run_ok("fun f() { while (true) { { return 1; } } } print f();"), vec!["1"]);
}

#[test]
fn functions_return_nil_without_a_return() {
    assert_eq!(run_ok("fun f() {} print f(); fun g() { return; } print g();"), vec!["nil", "nil"]);
    assert_eq!(run_ok("fun fib(n) { if (n < 2) return n; return fib(n - 1) + fib(n - 2); } print fib(15);"), vec!["610"]);
}

#[test]
fn arguments_are_evaluated_from_left_to_right() {
    let source = "fun show(x) { print x; return x; } fun f(a, b, c) {} f(show(1), show(2), show(3));\n\
                  show(1) + show(2) * show(3);";
    assert_eq!(run_ok(source), vec!["1", "2", "3", "1", "2", "3"]);
}

#[test]
fn fields_and_methods() {
    let source = "class P { get() { return this.x; } } var p = P(); p.x = 1; print p.x; print p.get();\n\
                  p.x = 2; print p.get(); p.get = 3; print p.get; print p.y = 9;";
    assert_eq!(run_ok(source), vec!["1", "1", "2", "3", "9"]);
    assert_eq!(runtime_failure("class P {} P().x;"), (vec![], 1, "Undefined property 'x'.".to_string()));
    assert_eq!(runtime_failure("1 .x;").2, "Only instances have properties.");
    assert_eq!(runtime_failure("\"s\".x;").2, "Only instances have properties.");
    assert_eq!(runtime_failure("class P {} P.x;").2, "Only instances have properties.");
    assert_eq!(runtime_failure("var a = 1; a.x = 2;").2, "Only instances have fields.");
    assert_eq!(runtime_failure("class P {} P.x = 2;").2, "Only instances have fields.");
}

#[test]
fn the_object_of_an_assignment_is_checked_before_its_value_is_computed() {
    assert_eq!(
        runtime_failure("fun f() { print 1; return 1; } nil.x = f();"),
        (vec![], 1, "Only instances have fields.".to_string())
    );
}

#[test]
fn bound_method_remembers_its_instance() {
    let source = "class P { init(n) { this.n = n; } who() { return this.n; } }\n\
                  var m = P(1).who; var q = P(2); q.who2 = m; print m(); print q.who2(); print q.who();";
    assert_eq!(run_ok(source), vec!["1", "1", "2"]);
}

#[test]
fn superclass_must_be_a_class() {
    assert_eq!(
        runtime_failure("var A = 1;\nclass B < A {}"),
        (vec![], 2, "Superclass must be a class.".to_string())
    );
}

#[test]
fn method_lookup_goes_up_the_chain_of_superclasses() {
    let source = "class A { a() { return 1; } both() { return \"A\"; } }\n\
                  class B < A { b() { return 2; } both() { return \"B\"; } }\n\
                  class C < B { c() { return 3; } }\n\
                  var c = C(); print c.a(); print c.b(); print c.c(); print c.both();";
    assert_eq!(run_ok(source), vec!["1", "2", "3", "B"]);
}

#[test]
fn class_can_refer_to_itself_in_its_methods() {
    assert_eq!(run_ok("class C { make() { return C(); } } print C().make();"), vec!["C instance"]);
}

#[test]
fn runtime_error_stops_the_program_and_keeps_what_was_printed() {
    let (printed, line, message) = runtime_failure("print 1;\nprint 2;\nprint nil + 1;\nprint 3;");
    assert_eq!(printed, vec!["1", "2"]);
    assert_eq!(line, 3);
    assert_eq!(message, "Operands must be two numbers or two strings.");
}

#[test]
fn block_scope_is_left_after_a_runtime_error() {
    let mut lox = Lox::new();
    assert!(lox.run("var a = 1; { var a = 2; { var a = 3; nil(); } }").is_err());
    assert_eq!(lox.interpreter.environment, lox.interpreter.globals);
    assert!(lox.run("print a;").is_ok());
    assert_eq!(output_of(&lox), vec!["1"]);
}

#[test]
fn clock_gives_the_time_in_seconds() {
    let mut lox = Lox::new();
    assert!(lox.run("var t = clock(); print t > 1600000000; print t < 100000000000; print clock() - t < 60;").is_ok());
    assert_eq!(output_of(&lox), vec!["true", "true", "true"]);
}

#[test]
fn seconds_are_a_thousandth_of_the_milliseconds() {
    assert_eq!(f64::from_bits(seconds(1500)), 1.5);
    assert_eq!(f64::from_bits(seconds(0)), 0.0);
    assert_eq!(f64::from_bits(seconds(-2250)), -2.25);
    assert_eq!(f64::from_bits(seconds(1234567890123)), 1234567890123.0 / 1000.0);
    assert_eq!(f64::from_bits(seconds(i64::MIN)), (i64::MIN as f64) / 1000.0);
    assert_eq!(f64::from_bits(seconds(i64::MAX)), (i64::MAX as f64) / 1000.0);
}

#[test]
fn budget_bounds_loops_and_calls() {
    let mut lox = Lox::new();
    lox.interpreter.set_budget(10);
    match lox.run("var i = 0; while (true) { i = i + 1; }") {
        Err(Errors::Runtime(error)) => assert_eq!(error.message, "Execution budget exhausted."),
        _ => panic!("expected the budget to run out"),
    }
    assert!(lox.run("print i;").is_ok());
    assert_eq!(output_of(&lox), vec!["10"]);
    lox.interpreter.set_budget(5);
    match lox.run("fun f(n) { return f(n + 1); }\nf(0);") {
        Err(Errors::Runtime(error)) => {
            assert_eq!(error.message, "Execution budget exhausted.");
            assert_eq!(error.line, 1);
        }
        _ => panic!("expected the budget to run out"),
    }
    assert_eq!(lox.interpreter.budget, 0);
}

#[test]
fn fresh_interpreter_has_the_largest_budget() {
    let interpreter = Interpreter::new();
    assert_eq!(interpreter.budget, u64::MAX);
    assert_eq!(interpreter.environment, 0);
    assert_eq!(interpreter.globals, 0);
    assert!(interpreter.output.is_empty());
}

#[test]
fn runtime_error_takes_the_line_of_its_token() {
    let error = runtime_error(&token(TokenType::Minus, "-"), "Oops.");
    assert_eq!(error.line, 7);
    assert_eq!(error.message, "Oops.");
    assert_eq!(error.to_string(), "Oops.\n[line 7]");
}

#[test]
fn list_has_push_pop_and_len() {
    let mut lox = Lox::new();
    let list = lox.interpreter.heap.lox_list();
    lox.interpreter.define(0, "xs".to_string(), list);
    let source = "print xs.len; xs.push(1); xs.push(\"two\"); xs.push(xs.len); print xs.len; print xs;\n\
                  print xs.pop(); print xs.pop(); print xs.len; var push = xs.push; push(nil); print xs; print xs.push(3);";
    match lox.run(source) {
        Ok(()) => {}
        Err(errors) => panic!("{}", errors.to_string()),
    }
    assert_eq!(
        output_of(&lox),
        vec!["0", "3", "[1, two, 2]", "2", "two", "1", "[1, nil]", "nil"]
    );
    match lox.run("xs.pop(); xs.pop(); xs.pop(); xs.pop();") {
        Err(Errors::Runtime(error)) => {
            assert_eq!(error.message, "Cannot pop from empty list");
            assert_eq!(error.line, 0);
        }
        _ => panic!("expected a runtime error"),
    }
    match lox.run("xs.nothing;") {
        Err(Errors::Runtime(error)) => assert_eq!(error.message, "Undefined property 'nothing'."),
        _ => panic!("expected a runtime error"),
    }
    match lox.run("xs.len = 1;") {
        Err(Errors::Runtime(error)) => assert_eq!(error.message, "Only instances have fields."),
        _ => panic!("expected a runtime error"),
    }
    assert!(lox.run("if (xs) print \"empty list is truthy\";").is_ok());
    assert_eq!(output_of(&lox).last().unwrap(), "empty list is truthy");
}

#[test]
fn list_inside_itself_is_written_to_a_bounded_depth() {
    let mut lox = Lox::new();
    let list = lox.interpreter.heap.lox_list();
    lox.interpreter.define(0, "xs".to_string(), list);
    assert!(lox.run("xs.push(xs); print xs;").is_ok());
    let line = output_of(&lox).pop().unwrap();
    assert!(line.starts_with("[[[["));
    assert!(line.contains("[...]"));
}

#[test]
fn heap_objects() {
    let mut heap = Heap::new();
    assert_eq!(heap.natives.len(), 2);
    assert!(matches!(heap.natives[LIST_PUSH].kind, NativeKind::ListPush));
    assert!(matches!(heap.natives[LIST_POP].kind, NativeKind::ListPop));
    let clock = heap.native_fn(0, NativeKind::Clock);
    assert!(clock.equals(&LoxObj::Native(2)));
    assert_eq!(heap.arity(&clock), Some(0));
    assert_eq!(heap.arity(&LoxObj::Native(LIST_PUSH)), Some(1));
    assert_eq!(heap.arity(&nil()), None);
    let list = heap.lox_list();
    assert_eq!(heap.arity(&list), Some(1));
    heap.list_push(0, num(1.0));
    heap.list_push(0, num(2.0));
    let len = token(TokenType::Identifier, "len");
    match heap.get_property(&list, &len) {
        LoxProperty::Field(value) => assert_eq!(as_number(&value), 2.0),
        _ => panic!("expected a field"),
    }
    assert!(matches!(heap.get_property(&list, &token(TokenType::Identifier, "push")), LoxProperty::Method(LoxObj::Native(0))));
    assert!(matches!(heap.get_property(&list, &token(TokenType::Identifier, "x")), LoxProperty::Undef));
    assert!(matches!(heap.get_property(&nil(), &len), LoxProperty::Invalid));
    assert_eq!(as_number(&heap.list_pop(0).unwrap()), 2.0);
    assert_eq!(as_number(&heap.list_pop(0).unwrap()), 1.0);
    assert!(heap.list_pop(0).is_none());
    assert!(heap.set_property(&list, &len, &nil()).is_none());
}

#[test]
fn list_method_without_a_list_fails() {
    let mut lox = Lox::new();
    lox.interpreter.define(0, "push".to_string(), LoxObj::Native(LIST_PUSH));
    lox.interpreter.define(0, "pop".to_string(), LoxObj::Native(LIST_POP));
    match lox.run("push(1);") {
        Err(Errors::Runtime(error)) => assert_eq!(error.message, "Can only push one item to a list."),
        _ => panic!("expected a runtime error"),
    }
    match lox.run("pop();") {
        Err(Errors::Runtime(error)) => assert_eq!(error.message, "Can only pop from a list."),
        _ => panic!("expected a runtime error"),
    }
}

#[test]
fn native_function_can_be_bound_to_a_receiver() {
    let mut lox = Lox::new();
    let list = lox.interpreter.heap.lox_list();
    let bound = lox.interpreter.heap.native_method(1, NativeKind::ListPush, Some(list.clone()));
    lox.interpreter.define(0, "add".to_string(), bound);
    lox.interpreter.define(0, "xs".to_string(), list);
    assert!(lox.run("add(4); add(5); print xs;").is_ok());
    assert_eq!(output_of(&lox), vec!["[4, 5]"]);
}

#[test]
fn binding_gives_a_new_function_that_sees_this() {
    let mut lox = Lox::new();
    assert!(lox.run("class C { who() { return this; } } var c = C(); var m = c.who;").is_ok());
    let functions = lox.interpreter.heap.functions.len();
    let scopes = lox.interpreter.environments.scopes.len();
    assert!(lox.run("var again = c.who; print again() == c; print m() == c;").is_ok());
    assert_eq!(output_of(&lox), vec!["true", "true"]);
    assert_eq!(lox.interpreter.heap.functions.len(), functions + 1);
    // one scope for the binding; those of the two calls were released
    assert_eq!(lox.interpreter.environments.scopes.len(), scopes + 1);
    let made = &lox.interpreter.heap.functions[functions];
    assert_eq!(made.declaration.name.lexeme, "who");
    assert!(!made.is_initializer);
    assert_eq!(lox.interpreter.environments.scopes[made.closure].enclosing, Some(0));
}

#[test]
fn list_is_called_with_an_index() {
    let mut lox = Lox::new();
    let list = lox.interpreter.heap.lox_list();
    lox.interpreter.define(0, "xs".to_string(), list);
    let source = "xs.push(\"a\"); xs.push(\"b\"); xs.push(\"c\");\n\
                  print xs(0); print xs(1); print xs(2); print xs(1.9); print xs(-1); print xs(0/0);";
    match lox.run(source) {
        Ok(()) => {}
        Err(errors) => panic!("{}", errors.to_string()),
    }
    assert_eq!(output_of(&lox), vec!["a", "b", "c", "b", "a", "a"]);
    for (source, message) in [
        ("xs(3);", "List index out of range"),
        ("xs(1/0);", "List index out of range"),
        ("xs(1000000000000000000000000000000);", "List index out of range"),
        ("xs(\"0\");", "List index has to be a number"),
        ("xs(nil);", "List index has to be a number"),
        ("xs();", "Expected 1 arguments but got 0."),
        ("xs(1, 2);", "Expected 1 arguments but got 2."),
    ] {
        match lox.run(source) {
            Err(Errors::Runtime(error)) => assert_eq!(error.message, message),
            Err(errors) => assert_eq!(errors.to_string(), message),
            Ok(()) => panic!("expected a runtime error"),
        }
    }
}

#[test]
fn order_and_equality_of_numbers_are_those_of_ieee() {
    let mut values = vec![
        0.0,
        -0.0,
        1.0,
        -1.0,
        0.5,
        1.5,
        2.0,
        -2.5,
        f64::MIN_POSITIVE,
        -f64::MIN_POSITIVE,
        5e-324,
        -5e-324,
        f64::MAX,
        f64::MIN,
        f64::INFINITY,
        f64::NEG_INFINITY,
        f64::NAN,
        -f64::NAN,
        f64::from_bits(0x7ff0_0000_0000_0001),
        f64::from_bits(0xfff8_0000_0000_1234),
        1e300,
        -1e-300,
        9007199254740992.0,
        9007199254740993.0,
    ];
    let mut seed: u64 = 0x2545_f491_4f6c_dd1d;
    for _ in 0..200 {
        seed ^= seed << 13;
        seed ^= seed >> 7;
        seed ^= seed << 17;
        values.push(f64::from_bits(seed));
    }
    for a in values.iter() {
        assert_eq!(jlox::number::not_a_number(a.to_bits()), a.is_nan());
        for b in values.iter() {
            assert_eq!(jlox::number::less(a.to_bits(), b.to_bits()), a < b, "{} < {}", a, b);
            assert_eq!(jlox::number::equal(a.to_bits(), b.to_bits()), a == b, "{} == {}", a, b);
            assert_eq!(jlox::number::less_equal(a.to_bits(), b.to_bits()), a <= b, "{} <= {}", a, b);
            assert_eq!(num(*a) == num(*b), a == b);
        }
    }
}

#[test]
fn values_compare_with_the_equality_operator() {
    assert!(string("a".to_string()) == string("a".to_string()));
    assert!(string("a".to_string()) != string("b".to_string()));
    assert!(nil() == nil());
    assert!(nil() != boolean(false));
    assert!(num(1.0) != string("1".to_string()));
    assert!(num(0.0) != boolean(false));
    assert!(LoxObj::Instance(3) == LoxObj::Instance(3).clone());
    assert!(LoxObj::Instance(3) != LoxObj::Instance(4));
    assert!(LoxObj::List(0) != LoxObj::List(1));
    assert!(LoxObj::Function(0) != LoxObj::Native(0));
    assert!(LoxObj::Class(0) != nil());
}

#[test]
fn scopes_are_released_when_nothing_refers_to_them() {
    let mut lox = Lox::new();
    let source = "fun add(a, b) { var c = a + b; { var d = c; return d; } }\n\
                  var n = 0; while (n < 500) { var m = add(n, 1); { n = m; } }\n\
                  for (var i = 0; i < 10; i = i + 1) { print i; }";
    assert!(lox.run(source).is_ok());
    assert_eq!(lox.interpreter.environments.scopes.len(), 1);
    assert_eq!(output_of(&lox).len(), 10);
    assert!(lox.run("{ var a = 1; nil(); }").is_err());
    assert_eq!(lox.interpreter.environments.scopes.len(), 1);
    assert_eq!(lox.interpreter.environment, 0);
}

#[test]
fn scope_is_kept_while_a_function_closes_over_it() {
    let mut lox = Lox::new();
    let source = "var get; var bump;\n\
                  { var hidden = 1; fun g() { return hidden; } fun b() { hidden = hidden + 1; } get = g; bump = b; }\n\
                  { var other = 10; { var more = 20; } }\n\
                  bump(); bump(); print get();\n\
                  fun counter() { var i = 0; fun next() { i = i + 1; return i; } return next; }\n\
                  var one = counter(); var two = counter(); one(); one(); print one(); print two();";
    match lox.run(source) {
        Ok(()) => {}
        Err(errors) => panic!("{}", errors.to_string()),
    }
    assert_eq!(output_of(&lox), vec!["3", "3", "1"]);
    // the global scope, the block of `hidden`, and the two frames of `counter`
    assert_eq!(lox.interpreter.environments.scopes.len(), 4);
}
