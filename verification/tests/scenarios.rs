use jlox::errors::Errors;
use jlox::lox::Lox;
use jlox::values::Piece;

fn render(line: &Vec<Piece>) -> String {
    let mut text = String::new();
    for piece in line {
        match piece {
            Piece::Text(s) => text.push_str(s),
            Piece::Number(bits) => text.push_str(&f64::from_bits(*bits).to_string()),
        }
    }
    text
}

fn output_of(lox: &Lox) -> Vec<String> {
    lox.interpreter.output.iter().map(render).collect()
}

fn run_ok(source: &str) -> Vec<String> {
    let mut lox = Lox::new();
    match lox.run(source) {
        Ok(()) => {}
        Err(errors) => panic!("{}", errors.to_string()),
    }
    output_of(&lox)
}

fn run_err(source: &str) -> (Vec<String>, Errors) {
    let mut lox = Lox::new();
    match lox.run(source) {
        Ok(()) => panic!("the program ran without an error"),
        Err(errors) => (output_of(&lox), errors),
    }
}

#[test]
fn arithmetic_follows_precedence() {
    assert_eq!(run_ok("print 1 + 2 * 3;"), vec!["7"]);
}

#[test]
fn closure_keeps_its_counter() {
    let source = "fun makeCounter() { var i = 0; fun count() { i = i + 1; return i; } return count; }\n\
                  var c = makeCounter(); print c(); print c(); print c();";
    assert_eq!(run_ok(source), vec!["1", "2", "3"]);
}

#[test]
fn binding_is_static_across_block_shadowing() {
    let source = "var a = \"global\";\n{ fun show() { print a; } show(); var a = \"local\"; show(); }";
    assert_eq!(run_ok(source), vec!["global", "global"]);
}

#[test]
fn class_with_initializer_and_method() {
    let source = "class Greeter { init(n) { this.name = n; } hi() { print \"hi \" + this.name; } }\n\
                  Greeter(\"Lox\").hi();";
    assert_eq!(run_ok(source), vec!["hi Lox"]);
}

#[test]
fn subclass_overrides_method() {
    let source = "class A { f() { print \"A\"; } }\nclass B < A { f() { print \"B\"; } }\nB().f();";
    assert_eq!(run_ok(source), vec!["B"]);
}

#[test]
fn subclass_inherits_method() {
    let source = "class A { f() { print \"A\"; } }\nclass B < A { g() { print \"B\"; } }\nB().f(); B().g();";
    assert_eq!(run_ok(source), vec!["A", "B"]);
}

#[test]
fn subtracting_from_a_string_is_a_runtime_error() {
    let (printed, errors) = run_err("\"a\" - 1;");
    assert!(printed.is_empty());
    assert_eq!(errors.to_string(), "Operands must be numbers.\n[line 1]\n");
    assert_eq!(errors.exit_code(), 70);
    match errors {
        Errors::Runtime(error) => {
            assert_eq!(error.line, 1);
            assert_eq!(error.message, "Operands must be numbers.");
            assert_eq!(error.to_string(), "Operands must be numbers.\n[line 1]");
        }
        Errors::Parsing(_) => panic!("expected a runtime error"),
    }
}

#[test]
fn scan_error_is_a_static_error() {
    let (_, errors) = run_err("var a = @;");
    assert_eq!(errors.exit_code(), 65);
    assert_eq!(errors.to_string(), "[line 1] Error: Unexpected character.\n");
}

#[test]
fn parse_error_names_the_token() {
    let (_, errors) = run_err("print 1 +;");
    assert_eq!(errors.to_string(), "[line 1] Error at ';': Expect expression.\n");
}

#[test]
fn parse_error_at_end_of_input() {
    let (_, errors) = run_err("print 1");
    assert_eq!(errors.to_string(), "[line 1] Error at end: Expect ';' after value.\n");
}

#[test]
fn session_keeps_globals_between_sources() {
    let mut lox = Lox::new();
    assert!(lox.run("var a = 1;").is_ok());
    assert!(lox.run("fun f() { var b = 2; { return a + b; } }").is_ok());
    assert!(lox.run("print f();").is_ok());
    assert_eq!(output_of(&lox), vec!["3"]);
}

#[test]
fn session_goes_on_after_an_error() {
    let mut lox = Lox::new();
    assert!(lox.run("print nope;").is_err());
    assert!(lox.run("print 1;").is_ok());
    assert_eq!(output_of(&lox), vec!["1"]);
}

#[test]
fn program_can_be_executed_statement_by_statement() {
    let mut lox = Lox::new();
    let statements = match lox.load("var a = 1;\nprint a;\nprint nil + 1;\nprint 2;") {
        Ok(statements) => statements,
        Err(errors) => panic!("{}", errors.to_string()),
    };
    assert_eq!(statements.len(), 4);
    assert!(lox.execute(&statements[0]).is_ok());
    assert!(output_of(&lox).is_empty());
    assert!(lox.execute(&statements[1]).is_ok());
    assert_eq!(output_of(&lox), vec!["1"]);
    match lox.execute(&statements[2]) {
        Err(errors) => {
            assert_eq!(errors.exit_code(), 70);
            assert_eq!(errors.to_string(), "Operands must be two numbers or two strings.\n[line 3]\n");
        }
        Ok(()) => panic!("expected a runtime error"),
    }
    assert!(lox.execute(&statements[3]).is_ok());
    assert_eq!(output_of(&lox), vec!["1", "2"]);
}

#[test]
fn loading_reports_static_errors_and_changes_nothing() {
    let mut lox = Lox::new();
    match lox.load("print 1; print ;") {
        Err(errors) => {
            assert_eq!(errors.exit_code(), 65);
            assert_eq!(errors.to_string(), "[line 1] Error at ';': Expect expression.\n");
        }
        Ok(_) => panic!("expected a static error"),
    }
    match lox.load("{ var a = 1; var a = 2; }") {
        Err(errors) => assert_eq!(
            errors.to_string(),
            "[line 1] Error at 'a': Already a variable with this name in this scope.\n"
        ),
        Ok(_) => panic!("expected a static error"),
    }
    assert!(lox.interpreter.locals.is_empty());
    assert!(output_of(&lox).is_empty());
    let statements = lox.load("{ var a = 1; print a; }").unwrap();
    assert_eq!(lox.interpreter.locals.len(), 1);
    assert!(lox.execute(&statements[0]).is_ok());
    assert_eq!(output_of(&lox), vec!["1"]);
}
