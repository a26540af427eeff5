use jlox::ast::{Expr, Stmt};
use jlox::errors::Errors;
use jlox::parser::{parse, parser_error, State};
use jlox::scanner::scan_tokens;
use jlox::token::{Token, TokenKind, TokenType};
use jlox::values::LoxPrimitive;

fn parsed(source: &str) -> Vec<Stmt> {
    let scan = scan_tokens(source.to_string());
    assert!(scan.errors.is_empty());
    match parse(scan.tokens) {
        Ok(statements) => statements,
        Err(errors) => panic!("{}", errors.to_string()),
    }
}

fn parse_errors(source: &str) -> Vec<String> {
    let scan = scan_tokens(source.to_string());
    assert!(scan.errors.is_empty());
    match parse(scan.tokens) {
        Ok(_) => panic!("the source parsed"),
        Err(Errors::Parsing(errors)) => errors.iter().map(|e| e.to_string()).collect(),
        Err(Errors::Runtime(_)) => panic!("a parser gives no runtime error"),
    }
}

fn show(expr: &Expr) -> String {
    match expr {
        Expr::Assignment { name, value } => format!("(= {} {})", name.lexeme, show(value)),
        Expr::Binary { left, operator, right } => {
            format!("({} {} {})", operator.lexeme, show(left), show(right))
        }
        Expr::Call { callee, arguments, .. } => {
            let mut text = format!("(call {}", show(callee));
            for argument in arguments {
                text.push(' ');
                text.push_str(&show(argument));
            }
            text.push(')');
            text
        }
        Expr::Get { object, name } => format!("(. {} {})", show(object), name.lexeme),
        Expr::Grouping { expression } => format!("(group {})", show(expression)),
        Expr::Literal { value } => match value {
            LoxPrimitive::Number(bits) => f64::from_bits(*bits).to_string(),
            LoxPrimitive::Bool(b) => b.to_string(),
            LoxPrimitive::String(s) => format!("{:?}", s),
            LoxPrimitive::Nil => "nil".to_string(),
        },
        Expr::Logical { left, operator, right } => {
            format!("({} {} {})", operator.lexeme, show(left), show(right))
        }
        Expr::SetProperty { object, name, value } => {
            format!("(.= {} {} {})", show(object), name.lexeme, show(value))
        }
        Expr::This { .. } => "this".to_string(),
        Expr::Unary { operator, right } => format!("({} {})", operator.lexeme, show(right)),
        Expr::Variable { name } => name.lexeme.clone(),
    }
}

fn show_stmt(stmt: &Stmt) -> String {
    match stmt {
        Stmt::Block { statements } => {
            let inner: Vec<String> = statements.iter().map(show_stmt).collect();
            format!("{{{}}}", inner.join(" "))
        }
        Stmt::Class { name, methods, superclass } => {
            let names: Vec<String> = methods.iter().map(|m| m.name.lexeme.clone()).collect();
            match superclass {
                Some(parent) => format!("class {} < {} [{}]", name.lexeme, show(parent), names.join(" ")),
                None => format!("class {} [{}]", name.lexeme, names.join(" ")),
            }
        }
        Stmt::Expression { expression } => format!("{};", show(expression)),
        Stmt::Function { declaration } => {
            let params: Vec<String> = declaration.params.iter().map(|p| p.lexeme.clone()).collect();
            let body: Vec<String> = declaration.body.iter().map(show_stmt).collect();
            format!("fun {}({}) {{{}}}", declaration.name.lexeme, params.join(" "), body.join(" "))
        }
        Stmt::If { condition, then_branch, else_branch } => match else_branch {
            Some(branch) => format!(
                "if {} {} else {}",
                show(condition),
                show_stmt(then_branch),
                show_stmt(branch)
            ),
            None => format!("if {} {}", show(condition), show_stmt(then_branch)),
        },
        Stmt::Print { expression } => format!("print {};", show(expression)),
        Stmt::Return { expression, .. } => format!("return {};", show(expression)),
        Stmt::Var { name, initializer } => format!("var {} = {};", name.lexeme, show(initializer)),
        Stmt::While { condition, body } => format!("while {} {}", show(condition), show_stmt(body)),
    }
}

fn shown(source: &str) -> Vec<String> {
    parsed(source).iter().map(show_stmt).collect()
}

#[test]
fn binary_operators_follow_precedence() {
    assert_eq!(shown("1 + 2 * 3;"), vec!["(+ 1 (* 2 3));"]);
    assert_eq!(shown("1 * 2 + 3;"), vec!["(+ (* 1 2) 3);"]);
    assert_eq!(shown("1 < 2 == 3 > 4;"), vec!["(== (< 1 2) (> 3 4));"]);
    assert_eq!(shown("a or b and c;"), vec!["(or a (and b c));"]);
    assert_eq!(shown("!a == -b;"), vec!["(== (! a) (- b));"]);
}

#[test]
fn binary_operators_associate_to_the_left() {
    assert_eq!(shown("1 - 2 - 3;"), vec!["(- (- 1 2) 3);"]);
    assert_eq!(shown("8 / 4 / 2;"), vec!["(/ (/ 8 4) 2);"]);
}

#[test]
fn assignment_associates_to_the_right() {
    assert_eq!(shown("a = b = 1;"), vec!["(= a (= b 1));"]);
    assert_eq!(shown("a.b.c = 2;"), vec!["(.= (. a b) c 2);"]);
}

#[test]
fn grouping_and_unary() {
    assert_eq!(shown("(1 + 2) * 3;"), vec!["(* (group (+ 1 2)) 3);"]);
    assert_eq!(shown("--1;"), vec!["(- (- 1));"]);
    assert_eq!(shown("!!true;"), vec!["(! (! true));"]);
}

#[test]
fn calls_and_property_access_chain() {
    assert_eq!(shown("f(1, 2)(3).g.h();"), vec!["(call (. (. (call (call f 1 2) 3) g) h));"]);
    assert_eq!(shown("f();"), vec!["(call f);"]);
}

#[test]
fn literals() {
    assert_eq!(shown("true; false; nil; 1.5; \"s\"; this;").len(), 6);
    assert_eq!(shown("\"s\";"), vec!["\"s\";"]);
    assert_eq!(shown("nil;"), vec!["nil;"]);
}

#[test]
fn invalid_assignment_target_is_reported_at_the_equals_sign() {
    assert_eq!(parse_errors("1 = 2;"), vec!["[line 1] Error at '=': Invalid assignment target."]);
    assert_eq!(parse_errors("a + b = 2;"), vec!["[line 1] Error at '=': Invalid assignment target."]);
    assert_eq!(parse_errors("(a) = 2;"), vec!["[line 1] Error at '=': Invalid assignment target."]);
}

#[test]
fn for_loop_is_rewritten_to_a_while_loop() {
    assert_eq!(
        shown("for (var i = 0; i < 3; i = i + 1) print i;"),
        vec!["{var i = 0; while (< i 3) {print i; (= i (+ i 1));}}"]
    );
}

#[test]
fn for_loop_without_clauses() {
    assert_eq!(shown("for (;;) print 1;"), vec!["while true print 1;"]);
    assert_eq!(shown("for (; a;) print 1;"), vec!["while a print 1;"]);
    assert_eq!(shown("for (a = 1;;) print 1;"), vec!["{(= a 1); while true print 1;}"]);
    assert_eq!(shown("for (;; a = 1) print 1;"), vec!["while true {print 1; (= a 1);}"]);
}

#[test]
fn statements_of_every_kind() {
    assert_eq!(shown("var a;"), vec!["var a = nil;"]);
    assert_eq!(shown("var a = 1;"), vec!["var a = 1;"]);
    assert_eq!(shown("{ var a = 1; print a; }"), vec!["{var a = 1; print a;}"]);
    assert_eq!(shown("{}"), vec!["{}"]);
    assert_eq!(shown("if (a) print 1; else print 2;"), vec!["if a print 1; else print 2;"]);
    assert_eq!(shown("if (a) if (b) print 1; else print 2;"), vec!["if a if b print 1; else print 2;"]);
    assert_eq!(shown("while (a) { a = false; }"), vec!["while a {(= a false);}"]);
    assert_eq!(shown("fun f(a, b) { return a; }"), vec!["fun f(a b) {return a;}"]);
    assert_eq!(shown("fun f() { return; }"), vec!["fun f() {return nil;}"]);
    assert_eq!(shown("class A { f() {} init(x) {} }"), vec!["class A [f init]"]);
    assert_eq!(shown("class B < A {}"), vec!["class B < A []"]);
}

#[test]
fn expression_nodes_keep_their_tokens() {
    let statements = parsed("a = b;");
    match &statements[0] {
        Stmt::Expression { expression } => match &**expression {
            Expr::Assignment { name, value } => {
                assert_eq!(name.byte, 0);
                match &**value {
                    Expr::Variable { name } => assert_eq!(name.byte, 4),
                    _ => panic!("expected a variable"),
                }
            }
            _ => panic!("expected an assignment"),
        },
        _ => panic!("expected an expression statement"),
    }
}

#[test]
fn missing_tokens_are_reported() {
    assert_eq!(parse_errors("print 1"), vec!["[line 1] Error at end: Expect ';' after value."]);
    assert_eq!(parse_errors("(1;"), vec!["[line 1] Error at ';': Expect ')' after expression."]);
    assert_eq!(parse_errors("f(1;"), vec!["[line 1] Error at ';': Expect ')' after arguments."]);
    assert_eq!(parse_errors("a.1;"), vec!["[line 1] Error at '1': Expect property name after '.'."]);
    assert_eq!(parse_errors("var 1;"), vec!["[line 1] Error at '1': Expect variable name."]);
    assert_eq!(
        parse_errors("var a = 1"),
        vec!["[line 1] Error at end: Expect ';' after variable declaration."]
    );
    assert_eq!(parse_errors("if a"), vec!["[line 1] Error at 'a': Expect '(' after 'if'."]);
    assert_eq!(parse_errors("if (a print 1;"), vec!["[line 1] Error at 'print': Expect ')' after if condition."]);
    assert_eq!(parse_errors("while a"), vec!["[line 1] Error at 'a': Expect '(' after 'while'."]);
    assert_eq!(parse_errors("while (a print 1;"), vec!["[line 1] Error at 'print': Expect ')' after condition."]);
    assert_eq!(parse_errors("for a"), vec!["[line 1] Error at 'a': Expect '(' after 'for'."]);
    assert_eq!(parse_errors("for (;a b) 1;"), vec!["[line 1] Error at 'b': Expect ';' after loop condition."]);
    assert_eq!(parse_errors("for (;;a b) 1;"), vec!["[line 1] Error at 'b': Expect ')' after condition."]);
    assert_eq!(
        parse_errors("fun f() { return 1 }"),
        vec![
            "[line 1] Error at '}': Expect ';' after return value.",
            "[line 1] Error at end: Expect '}' after block.",
        ]
    );
    assert_eq!(parse_errors("{ print 1;"), vec!["[line 1] Error at end: Expect '}' after block."]);
    assert_eq!(parse_errors("fun (a) {}"), vec!["[line 1] Error at '(': Expect function, name."]);
    assert_eq!(parse_errors("fun f a) {}"), vec!["[line 1] Error at 'a': Expect '(' after function name."]);
    assert_eq!(parse_errors("fun f(1) {}"), vec!["[line 1] Error at '1': Expect parameter name."]);
    assert_eq!(parse_errors("fun f(a {}"), vec!["[line 1] Error at '{': Expect ')' after parameters."]);
    assert_eq!(parse_errors("fun f(a) 1;"), vec!["[line 1] Error at '1': Expect '{' before function body."]);
    assert_eq!(parse_errors("class 1 {}"), vec!["[line 1] Error at '1': Expect class name."]);
    assert_eq!(parse_errors("class A < 1 {}"), vec!["[line 1] Error at '1': Expect superclass name."]);
    assert_eq!(parse_errors("class A f() {} }"), vec!["[line 1] Error at 'f': Expect '{' before class body."]);
    assert_eq!(parse_errors("class A { f() {}"), vec!["[line 1] Error at end: Expect '}' after class body."]);
    assert_eq!(parse_errors("class A { 1 }"), vec!["[line 1] Error at '1': Expect method, name."]);
    assert_eq!(parse_errors("super.f();"), vec!["[line 1] Error at 'super': Expect expression."]);
}

#[test]
fn parser_goes_on_after_an_error() {
    assert_eq!(
        parse_errors("print 1 +;\nvar a = ;\nprint 2;\nvar 3;"),
        vec![
            "[line 1] Error at ';': Expect expression.",
            "[line 2] Error at ';': Expect expression.",
            "[line 4] Error at '3': Expect variable name.",
        ]
    );
}

#[test]
fn errors_inside_a_block_are_all_collected() {
    assert_eq!(
        parse_errors("{ print ; print 1; var ; }"),
        vec![
            "[line 1] Error at ';': Expect expression.",
            "[line 1] Error at ';': Expect variable name.",
        ]
    );
}

#[test]
fn a_call_takes_at_most_255_arguments() {
    let mut arguments = vec!["1"; 255].join(", ");
    assert_eq!(shown(&format!("f({});", arguments)).len(), 1);
    arguments.push_str(", 2");
    assert_eq!(
        parse_errors(&format!("f({});", arguments)),
        vec!["[line 1] Error at '2': Can't have more than 255 arguments."]
    );
}

#[test]
fn a_function_takes_at_most_255_parameters() {
    let names: Vec<String> = (0..255).map(|i| format!("p{}", i)).collect();
    assert_eq!(shown(&format!("fun f({}) {{}}", names.join(", "))).len(), 1);
    assert_eq!(
        parse_errors(&format!("fun f({}, q) {{}}", names.join(", "))),
        vec!["[line 1] Error at 'q': Can't have more than 255 arguments."]
    );
}

#[test]
fn parser_error_says_where() {
    let token = Token::new(TokenType::Identifier, "abc".to_string(), 3, 0);
    assert_eq!(parser_error(&token, "Oops.").to_string(), "[line 3] Error at 'abc': Oops.");
    let end = Token::new(TokenType::Eof, String::new(), 4, 9);
    assert_eq!(parser_error(&end, "Oops.").to_string(), "[line 4] Error at end: Oops.");
    assert_eq!(end.kind(), TokenKind::Eof);
}

#[test]
fn empty_program_parses_to_nothing() {
    assert!(parsed("").is_empty());
    assert!(parsed("// nothing").is_empty());
}

#[test]
fn too_many_arguments_are_noted_once_and_parsing_goes_on() {
    let arguments = vec!["1"; 256].join(", ");
    assert_eq!(
        parse_errors(&format!("if (f({})) print 1; else print 2;", arguments)),
        vec!["[line 1] Error at '1': Can't have more than 255 arguments."]
    );
    let arguments = vec!["x"; 300].join(", ");
    assert_eq!(
        parse_errors(&format!("f({});\nprint 1 +;\nprint 2;", arguments)),
        vec![
            "[line 1] Error at 'x': Can't have more than 255 arguments.",
            "[line 2] Error at ';': Expect expression.",
        ]
    );
    let arguments = vec!["1"; 256].join(", ");
    assert_eq!(
        parse_errors(&format!("print 1 +;\n{{ f({}); g({}); }}", arguments, arguments)),
        vec![
            "[line 1] Error at ';': Expect expression.",
            "[line 2] Error at '1': Can't have more than 255 arguments.",
            "[line 2] Error at '1': Can't have more than 255 arguments.",
        ]
    );
}

#[test]
fn too_many_parameters_are_noted_once_and_parsing_goes_on() {
    let names: Vec<String> = (0..300).map(|i| format!("n{}", i)).collect();
    assert_eq!(
        parse_errors(&format!("fun f({}) {{ return n0; }}\nprint f;", names.join(", "))),
        vec!["[line 1] Error at 'n255': Can't have more than 255 arguments."]
    );
    assert_eq!(
        parse_errors(&format!("class C {{ m({}) {{}} }} var 1;", names.join(", "))),
        vec![
            "[line 1] Error at 'n255': Can't have more than 255 arguments.",
            "[line 1] Error at '1': Expect variable name.",
        ]
    );
}

#[test]
fn the_call_after_the_limit_still_holds_all_its_arguments() {
    let arguments = vec!["1"; 257].join(", ");
    let scan = scan_tokens(format!("f({})", arguments));
    let mut state = State::new(scan.tokens);
    match state.expression() {
        Ok(Expr::Call { arguments, .. }) => assert_eq!(arguments.len(), 257),
        _ => panic!("expected a call"),
    }
    assert_eq!(state.diagnostics.len(), 1);
    assert_eq!(state.current, state.tokens.len() - 1);
}
