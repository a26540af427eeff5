use jlox::environment::{undefined_variable, Environment};
use jlox::errors::{error, error_with_location, Errors, LoxError, RuntimeError};
use jlox::interpreter::budget_exhausted;
use jlox::lox::Lox;
use jlox::text::decimal;
use jlox::token::{Token, TokenType};
use jlox::values::{nil, number, LoxObj};

#[test]
fn static_error_report() {
    assert_eq!(error(3, "Oops.").to_string(), "[line 3] Error: Oops.");
    assert_eq!(error_with_location(12, " at end", "Oops.").to_string(), "[line 12] Error at end: Oops.");
    assert_eq!(error_with_location(0, " at 'x'", "").to_string(), "[line 0] Error at 'x': ");
    let e = error(1, "m");
    assert_eq!(e.line, 1);
    assert_eq!(e.location, "");
    assert_eq!(e.message, "m");
    let copy: LoxError = e.clone();
    assert_eq!(copy.to_string(), e.to_string());
}

#[test]
fn runtime_error_report() {
    let e = RuntimeError { line: 42, message: "Oops.".to_string() };
    assert_eq!(e.to_string(), "Oops.\n[line 42]");
    assert_eq!(e.clone().to_string(), "Oops.\n[line 42]");
    assert_eq!(budget_exhausted(3).to_string(), "Execution budget exhausted.\n[line 3]");
}

#[test]
fn errors_report_and_exit_code() {
    let parsing = Errors::Parsing(vec![error(1, "a"), error_with_location(2, " at 'x'", "b")]);
    assert_eq!(parsing.to_string(), "[line 1] Error: a\n[line 2] Error at 'x': b\n");
    assert_eq!(parsing.exit_code(), 65);
    let runtime = Errors::Runtime(RuntimeError { line: 9, message: "c".to_string() });
    assert_eq!(runtime.to_string(), "c\n[line 9]\n");
    assert_eq!(runtime.exit_code(), 70);
    assert_eq!(Errors::Parsing(vec![]).to_string(), "");
}

#[test]
fn numbers_are_written_in_decimal() {
    assert_eq!(decimal(0), "0");
    assert_eq!(decimal(7), "7");
    assert_eq!(decimal(10), "10");
    assert_eq!(decimal(1234567890), "1234567890");
    assert_eq!(decimal(usize::MAX), usize::MAX.to_string());
}

#[test]
fn session_records_reported_errors() {
    let mut lox = Lox::new();
    assert!(!lox.had_error);
    lox.error(4, "Unexpected character.");
    assert!(lox.had_error);
    lox.report(5, " at end", "Expect expression.");
    assert_eq!(lox.reports, vec!["[line 4] Error: Unexpected character.", "[line 5] Error at end: Expect expression."]);
}

#[test]
fn environment_chain() {
    let mut env = Environment::new();
    let name = |lexeme: &str| Token::new(TokenType::Identifier, lexeme.to_string(), 3, 0);
    env.define(0, "a".to_string(), number(1));
    let inner = env.with_enclosing(0);
    let innermost = env.with_enclosing(inner);
    assert_eq!((inner, innermost), (1, 2));
    env.define(inner, "b".to_string(), number(2));
    assert!(env.get(innermost, &name("a")).unwrap().equals(&LoxObj::Primitive(jlox::values::LoxPrimitive::Number(1))));
    assert!(matches!(env.get(innermost, &name("b")), Ok(LoxObj::Primitive(jlox::values::LoxPrimitive::Number(2)))));
    assert!(env.get(0, &name("b")).is_err());
    assert_eq!(env.get(innermost, &name("c")).unwrap_err().to_string(), "Undefined variable 'c'.\n[line 3]");
    assert_eq!(env.ancestor(innermost, 0), Some(2));
    assert_eq!(env.ancestor(innermost, 1), Some(1));
    assert_eq!(env.ancestor(innermost, 2), Some(0));
    assert_eq!(env.ancestor(innermost, 3), None);
    assert!(matches!(env.get_at(innermost, 1, &name("b")), Ok(_)));
    assert!(env.get_at(innermost, 0, &name("b")).is_err());
    assert!(env.get_at(innermost, 5, &name("b")).is_err());
    assert!(env.assign(innermost, &name("a"), nil()).is_ok());
    assert!(matches!(env.get(0, &name("a")), Ok(LoxObj::Primitive(jlox::values::LoxPrimitive::Nil))));
    assert!(env.assign(innermost, &name("zz"), nil()).is_err());
    assert!(env.assign_at(innermost, 2, &name("fresh"), number(5)).is_ok());
    assert!(env.get(inner, &name("fresh")).is_ok());
    assert!(env.assign_at(innermost, 3, &name("fresh"), number(5)).is_err());
    env.define(innermost, "a".to_string(), number(9));
    assert!(matches!(env.get(innermost, &name("a")), Ok(LoxObj::Primitive(jlox::values::LoxPrimitive::Number(9)))));
    assert!(matches!(env.get(inner, &name("a")), Ok(LoxObj::Primitive(jlox::values::LoxPrimitive::Nil))));
    assert_eq!(undefined_variable(&name("q")).message, "Undefined variable 'q'.");
}

#[test]
fn callable_values_and_classes() {
    assert!(LoxObj::Function(0).callable());
    assert!(LoxObj::Native(0).callable());
    assert!(LoxObj::Class(0).callable());
    assert!(!LoxObj::Instance(0).callable());
    assert!(LoxObj::List(0).callable());
    assert!(!nil().callable());
    assert_eq!(LoxObj::Class(3).class(), Some(3));
    assert_eq!(LoxObj::Instance(3).class(), None);
    assert!(number(7).primitive().is_some());
    assert!(LoxObj::List(0).primitive().is_none());
}
