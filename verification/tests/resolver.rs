use std::collections::HashMap;

use jlox::errors::Errors;
use jlox::lox::Lox;
use jlox::parser::parse;
use jlox::resolver::Resolver;
use jlox::scanner::scan_tokens;

fn resolved(source: &str) -> HashMap<usize, usize> {
    let tokens = scan_tokens(source.to_string()).tokens;
    let statements = match parse(tokens) {
        Ok(statements) => statements,
        Err(errors) => panic!("{}", errors.to_string()),
    };
    let mut resolver = Resolver::new(HashMap::new());
    match resolver.resolve(&statements) {
        Ok(()) => {}
        Err(error) => panic!("{}", error.to_string()),
    }
    assert!(resolver.scopes.is_empty());
    resolver.into_locals()
}

fn resolve_error(source: &str) -> String {
    let tokens = scan_tokens(source.to_string()).tokens;
    let statements = match parse(tokens) {
        Ok(statements) => statements,
        Err(errors) => panic!("{}", errors.to_string()),
    };
    let mut resolver = Resolver::new(HashMap::new());
    match resolver.resolve(&statements) {
        Ok(()) => panic!("the program resolved"),
        Err(error) => error.to_string(),
    }
}

fn sorted(map: HashMap<usize, usize>) -> Vec<(usize, usize)> {
    let mut entries: Vec<(usize, usize)> = map.into_iter().collect();
    entries.sort();
    entries
}

#[test]
fn globals_get_no_depth() {
    assert!(resolved("var a = 1; print a; a = 2; fun f() {} f();").is_empty());
}

#[test]
fn locals_get_the_number_of_scopes_between_use_and_binding() {
    //                         0         1         2         3
    //                         0123456789012345678901234567890123456789
    let locals = resolved("{ var a = 1; { print a; { a = 2; } } }");
    assert_eq!(sorted(locals), vec![(21, 1), (26, 2)]);
}

#[test]
fn every_depth_is_less_than_the_number_of_scopes_around_its_use() {
    let source = "var g = 0; { var a = 1; fun f(p) { var b = p; { print a + b + g; } } f(a); }";
    let locals = resolved(source);
    // a at depth 2, b at depth 1, p at depth 0, inside 3 scopes; f and a at depth 0 in the block.
    for (_, depth) in locals.iter() {
        assert!(*depth < 3);
    }
    assert_eq!(locals.len(), 5);
    assert!(!locals.contains_key(&source.find("g;").unwrap()));
    assert_eq!(locals[&source.find("a + b").unwrap()], 2);
    assert_eq!(locals[&(source.find("a + b").unwrap() + 4)], 1);
    assert_eq!(locals[&source.find("p;").unwrap()], 0);
    assert_eq!(locals[&source.find("f(a)").unwrap()], 0);
    assert_eq!(locals[&(source.find("f(a)").unwrap() + 2)], 0);
}

#[test]
fn this_is_resolved_inside_a_class() {
    let source = "class C { m() { return this; } }";
    let locals = resolved(source);
    assert_eq!(sorted(locals), vec![(source.find("this").unwrap(), 1)]);
    let source = "class A {} class B < A { m() { { this; } } }";
    let locals = resolved(source);
    assert_eq!(sorted(locals), vec![(source.find("this").unwrap(), 2)]);
}

#[test]
fn binding_is_fixed_where_the_use_stands() {
    let source = "var a = 0; { fun show() { print a; } var a = 1; show(); }";
    let locals = resolved(source);
    assert!(!locals.contains_key(&source.find("a; }").unwrap()));
}

#[test]
fn redeclaration_in_a_local_scope_is_an_error() {
    assert_eq!(
        resolve_error("{ var a = 1;\nvar a = 2; }"),
        "[line 2] Error at 'a': Already a variable with this name in this scope."
    );
    assert_eq!(
        resolve_error("fun f(a, a) {}"),
        "[line 1] Error at 'a': Already a variable with this name in this scope."
    );
    assert_eq!(
        resolve_error("fun f(a) { var a = 1; }"),
        "[line 1] Error at 'a': Already a variable with this name in this scope."
    );
    assert!(resolved("var a = 1; var a = 2;").is_empty());
}

#[test]
fn reading_a_local_in_its_own_initializer_is_an_error() {
    assert_eq!(
        resolve_error("{ var a = 1; { var a = a; } }"),
        "[line 1] Error: Can't read local variable in its own initializer."
    );
    assert!(resolved("var a = 1; var b = a;").is_empty());
}

#[test]
fn return_outside_a_function_is_an_error() {
    assert_eq!(resolve_error("return 1;"), "[line 1] Error at 'return': Can't return from top-level code.");
    assert_eq!(resolve_error("{ return; }"), "[line 1] Error at 'return': Can't return from top-level code.");
    assert!(resolved("fun f() { return 1; }").is_empty());
}

#[test]
fn returning_a_value_from_an_initializer_is_an_error() {
    assert_eq!(
        resolve_error("class C { init() { return 1; } }"),
        "[line 1] Error at 'return': Can't return a value from an initializer."
    );
    assert!(resolved("class C { init() { return; } }").is_empty());
    assert!(resolved("class C { other() { return 1; } }").is_empty());
    assert!(resolved("class C { init() { fun f() { return 1; } } }").is_empty());
}

#[test]
fn this_outside_a_class_is_an_error() {
    assert_eq!(resolve_error("print this;"), "[line 1] Error at 'this': Can't use 'this' outside of a class.");
    assert_eq!(
        resolve_error("fun f() { return this; }"),
        "[line 1] Error at 'this': Can't use 'this' outside of a class."
    );
    assert_eq!(
        resolve_error("class C { m() {} } this;"),
        "[line 1] Error at 'this': Can't use 'this' outside of a class."
    );
}

#[test]
fn class_cannot_inherit_from_itself() {
    assert_eq!(resolve_error("class A < A {}"), "[line 1] Error at 'A': A class can't inherit from itself.");
    assert_eq!(
        resolve_error("{ class A < A {} }"),
        "[line 1] Error at 'A': A class can't inherit from itself."
    );
}

#[test]
fn resolve_error_is_a_static_error_and_nothing_runs() {
    let mut lox = Lox::new();
    match lox.run("print 1; return 2;") {
        Err(Errors::Parsing(errors)) => {
            assert_eq!(errors.len(), 1);
            assert_eq!(errors[0].to_string(), "[line 1] Error at 'return': Can't return from top-level code.");
        }
        _ => panic!("expected a static error"),
    }
    assert!(lox.interpreter.output.is_empty());
    assert!(lox.interpreter.locals.is_empty());
}

#[test]
fn depth_map_grows_with_each_source_of_a_session() {
    let mut lox = Lox::new();
    assert!(lox.run("{ var a = 1; print a; }").is_ok());
    assert_eq!(lox.interpreter.locals.len(), 1);
    assert_eq!(lox.offset, 24);
    assert!(lox.run("{ var b = 1; print b; }").is_ok());
    let mut keys: Vec<usize> = lox.interpreter.locals.keys().cloned().collect();
    keys.sort();
    assert_eq!(keys, vec![19, 43]);
}

#[test]
fn depth_map_keeps_what_was_recorded_before_a_failure() {
    let source = "{ var a = 1; print a; } return 1;";
    let tokens = scan_tokens(source.to_string()).tokens;
    let statements = match parse(tokens) {
        Ok(statements) => statements,
        Err(errors) => panic!("{}", errors.to_string()),
    };
    let mut resolver = Resolver::new(HashMap::new());
    assert!(resolver.resolve(&statements).is_err());
    assert_eq!(sorted(resolver.into_locals()), vec![(source.find("a;").unwrap(), 0)]);
}
