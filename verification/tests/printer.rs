use jlox::ast::{Expr, Stmt};
use jlox::ast_printer::AstPrinter;
use jlox::parser::parse;
use jlox::scanner::scan_tokens;
use jlox::values::Piece;

fn printed(source: &str) -> String {
    let statements = match parse(scan_tokens(source.to_string()).tokens) {
        Ok(statements) => statements,
        Err(errors) => panic!("{}", errors.to_string()),
    };
    let expression: &Expr = match &statements[0] {
        Stmt::Expression { expression } => expression,
        _ => panic!("expected an expression statement"),
    };
    let mut text = String::new();
    for piece in AstPrinter.visit_expr(expression) {
        match piece {
            Piece::Text(s) => text.push_str(&s),
            Piece::Number(bits) => text.push_str(&f64::from_bits(bits).to_string()),
        }
    }
    text
}

#[test]
fn expression_is_printed_in_prefix_form() {
    assert_eq!(printed("-123 * (45.67);"), "(* (- 123) (group 45.67))");
    assert_eq!(printed("1 + 2 * 3;"), "(+ 1 (* 2 3))");
    assert_eq!(printed("!true == false;"), "(== (! true) false)");
    assert_eq!(printed("a <= \"b\";"), "(<= (var a) b)");
    assert_eq!(printed("nil;"), "nil");
    assert_eq!(printed("((1));"), "(group (group 1))");
}

fn reverse_polish(source: &str) -> String {
    let statements = match parse(scan_tokens(source.to_string()).tokens) {
        Ok(statements) => statements,
        Err(errors) => panic!("{}", errors.to_string()),
    };
    let expression: &Expr = match &statements[0] {
        Stmt::Expression { expression } => expression,
        _ => panic!("expected an expression statement"),
    };
    let mut text = String::new();
    for piece in jlox::rpn_printer::RpnPrinter.visit(expression) {
        match piece {
            Piece::Text(s) => text.push_str(&s),
            Piece::Number(bits) => text.push_str(&f64::from_bits(bits).to_string()),
        }
    }
    text
}

#[test]
fn expression_is_printed_in_reverse_polish_notation() {
    assert_eq!(reverse_polish("(1 + 2) * (4 - 3);"), "1 2 + 4 3 - *");
    assert_eq!(reverse_polish("-1 + 2;"), "1 ~ 2 +");
    assert_eq!(reverse_polish("!nil;"), "nil");
    assert_eq!(reverse_polish("\"a\" + 1.5 / 3;"), "a 1.5 3 / +");
    assert_eq!(reverse_polish("7;"), "7");
}
