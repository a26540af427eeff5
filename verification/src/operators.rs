//! What the operators of the language make of the values of their
//! operands, and the checks that a call makes.

use crate::errors::RuntimeError;
use crate::interpreter::runtime_error;
use crate::number::{
    ieee_difference, ieee_less, ieee_less_equal, ieee_product, ieee_quotient, negate, negated,
};
use crate::text::{decimal, decimal_digits};
use crate::token::{Token, TokenKind};
use crate::values::{boolean, number, LoxObj, LoxPrimitive};
use vstd::prelude::*;
use vstd::string::StringExecFns;

verus! {

/// Whether `r` is an error at `line` with the text `message`.
pub open spec fn fails_with<T>(r: Result<T, RuntimeError>, line: usize, message: Seq<char>) -> bool {
    &&& r matches Err(error)
    &&& error.line == line
    &&& error.message@ == message
}

/// Whether the right operand of a logical operator is evaluated, given what
/// the left operand came to: for `and` exactly when the left is truthy, for
/// any other operator (`or`) exactly when it is falsy.
pub open spec fn spec_evaluates_right(operator: TokenKind, left: LoxObj) -> bool {
    if operator == TokenKind::And {
        left.spec_is_truthy()
    } else {
        !left.spec_is_truthy()
    }
}

/// Decides whether a logical expression goes on to its right operand. Where
/// it does not, the left operand's value is the value of the expression.
pub fn evaluates_right(operator: TokenKind, left: &LoxObj) -> (r: bool)
    ensures
        r == spec_evaluates_right(operator, *left),
{
    if operator == TokenKind::And {
        left.is_truthy()
    } else {
        !left.is_truthy()
    }
}

/// The message of a call with the wrong number of arguments.
pub open spec fn arity_message(expected: usize, got: usize) -> Seq<char> {
    "Expected "@ + decimal_digits(expected as nat) + " arguments but got "@ + decimal_digits(
        got as nat,
    ) + "."@
}

/// Checks the number of arguments of a call against the callee's arity: an
/// error exactly when they differ.
pub fn check_arity(paren: &Token, expected: usize, got: usize) -> (r: Result<(), RuntimeError>)
    ensures
        expected == got ==> r is Ok,
        expected != got ==> fails_with(r, paren.line, arity_message(expected, got)),
{
    if expected == got {
        Ok(())
    } else {
        let mut message = String::from_str("Expected ");
        message.append(decimal(expected).as_str());
        message.append(" arguments but got ");
        message.append(decimal(got).as_str());
        message.append(".");
        Err(RuntimeError { line: paren.line, message })
    }
}

/// What a unary operator makes of its operand: `-` negates a number and
/// refuses anything else; `!` negates truthiness; no other token is a unary
/// operator.
pub open spec fn unary_result(operator: Token, right: LoxObj, r: Result<LoxObj, RuntimeError>) -> bool {
    match operator.spec_kind() {
        TokenKind::Minus => match right {
            LoxObj::Primitive(LoxPrimitive::Number(bits)) => r == Ok::<LoxObj, RuntimeError>(
                number(negated(bits)),
            ),
            _ => fails_with(r, operator.line, "Operand must be a number."@),
        },
        TokenKind::Bang => r == Ok::<LoxObj, RuntimeError>(boolean(!right.spec_is_truthy())),
        _ => fails_with(r, operator.line, "Unknown unary operator."@),
    }
}

/// Applies a unary operator to the value of its operand.
pub fn unary(operator: &Token, right: &LoxObj) -> (r: Result<LoxObj, RuntimeError>)
    ensures
        unary_result(*operator, *right, r),
        r matches Ok(v) ==> v is Primitive,
{
    match operator.kind() {
        TokenKind::Minus => match right {
            LoxObj::Primitive(LoxPrimitive::Number(bits)) => Ok(number(negate(*bits))),
            _ => Err(runtime_error(operator, "Operand must be a number.")),
        },
        TokenKind::Bang => Ok(boolean(!right.is_truthy())),
        _ => Err(runtime_error(operator, "Unknown unary operator.")),
    }
}

/// The primitive behind a value, if it is one.
pub open spec fn primitive_of(value: LoxObj) -> Option<LoxPrimitive> {
    match value {
        LoxObj::Primitive(p) => Some(p),
        _ => None,
    }
}

/// What an arithmetic operator or a comparison makes of two numbers;
/// nothing for any other pair of operands.
pub open spec fn on_numbers(kind: TokenKind, left: LoxObj, right: LoxObj) -> Option<LoxObj> {
    match (left, right) {
        (
            LoxObj::Primitive(LoxPrimitive::Number(a)),
            LoxObj::Primitive(LoxPrimitive::Number(b)),
        ) => match kind {
            TokenKind::Minus => Some(number(ieee_difference(a, b))),
            TokenKind::Slash => Some(number(ieee_quotient(a, b))),
            TokenKind::Star => Some(number(ieee_product(a, b))),
            TokenKind::Greater => Some(boolean(ieee_less(b, a))),
            TokenKind::GreaterEqual => Some(boolean(ieee_less_equal(b, a))),
            TokenKind::Less => Some(boolean(ieee_less(a, b))),
            TokenKind::LessEqual => Some(boolean(ieee_less_equal(a, b))),
            _ => None,
        },
        _ => None,
    }
}

/// What a binary operator makes of its two operands.
///
/// `-`, `*`, `/` and the four comparisons take two numbers; `+` takes two
/// numbers or two strings; `==` and `!=` take anything. `a > b` is `b < a`,
/// and `a >= b` is `b <= a`.
pub open spec fn binary_result(
    left: LoxObj,
    operator: Token,
    right: LoxObj,
    r: Result<LoxObj, RuntimeError>,
) -> bool {
    match operator.spec_kind() {
        TokenKind::Minus | TokenKind::Slash | TokenKind::Star | TokenKind::Greater
        | TokenKind::GreaterEqual | TokenKind::Less | TokenKind::LessEqual => match on_numbers(
            operator.spec_kind(),
            left,
            right,
        ) {
            Some(v) => r == Ok::<LoxObj, RuntimeError>(v),
            None => fails_with(r, operator.line, "Operands must be numbers."@),
        },
        TokenKind::Plus => match (primitive_of(left), primitive_of(right)) {
            (Some(a), Some(b)) => if (a is Number && b is Number) || (a is String && b is String) {
                &&& r matches Ok(LoxObj::Primitive(p))
                &&& a.sum_matches(&b, Some(p))
            } else {
                fails_with(r, operator.line, "Operands must be two numbers or two strings."@)
            },
            _ => fails_with(r, operator.line, "Operands must be two numbers or two strings."@),
        },
        TokenKind::BangEqual => r == Ok::<LoxObj, RuntimeError>(boolean(!left.spec_equals(&right))),
        TokenKind::EqualEqual => r == Ok::<LoxObj, RuntimeError>(boolean(left.spec_equals(&right))),
        _ => fails_with(r, operator.line, "Unknown binary operator."@),
    }
}

/// Applies an operator to two numbers.
fn numeric(operator: &Token, left: &LoxObj, right: &LoxObj) -> (r: Result<LoxObj, RuntimeError>)
    ensures
        match on_numbers(operator.spec_kind(), *left, *right) {
            Some(v) => r == Ok::<LoxObj, RuntimeError>(v),
            None => fails_with(r, operator.line, "Operands must be numbers."@),
        },
{
    let found = match (left, right) {
        (LoxObj::Primitive(a), LoxObj::Primitive(b)) => match operator.kind() {
            TokenKind::Minus => match a.sub(b) {
                Some(p) => Some(LoxObj::Primitive(p)),
                None => None,
            },
            TokenKind::Slash => match a.div(b) {
                Some(p) => Some(LoxObj::Primitive(p)),
                None => None,
            },
            TokenKind::Star => match a.mul(b) {
                Some(p) => Some(LoxObj::Primitive(p)),
                None => None,
            },
            TokenKind::Greater => match b.less(a) {
                Some(t) => Some(boolean(t)),
                None => None,
            },
            TokenKind::GreaterEqual => match b.less_equal(a) {
                Some(t) => Some(boolean(t)),
                None => None,
            },
            TokenKind::Less => match a.less(b) {
                Some(t) => Some(boolean(t)),
                None => None,
            },
            TokenKind::LessEqual => match a.less_equal(b) {
                Some(t) => Some(boolean(t)),
                None => None,
            },
            _ => None,
        },
        _ => None,
    };
    match found {
        Some(v) => Ok(v),
        None => Err(runtime_error(operator, "Operands must be numbers.")),
    }
}

/// Applies a binary operator to the values of its operands.
pub fn binary(left: &LoxObj, operator: &Token, right: &LoxObj) -> (r: Result<LoxObj, RuntimeError>)
    ensures
        binary_result(*left, *operator, *right, r),
        r matches Ok(v) ==> v is Primitive,
{
    match operator.kind() {
        TokenKind::Minus | TokenKind::Slash | TokenKind::Star | TokenKind::Greater
        | TokenKind::GreaterEqual | TokenKind::Less | TokenKind::LessEqual => numeric(
            operator,
            left,
            right,
        ),
        TokenKind::Plus => {
            let found = match (left, right) {
                (LoxObj::Primitive(a), LoxObj::Primitive(b)) => a.add(b),
                _ => None,
            };
            match found {
                Some(p) => Ok(LoxObj::Primitive(p)),
                None => Err(
                    runtime_error(operator, "Operands must be two numbers or two strings."),
                ),
            }
        },
        TokenKind::BangEqual => Ok(left.is_diff(right)),
        TokenKind::EqualEqual => Ok(left.is_equal(right)),
        _ => Err(runtime_error(operator, "Unknown binary operator.")),
    }
}

} // verus!
