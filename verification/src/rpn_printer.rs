//! A printer that writes an expression in reverse Polish notation: the
//! operands first, the operator after them.

use crate::ast::Expr;
use crate::ast_printer::printed_literal;
use crate::token::TokenKind;
use crate::values::{pieces, pieces_push, LoxPrimitive, Piece, PieceModel};
use vstd::prelude::*;
use vstd::string::StringExecFns;

verus! {

/// The printer.
pub struct RpnPrinter;

/// Whether the printer can write `e`: it writes literals, groupings, and
/// unary and binary operators.
pub open spec fn rpn_printable(e: Expr) -> bool
    decreases e,
{
    match e {
        Expr::Binary { left, operator: _, right } => rpn_printable(*left) && rpn_printable(*right),
        Expr::Grouping { expression } => rpn_printable(*expression),
        Expr::Literal { value: _ } => true,
        Expr::Unary { operator: _, right } => rpn_printable(*right),
        _ => false,
    }
}

/// How an expression is written: `left right operator`; a grouping as
/// what it holds; a negation as `operand ~`, and under any other unary
/// operator the operand alone; a literal as it is.
pub open spec fn rpn(e: Expr) -> Seq<PieceModel>
    decreases e,
{
    match e {
        Expr::Binary { left, operator, right } => rpn(*left) + seq![PieceModel::Text(" "@)] + rpn(
            *right,
        ) + seq![PieceModel::Text(" "@ + operator.lexeme@)],
        Expr::Grouping { expression } => rpn(*expression),
        Expr::Literal { value } => seq![printed_literal(value)],
        Expr::Unary { operator, right } => if operator.spec_kind() == TokenKind::Minus {
            rpn(*right) + seq![PieceModel::Text(" ~"@)]
        } else {
            rpn(*right)
        },
        _ => Seq::empty(),
    }
}

/// Appends the text `before`, `name` to `line` as one piece.
fn push_text(line: &mut Vec<Piece>, before: &str, name: &str)
    ensures
        pieces(final(line)@) == pieces(old(line)@).push(PieceModel::Text(before@ + name@)),
{
    let mut text = String::from_str(before);
    text.append(name);
    proof {
        pieces_push(line@, Piece::Text(text));
    }
    line.push(Piece::Text(text));
}

impl RpnPrinter {
    /// Appends to `line` the pieces that write `expression`.
    pub fn print_into(&mut self, expression: &Expr, line: &mut Vec<Piece>)
        requires
            rpn_printable(*expression),
        ensures
            pieces(final(line)@) == pieces(old(line)@) + rpn(*expression),
        decreases expression,
    {
        let ghost before = pieces(line@);
        proof {
            reveal_strlit("");
        }
        match expression {
            Expr::Binary { left, operator, right } => {
                self.print_into(left, line);
                push_text(line, " ", "");
                self.print_into(right, line);
                push_text(line, " ", operator.lexeme.as_str());
                assert(" "@ + ""@ =~= " "@);
            },
            Expr::Grouping { expression: inner } => {
                self.print_into(inner, line);
            },
            Expr::Literal { value } => {
                let piece = match value {
                    LoxPrimitive::Number(bits) => Piece::Number(*bits),
                    LoxPrimitive::Bool(b) => Piece::Text(
                        String::from_str(if *b { "true" } else { "false" }),
                    ),
                    LoxPrimitive::String(text) => Piece::Text(text.clone()),
                    LoxPrimitive::Nil => Piece::Text(String::from_str("nil")),
                };
                proof {
                    pieces_push(line@, piece);
                }
                line.push(piece);
            },
            Expr::Unary { operator, right } => {
                self.print_into(right, line);
                if operator.kind() == TokenKind::Minus {
                    push_text(line, " ~", "");
                    assert(" ~"@ + ""@ =~= " ~"@);
                }
            },
            _ => {},
        }
        assert(pieces(line@) =~= before + rpn(*expression));
    }

    /// The pieces that write `expression`.
    pub fn visit(&mut self, expression: &Expr) -> (line: Vec<Piece>)
        requires
            rpn_printable(*expression),
        ensures
            pieces(line@) == rpn(*expression),
    {
        let mut line = Vec::new();
        assert(pieces(line@) =~= Seq::<PieceModel>::empty());
        self.print_into(expression, &mut line);
        assert(pieces(line@) =~= rpn(*expression));
        line
    }
}

} // verus!
