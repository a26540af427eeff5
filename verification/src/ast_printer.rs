//! A printer that writes an expression in prefix form, with a pair of
//! parentheses around every operator and its operands.

use crate::ast::Expr;
use crate::values::{pieces, pieces_push, LoxPrimitive, Piece, PieceModel};
use vstd::prelude::*;
use vstd::string::StringExecFns;

verus! {

/// The printer.
pub struct AstPrinter;

/// Whether the printer can write `e`: it writes literals, variables,
/// groupings, and unary and binary operators.
pub open spec fn printable(e: Expr) -> bool
    decreases e,
{
    match e {
        Expr::Binary { left, operator: _, right } => printable(*left) && printable(*right),
        Expr::Grouping { expression } => printable(*expression),
        Expr::Literal { value: _ } => true,
        Expr::Unary { operator: _, right } => printable(*right),
        Expr::Variable { name: _ } => true,
        _ => false,
    }
}

/// How a literal is written.
pub open spec fn printed_literal(value: LoxPrimitive) -> PieceModel {
    match value {
        LoxPrimitive::Number(bits) => PieceModel::Number(bits),
        LoxPrimitive::Bool(b) => PieceModel::Text(
            if b {
                "true"@
            } else {
                "false"@
            },
        ),
        LoxPrimitive::String(text) => PieceModel::Text(text@),
        LoxPrimitive::Nil => PieceModel::Text("nil"@),
    }
}

/// How an expression is written: `(operator left right)`, `(operator
/// right)`, `(group inner)`, `(var name)`, and a literal as it is.
pub open spec fn printed(e: Expr) -> Seq<PieceModel>
    decreases e,
{
    match e {
        Expr::Binary { left, operator, right } => seq![
            PieceModel::Text("("@ + operator.lexeme@ + " "@),
        ] + printed(*left) + seq![PieceModel::Text(" "@)] + printed(*right) + seq![
            PieceModel::Text(")"@),
        ],
        Expr::Grouping { expression } => seq![PieceModel::Text("(group "@)] + printed(*expression)
            + seq![PieceModel::Text(")"@)],
        Expr::Literal { value } => seq![printed_literal(value)],
        Expr::Unary { operator, right } => seq![PieceModel::Text("("@ + operator.lexeme@ + " "@)]
            + printed(*right) + seq![PieceModel::Text(")"@)],
        Expr::Variable { name } => seq![PieceModel::Text("(var "@ + name.lexeme@ + ")"@)],
        _ => Seq::empty(),
    }
}

/// Appends the text `before`, `name`, `after` to `line` as one piece.
fn push_phrase(line: &mut Vec<Piece>, before: &str, name: &str, after: &str)
    ensures
        pieces(final(line)@) == pieces(old(line)@).push(PieceModel::Text(before@ + name@ + after@)),
{
    let mut text = String::from_str(before);
    text.append(name);
    text.append(after);
    proof {
        pieces_push(line@, Piece::Text(text));
    }
    line.push(Piece::Text(text));
}

impl AstPrinter {
    /// Appends to `line` the pieces that write `expression`.
    pub fn print_into(&mut self, expression: &Expr, line: &mut Vec<Piece>)
        requires
            printable(*expression),
        ensures
            pieces(final(line)@) == pieces(old(line)@) + printed(*expression),
        decreases expression,
    {
        let ghost before = pieces(line@);
        proof {
            reveal_strlit("");
        }
        match expression {
            Expr::Binary { left, operator, right } => {
                push_phrase(line, "(", operator.lexeme.as_str(), " ");
                self.print_into(left, line);
                push_phrase(line, " ", "", "");
                self.print_into(right, line);
                push_phrase(line, ")", "", "");
                assert(" "@ + ""@ + ""@ =~= " "@);
                assert(")"@ + ""@ + ""@ =~= ")"@);
            },
            Expr::Grouping { expression: inner } => {
                push_phrase(line, "(group ", "", "");
                self.print_into(inner, line);
                push_phrase(line, ")", "", "");
                assert("(group "@ + ""@ + ""@ =~= "(group "@);
                assert(")"@ + ""@ + ""@ =~= ")"@);
            },
            Expr::Literal { value } => {
                let piece = match value {
                    LoxPrimitive::Number(bits) => Piece::Number(*bits),
                    LoxPrimitive::Bool(b) => Piece::Text(
                        String::from_str(if *b { "true" } else { "false" }),
                    ),
                    LoxPrimitive::String(text) => Piece::Text(text.clone()),
                    LoxPrimitive::Nil => Piece::Text(String::from_str("nil")),
                };
                proof {
                    pieces_push(line@, piece);
                }
                line.push(piece);
            },
            Expr::Unary { operator, right } => {
                push_phrase(line, "(", operator.lexeme.as_str(), " ");
                self.print_into(right, line);
                push_phrase(line, ")", "", "");
                assert(")"@ + ""@ + ""@ =~= ")"@);
            },
            Expr::Variable { name } => {
                push_phrase(line, "(var ", name.lexeme.as_str(), ")");
            },
            _ => {},
        }
        assert(pieces(line@) =~= before + printed(*expression));
    }

    /// The pieces that write `expression`.
    pub fn visit_expr(&mut self, expression: &Expr) -> (line: Vec<Piece>)
        requires
            printable(*expression),
        ensures
            pieces(line@) == printed(*expression),
    {
        let mut line = Vec::new();
        assert(pieces(line@) =~= Seq::<PieceModel>::empty());
        self.print_into(expression, &mut line);
        assert(pieces(line@) =~= printed(*expression));
        line
    }
}

} // verus!
