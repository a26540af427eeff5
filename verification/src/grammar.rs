//! The grammar of Lox, stated as mathematical functions from a sequence of
//! tokens and a position in it to what is parsed there and the position
//! after it. The parser is proved to compute these functions.
//!
//! Precedence, from low to high: assignment, `or`, `and`, equality,
//! comparison, term, factor, unary, call, primary.

use crate::ast::{ExprModel, FunctionModel, StmtModel};
use crate::errors::Fault;
use crate::parser::spec_parser_error;
use crate::token::{Token, TokenKind, TokenType};
use crate::values::LoxPrimitive;
use vstd::prelude::*;

verus! {

/// The most arguments a call can have, and the most parameters a function.
pub const MAX_ARGUMENTS: usize = 255;

/// Where a parser stands: the place of the next token, and the
/// diagnostics noted so far. A diagnostic is an error that is reported
/// without ending the rule that found it.
pub struct Cursor {
    pub index: int,
    pub noted: Seq<Fault>,
}

impl Cursor {
    /// At the next token.
    pub open spec fn next(self) -> Cursor {
        Cursor { index: self.index + 1, ..self }
    }

    /// With nothing noted.
    pub open spec fn cleared(self) -> Cursor {
        Cursor { noted: Seq::empty(), ..self }
    }

    /// With one more diagnostic noted.
    pub open spec fn note(self, fault: Fault) -> Cursor {
        Cursor { noted: self.noted.push(fault), ..self }
    }
}

/// At the first token, with nothing noted.
pub open spec fn start_of_input() -> Cursor {
    Cursor { index: 0, noted: Seq::empty() }
}

/// A sequence of tokens that a parser can work on ends with the
/// end-of-input token.
pub open spec fn well_terminated(tokens: Seq<Token>) -> bool {
    tokens.len() > 0 && tokens.last().spec_kind() == TokenKind::Eof
}

/// Whether `pos` is the place of a token.
pub open spec fn in_range(tokens: Seq<Token>, pos: Cursor) -> bool {
    0 <= pos.index < tokens.len()
}

/// Whether `p` is the place of a token after `pos`.
pub open spec fn onward(tokens: Seq<Token>, pos: Cursor, p: Cursor) -> bool {
    pos.index < p.index < tokens.len()
}

/// What a rule gives where it runs out of tokens or does not move on:
/// an error of which nothing is said. This does not happen in a sequence
/// of tokens that ends with the end-of-input token.
pub open spec fn stranded<T, E>(pos: Cursor) -> (Result<T, E>, Cursor) {
    (Err(arbitrary()), pos)
}

/// Whether the token at `pos` is the end of input.
pub open spec fn at_end(tokens: Seq<Token>, pos: Cursor) -> bool {
    tokens[pos.index].spec_kind() == TokenKind::Eof
}

/// Whether the token at `pos` is of kind `kind`; never true of the end of
/// input.
pub open spec fn check(tokens: Seq<Token>, pos: Cursor, kind: TokenKind) -> bool {
    !at_end(tokens, pos) && tokens[pos.index].spec_kind() == kind
}

/// What an expression rule gives: the expression or the error, and where
/// the parser stands afterwards.
pub type ExprOutcome = (Result<ExprModel, Fault>, Cursor);

/// What a statement rule gives: the statement or the errors, and where the
/// parser stands afterwards.
pub type StmtOutcome = (Result<StmtModel, Seq<Fault>>, Cursor);

/// Takes the token at `pos` if it is of kind `kind`; fails with `message`
/// at that token if it is not.
pub open spec fn consume(tokens: Seq<Token>, pos: Cursor, kind: TokenKind, message: Seq<char>) -> (
    Result<Token, Fault>,
    Cursor,
) {
    if check(tokens, pos, kind) {
        (Ok(tokens[pos.index]), pos.next())
    } else {
        (Err(spec_parser_error(tokens[pos.index], message)), pos)
    }
}

/// The value that a literal token stands for.
pub open spec fn literal_of(token: Token) -> LoxPrimitive {
    match token.token_type {
        TokenType::False => LoxPrimitive::Bool(false),
        TokenType::True => LoxPrimitive::Bool(true),
        TokenType::Number(bits) => LoxPrimitive::Number(bits),
        TokenType::String(text) => LoxPrimitive::String(text),
        _ => LoxPrimitive::Nil,
    }
}

/// Whether a token of kind `kind` is a literal.
pub open spec fn is_literal(kind: TokenKind) -> bool {
    kind == TokenKind::False || kind == TokenKind::True || kind == TokenKind::Nil || kind
        == TokenKind::Number || kind == TokenKind::String
}

/// primary → literal | "this" | IDENT | "(" expression ")"
pub open spec fn primary(tokens: Seq<Token>, pos: Cursor) -> ExprOutcome
    decreases tokens.len() - pos.index, 0nat,
{
    if !in_range(tokens, pos) {
        stranded(pos)
    } else {
        let kind = tokens[pos.index].spec_kind();
        if is_literal(kind) {
            (Ok(ExprModel::Literal { literal: literal_of(tokens[pos.index]) }), pos.next())
        } else if kind == TokenKind::LeftParen && in_range(tokens, pos.next()) {
            match assignment(tokens, pos.next()) {
                (Ok(inner), p) => match consume(
                    tokens,
                    p,
                    TokenKind::RightParen,
                    "Expect ')' after expression."@,
                ) {
                    (Ok(_), at2) => (Ok(ExprModel::Grouping { expression: Box::new(inner) }), at2),
                    (Err(fault), at2) => (Err(fault), at2),
                },
                (Err(fault), p) => (Err(fault), p),
            }
        } else if kind == TokenKind::Identifier {
            (Ok(ExprModel::Variable { name: tokens[pos.index] }), pos.next())
        } else if kind == TokenKind::This {
            (Ok(ExprModel::This { keyword: tokens[pos.index] }), pos.next())
        } else {
            (Err(spec_parser_error(tokens[pos.index], "Expect expression."@)), pos)
        }
    }
}

/// The arguments of a call after the first, each after a comma. A call
/// takes at most 255 arguments: one more is noted, once, at the token that
/// begins the 256th, and the arguments are parsed on to their end.
pub open spec fn more_arguments(tokens: Seq<Token>, arguments: Seq<ExprModel>, pos: Cursor) -> (
    Result<Seq<ExprModel>, Fault>,
    Cursor,
)
    decreases tokens.len() - pos.index, 21nat,
{
    if !in_range(tokens, pos) {
        stranded(pos)
    } else if check(tokens, pos, TokenKind::Comma) && in_range(tokens, pos.next()) {
        let after = if arguments.len() == MAX_ARGUMENTS {
            pos.next().note(
                spec_parser_error(tokens[pos.index + 1], "Can't have more than 255 arguments."@),
            )
        } else {
            pos.next()
        };
        match assignment(tokens, after) {
            (Ok(argument), p) => if onward(tokens, pos, p) {
                more_arguments(tokens, arguments.push(argument), p)
            } else {
                stranded(p)
            },
            (Err(fault), p) => (Err(fault), p),
        }
    } else {
        (Ok(arguments), pos)
    }
}

/// The rest of a call, from after its opening parenthesis:
/// arguments? ")"
pub open spec fn finish_call(tokens: Seq<Token>, callee: ExprModel, pos: Cursor) -> ExprOutcome
    decreases tokens.len() - pos.index, 22nat,
{
    if !in_range(tokens, pos) {
        stranded(pos)
    } else {
        let arguments = if check(tokens, pos, TokenKind::RightParen) {
            (Ok::<Seq<ExprModel>, Fault>(Seq::empty()), pos)
        } else {
            match assignment(tokens, pos) {
                (Ok(first), p) => if onward(tokens, pos, p) {
                    more_arguments(tokens, seq![first], p)
                } else {
                    stranded(p)
                },
                (Err(fault), p) => (Err(fault), p),
            }
        };
        close_call(tokens, callee, arguments)
    }
}

/// The end of a call: after the arguments, the closing parenthesis.
pub open spec fn close_call(
    tokens: Seq<Token>,
    callee: ExprModel,
    arguments: (Result<Seq<ExprModel>, Fault>, Cursor),
) -> ExprOutcome {
    match arguments {
        (Ok(all), p) => match consume(
            tokens,
            p,
            TokenKind::RightParen,
            "Expect ')' after arguments."@,
        ) {
            (Ok(paren), at2) => (
                Ok(ExprModel::Call { callee: Box::new(callee), paren, arguments: all }),
                at2,
            ),
            (Err(fault), at2) => (Err(fault), at2),
        },
        (Err(fault), p) => (Err(fault), p),
    }
}

/// What follows the head of a call expression:
/// ( "(" arguments? ")" | "." IDENT )*
pub open spec fn call_tail(tokens: Seq<Token>, head: ExprModel, pos: Cursor) -> ExprOutcome
    decreases tokens.len() - pos.index, 23nat,
{
    if !in_range(tokens, pos) {
        stranded(pos)
    } else if check(tokens, pos, TokenKind::LeftParen) && in_range(tokens, pos.next()) {
        match finish_call(tokens, head, pos.next()) {
            (Ok(called), p) => if onward(tokens, pos, p) {
                call_tail(tokens, called, p)
            } else {
                stranded(p)
            },
            (Err(fault), p) => (Err(fault), p),
        }
    } else if check(tokens, pos, TokenKind::Dot) {
        match consume(tokens, pos.next(), TokenKind::Identifier, "Expect property name after '.'."@) {
            (Ok(name), p) => if onward(tokens, pos, p) {
                call_tail(tokens, ExprModel::Get { object: Box::new(head), name }, p)
            } else {
                stranded(p)
            },
            (Err(fault), p) => (Err(fault), p),
        }
    } else {
        (Ok(head), pos)
    }
}

/// call → primary ( "(" arguments? ")" | "." IDENT )*
pub open spec fn call(tokens: Seq<Token>, pos: Cursor) -> ExprOutcome
    decreases tokens.len() - pos.index, 1nat,
{
    match primary(tokens, pos) {
        (Ok(head), p) => if onward(tokens, pos, p) {
            call_tail(tokens, head, p)
        } else {
            stranded(p)
        },
        (Err(fault), p) => (Err(fault), p),
    }
}

/// unary → ( "!" | "-" ) unary | call
pub open spec fn unary(tokens: Seq<Token>, pos: Cursor) -> ExprOutcome
    decreases tokens.len() - pos.index, 2nat,
{
    if !in_range(tokens, pos) {
        stranded(pos)
    } else if (check(tokens, pos, TokenKind::Bang) || check(tokens, pos, TokenKind::Minus))
        && in_range(tokens, pos.next()) {
        match unary(tokens, pos.next()) {
            (Ok(right), p) => (
                Ok(ExprModel::Unary { operator: tokens[pos.index], right: Box::new(right) }),
                p,
            ),
            (Err(fault), p) => (Err(fault), p),
        }
    } else {
        call(tokens, pos)
    }
}

/// The levels of operators that take an operand on each side, from the one
/// that binds tightest.
#[derive(Debug, Clone, Copy, PartialEq, Eq, Structural)]
pub enum Level {
    /// `*` and `/`.
    Factor,
    /// `+` and `-`.
    Term,
    /// `>`, `>=`, `<` and `<=`.
    Comparison,
    /// `==` and `!=`.
    Equality,
    /// `and`.
    And,
    /// `or`.
    Or,
}

impl Level {
    /// How loosely the operators of this level bind.
    pub open spec fn rank(self) -> nat {
        match self {
            Level::Factor => 1,
            Level::Term => 2,
            Level::Comparison => 3,
            Level::Equality => 4,
            Level::And => 5,
            Level::Or => 6,
        }
    }

    /// Whether a token of kind `kind` is an operator of this level.
    pub open spec fn has(self, kind: TokenKind) -> bool {
        match self {
            Level::Factor => kind == TokenKind::Star || kind == TokenKind::Slash,
            Level::Term => kind == TokenKind::Plus || kind == TokenKind::Minus,
            Level::Comparison => kind == TokenKind::Greater || kind == TokenKind::GreaterEqual
                || kind == TokenKind::Less || kind == TokenKind::LessEqual,
            Level::Equality => kind == TokenKind::EqualEqual || kind == TokenKind::BangEqual,
            Level::And => kind == TokenKind::And,
            Level::Or => kind == TokenKind::Or,
        }
    }

    /// The expression that an operator of this level makes of its operands.
    pub open spec fn join(self, left: ExprModel, operator: Token, right: ExprModel) -> ExprModel {
        match self {
            Level::And | Level::Or => ExprModel::Logical {
                left: Box::new(left),
                operator,
                right: Box::new(right),
            },
            _ => ExprModel::Binary { left: Box::new(left), operator, right: Box::new(right) },
        }
    }
}

/// An operand of an operator of level `level`: an expression of the next
/// tighter level.
pub open spec fn operand(tokens: Seq<Token>, level: Level, pos: Cursor) -> ExprOutcome
    decreases tokens.len() - pos.index, 2 * level.rank() + 1,
{
    match level {
        Level::Factor => unary(tokens, pos),
        Level::Term => infix(tokens, Level::Factor, pos),
        Level::Comparison => infix(tokens, Level::Term, pos),
        Level::Equality => infix(tokens, Level::Comparison, pos),
        Level::And => infix(tokens, Level::Equality, pos),
        Level::Or => infix(tokens, Level::And, pos),
    }
}

/// The operators of level `level` and their right operands that follow
/// `left`; they associate to the left.
pub open spec fn infix_tail(tokens: Seq<Token>, level: Level, left: ExprModel, pos: Cursor) -> ExprOutcome
    decreases tokens.len() - pos.index, 2 * level.rank() + 2,
{
    if !in_range(tokens, pos) {
        stranded(pos)
    } else if !at_end(tokens, pos) && level.has(tokens[pos.index].spec_kind()) && in_range(
        tokens,
        pos.next(),
    ) {
        match operand(tokens, level, pos.next()) {
            (Ok(right), p) => if onward(tokens, pos, p) {
                infix_tail(tokens, level, level.join(left, tokens[pos.index], right), p)
            } else {
                stranded(p)
            },
            (Err(fault), p) => (Err(fault), p),
        }
    } else {
        (Ok(left), pos)
    }
}

/// An expression of level `level`: operand ( operator operand )*
pub open spec fn infix(tokens: Seq<Token>, level: Level, pos: Cursor) -> ExprOutcome
    decreases tokens.len() - pos.index, 2 * level.rank() + 2,
{
    match operand(tokens, level, pos) {
        (Ok(left), p) => if onward(tokens, pos, p) {
            infix_tail(tokens, level, left, p)
        } else {
            stranded(p)
        },
        (Err(fault), p) => (Err(fault), p),
    }
}

/// assignment → ( call "." )? IDENT "=" assignment | logic_or
///
/// The left side is parsed as an `or` expression first; only a variable or
/// a property access can then be assigned to.
pub open spec fn assignment(tokens: Seq<Token>, pos: Cursor) -> ExprOutcome
    decreases tokens.len() - pos.index, 20nat,
{
    match infix(tokens, Level::Or, pos) {
        (Ok(target), p) => if !onward(tokens, pos, p) {
            stranded(p)
        } else if check(tokens, p, TokenKind::Equal) && in_range(tokens, p.next()) {
            match assignment(tokens, p.next()) {
                (Ok(value), at2) => match target {
                    ExprModel::Variable { name } => (
                        Ok(ExprModel::Assignment { name, value: Box::new(value) }),
                        at2,
                    ),
                    ExprModel::Get { object, name } => (
                        Ok(ExprModel::SetProperty { object, name, value: Box::new(value) }),
                        at2,
                    ),
                    _ => (Err(spec_parser_error(tokens[p.index], "Invalid assignment target."@)), at2),
                },
                (Err(fault), at2) => (Err(fault), at2),
            }
        } else {
            (Ok(target), p)
        },
        (Err(fault), p) => (Err(fault), p),
    }
}

/// expression → assignment
pub open spec fn expression(tokens: Seq<Token>, pos: Cursor) -> ExprOutcome {
    assignment(tokens, pos)
}

/// What a rule that gives a sequence of statements gives.
pub type BlockOutcome = (Result<Seq<StmtModel>, Seq<Fault>>, Cursor);

/// What the rule for a function gives.
pub type FunctionOutcome = (Result<FunctionModel, Seq<Fault>>, Cursor);

/// The literal `nil`, which stands in for an expression that was left out.
pub open spec fn nil_literal() -> ExprModel {
    ExprModel::Literal { literal: LoxPrimitive::Nil }
}

/// The literal `true`, which stands in for the condition of a `for` loop
/// that has none.
pub open spec fn true_literal() -> ExprModel {
    ExprModel::Literal { literal: LoxPrimitive::Bool(true) }
}

/// exprStmt → expression ";" and, after `print`, printStmt → expression ";"
pub open spec fn value_statement(tokens: Seq<Token>, pos: Cursor, print: bool) -> StmtOutcome {
    match expression(tokens, pos) {
        (Ok(value), p) => match consume(
            tokens,
            p,
            TokenKind::Semicolon,
            "Expect ';' after value."@,
        ) {
            (Ok(_), at2) => (
                Ok(
                    if print {
                        StmtModel::Print { expression: Box::new(value) }
                    } else {
                        StmtModel::Expression { expression: Box::new(value) }
                    },
                ),
                at2,
            ),
            (Err(fault), at2) => (Err(seq![fault]), at2),
        },
        (Err(fault), p) => (Err(seq![fault]), p),
    }
}

/// varDecl, from after `var`: IDENT ( "=" expression )? ";"
pub open spec fn var_declaration(tokens: Seq<Token>, pos: Cursor) -> StmtOutcome {
    match consume(tokens, pos, TokenKind::Identifier, "Expect variable name."@) {
        (Err(fault), p) => (Err(seq![fault]), p),
        (Ok(name), p) => {
            let initializer = if check(tokens, p, TokenKind::Equal) {
                expression(tokens, p.next())
            } else {
                (Ok(nil_literal()), p)
            };
            match initializer {
                (Err(fault), at2) => (Err(seq![fault]), at2),
                (Ok(value), at2) => match consume(
                    tokens,
                    at2,
                    TokenKind::Semicolon,
                    "Expect ';' after variable declaration."@,
                ) {
                    (Ok(_), at3) => (
                        Ok(StmtModel::Var { name, initializer: Box::new(value) }),
                        at3,
                    ),
                    (Err(fault), at3) => (Err(seq![fault]), at3),
                },
            }
        },
    }
}

/// returnStmt, from after `return`: expression? ";"
pub open spec fn return_statement(tokens: Seq<Token>, pos: Cursor) -> StmtOutcome {
    let value = if check(tokens, pos, TokenKind::Semicolon) {
        (Ok(nil_literal()), pos)
    } else {
        expression(tokens, pos)
    };
    match value {
        (Err(fault), p) => (Err(seq![fault]), p),
        (Ok(returned), p) => match consume(
            tokens,
            p,
            TokenKind::Semicolon,
            "Expect ';' after return value."@,
        ) {
            (Ok(_), at2) => (
                Ok(StmtModel::Return { keyword: tokens[pos.index - 1], expression: Box::new(returned) }),
                at2,
            ),
            (Err(fault), at2) => (Err(seq![fault]), at2),
        },
    }
}

/// Whether a token of kind `kind` begins a statement, so that the parser
/// can take up its work there after an error.
pub open spec fn starts_statement(kind: TokenKind) -> bool {
    kind == TokenKind::Class || kind == TokenKind::Fun || kind == TokenKind::Var || kind
        == TokenKind::For || kind == TokenKind::If || kind == TokenKind::While || kind
        == TokenKind::Print || kind == TokenKind::Return
}

/// The next place, from `pos` on, where a statement may begin: after a
/// semicolon, at a token that begins a statement, or at the end of input.
pub open spec fn synchronize_from(tokens: Seq<Token>, pos: Cursor) -> Cursor
    decreases tokens.len() - pos.index,
{
    if !in_range(tokens, pos) || at_end(tokens, pos) {
        pos
    } else if pos.index > 0 && tokens[pos.index - 1].spec_kind() == TokenKind::Semicolon {
        pos
    } else if starts_statement(tokens[pos.index].spec_kind()) {
        pos
    } else {
        synchronize_from(tokens, pos.next())
    }
}

/// Where the parser takes up its work after an error at `pos`: it steps
/// over the token there and looks for the next place where a statement may
/// begin.
pub open spec fn synchronize(tokens: Seq<Token>, pos: Cursor) -> Cursor {
    if at_end(tokens, pos) {
        pos
    } else {
        synchronize_from(tokens, pos.next())
    }
}

/// The parameters of a function after the opening parenthesis, one or
/// more, separated by commas. A function takes at most 255 parameters: one
/// more is noted, once, at the 256th, and the parameters are parsed on to
/// their end.
pub open spec fn more_parameters(tokens: Seq<Token>, params: Seq<Token>, pos: Cursor) -> (
    Result<Seq<Token>, Fault>,
    Cursor,
)
    decreases tokens.len() - pos.index,
{
    if !in_range(tokens, pos) {
        stranded(pos)
    } else {
        let here = if params.len() == MAX_ARGUMENTS {
            pos.note(spec_parser_error(tokens[pos.index], "Can't have more than 255 arguments."@))
        } else {
            pos
        };
        match consume(tokens, here, TokenKind::Identifier, "Expect parameter name."@) {
            (Err(fault), p) => (Err(fault), p),
            (Ok(param), p) => if check(tokens, p, TokenKind::Comma) && onward(tokens, pos, p.next()) {
                more_parameters(tokens, params.push(param), p.next())
            } else {
                (Ok(params.push(param)), p)
            },
        }
    }
}

/// The statement that a `for` loop is rewritten to:
/// `{ initializer; while (condition) { body; increment; } }`, without the
/// inner block where there is no increment, and without the outer one
/// where there is no initializer.
pub open spec fn desugared_for(
    initializer: Option<StmtModel>,
    condition: ExprModel,
    increment: Option<ExprModel>,
    body: StmtModel,
) -> StmtModel {
    let stepped = match increment {
        Some(step) => StmtModel::Block {
            statements: seq![body, StmtModel::Expression { expression: Box::new(step) }],
        },
        None => body,
    };
    let repeated = StmtModel::While { condition: Box::new(condition), body: Box::new(stepped) };
    match initializer {
        Some(first) => StmtModel::Block { statements: seq![first, repeated] },
        None => repeated,
    }
}

/// declaration → classDecl | funDecl | varDecl | statement
///
/// After an error the parser goes on at the next place where a statement
/// may begin.
pub open spec fn declaration(tokens: Seq<Token>, pos: Cursor) -> StmtOutcome
    decreases tokens.len() - pos.index, 3nat,
{
    if !in_range(tokens, pos) || !in_range(tokens, pos.next()) && !at_end(tokens, pos) {
        stranded(pos)
    } else {
        let parsed = if check(tokens, pos, TokenKind::Class) {
            class_declaration(tokens, pos.next())
        } else if check(tokens, pos, TokenKind::Fun) {
            match function(tokens, pos.next(), "function"@) {
                (Ok(declared), p) => (
                    Ok(StmtModel::Function { declaration: Box::new(declared) }),
                    p,
                ),
                (Err(faults), p) => (Err(faults), p),
            }
        } else if check(tokens, pos, TokenKind::Var) {
            var_declaration(tokens, pos.next())
        } else {
            statement(tokens, pos)
        };
        match parsed {
            (Ok(s), p) => (Ok(s), p),
            (Err(faults), p) => (Err(faults), synchronize(tokens, p)),
        }
    }
}

/// statement → forStmt | ifStmt | printStmt | returnStmt | whileStmt
///           | block | exprStmt
pub open spec fn statement(tokens: Seq<Token>, pos: Cursor) -> StmtOutcome
    decreases tokens.len() - pos.index, 2nat,
{
    if !in_range(tokens, pos) || !in_range(tokens, pos.next()) && !at_end(tokens, pos) {
        stranded(pos)
    } else if check(tokens, pos, TokenKind::For) {
        for_statement(tokens, pos.next())
    } else if check(tokens, pos, TokenKind::If) {
        if_statement(tokens, pos.next())
    } else if check(tokens, pos, TokenKind::Print) {
        value_statement(tokens, pos.next(), true)
    } else if check(tokens, pos, TokenKind::Return) {
        return_statement(tokens, pos.next())
    } else if check(tokens, pos, TokenKind::While) {
        while_statement(tokens, pos.next())
    } else if check(tokens, pos, TokenKind::LeftBrace) {
        match block(tokens, pos.next()) {
            (Ok(statements), p) => (Ok(StmtModel::Block { statements }), p),
            (Err(faults), p) => (Err(faults), p),
        }
    } else {
        value_statement(tokens, pos, false)
    }
}

/// The declarations of a block up to its closing brace. The errors of all
/// of them are collected; the block is parsed to its end all the same.
pub open spec fn block_items(
    tokens: Seq<Token>,
    statements: Seq<StmtModel>,
    faults: Seq<Fault>,
    pos: Cursor,
) -> BlockOutcome
    decreases tokens.len() - pos.index, 4nat,
{
    if !in_range(tokens, pos) {
        stranded(pos)
    } else if !check(tokens, pos, TokenKind::RightBrace) && !at_end(tokens, pos) {
        match declaration(tokens, pos) {
            (Ok(s), p) => if onward(tokens, pos, p) {
                block_items(tokens, statements.push(s), faults, p)
            } else {
                stranded(p)
            },
            (Err(more), p) => if onward(tokens, pos, p) {
                block_items(tokens, statements, faults + more, p)
            } else {
                stranded(p)
            },
        }
    } else {
        match consume(tokens, pos, TokenKind::RightBrace, "Expect '}' after block."@) {
            (Ok(_), p) => (
                if faults.len() == 0 {
                    Ok(statements)
                } else {
                    Err(faults)
                },
                p,
            ),
            (Err(fault), p) => (Err(faults.push(fault)), p),
        }
    }
}

/// block, from after its opening brace: declaration* "}"
pub open spec fn block(tokens: Seq<Token>, pos: Cursor) -> BlockOutcome
    decreases tokens.len() - pos.index, 5nat,
{
    block_items(tokens, Seq::empty(), Seq::empty(), pos)
}

/// ifStmt, from after `if`: "(" expression ")" statement ( "else" statement )?
pub open spec fn if_statement(tokens: Seq<Token>, pos: Cursor) -> StmtOutcome
    decreases tokens.len() - pos.index, 1nat,
{
    match consume(tokens, pos, TokenKind::LeftParen, "Expect '(' after 'if'."@) {
        (Err(fault), p) => (Err(seq![fault]), p),
        (Ok(_), p) => match expression(tokens, p) {
            (Err(fault), at2) => (Err(seq![fault]), at2),
            (Ok(condition), at2) => match consume(
                tokens,
                at2,
                TokenKind::RightParen,
                "Expect ')' after if condition."@,
            ) {
                (Err(fault), at3) => (Err(seq![fault]), at3),
                (Ok(_), at3) => if !onward(tokens, pos, at3) {
                    stranded(at3)
                } else {
                    match statement(tokens, at3) {
                        (Err(faults), at4) => (Err(faults), at4),
                        (Ok(then_branch), at4) => if check(tokens, at4, TokenKind::Else) {
                            if !onward(tokens, pos, at4.next()) {
                                stranded(at4)
                            } else {
                                match statement(tokens, at4.next()) {
                                    (Err(faults), at5) => (Err(faults), at5),
                                    (Ok(else_branch), at5) => (
                                        Ok(
                                            StmtModel::If {
                                                condition: Box::new(condition),
                                                then_branch: Box::new(then_branch),
                                                else_branch: Some(Box::new(else_branch)),
                                            },
                                        ),
                                        at5,
                                    ),
                                }
                            }
                        } else {
                            (
                                Ok(
                                    StmtModel::If {
                                        condition: Box::new(condition),
                                        then_branch: Box::new(then_branch),
                                        else_branch: None,
                                    },
                                ),
                                at4,
                            )
                        },
                    }
                },
            },
        },
    }
}

/// whileStmt, from after `while`: "(" expression ")" statement
pub open spec fn while_statement(tokens: Seq<Token>, pos: Cursor) -> StmtOutcome
    decreases tokens.len() - pos.index, 1nat,
{
    match consume(tokens, pos, TokenKind::LeftParen, "Expect '(' after 'while'."@) {
        (Err(fault), p) => (Err(seq![fault]), p),
        (Ok(_), p) => match expression(tokens, p) {
            (Err(fault), at2) => (Err(seq![fault]), at2),
            (Ok(condition), at2) => match consume(
                tokens,
                at2,
                TokenKind::RightParen,
                "Expect ')' after condition."@,
            ) {
                (Err(fault), at3) => (Err(seq![fault]), at3),
                (Ok(_), at3) => if !onward(tokens, pos, at3) {
                    stranded(at3)
                } else {
                    match statement(tokens, at3) {
                        (Err(faults), at4) => (Err(faults), at4),
                        (Ok(body), at4) => (
                            Ok(
                                StmtModel::While {
                                    condition: Box::new(condition),
                                    body: Box::new(body),
                                },
                            ),
                            at4,
                        ),
                    }
                },
            },
        },
    }
}

/// The first clause of a `for` loop: ";" | varDecl | exprStmt
pub open spec fn for_initializer(tokens: Seq<Token>, pos: Cursor) -> (
    Result<Option<StmtModel>, Seq<Fault>>,
    Cursor,
) {
    if check(tokens, pos, TokenKind::Semicolon) {
        (Ok(None), pos.next())
    } else {
        let parsed = if check(tokens, pos, TokenKind::Var) {
            var_declaration(tokens, pos.next())
        } else {
            value_statement(tokens, pos, false)
        };
        match parsed {
            (Ok(s), p) => (Ok(Some(s)), p),
            (Err(faults), p) => (Err(faults), p),
        }
    }
}

/// The second clause of a `for` loop: expression? ";"
pub open spec fn for_condition(tokens: Seq<Token>, pos: Cursor) -> ExprOutcome {
    let parsed = if check(tokens, pos, TokenKind::Semicolon) {
        (Ok(true_literal()), pos)
    } else {
        expression(tokens, pos)
    };
    match parsed {
        (Err(fault), p) => (Err(fault), p),
        (Ok(condition), p) => match consume(
            tokens,
            p,
            TokenKind::Semicolon,
            "Expect ';' after loop condition."@,
        ) {
            (Ok(_), at2) => (Ok(condition), at2),
            (Err(fault), at2) => (Err(fault), at2),
        },
    }
}

/// The third clause of a `for` loop: expression? ")"
pub open spec fn for_increment(tokens: Seq<Token>, pos: Cursor) -> (
    Result<Option<ExprModel>, Fault>,
    Cursor,
) {
    let parsed = if check(tokens, pos, TokenKind::RightParen) {
        (Ok::<Option<ExprModel>, Fault>(None), pos)
    } else {
        match expression(tokens, pos) {
            (Ok(step), p) => (Ok(Some(step)), p),
            (Err(fault), p) => (Err(fault), p),
        }
    };
    match parsed {
        (Err(fault), p) => (Err(fault), p),
        (Ok(increment), p) => match consume(
            tokens,
            p,
            TokenKind::RightParen,
            "Expect ')' after condition."@,
        ) {
            (Ok(_), at2) => (Ok(increment), at2),
            (Err(fault), at2) => (Err(fault), at2),
        },
    }
}

/// forStmt, from after `for`:
/// "(" ( varDecl | exprStmt | ";" ) expression? ";" expression? ")" statement
pub open spec fn for_statement(tokens: Seq<Token>, pos: Cursor) -> StmtOutcome
    decreases tokens.len() - pos.index, 1nat,
{
    match consume(tokens, pos, TokenKind::LeftParen, "Expect '(' after 'for'."@) {
        (Err(fault), p) => (Err(seq![fault]), p),
        (Ok(_), p) => match for_initializer(tokens, p) {
            (Err(faults), at2) => (Err(faults), at2),
            (Ok(initializer), at2) => match for_condition(tokens, at2) {
                (Err(fault), at3) => (Err(seq![fault]), at3),
                (Ok(condition), at3) => match for_increment(tokens, at3) {
                    (Err(fault), at4) => (Err(seq![fault]), at4),
                    (Ok(increment), at4) => if !onward(tokens, pos, at4) {
                        stranded(at4)
                    } else {
                        match statement(tokens, at4) {
                            (Err(faults), at5) => (Err(faults), at5),
                            (Ok(body), at5) => (
                                Ok(desugared_for(initializer, condition, increment, body)),
                                at5,
                            ),
                        }
                    },
                },
            },
        },
    }
}

/// The parameter list of a function, from after the opening parenthesis.
pub open spec fn parameters(tokens: Seq<Token>, pos: Cursor) -> (Result<Seq<Token>, Fault>, Cursor) {
    if check(tokens, pos, TokenKind::RightParen) {
        (Ok(Seq::empty()), pos)
    } else {
        more_parameters(tokens, Seq::empty(), pos)
    }
}

/// function → IDENT "(" parameters? ")" block
///
/// `kind` is the word for what is declared, `function` or `method`, as the
/// error messages say it.
pub open spec fn function(tokens: Seq<Token>, pos: Cursor, kind: Seq<char>) -> FunctionOutcome
    decreases tokens.len() - pos.index, 1nat,
{
    match consume(tokens, pos, TokenKind::Identifier, "Expect "@ + kind + ", name."@) {
        (Err(fault), p) => (Err(seq![fault]), p),
        (Ok(name), p) => match consume(
            tokens,
            p,
            TokenKind::LeftParen,
            "Expect '(' after "@ + kind + " name."@,
        ) {
            (Err(fault), at2) => (Err(seq![fault]), at2),
            (Ok(_), at2) => function_body(tokens, pos, name, kind, parameters(tokens, at2)),
        },
    }
}

/// The rest of a function after its parameters: ")" block
pub open spec fn function_body(
    tokens: Seq<Token>,
    pos: Cursor,
    name: Token,
    kind: Seq<char>,
    parameters: (Result<Seq<Token>, Fault>, Cursor),
) -> FunctionOutcome
    decreases tokens.len() - pos.index, 0nat,
{
    match parameters {
        (Err(fault), at3) => (Err(seq![fault]), at3),
        (Ok(params), at3) => match consume(
            tokens,
            at3,
            TokenKind::RightParen,
            "Expect ')' after parameters."@,
        ) {
            (Err(fault), at4) => (Err(seq![fault]), at4),
            (Ok(_), at4) => match consume(
                tokens,
                at4,
                TokenKind::LeftBrace,
                "Expect '{' before "@ + kind + " body."@,
            ) {
                (Err(fault), at5) => (Err(seq![fault]), at5),
                (Ok(_), at5) => if !onward(tokens, pos, at5) {
                    stranded(at5)
                } else {
                    match block(tokens, at5) {
                        (Err(faults), at6) => (Err(faults), at6),
                        (Ok(body), at6) => (Ok(FunctionModel { name, params, body }), at6),
                    }
                },
            },
        },
    }
}

/// The methods of a class up to its closing brace. The first method that
/// fails ends the class.
pub open spec fn class_methods(tokens: Seq<Token>, methods: Seq<FunctionModel>, pos: Cursor) -> (
    Result<Seq<FunctionModel>, Seq<Fault>>,
    Cursor,
)
    decreases tokens.len() - pos.index, 2nat,
{
    if !in_range(tokens, pos) {
        stranded(pos)
    } else if !check(tokens, pos, TokenKind::RightBrace) && !at_end(tokens, pos) {
        match function(tokens, pos, "method"@) {
            (Err(faults), p) => (Err(faults), p),
            (Ok(method), p) => if onward(tokens, pos, p) {
                class_methods(tokens, methods.push(method), p)
            } else {
                stranded(p)
            },
        }
    } else {
        (Ok(methods), pos)
    }
}

/// The superclass clause of a class: ( "<" IDENT )?
pub open spec fn superclass(tokens: Seq<Token>, pos: Cursor) -> (
    Result<Option<Box<ExprModel>>, Fault>,
    Cursor,
) {
    if check(tokens, pos, TokenKind::Less) {
        match consume(tokens, pos.next(), TokenKind::Identifier, "Expect superclass name."@) {
            (Ok(name), p) => (Ok(Some(Box::new(ExprModel::Variable { name }))), p),
            (Err(fault), p) => (Err(fault), p),
        }
    } else {
        (Ok(None), pos)
    }
}

/// classDecl, from after `class`: IDENT ( "<" IDENT )? "{" function* "}"
pub open spec fn class_declaration(tokens: Seq<Token>, pos: Cursor) -> StmtOutcome
    decreases tokens.len() - pos.index, 1nat,
{
    match consume(tokens, pos, TokenKind::Identifier, "Expect class name."@) {
        (Err(fault), p) => (Err(seq![fault]), p),
        (Ok(name), p) => match superclass(tokens, p) {
            (Err(fault), at2) => (Err(seq![fault]), at2),
            (Ok(parent), at2) => match consume(
                tokens,
                at2,
                TokenKind::LeftBrace,
                "Expect '{' before class body."@,
            ) {
                (Err(fault), at3) => (Err(seq![fault]), at3),
                (Ok(_), at3) => if !onward(tokens, pos, at3) {
                    stranded(at3)
                } else {
                    match class_methods(tokens, Seq::empty(), at3) {
                        (Err(faults), at4) => (Err(faults), at4),
                        (Ok(methods), at4) => match consume(
                            tokens,
                            at4,
                            TokenKind::RightBrace,
                            "Expect '}' after class body."@,
                        ) {
                            (Err(fault), at5) => (Err(seq![fault]), at5),
                            (Ok(_), at5) => (
                                Ok(StmtModel::Class { name, methods, superclass: parent }),
                                at5,
                            ),
                        },
                    }
                },
            },
        },
    }
}

/// The declarations of a program from `pos` to the end of input. The
/// errors of all of them are collected, and with them the diagnostics
/// noted on the way: those of a declaration before its errors.
pub open spec fn program_items(
    tokens: Seq<Token>,
    statements: Seq<StmtModel>,
    faults: Seq<Fault>,
    pos: Cursor,
) -> Result<Seq<StmtModel>, Seq<Fault>>
    decreases tokens.len() - pos.index,
{
    if !in_range(tokens, pos) {
        stranded(pos).0
    } else if !at_end(tokens, pos) {
        match declaration(tokens, pos) {
            (Ok(s), p) => if onward(tokens, pos, p) {
                program_items(tokens, statements.push(s), faults + p.noted, p.cleared())
            } else {
                stranded(pos).0
            },
            (Err(more), p) => if onward(tokens, pos, p) {
                program_items(tokens, statements, faults + p.noted + more, p.cleared())
            } else {
                stranded(pos).0
            },
        }
    } else if faults.len() == 0 && pos.noted.len() == 0 {
        Ok(statements)
    } else {
        Err(faults + pos.noted)
    }
}

/// program → declaration* EOF
///
/// A program parses to its statements, or else to all the errors and
/// diagnostics that were found in it.
pub open spec fn program(tokens: Seq<Token>) -> Result<Seq<StmtModel>, Seq<Fault>> {
    program_items(tokens, Seq::empty(), Seq::empty(), start_of_input())
}

} // verus!
