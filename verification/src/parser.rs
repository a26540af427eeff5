//! The parser: recursive descent from tokens to the syntax tree.

use crate::ast::{
    expr_models, expr_models_len, expr_models_push, function_models, function_models_push,
    stmt_models, stmt_models_of_two, stmt_models_push, Expr, ExprModel, FunctionDecl,
    FunctionModel, Stmt, StmtModel,
};
use crate::errors::{
    error_with_location, faults, faults_concat, faults_of_one, faults_push, Errors, Fault,
    LoxError,
};
use crate::grammar::{
    start_of_input, Cursor,
    assignment, at_end, block, block_items, call, call_tail, check, class_declaration,
    class_methods, close_call, consume, declaration, expression, finish_call, for_statement,
    function, function_body, if_statement, infix, infix_tail, more_arguments, more_parameters,
    operand, primary, program, program_items, return_statement, starts_statement, statement,
    synchronize, synchronize_from, unary, value_statement, var_declaration, well_terminated,
    while_statement, ExprOutcome, Level, MAX_ARGUMENTS,
};
use std::rc::Rc;
use crate::token::{Token, TokenKind, TokenType};
use crate::values::LoxPrimitive;
use vstd::prelude::*;
use vstd::string::StringExecFns;

verus! {

/// Where a token is, as an error report says it: `" at end"` for the end of
/// input, and `" at '<lexeme>'"` for any other token.
pub open spec fn location_of(token: Token) -> Seq<char> {
    if token.spec_kind() == TokenKind::Eof {
        " at end"@
    } else {
        " at '"@ + token.lexeme@ + "'"@
    }
}

/// What `parser_error` reports: `message` at the place of `token`.
pub open spec fn spec_parser_error(token: Token, message: Seq<char>) -> Fault {
    Fault { line: token.line, location: location_of(token), message }
}

/// A static error at the place of `token`.
pub fn parser_error(token: &Token, message: &str) -> (e: LoxError)
    ensures
        e@ == spec_parser_error(*token, message@),
{
    match token.kind() {
        TokenKind::Eof => error_with_location(token.line, " at end", message),
        _ => {
            let mut location = String::from_str(" at '");
            location.append(token.lexeme.as_str());
            location.append("'");
            error_with_location(token.line, location.as_str(), message)
        },
    }
}

/// Where a parser stands: the tokens, and the place of the next one.
pub struct State {
    pub tokens: Vec<Token>,
    pub current: usize,
    /// The diagnostics noted so far: errors that were reported without
    /// ending the rule that found them.
    pub diagnostics: Vec<LoxError>,
}

/// What a result of an expression rule says, as the grammar would say it.
pub open spec fn expr_outcome(r: Result<Expr, LoxError>) -> Result<ExprModel, Fault> {
    match r {
        Ok(e) => Ok(e.model()),
        Err(e) => Err(e@),
    }
}

/// Whether an expression rule of the parser did what the grammar says:
/// the tokens are untouched, the parser stands where the grammar says,
/// which is never before where it stood and is further on after a success,
/// and the result is the grammar's.
pub open spec fn follows_grammar(
    before: State,
    after: State,
    r: Result<Expr, LoxError>,
    model: ExprOutcome,
) -> bool {
    &&& after.tokens == before.tokens
    &&& after.wf()
    &&& after.cursor() == model.1
    &&& before.current <= after.current
    &&& expr_outcome(r) == model.0
    &&& r is Ok ==> before.current < after.current
}

/// Whether a token of kind `kind` is an operator of level `level`.
fn is_operator(level: Level, kind: TokenKind) -> (r: bool)
    ensures
        r == level.has(kind),
{
    match level {
        Level::Factor => kind == TokenKind::Star || kind == TokenKind::Slash,
        Level::Term => kind == TokenKind::Plus || kind == TokenKind::Minus,
        Level::Comparison => kind == TokenKind::Greater || kind == TokenKind::GreaterEqual || kind
            == TokenKind::Less || kind == TokenKind::LessEqual,
        Level::Equality => kind == TokenKind::EqualEqual || kind == TokenKind::BangEqual,
        Level::And => kind == TokenKind::And,
        Level::Or => kind == TokenKind::Or,
    }
}

/// The expression that an operator of level `level` makes of its operands.
fn join(level: Level, left: Expr, operator: Token, right: Expr) -> (r: Expr)
    ensures
        r.model() == level.join(left.model(), operator, right.model()),
{
    match level {
        Level::And | Level::Or => Expr::Logical {
            left: Box::new(left),
            operator,
            right: Box::new(right),
        },
        _ => Expr::Binary { left: Box::new(left), operator, right: Box::new(right) },
    }
}

impl State {
    /// The tokens end with the end-of-input token, and the parser stands at
    /// a token.
    pub open spec fn wf(&self) -> bool {
        well_terminated(self.tokens@) && self.current < self.tokens.len()
    }

    /// Where the parser stands, as the grammar sees it.
    pub open spec fn cursor(&self) -> Cursor {
        Cursor { index: self.current as int, noted: faults(self.diagnostics@) }
    }

    /// A parser at the first of `tokens`.
    pub fn new(tokens: Vec<Token>) -> (state: State)
        requires
            well_terminated(tokens@),
        ensures
            state.wf(),
            state.tokens == tokens,
            state.cursor() == start_of_input(),
    {
        let state = State { tokens, current: 0, diagnostics: Vec::new() };
        assert(state.cursor().noted =~= Seq::<Fault>::empty());
        state
    }

    /// The token that the parser stands at.
    pub fn peek(&self) -> (token: &Token)
        requires
            self.wf(),
        ensures
            *token == self.tokens[self.current as int],
    {
        &self.tokens[self.current]
    }

    /// Whether the parser stands at the end of input.
    pub fn is_at_end(&self) -> (r: bool)
        requires
            self.wf(),
        ensures
            r == at_end(self.tokens@, self.cursor()),
    {
        self.tokens[self.current].kind() == TokenKind::Eof
    }

    /// The token before the one that the parser stands at.
    pub fn previous(&self) -> (token: &Token)
        requires
            self.wf(),
            self.current > 0,
        ensures
            *token == self.tokens[self.current - 1],
    {
        &self.tokens[self.current - 1]
    }

    /// Whether the parser stands at a token of kind `kind`.
    pub fn check(&self, kind: TokenKind) -> (r: bool)
        requires
            self.wf(),
        ensures
            r == check(self.tokens@, self.cursor(), kind),
    {
        !self.is_at_end() && self.tokens[self.current].kind() == kind
    }

    /// Steps over one token, unless the parser stands at the end of input.
    pub fn advance(&mut self)
        requires
            old(self).wf(),
        ensures
            final(self).wf(),
            final(self).tokens == old(self).tokens,
            final(self).cursor() == (if at_end(old(self).tokens@, old(self).cursor()) {
                old(self).cursor()
            } else {
                old(self).cursor().next()
            }),
    {
        if !self.is_at_end() {
            self.current += 1;
        }
    }

    /// Steps over the token that the parser stands at if it is of kind
    /// `kind`, and says whether it did.
    pub fn matches(&mut self, kind: TokenKind) -> (r: bool)
        requires
            old(self).wf(),
        ensures
            final(self).wf(),
            final(self).tokens == old(self).tokens,
            r == check(old(self).tokens@, old(self).cursor(), kind),
            final(self).cursor() == (if r {
                old(self).cursor().next()
            } else {
                old(self).cursor()
            }),
    {
        if self.check(kind) {
            self.current += 1;
            true
        } else {
            false
        }
    }

    /// Notes a diagnostic: an error that does not end the rule that found
    /// it.
    pub fn note(&mut self, e: LoxError)
        ensures
            final(self).tokens == old(self).tokens,
            final(self).current == old(self).current,
            final(self).cursor() == old(self).cursor().note(e@),
    {
        proof {
            faults_push(self.diagnostics@, e);
        }
        self.diagnostics.push(e);
    }

    /// Steps over a token of kind `kind` and hands it out, or fails with
    /// `message` at the token that stands there instead.
    pub fn consume(&mut self, kind: TokenKind, message: &str) -> (r: Result<Token, LoxError>)
        requires
            old(self).wf(),
        ensures
            final(self).wf(),
            final(self).tokens == old(self).tokens,
            final(self).cursor() == consume(
                old(self).tokens@,
                old(self).cursor(),
                kind,
                message@,
            ).1,
            match consume(old(self).tokens@, old(self).cursor(), kind, message@).0 {
                Ok(token) => r == Ok::<Token, LoxError>(token),
                Err(fault) => r matches Err(e) && e@ == fault,
            },
    {
        if self.check(kind) {
            let token = self.tokens[self.current].clone();
            self.current += 1;
            Ok(token)
        } else {
            Err(parser_error(self.peek(), message))
        }
    }

    /// primary → literal | "this" | IDENT | "(" expression ")"
    pub fn primary(&mut self) -> (r: Result<Expr, LoxError>)
        requires
            old(self).wf(),
        ensures
            follows_grammar(
                *old(self),
                *final(self),
                r,
                primary(old(self).tokens@, old(self).cursor()),
            ),
        decreases old(self).tokens.len() - old(self).current, 0nat,
    {
        let kind = self.tokens[self.current].kind();
        match kind {
            TokenKind::False | TokenKind::True | TokenKind::Nil | TokenKind::Number
            | TokenKind::String => {
                let value = match &self.tokens[self.current].token_type {
                    TokenType::False => LoxPrimitive::Bool(false),
                    TokenType::True => LoxPrimitive::Bool(true),
                    TokenType::Number(bits) => LoxPrimitive::Number(*bits),
                    TokenType::String(text) => LoxPrimitive::String(text.clone()),
                    _ => LoxPrimitive::Nil,
                };
                self.current += 1;
                Ok(Expr::Literal { value })
            },
            TokenKind::LeftParen => {
                self.current += 1;
                let inner = match self.expression() {
                    Ok(e) => e,
                    Err(e) => {
                        return Err(e);
                    },
                };
                match self.consume(TokenKind::RightParen, "Expect ')' after expression.") {
                    Ok(_) => Ok(Expr::Grouping { expression: Box::new(inner) }),
                    Err(e) => Err(e),
                }
            },
            TokenKind::Identifier => {
                let name = self.tokens[self.current].clone();
                self.current += 1;
                Ok(Expr::Variable { name })
            },
            TokenKind::This => {
                let keyword = self.tokens[self.current].clone();
                self.current += 1;
                Ok(Expr::This { keyword })
            },
            _ => Err(parser_error(self.peek(), "Expect expression.")),
        }
    }

    /// The rest of a call, from after its opening parenthesis.
    pub fn finish_call(&mut self, callee: Expr) -> (r: Result<Expr, LoxError>)
        requires
            old(self).wf(),
        ensures
            follows_grammar(
                *old(self),
                *final(self),
                r,
                finish_call(old(self).tokens@, callee.model(), old(self).cursor()),
            ),
        decreases old(self).tokens.len() - old(self).current, 22nat,
    {
        let mut arguments: Vec<Expr> = Vec::new();
        if !self.check(TokenKind::RightParen) {
            match self.expression() {
                Ok(first) => {
                    proof {
                        expr_models_push(arguments@, first);
                    }
                    arguments.push(first);
                },
                Err(e) => {
                    return Err(e);
                },
            }
            let ghost start = self.cursor();
            let ghost firsts = expr_models(arguments@, arguments@.len());
            assert(firsts =~= seq![arguments@[0].model()]);
            loop
                invariant
                    self.wf(),
                    self.tokens == old(self).tokens,
                    old(self).current < self.current,
                    finish_call(old(self).tokens@, callee.model(), old(self).cursor())
                        == close_call(
                        self.tokens@,
                        callee.model(),
                        more_arguments(self.tokens@, firsts, start),
                    ),
                    more_arguments(
                        self.tokens@,
                        expr_models(arguments@, arguments@.len()),
                        self.cursor(),
                    ) == more_arguments(self.tokens@, firsts, start),
                ensures
                    self.wf(),
                    self.tokens == old(self).tokens,
                    old(self).current < self.current,
                    more_arguments(self.tokens@, firsts, start) == (
                        Ok::<Seq<ExprModel>, Fault>(expr_models(arguments@, arguments@.len())),
                        self.cursor(),
                    ),
                decreases self.tokens.len() - self.current,
            {
                proof {
                    expr_models_len(arguments@, arguments@.len());
                }
                if !self.matches(TokenKind::Comma) {
                    break ;
                }
                if arguments.len() == MAX_ARGUMENTS {
                    let e = parser_error(self.peek(), "Can't have more than 255 arguments.");
                    self.note(e);
                }
                match self.expression() {
                    Ok(argument) => {
                        proof {
                            expr_models_push(arguments@, argument);
                        }
                        arguments.push(argument);
                    },
                    Err(e) => {
                        return Err(e);
                    },
                }
            }
        }
        match self.consume(TokenKind::RightParen, "Expect ')' after arguments.") {
            Ok(paren) => Ok(Expr::Call { callee: Box::new(callee), paren, arguments }),
            Err(e) => Err(e),
        }
    }

    /// call → primary ( "(" arguments? ")" | "." IDENT )*
    pub fn call(&mut self) -> (r: Result<Expr, LoxError>)
        requires
            old(self).wf(),
        ensures
            follows_grammar(
                *old(self),
                *final(self),
                r,
                call(old(self).tokens@, old(self).cursor()),
            ),
        decreases old(self).tokens.len() - old(self).current, 1nat,
    {
        let mut expr = match self.primary() {
            Ok(e) => e,
            Err(e) => {
                return Err(e);
            },
        };
        let ghost whole = call(old(self).tokens@, old(self).cursor());
        loop
            invariant
                self.wf(),
                self.tokens == old(self).tokens,
                old(self).current < self.current,
                whole == call(old(self).tokens@, old(self).cursor()),
                call_tail(self.tokens@, expr.model(), self.cursor()) == whole,
            ensures
                self.wf(),
                self.tokens == old(self).tokens,
                old(self).current < self.current,
                whole == (Ok::<ExprModel, Fault>(expr.model()), self.cursor()),
            decreases self.tokens.len() - self.current,
        {
            if self.matches(TokenKind::LeftParen) {
                expr = match self.finish_call(expr) {
                    Ok(e) => e,
                    Err(e) => {
                        return Err(e);
                    },
                };
            } else if self.matches(TokenKind::Dot) {
                let name = match self.consume(
                    TokenKind::Identifier,
                    "Expect property name after '.'.",
                ) {
                    Ok(token) => token,
                    Err(e) => {
                        return Err(e);
                    },
                };
                expr = Expr::Get { object: Box::new(expr), name };
            } else {
                break ;
            }
        }
        Ok(expr)
    }

    /// unary → ( "!" | "-" ) unary | call
    pub fn unary(&mut self) -> (r: Result<Expr, LoxError>)
        requires
            old(self).wf(),
        ensures
            follows_grammar(
                *old(self),
                *final(self),
                r,
                unary(old(self).tokens@, old(self).cursor()),
            ),
        decreases old(self).tokens.len() - old(self).current, 2nat,
    {
        if self.check(TokenKind::Bang) || self.check(TokenKind::Minus) {
            let operator = self.tokens[self.current].clone();
            self.current += 1;
            match self.unary() {
                Ok(right) => Ok(Expr::Unary { operator, right: Box::new(right) }),
                Err(e) => Err(e),
            }
        } else {
            self.call()
        }
    }

    /// An operand of an operator of level `level`.
    pub fn operand(&mut self, level: Level) -> (r: Result<Expr, LoxError>)
        requires
            old(self).wf(),
        ensures
            follows_grammar(
                *old(self),
                *final(self),
                r,
                operand(old(self).tokens@, level, old(self).cursor()),
            ),
        decreases old(self).tokens.len() - old(self).current, 2 * level.rank() + 1,
    {
        match level {
            Level::Factor => self.unary(),
            Level::Term => self.infix(Level::Factor),
            Level::Comparison => self.infix(Level::Term),
            Level::Equality => self.infix(Level::Comparison),
            Level::And => self.infix(Level::Equality),
            Level::Or => self.infix(Level::And),
        }
    }

    /// An expression of level `level`: operand ( operator operand )*,
    /// associating to the left.
    pub fn infix(&mut self, level: Level) -> (r: Result<Expr, LoxError>)
        requires
            old(self).wf(),
        ensures
            follows_grammar(
                *old(self),
                *final(self),
                r,
                infix(old(self).tokens@, level, old(self).cursor()),
            ),
        decreases old(self).tokens.len() - old(self).current, 2 * level.rank() + 2,
    {
        let mut expr = match self.operand(level) {
            Ok(e) => e,
            Err(e) => {
                return Err(e);
            },
        };
        let ghost whole = infix(old(self).tokens@, level, old(self).cursor());
        while !self.is_at_end() && is_operator(level, self.tokens[self.current].kind())
            invariant
                self.wf(),
                self.tokens == old(self).tokens,
                old(self).current < self.current,
                whole == infix(old(self).tokens@, level, old(self).cursor()),
                infix_tail(self.tokens@, level, expr.model(), self.cursor()) == whole,
            decreases self.tokens.len() - self.current,
        {
            let operator = self.tokens[self.current].clone();
            self.current += 1;
            let right = match self.operand(level) {
                Ok(e) => e,
                Err(e) => {
                    return Err(e);
                },
            };
            expr = join(level, expr, operator, right);
        }
        Ok(expr)
    }

    /// assignment → ( call "." )? IDENT "=" assignment | logic_or
    pub fn assignment(&mut self) -> (r: Result<Expr, LoxError>)
        requires
            old(self).wf(),
        ensures
            follows_grammar(
                *old(self),
                *final(self),
                r,
                assignment(old(self).tokens@, old(self).cursor()),
            ),
        decreases old(self).tokens.len() - old(self).current, 20nat,
    {
        let target = match self.infix(Level::Or) {
            Ok(e) => e,
            Err(e) => {
                return Err(e);
            },
        };
        if self.check(TokenKind::Equal) {
            let equals = self.tokens[self.current].clone();
            self.current += 1;
            let value = match self.assignment() {
                Ok(e) => e,
                Err(e) => {
                    return Err(e);
                },
            };
            match target {
                Expr::Variable { name } => Ok(Expr::Assignment { name, value: Box::new(value) }),
                Expr::Get { object, name } => Ok(
                    Expr::SetProperty { object, name, value: Box::new(value) },
                ),
                _ => Err(parser_error(&equals, "Invalid assignment target.")),
            }
        } else {
            Ok(target)
        }
    }

    /// expression → assignment
    pub fn expression(&mut self) -> (r: Result<Expr, LoxError>)
        requires
            old(self).wf(),
        ensures
            follows_grammar(
                *old(self),
                *final(self),
                r,
                expression(old(self).tokens@, old(self).cursor()),
            ),
        decreases old(self).tokens.len() - old(self).current, 21nat,
    {
        self.assignment()
    }
}

/// What a result of a statement rule says, as the grammar would say it.
pub open spec fn stmt_outcome(r: Result<Stmt, Vec<LoxError>>) -> Result<StmtModel, Seq<Fault>> {
    match r {
        Ok(s) => Ok(s.model()),
        Err(errors) => Err(faults(errors@)),
    }
}

/// What a result of a rule for a sequence of statements says, as the
/// grammar would say it.
pub open spec fn block_outcome(r: Result<Vec<Stmt>, Vec<LoxError>>) -> Result<
    Seq<StmtModel>,
    Seq<Fault>,
> {
    match r {
        Ok(statements) => Ok(stmt_models(statements@, statements@.len())),
        Err(errors) => Err(faults(errors@)),
    }
}

/// What a result of the rule for a function says, as the grammar would say
/// it.
pub open spec fn function_outcome(r: Result<Rc<FunctionDecl>, Vec<LoxError>>) -> Result<
    FunctionModel,
    Seq<Fault>,
> {
    match r {
        Ok(declaration) => Ok(declaration.model()),
        Err(errors) => Err(faults(errors@)),
    }
}

/// Whether the parser went from `before` to stand at `pos`: the tokens are
/// untouched, and `pos` is the place of a token, not before the place where
/// the parser stood.
pub open spec fn stands(before: State, after: State, pos: Cursor) -> bool {
    &&& after.tokens == before.tokens
    &&& after.wf()
    &&& after.cursor() == pos
    &&& before.current <= after.current
}

/// A list of errors that holds `e` only.
pub(crate) fn only(e: LoxError) -> (errors: Vec<LoxError>)
    ensures
        faults(errors@) == seq![e@],
{
    proof {
        faults_of_one(e);
    }
    vec![e]
}

/// The block that holds `first` and then `second`.
fn pair(first: Stmt, second: Stmt) -> (r: Stmt)
    ensures
        r.model() == (StmtModel::Block { statements: seq![first.model(), second.model()] }),
{
    proof {
        stmt_models_of_two(first, second);
    }
    let statements = vec![first, second];
    assert(statements@ =~= seq![first, second]);
    Stmt::Block { statements }
}

/// Whether a token of kind `kind` begins a statement.
fn begins_statement(kind: TokenKind) -> (r: bool)
    ensures
        r == starts_statement(kind),
{
    match kind {
        TokenKind::Class | TokenKind::Fun | TokenKind::Var | TokenKind::For | TokenKind::If
        | TokenKind::While | TokenKind::Print | TokenKind::Return => true,
        _ => false,
    }
}

/// The text `before`, `kind`, `after`.
fn phrase(before: &str, kind: &str, after: &str) -> (text: String)
    ensures
        text@ == before@ + kind@ + after@,
{
    let mut text = String::from_str(before);
    text.append(kind);
    text.append(after);
    text
}

impl State {
    /// Steps over the token where an error was found, and on to the next
    /// place where a statement may begin.
    pub fn synchronize(&mut self)
        requires
            old(self).wf(),
        ensures
            stands(*old(self), *final(self), synchronize(old(self).tokens@, old(self).cursor())),
            !at_end(old(self).tokens@, old(self).cursor()) ==> old(self).current
                < final(self).current,
    {
        self.advance();
        while !self.is_at_end()
            invariant
                self.wf(),
                self.tokens == old(self).tokens,
                self.current >= old(self).current,
                !at_end(old(self).tokens@, old(self).cursor()) ==> old(self).current
                    < self.current,
                synchronize_from(self.tokens@, self.cursor()) == synchronize(
                    old(self).tokens@,
                    old(self).cursor(),
                ),
            decreases self.tokens.len() - self.current,
        {
            if self.previous().kind() == TokenKind::Semicolon {
                return ;
            }
            if begins_statement(self.peek().kind()) {
                return ;
            }
            self.advance();
        }
    }

    /// exprStmt → expression ";"
    pub fn expression_statement(&mut self) -> (r: Result<Stmt, Vec<LoxError>>)
        requires
            old(self).wf(),
        ensures
            stands(
                *old(self),
                *final(self),
                value_statement(old(self).tokens@, old(self).cursor(), false).1,
            ),
            stmt_outcome(r) == value_statement(
                old(self).tokens@,
                old(self).cursor(),
                false,
            ).0,
            r is Ok ==> old(self).current < final(self).current,
    {
        let value = match self.expression() {
            Ok(e) => e,
            Err(e) => {
                return Err(only(e));
            },
        };
        match self.consume(TokenKind::Semicolon, "Expect ';' after value.") {
            Ok(_) => Ok(Stmt::Expression { expression: Box::new(value) }),
            Err(e) => Err(only(e)),
        }
    }

    /// printStmt, from after `print`: expression ";"
    pub fn print_statement(&mut self) -> (r: Result<Stmt, Vec<LoxError>>)
        requires
            old(self).wf(),
        ensures
            stands(
                *old(self),
                *final(self),
                value_statement(old(self).tokens@, old(self).cursor(), true).1,
            ),
            stmt_outcome(r) == value_statement(old(self).tokens@, old(self).cursor(), true).0,
            r is Ok ==> old(self).current < final(self).current,
    {
        let value = match self.expression() {
            Ok(e) => e,
            Err(e) => {
                return Err(only(e));
            },
        };
        match self.consume(TokenKind::Semicolon, "Expect ';' after value.") {
            Ok(_) => Ok(Stmt::Print { expression: Box::new(value) }),
            Err(e) => Err(only(e)),
        }
    }

    /// varDecl, from after `var`: IDENT ( "=" expression )? ";"
    pub fn var_declaration(&mut self) -> (r: Result<Stmt, Vec<LoxError>>)
        requires
            old(self).wf(),
        ensures
            stands(
                *old(self),
                *final(self),
                var_declaration(old(self).tokens@, old(self).cursor()).1,
            ),
            stmt_outcome(r) == var_declaration(old(self).tokens@, old(self).cursor()).0,
            r is Ok ==> old(self).current < final(self).current,
    {
        let name = match self.consume(TokenKind::Identifier, "Expect variable name.") {
            Ok(token) => token,
            Err(e) => {
                return Err(only(e));
            },
        };
        let initializer = if self.matches(TokenKind::Equal) {
            match self.expression() {
                Ok(e) => e,
                Err(e) => {
                    return Err(only(e));
                },
            }
        } else {
            Expr::Literal { value: LoxPrimitive::Nil }
        };
        match self.consume(TokenKind::Semicolon, "Expect ';' after variable declaration.") {
            Ok(_) => Ok(Stmt::Var { name, initializer: Box::new(initializer) }),
            Err(e) => Err(only(e)),
        }
    }

    /// returnStmt, from after `return`: expression? ";"
    pub fn return_statement(&mut self) -> (r: Result<Stmt, Vec<LoxError>>)
        requires
            old(self).wf(),
            old(self).current > 0,
        ensures
            stands(
                *old(self),
                *final(self),
                return_statement(old(self).tokens@, old(self).cursor()).1,
            ),
            stmt_outcome(r) == return_statement(old(self).tokens@, old(self).cursor()).0,
            r is Ok ==> old(self).current < final(self).current,
    {
        let keyword = self.previous().clone();
        let value = if self.check(TokenKind::Semicolon) {
            Expr::Literal { value: LoxPrimitive::Nil }
        } else {
            match self.expression() {
                Ok(e) => e,
                Err(e) => {
                    return Err(only(e));
                },
            }
        };
        match self.consume(TokenKind::Semicolon, "Expect ';' after return value.") {
            Ok(_) => Ok(Stmt::Return { keyword, expression: Box::new(value) }),
            Err(e) => Err(only(e)),
        }
    }

    /// block, from after its opening brace: declaration* "}"
    pub fn block(&mut self) -> (r: Result<Vec<Stmt>, Vec<LoxError>>)
        requires
            old(self).wf(),
        ensures
            stands(*old(self), *final(self), block(old(self).tokens@, old(self).cursor()).1),
            block_outcome(r) == block(old(self).tokens@, old(self).cursor()).0,
            r is Ok ==> old(self).current < final(self).current,
        decreases old(self).tokens.len() - old(self).current, 5nat,
    {
        let mut statements: Vec<Stmt> = Vec::new();
        let mut errors: Vec<LoxError> = Vec::new();
        proof {
            faults_of_one(arbitrary());
        }
        while !self.check(TokenKind::RightBrace) && !self.is_at_end()
            invariant
                self.wf(),
                self.tokens == old(self).tokens,
                old(self).current <= self.current,
                block_items(
                    self.tokens@,
                    stmt_models(statements@, statements@.len()),
                    faults(errors@),
                    self.cursor(),
                ) == block(old(self).tokens@, old(self).cursor()),
            decreases self.tokens.len() - self.current,
        {
            match self.declaration() {
                Ok(s) => {
                    proof {
                        stmt_models_push(statements@, s);
                    }
                    statements.push(s);
                },
                Err(mut more) => {
                    proof {
                        faults_concat(errors@, more@);
                    }
                    errors.append(&mut more);
                },
            }
        }
        match self.consume(TokenKind::RightBrace, "Expect '}' after block.") {
            Ok(_) => {},
            Err(e) => {
                proof {
                    faults_push(errors@, e);
                }
                errors.push(e);
            },
        }
        if errors.len() == 0 {
            Ok(statements)
        } else {
            Err(errors)
        }
    }

    /// ifStmt, from after `if`: "(" expression ")" statement ( "else" statement )?
    pub fn if_statement(&mut self) -> (r: Result<Stmt, Vec<LoxError>>)
        requires
            old(self).wf(),
        ensures
            stands(
                *old(self),
                *final(self),
                if_statement(old(self).tokens@, old(self).cursor()).1,
            ),
            stmt_outcome(r) == if_statement(old(self).tokens@, old(self).cursor()).0,
            r is Ok ==> old(self).current < final(self).current,
        decreases old(self).tokens.len() - old(self).current, 1nat,
    {
        match self.consume(TokenKind::LeftParen, "Expect '(' after 'if'.") {
            Ok(_) => {},
            Err(e) => {
                return Err(only(e));
            },
        }
        let condition = match self.expression() {
            Ok(e) => e,
            Err(e) => {
                return Err(only(e));
            },
        };
        match self.consume(TokenKind::RightParen, "Expect ')' after if condition.") {
            Ok(_) => {},
            Err(e) => {
                return Err(only(e));
            },
        }
        let then_branch = match self.statement() {
            Ok(s) => s,
            Err(errors) => {
                return Err(errors);
            },
        };
        let else_branch = if self.matches(TokenKind::Else) {
            match self.statement() {
                Ok(s) => Some(Box::new(s)),
                Err(errors) => {
                    return Err(errors);
                },
            }
        } else {
            None
        };
        Ok(
            Stmt::If {
                condition: Box::new(condition),
                then_branch: Box::new(then_branch),
                else_branch,
            },
        )
    }

    /// whileStmt, from after `while`: "(" expression ")" statement
    pub fn while_statement(&mut self) -> (r: Result<Stmt, Vec<LoxError>>)
        requires
            old(self).wf(),
        ensures
            stands(
                *old(self),
                *final(self),
                while_statement(old(self).tokens@, old(self).cursor()).1,
            ),
            stmt_outcome(r) == while_statement(old(self).tokens@, old(self).cursor()).0,
            r is Ok ==> old(self).current < final(self).current,
        decreases old(self).tokens.len() - old(self).current, 1nat,
    {
        match self.consume(TokenKind::LeftParen, "Expect '(' after 'while'.") {
            Ok(_) => {},
            Err(e) => {
                return Err(only(e));
            },
        }
        let condition = match self.expression() {
            Ok(e) => e,
            Err(e) => {
                return Err(only(e));
            },
        };
        match self.consume(TokenKind::RightParen, "Expect ')' after condition.") {
            Ok(_) => {},
            Err(e) => {
                return Err(only(e));
            },
        }
        match self.statement() {
            Ok(body) => Ok(Stmt::While { condition: Box::new(condition), body: Box::new(body) }),
            Err(errors) => Err(errors),
        }
    }

    /// forStmt, from after `for`:
    /// "(" ( varDecl | exprStmt | ";" ) expression? ";" expression? ")" statement
    ///
    /// The loop is rewritten to a `while` loop as it is parsed.
    pub fn for_statement(&mut self) -> (r: Result<Stmt, Vec<LoxError>>)
        requires
            old(self).wf(),
        ensures
            stands(
                *old(self),
                *final(self),
                for_statement(old(self).tokens@, old(self).cursor()).1,
            ),
            stmt_outcome(r) == for_statement(old(self).tokens@, old(self).cursor()).0,
            r is Ok ==> old(self).current < final(self).current,
        decreases old(self).tokens.len() - old(self).current, 1nat,
    {
        match self.consume(TokenKind::LeftParen, "Expect '(' after 'for'.") {
            Ok(_) => {},
            Err(e) => {
                return Err(only(e));
            },
        }
        let initializer = if self.matches(TokenKind::Semicolon) {
            None
        } else if self.matches(TokenKind::Var) {
            match self.var_declaration() {
                Ok(s) => Some(s),
                Err(errors) => {
                    return Err(errors);
                },
            }
        } else {
            match self.expression_statement() {
                Ok(s) => Some(s),
                Err(errors) => {
                    return Err(errors);
                },
            }
        };
        let condition = if self.check(TokenKind::Semicolon) {
            Expr::Literal { value: LoxPrimitive::Bool(true) }
        } else {
            match self.expression() {
                Ok(e) => e,
                Err(e) => {
                    return Err(only(e));
                },
            }
        };
        match self.consume(TokenKind::Semicolon, "Expect ';' after loop condition.") {
            Ok(_) => {},
            Err(e) => {
                return Err(only(e));
            },
        }
        let increment = if self.check(TokenKind::RightParen) {
            None
        } else {
            match self.expression() {
                Ok(e) => Some(e),
                Err(e) => {
                    return Err(only(e));
                },
            }
        };
        match self.consume(TokenKind::RightParen, "Expect ')' after condition.") {
            Ok(_) => {},
            Err(e) => {
                return Err(only(e));
            },
        }
        let mut body = match self.statement() {
            Ok(s) => s,
            Err(errors) => {
                return Err(errors);
            },
        };
        match increment {
            Some(step) => {
                body = pair(body, Stmt::Expression { expression: Box::new(step) });
            },
            None => {},
        }
        body = Stmt::While { condition: Box::new(condition), body: Box::new(body) };
        match initializer {
            Some(first) => {
                body = pair(first, body);
            },
            None => {},
        }
        Ok(body)
    }

    /// statement → forStmt | ifStmt | printStmt | returnStmt | whileStmt
    ///           | block | exprStmt
    pub fn statement(&mut self) -> (r: Result<Stmt, Vec<LoxError>>)
        requires
            old(self).wf(),
        ensures
            stands(
                *old(self),
                *final(self),
                statement(old(self).tokens@, old(self).cursor()).1,
            ),
            stmt_outcome(r) == statement(old(self).tokens@, old(self).cursor()).0,
            r is Ok ==> old(self).current < final(self).current,
        decreases old(self).tokens.len() - old(self).current, 2nat,
    {
        if self.matches(TokenKind::For) {
            self.for_statement()
        } else if self.matches(TokenKind::If) {
            self.if_statement()
        } else if self.matches(TokenKind::Print) {
            self.print_statement()
        } else if self.matches(TokenKind::Return) {
            self.return_statement()
        } else if self.matches(TokenKind::While) {
            self.while_statement()
        } else if self.matches(TokenKind::LeftBrace) {
            match self.block() {
                Ok(statements) => Ok(Stmt::Block { statements }),
                Err(errors) => Err(errors),
            }
        } else {
            self.expression_statement()
        }
    }

    /// function → IDENT "(" parameters? ")" block
    ///
    /// `kind` is the word for what is declared, as the error messages say
    /// it: `function` or `method`.
    pub fn function(&mut self, kind: &str) -> (r: Result<Rc<FunctionDecl>, Vec<LoxError>>)
        requires
            old(self).wf(),
        ensures
            stands(
                *old(self),
                *final(self),
                function(old(self).tokens@, old(self).cursor(), kind@).1,
            ),
            function_outcome(r) == function(old(self).tokens@, old(self).cursor(), kind@).0,
            r is Ok ==> old(self).current < final(self).current,
        decreases old(self).tokens.len() - old(self).current, 1nat,
    {
        let name = match self.consume(
            TokenKind::Identifier,
            phrase("Expect ", kind, ", name.").as_str(),
        ) {
            Ok(token) => token,
            Err(e) => {
                return Err(only(e));
            },
        };
        match self.consume(TokenKind::LeftParen, phrase("Expect '(' after ", kind, " name.").as_str()) {
            Ok(_) => {},
            Err(e) => {
                return Err(only(e));
            },
        }
        let mut params: Vec<Token> = Vec::new();
        if !self.check(TokenKind::RightParen) {
            let ghost start = self.cursor();
            loop
                invariant_except_break
                    more_parameters(self.tokens@, params@, self.cursor()) == more_parameters(
                        self.tokens@,
                        Seq::empty(),
                        start,
                    ),
                invariant
                    self.wf(),
                    self.tokens == old(self).tokens,
                    old(self).current < self.current,
                    function(old(self).tokens@, old(self).cursor(), kind@) == function_body(
                        self.tokens@,
                        old(self).cursor(),
                        name,
                        kind@,
                        more_parameters(self.tokens@, Seq::empty(), start),
                    ),
                ensures
                    self.wf(),
                    self.tokens == old(self).tokens,
                    old(self).current < self.current,
                    more_parameters(self.tokens@, Seq::empty(), start) == (
                        Ok::<Seq<Token>, Fault>(params@),
                        self.cursor(),
                    ),
                decreases self.tokens.len() - self.current,
            {
                if params.len() == MAX_ARGUMENTS {
                    let e = parser_error(self.peek(), "Can't have more than 255 arguments.");
                    self.note(e);
                }
                let param = match self.consume(TokenKind::Identifier, "Expect parameter name.") {
                    Ok(token) => token,
                    Err(e) => {
                        return Err(only(e));
                    },
                };
                params.push(param);
                if !self.matches(TokenKind::Comma) {
                    break ;
                }
            }
        }
        match self.consume(TokenKind::RightParen, "Expect ')' after parameters.") {
            Ok(_) => {},
            Err(e) => {
                return Err(only(e));
            },
        }
        match self.consume(TokenKind::LeftBrace, phrase("Expect '{' before ", kind, " body.").as_str()) {
            Ok(_) => {},
            Err(e) => {
                return Err(only(e));
            },
        }
        match self.block() {
            Ok(body) => Ok(Rc::new(FunctionDecl { name, params, body })),
            Err(errors) => Err(errors),
        }
    }

    /// classDecl, from after `class`: IDENT ( "<" IDENT )? "{" function* "}"
    pub fn class_declaration(&mut self) -> (r: Result<Stmt, Vec<LoxError>>)
        requires
            old(self).wf(),
        ensures
            stands(
                *old(self),
                *final(self),
                class_declaration(old(self).tokens@, old(self).cursor()).1,
            ),
            stmt_outcome(r) == class_declaration(old(self).tokens@, old(self).cursor()).0,
            r is Ok ==> old(self).current < final(self).current,
        decreases old(self).tokens.len() - old(self).current, 1nat,
    {
        let name = match self.consume(TokenKind::Identifier, "Expect class name.") {
            Ok(token) => token,
            Err(e) => {
                return Err(only(e));
            },
        };
        let superclass = if self.matches(TokenKind::Less) {
            match self.consume(TokenKind::Identifier, "Expect superclass name.") {
                Ok(parent) => Some(Box::new(Expr::Variable { name: parent })),
                Err(e) => {
                    return Err(only(e));
                },
            }
        } else {
            None
        };
        match self.consume(TokenKind::LeftBrace, "Expect '{' before class body.") {
            Ok(_) => {},
            Err(e) => {
                return Err(only(e));
            },
        }
        let mut methods: Vec<Rc<FunctionDecl>> = Vec::new();
        let ghost start = self.cursor();
        while !self.check(TokenKind::RightBrace) && !self.is_at_end()
            invariant
                self.wf(),
                self.tokens == old(self).tokens,
                old(self).current < self.current,
                class_methods(
                    self.tokens@,
                    function_models(methods@, methods@.len()),
                    self.cursor(),
                ) == class_methods(self.tokens@, Seq::empty(), start),
                class_methods(self.tokens@, Seq::empty(), start) matches (Err(faults), p)
                    ==> class_declaration(old(self).tokens@, old(self).cursor()) == (
                    Err::<StmtModel, Seq<Fault>>(faults),
                    p,
                ),
            decreases self.tokens.len() - self.current,
        {
            match self.function("method") {
                Ok(method) => {
                    proof {
                        function_models_push(methods@, method);
                    }
                    methods.push(method);
                },
                Err(errors) => {
                    return Err(errors);
                },
            }
        }
        match self.consume(TokenKind::RightBrace, "Expect '}' after class body.") {
            Ok(_) => Ok(Stmt::Class { name, methods, superclass }),
            Err(e) => Err(only(e)),
        }
    }

    /// declaration → classDecl | funDecl | varDecl | statement
    ///
    /// After an error the parser stands at the next place where a
    /// statement may begin; it always moves on, unless it stood at the end
    /// of input.
    pub fn declaration(&mut self) -> (r: Result<Stmt, Vec<LoxError>>)
        requires
            old(self).wf(),
        ensures
            stands(
                *old(self),
                *final(self),
                declaration(old(self).tokens@, old(self).cursor()).1,
            ),
            stmt_outcome(r) == declaration(old(self).tokens@, old(self).cursor()).0,
            !at_end(old(self).tokens@, old(self).cursor()) ==> old(self).current
                < final(self).current,
        decreases old(self).tokens.len() - old(self).current, 3nat,
    {
        let parsed = if self.matches(TokenKind::Class) {
            self.class_declaration()
        } else if self.matches(TokenKind::Fun) {
            match self.function("function") {
                Ok(declaration) => Ok(Stmt::Function { declaration }),
                Err(errors) => Err(errors),
            }
        } else if self.matches(TokenKind::Var) {
            self.var_declaration()
        } else {
            self.statement()
        };
        if parsed.is_err() {
            self.synchronize();
        }
        parsed
    }
}

/// Parses a program: its statements, or else all the errors and
/// diagnostics found in it.
pub fn parse(tokens: Vec<Token>) -> (r: Result<Vec<Stmt>, Errors>)
    requires
        well_terminated(tokens@),
    ensures
        match program(tokens@) {
            Ok(statements) => r matches Ok(parsed) && stmt_models(parsed@, parsed@.len())
                == statements,
            Err(found) => r matches Err(Errors::Parsing(errors)) && faults(errors@) == found,
        },
{
    let mut state = State::new(tokens);
    let mut statements: Vec<Stmt> = Vec::new();
    let mut errors: Vec<LoxError> = Vec::new();
    proof {
        faults_of_one(arbitrary());
    }
    while !state.is_at_end()
        invariant
            state.wf(),
            state.tokens == tokens,
            program_items(
                tokens@,
                stmt_models(statements@, statements@.len()),
                faults(errors@),
                state.cursor(),
            ) == program(tokens@),
        decreases state.tokens.len() - state.current,
    {
        let parsed = state.declaration();
        let ghost after = state.cursor();
        proof {
            faults_concat(errors@, state.diagnostics@);
        }
        errors.append(&mut state.diagnostics);
        assert(state.cursor() == after.cleared()) by {
            assert(faults(state.diagnostics@) =~= Seq::<Fault>::empty());
        }
        match parsed {
            Ok(s) => {
                proof {
                    stmt_models_push(statements@, s);
                }
                statements.push(s);
            },
            Err(mut more) => {
                proof {
                    faults_concat(errors@, more@);
                }
                errors.append(&mut more);
            },
        }
    }
    proof {
        faults_concat(errors@, state.diagnostics@);
    }
    errors.append(&mut state.diagnostics);
    if errors.len() == 0 {
        Ok(statements)
    } else {
        Err(Errors::Parsing(errors))
    }
}

} // verus!
