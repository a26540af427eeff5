//! The syntax tree: expressions and statements.

use crate::token::Token;
use crate::values::LoxPrimitive;
use std::rc::Rc;
use vstd::prelude::*;

verus! {

/// An expression. A `Variable`, an `Assignment` and a `This` are identified
/// by the byte offset of the token they hold; the resolver's depth map is
/// keyed by it.
#[derive(Debug)]
#[allow(inconsistent_fields)]
pub enum Expr {
    Assignment { name: Token, value: Box<Expr> },
    Binary { left: Box<Expr>, operator: Token, right: Box<Expr> },
    Call { callee: Box<Expr>, paren: Token, arguments: Vec<Expr> },
    Get { object: Box<Expr>, name: Token },
    Grouping { expression: Box<Expr> },
    Literal { value: LoxPrimitive },
    Logical { left: Box<Expr>, operator: Token, right: Box<Expr> },
    SetProperty { object: Box<Expr>, name: Token, value: Box<Expr> },
    This { keyword: Token },
    Unary { operator: Token, right: Box<Expr> },
    Variable { name: Token },
}

/// The declaration of a function or of a method: its name, the names of its
/// parameters, and its body. It is shared between the syntax tree and the
/// function values made from it.
#[derive(Debug)]
pub struct FunctionDecl {
    pub name: Token,
    pub params: Vec<Token>,
    pub body: Vec<Stmt>,
}

/// A statement.
#[derive(Debug)]
pub enum Stmt {
    Block { statements: Vec<Stmt> },
    Class { name: Token, methods: Vec<Rc<FunctionDecl>>, superclass: Option<Box<Expr>> },
    Expression { expression: Box<Expr> },
    Function { declaration: Rc<FunctionDecl> },
    If { condition: Box<Expr>, then_branch: Box<Stmt>, else_branch: Option<Box<Stmt>> },
    Print { expression: Box<Expr> },
    Return { keyword: Token, expression: Box<Expr> },
    Var { name: Token, initializer: Box<Expr> },
    While { condition: Box<Expr>, body: Box<Stmt> },
}

/// Trusted: `Rc::clone`, which hands out another owner of the same
/// declaration.
#[verifier::external_body]
pub(crate) fn share(declaration: &Rc<FunctionDecl>) -> (r: Rc<FunctionDecl>)
    ensures
        r == *declaration,
{
    Rc::clone(declaration)
}

/// An expression as a mathematical value: as `Expr`, with sequences in
/// place of vectors.
pub enum ExprModel {
    Assignment { name: Token, value: Box<ExprModel> },
    Binary { left: Box<ExprModel>, operator: Token, right: Box<ExprModel> },
    Call { callee: Box<ExprModel>, paren: Token, arguments: Seq<ExprModel> },
    Get { object: Box<ExprModel>, name: Token },
    Grouping { expression: Box<ExprModel> },
    Literal { literal: LoxPrimitive },
    Logical { left: Box<ExprModel>, operator: Token, right: Box<ExprModel> },
    SetProperty { object: Box<ExprModel>, name: Token, value: Box<ExprModel> },
    This { keyword: Token },
    Unary { operator: Token, right: Box<ExprModel> },
    Variable { name: Token },
}

/// A function declaration as a mathematical value.
pub struct FunctionModel {
    pub name: Token,
    pub params: Seq<Token>,
    pub body: Seq<StmtModel>,
}

/// A statement as a mathematical value.
pub enum StmtModel {
    Block { statements: Seq<StmtModel> },
    Class { name: Token, methods: Seq<FunctionModel>, superclass: Option<Box<ExprModel>> },
    Expression { expression: Box<ExprModel> },
    Function { declaration: Box<FunctionModel> },
    If { condition: Box<ExprModel>, then_branch: Box<StmtModel>, else_branch: Option<Box<StmtModel>> },
    Print { expression: Box<ExprModel> },
    Return { keyword: Token, expression: Box<ExprModel> },
    Var { name: Token, initializer: Box<ExprModel> },
    While { condition: Box<ExprModel>, body: Box<StmtModel> },
}

/// The models of the first `n` of `es`.
pub open spec fn expr_models(es: Seq<Expr>, n: nat) -> Seq<ExprModel>
    decreases es, n,
{
    if n == 0 || n > es.len() {
        Seq::empty()
    } else {
        expr_models(es, (n - 1) as nat).push(es[n - 1].model())
    }
}

impl Expr {
    /// This expression as a mathematical value.
    pub open spec fn model(&self) -> ExprModel
        decreases self,
    {
        match *self {
            Expr::Assignment { name, value } => ExprModel::Assignment {
                name,
                value: Box::new(value.model()),
            },
            Expr::Binary { left, operator, right } => ExprModel::Binary {
                left: Box::new(left.model()),
                operator,
                right: Box::new(right.model()),
            },
            Expr::Call { callee, paren, arguments } => ExprModel::Call {
                callee: Box::new(callee.model()),
                paren,
                arguments: expr_models(arguments@, arguments@.len()),
            },
            Expr::Get { object, name } => ExprModel::Get { object: Box::new(object.model()), name },
            Expr::Grouping { expression } => ExprModel::Grouping { expression: Box::new(expression.model()) },
            Expr::Literal { value } => ExprModel::Literal { literal: value },
            Expr::Logical { left, operator, right } => ExprModel::Logical {
                left: Box::new(left.model()),
                operator,
                right: Box::new(right.model()),
            },
            Expr::SetProperty { object, name, value } => ExprModel::SetProperty {
                object: Box::new(object.model()),
                name,
                value: Box::new(value.model()),
            },
            Expr::This { keyword } => ExprModel::This { keyword },
            Expr::Unary { operator, right } => ExprModel::Unary { operator, right: Box::new(right.model()) },
            Expr::Variable { name } => ExprModel::Variable { name },
        }
    }
}

/// The models of the first `n` of `ss`.
pub open spec fn stmt_models(ss: Seq<Stmt>, n: nat) -> Seq<StmtModel>
    decreases ss, n,
{
    if n == 0 || n > ss.len() {
        Seq::empty()
    } else {
        stmt_models(ss, (n - 1) as nat).push(ss[n - 1].model())
    }
}

/// The models of the first `n` of `ms`.
pub open spec fn function_models(ms: Seq<Rc<FunctionDecl>>, n: nat) -> Seq<FunctionModel>
    decreases ms, n,
{
    if n == 0 || n > ms.len() {
        Seq::empty()
    } else {
        function_models(ms, (n - 1) as nat).push(ms[n - 1].model())
    }
}

impl FunctionDecl {
    /// This declaration as a mathematical value.
    pub open spec fn model(&self) -> FunctionModel
        decreases self,
    {
        FunctionModel {
            name: self.name,
            params: self.params@,
            body: stmt_models(self.body@, self.body@.len()),
        }
    }
}

impl Stmt {
    /// This statement as a mathematical value.
    pub open spec fn model(&self) -> StmtModel
        decreases self,
    {
        match *self {
            Stmt::Block { statements } => StmtModel::Block {
                statements: stmt_models(statements@, statements@.len()),
            },
            Stmt::Class { name, methods, superclass } => StmtModel::Class {
                name,
                methods: function_models(methods@, methods@.len()),
                superclass: match superclass {
                    Some(expression) => Some(Box::new(expression.model())),
                    None => None,
                },
            },
            Stmt::Expression { expression } => StmtModel::Expression {
                expression: Box::new(expression.model()),
            },
            Stmt::Function { declaration } => StmtModel::Function {
                declaration: Box::new(declaration.model()),
            },
            Stmt::If { condition, then_branch, else_branch } => StmtModel::If {
                condition: Box::new(condition.model()),
                then_branch: Box::new(then_branch.model()),
                else_branch: match else_branch {
                    Some(branch) => Some(Box::new(branch.model())),
                    None => None,
                },
            },
            Stmt::Print { expression } => StmtModel::Print { expression: Box::new(expression.model()) },
            Stmt::Return { keyword, expression } => StmtModel::Return {
                keyword,
                expression: Box::new(expression.model()),
            },
            Stmt::Var { name, initializer } => StmtModel::Var {
                name,
                initializer: Box::new(initializer.model()),
            },
            Stmt::While { condition, body } => StmtModel::While {
                condition: Box::new(condition.model()),
                body: Box::new(body.model()),
            },
        }
    }
}

/// The models of the first expressions of a sequence do not depend on what
/// follows them.
pub proof fn expr_models_of_prefix(es: Seq<Expr>, e: Expr, n: nat)
    requires
        n <= es.len(),
    ensures
        expr_models(es.push(e), n) == expr_models(es, n),
    decreases n,
{
    if n > 0 {
        expr_models_of_prefix(es, e, (n - 1) as nat);
        assert(es.push(e)[n - 1] == es[n - 1]);
    }
}

/// The models of a sequence with one more expression are the models of the
/// sequence with one more model.
pub proof fn expr_models_push(es: Seq<Expr>, e: Expr)
    ensures
        expr_models(es.push(e), es.len() + 1) == expr_models(es, es.len()).push(e.model()),
{
    expr_models_of_prefix(es, e, es.len());
}

/// The models of the first statements of a sequence do not depend on what
/// follows them.
pub proof fn stmt_models_of_prefix(ss: Seq<Stmt>, s: Stmt, n: nat)
    requires
        n <= ss.len(),
    ensures
        stmt_models(ss.push(s), n) == stmt_models(ss, n),
    decreases n,
{
    if n > 0 {
        stmt_models_of_prefix(ss, s, (n - 1) as nat);
        assert(ss.push(s)[n - 1] == ss[n - 1]);
    }
}

/// The models of a sequence with one more statement are the models of the
/// sequence with one more model.
pub proof fn stmt_models_push(ss: Seq<Stmt>, s: Stmt)
    ensures
        stmt_models(ss.push(s), ss.len() + 1) == stmt_models(ss, ss.len()).push(s.model()),
{
    stmt_models_of_prefix(ss, s, ss.len());
}

/// The models of the first declarations of a sequence do not depend on what
/// follows them.
pub proof fn function_models_of_prefix(ms: Seq<Rc<FunctionDecl>>, m: Rc<FunctionDecl>, n: nat)
    requires
        n <= ms.len(),
    ensures
        function_models(ms.push(m), n) == function_models(ms, n),
    decreases n,
{
    if n > 0 {
        function_models_of_prefix(ms, m, (n - 1) as nat);
        assert(ms.push(m)[n - 1] == ms[n - 1]);
    }
}

/// The models of a sequence with one more declaration are the models of
/// the sequence with one more model.
pub proof fn function_models_push(ms: Seq<Rc<FunctionDecl>>, m: Rc<FunctionDecl>)
    ensures
        function_models(ms.push(m), ms.len() + 1) == function_models(ms, ms.len()).push(m.model()),
{
    function_models_of_prefix(ms, m, ms.len());
}

/// There are as many models as expressions.
pub proof fn expr_models_len(es: Seq<Expr>, n: nat)
    requires
        n <= es.len(),
    ensures
        expr_models(es, n).len() == n,
    decreases n,
{
    if n > 0 {
        expr_models_len(es, (n - 1) as nat);
    }
}

/// The models of two statements.
pub proof fn stmt_models_of_two(first: Stmt, second: Stmt)
    ensures
        stmt_models(seq![first, second], 2) == seq![first.model(), second.model()],
{
    reveal_with_fuel(stmt_models, 3);
    assert(stmt_models(seq![first, second], 2) =~= seq![first.model(), second.model()]);
}

} // verus!
