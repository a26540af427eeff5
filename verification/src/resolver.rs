//! The resolver: a static pass over the syntax tree that records, for every
//! expression that refers to a local binding, how many scopes lie between
//! the expression and the binding, and that rejects programs which misuse
//! `return`, `this`, or a variable in its own initializer.
//!
//! What the pass does is stated on `Resolution`, a mathematical model of the
//! resolver's state; the executable resolver is proved to follow it. The
//! resolver also keeps a record, for proofs only, of where each use that it
//! resolved stood; the depth map is proved to agree with that record over a
//! whole program.

use crate::ast::{Expr, FunctionDecl, Stmt};
use crate::errors::{error, spec_error, Fault, LoxError};
use crate::parser::{parser_error, spec_parser_error};
use crate::token::{same_text, Token};
use crate::values::LoxPrimitive;
use std::collections::HashMap;
use std::rc::Rc;
use vstd::hash_map::StringHashMap;
use vstd::prelude::*;
use vstd::string::StringExecFns;

verus! {

/// What kind of class body the resolver is in.
#[derive(Debug, Clone, Copy, PartialEq, Eq, Structural)]
pub enum ClassType {
    TopLevel,
    Class,
    Subclass,
}

/// What kind of function body the resolver is in.
#[derive(Debug, Clone, Copy, PartialEq, Eq, Structural)]
pub enum FunctionType {
    TopLevel,
    Function,
    Method,
    Initializer,
}

/// The state of a resolver: the stack of local scopes, innermost last, each
/// a map from a declared name to whether it is defined yet; the depth map;
/// the kind of function and of class around the place being resolved; and
/// a record of the uses that were resolved, which only proofs read.
#[verifier::ext_equal]
pub struct Resolution {
    pub scopes: Seq<Map<Seq<char>, bool>>,
    pub locals: Map<usize, usize>,
    pub function: FunctionType,
    pub class: ClassType,
    /// For the key of every use of a name that was resolved, where the use
    /// stood: the name, and the scopes that were open there.
    pub seen: Map<usize, Use>,
}

/// A use of a name: the name, and the stack of the scopes that are open
/// where it stands, innermost last.
pub struct Use {
    pub scopes: Seq<Map<Seq<char>, bool>>,
    pub name: Seq<char>,
}

/// How a pass of the resolver fails: the error, and the depth map as it
/// stood then, which holds what was recorded before the failing place.
pub struct Failure {
    pub fault: Fault,
    pub locals: Map<usize, usize>,
}

/// How many scopes lie between the innermost scope and the innermost one
/// that declares `name`; `None` where no scope declares it, which makes the
/// name a global one.
pub open spec fn depth_of(scopes: Seq<Map<Seq<char>, bool>>, name: Seq<char>) -> Option<nat>
    decreases scopes.len(),
{
    if scopes.len() == 0 {
        None
    } else if scopes.last().contains_key(name) {
        Some(0)
    } else {
        match depth_of(scopes.drop_last(), name) {
            Some(d) => Some(d + 1),
            None => None,
        }
    }
}

/// Whether `expression` is the literal `nil`, which is what the parser puts
/// in a `return` without a value.
pub open spec fn is_nil_literal(expression: Expr) -> bool {
    expression matches Expr::Literal { value: LoxPrimitive::Nil }
}

impl Resolution {
    /// The failure of a pass that finds `fault` in this state.
    pub open spec fn fails(self, fault: Fault) -> Failure {
        Failure { fault, locals: self.locals }
    }

    /// With a new innermost scope that declares nothing.
    pub open spec fn begin_scope(self) -> Resolution {
        Resolution { scopes: self.scopes.push(Map::empty()), ..self }
    }

    /// Without the innermost scope.
    pub open spec fn end_scope(self) -> Resolution {
        if self.scopes.len() == 0 {
            self
        } else {
            Resolution { scopes: self.scopes.drop_last(), ..self }
        }
    }

    /// With `name` bound to `defined` in the innermost scope; unchanged
    /// outside every scope, where names are global.
    pub open spec fn put(self, name: Seq<char>, defined: bool) -> Resolution {
        if self.scopes.len() == 0 {
            self
        } else {
            Resolution {
                scopes: self.scopes.update(
                    self.scopes.len() - 1,
                    self.scopes.last().insert(name, defined),
                ),
                ..self
            }
        }
    }

    /// Declares `name` in the innermost scope, not yet defined. A second
    /// declaration in one local scope is an error.
    pub open spec fn declare(self, name: Token) -> Result<Resolution, Failure> {
        if self.scopes.len() > 0 && self.scopes.last().contains_key(name.lexeme@) {
            Err(
                self.fails(
                    spec_parser_error(name, "Already a variable with this name in this scope."@),
                ),
            )
        } else {
            Ok(self.put(name.lexeme@, false))
        }
    }

    /// Marks `name` as defined in the innermost scope.
    pub open spec fn define(self, name: Token) -> Resolution {
        self.put(name.lexeme@, true)
    }

    /// Records the depth of the binding that the expression with key `key`
    /// refers to by `name`; where the name is global, the depth map holds
    /// nothing under the key.
    pub open spec fn resolve_local(self, key: usize, name: Seq<char>) -> Resolution {
        let seen = self.seen.insert(key, Use { scopes: self.scopes, name });
        match depth_of(self.scopes, name) {
            Some(d) => Resolution { locals: self.locals.insert(key, d as usize), seen, ..self },
            None => Resolution { locals: self.locals.remove(key), seen, ..self },
        }
    }

    /// Whether the depth map agrees with the record of the uses: under the
    /// key of every use that was resolved it holds the depth of the
    /// nearest scope, of those open at the use, that declares the name; and
    /// it holds nothing under the key where none of them declares it.
    pub open spec fn recorded(self) -> bool {
        forall|key: usize| #[trigger]
            self.seen.contains_key(key) ==> {
                let used = self.seen[key];
                &&& used.scopes.len() <= usize::MAX
                &&& match depth_of(used.scopes, used.name) {
                    Some(d) => self.locals.contains_key(key) && self.locals[key] == d,
                    None => !self.locals.contains_key(key),
                }
            }
    }

    /// Whether `self` has a record of every use that `before` had one of,
    /// and of every use whose key is in `uses`; and agrees with its record
    /// if `before` did.
    pub open spec fn keeps_record(self, before: Resolution, uses: Set<usize>) -> bool {
        &&& forall|key: usize|
            uses.contains(key) || before.seen.contains_key(key) ==> #[trigger] self.seen.contains_key(
                key,
            )
        &&& before.recorded() ==> self.recorded()
    }

    /// Resolves an expression.
    pub open spec fn expr(self, e: Expr) -> Result<Resolution, Failure>
        decreases e, 0nat,
    {
        match e {
            Expr::Variable { name } => if self.scopes.len() > 0 && self.scopes.last().contains_key(
                name.lexeme@,
            ) && !self.scopes.last()[name.lexeme@] {
                Err(
                    self.fails(
                        spec_error(name.line, "Can't read local variable in its own initializer."@),
                    ),
                )
            } else {
                Ok(self.resolve_local(name.byte, name.lexeme@))
            },
            Expr::Assignment { name, value } => match self.expr(*value) {
                Ok(st) => Ok(st.resolve_local(name.byte, name.lexeme@)),
                Err(fault) => Err(fault),
            },
            Expr::Binary { left, operator: _, right } => match self.expr(*left) {
                Ok(st) => st.expr(*right),
                Err(fault) => Err(fault),
            },
            Expr::Logical { left, operator: _, right } => match self.expr(*left) {
                Ok(st) => st.expr(*right),
                Err(fault) => Err(fault),
            },
            Expr::Call { callee, paren: _, arguments } => match self.expr(*callee) {
                Ok(st) => st.exprs(arguments@, 0),
                Err(fault) => Err(fault),
            },
            Expr::Grouping { expression } => self.expr(*expression),
            Expr::Unary { operator: _, right } => self.expr(*right),
            Expr::Literal { value: _ } => Ok(self),
            Expr::Get { object, name: _ } => self.expr(*object),
            Expr::SetProperty { object, name: _, value } => match self.expr(*value) {
                Ok(st) => st.expr(*object),
                Err(fault) => Err(fault),
            },
            Expr::This { keyword } => if self.class == ClassType::TopLevel {
                Err(
                    self.fails(
                        spec_parser_error(keyword, "Can't use 'this' outside of a class."@),
                    ),
                )
            } else {
                Ok(self.resolve_local(keyword.byte, keyword.lexeme@))
            },
        }
    }

    /// Resolves the expressions `es[from..]` in order.
    pub open spec fn exprs(self, es: Seq<Expr>, from: int) -> Result<Resolution, Failure>
        decreases es, es.len() - from,
    {
        if from < 0 || from >= es.len() {
            Ok(self)
        } else {
            match self.expr(es[from]) {
                Ok(st) => st.exprs(es, from + 1),
                Err(fault) => Err(fault),
            }
        }
    }

    /// Resolves a statement.
    pub open spec fn stmt(self, s: Stmt) -> Result<Resolution, Failure>
        decreases s, 0nat,
    {
        match s {
            Stmt::Block { statements } => match self.begin_scope().stmts(statements@, 0) {
                Ok(st) => Ok(st.end_scope()),
                Err(fault) => Err(fault),
            },
            Stmt::Var { name, initializer } => match self.declare(name) {
                Ok(declared) => match declared.expr(*initializer) {
                    Ok(st) => Ok(st.define(name)),
                    Err(fault) => Err(fault),
                },
                Err(fault) => Err(fault),
            },
            Stmt::Function { declaration } => match self.declare(declaration.name) {
                Ok(declared) => declared.define(declaration.name).function(
                    *declaration,
                    FunctionType::Function,
                ),
                Err(fault) => Err(fault),
            },
            Stmt::Expression { expression } => self.expr(*expression),
            Stmt::Print { expression } => self.expr(*expression),
            Stmt::Return { keyword, expression } => if self.function == FunctionType::TopLevel {
                Err(
                    self.fails(
                        spec_parser_error(keyword, "Can't return from top-level code."@),
                    ),
                )
            } else if self.function == FunctionType::Initializer {
                if is_nil_literal(*expression) {
                    Ok(self)
                } else {
                    Err(
                        self.fails(
                            spec_parser_error(keyword, "Can't return a value from an initializer."@),
                        ),
                    )
                }
            } else {
                self.expr(*expression)
            },
            Stmt::If { condition, then_branch, else_branch } => match self.expr(*condition) {
                Ok(st) => match st.stmt(*then_branch) {
                    Ok(st2) => match else_branch {
                        Some(branch) => st2.stmt(*branch),
                        None => Ok(st2),
                    },
                    Err(fault) => Err(fault),
                },
                Err(fault) => Err(fault),
            },
            Stmt::While { condition, body } => match self.expr(*condition) {
                Ok(st) => st.stmt(*body),
                Err(fault) => Err(fault),
            },
            Stmt::Class { name, methods, superclass } => {
                let entered = Resolution { class: ClassType::Class, ..self };
                match entered.declare(name) {
                    Err(fault) => Err(fault),
                    Ok(declared) => match declared.define(name).superclass(name, superclass) {
                        Err(fault) => Err(fault),
                        Ok(st) => match st.begin_scope().put("this"@, true).put(
                            "inner"@,
                            true,
                        ).methods(methods@, 0) {
                            Err(fault) => Err(fault),
                            Ok(done) => {
                                let closed = if superclass is Some {
                                    done.end_scope().end_scope()
                                } else {
                                    done.end_scope()
                                };
                                Ok(Resolution { class: self.class, ..closed })
                            },
                        },
                    },
                }
            },
        }
    }

    /// Resolves the superclass clause of the class `name`: a class cannot
    /// name itself; the superclass is a variable like any other; and the
    /// class body gets a scope that holds `super`.
    pub open spec fn superclass(self, name: Token, superclass: Option<Box<Expr>>) -> Result<
        Resolution,
        Failure,
    > {
        match superclass {
            None => Ok(self),
            Some(expression) => {
                let entered = Resolution { class: ClassType::Subclass, ..self };
                if (*expression matches Expr::Variable { name: parent } && parent.lexeme@
                    == name.lexeme@) {
                    Err(entered.fails(spec_parser_error(
                            expression->Variable_name,
                            "A class can't inherit from itself."@,
                        )))
                } else {
                    match entered.expr(*expression) {
                        Ok(st) => Ok(st.begin_scope().put("super"@, true)),
                        Err(fault) => Err(fault),
                    }
                }
            },
        }
    }

    /// Resolves the statements `ss[from..]` in order.
    pub open spec fn stmts(self, ss: Seq<Stmt>, from: int) -> Result<Resolution, Failure>
        decreases ss, ss.len() - from,
    {
        if from < 0 || from >= ss.len() {
            Ok(self)
        } else {
            match self.stmt(ss[from]) {
                Ok(st) => st.stmts(ss, from + 1),
                Err(fault) => Err(fault),
            }
        }
    }

    /// Resolves the methods `ms[from..]` of a class in order: a method named
    /// `init` as an initializer.
    pub open spec fn methods(self, ms: Seq<Rc<FunctionDecl>>, from: int) -> Result<
        Resolution,
        Failure,
    >
        decreases ms, ms.len() - from,
    {
        if from < 0 || from >= ms.len() {
            Ok(self)
        } else {
            let kind = if ms[from].name.lexeme@ == "init"@ {
                FunctionType::Initializer
            } else {
                FunctionType::Method
            };
            match self.function(*ms[from], kind) {
                Ok(st) => st.methods(ms, from + 1),
                Err(fault) => Err(fault),
            }
        }
    }

    /// Declares and defines the parameters `params[from..]` in the innermost
    /// scope.
    pub open spec fn params(self, params: Seq<Token>, from: int) -> Result<Resolution, Failure>
        decreases params.len() - from,
    {
        if from < 0 || from >= params.len() {
            Ok(self)
        } else {
            match self.declare(params[from]) {
                Ok(st) => st.define(params[from]).params(params, from + 1),
                Err(fault) => Err(fault),
            }
        }
    }

    /// Resolves the body of a function of the given kind in a scope of its
    /// own that holds the parameters.
    pub open spec fn function(self, declaration: FunctionDecl, kind: FunctionType) -> Result<
        Resolution,
        Failure,
    >
        decreases declaration, 0nat,
    {
        let entered = Resolution { function: kind, ..self }.begin_scope();
        match entered.params(declaration.params@, 0) {
            Err(fault) => Err(fault),
            Ok(st) => match st.stmts(declaration.body@, 0) {
                Err(fault) => Err(fault),
                Ok(done) => Ok(Resolution { function: self.function, ..done.end_scope() }),
            },
        }
    }
}

/// A recorded depth always points into the scope stack: it is less than the
/// number of scopes, the scope it points at declares the name, and no scope
/// further in does.
pub proof fn depth_is_within_the_stack(scopes: Seq<Map<Seq<char>, bool>>, name: Seq<char>)
    ensures
        match depth_of(scopes, name) {
            Some(d) => {
                &&& d < scopes.len()
                &&& scopes[scopes.len() - 1 - d].contains_key(name)
                &&& forall|nearer: int|
                    0 <= nearer < d ==> !(#[trigger] scopes[scopes.len() - 1 - nearer]).contains_key(name)
            },
            None => forall|i: int| 0 <= i < scopes.len() ==> !(#[trigger] scopes[i]).contains_key(name),
        },
    decreases scopes.len(),
{
    if scopes.len() > 0 && !scopes.last().contains_key(name) {
        let rest = scopes.drop_last();
        depth_is_within_the_stack(rest, name);
        match depth_of(rest, name) {
            Some(d) => {
                assert(rest[rest.len() - 1 - d] == scopes[scopes.len() - 1 - (d + 1)]);
                assert forall|nearer: int| 0 <= nearer < d + 1 implies !(
                #[trigger] scopes[scopes.len() - 1 - nearer]).contains_key(name) by {
                    if nearer > 0 {
                        assert(rest[rest.len() - 1 - (nearer - 1)] == scopes[scopes.len() - 1
                            - nearer]);
                    }
                }
            },
            None => {
                assert forall|i: int| 0 <= i < scopes.len() implies !(
                #[trigger] scopes[i]).contains_key(name) by {
                    if i < rest.len() {
                        assert(rest[i] == scopes[i]);
                    }
                }
            },
        }
    }
}

/// The resolver records a depth for an expression exactly when some scope
/// declares the name it uses, that is when the name is not a global one;
/// and the depth it records is less than the number of scopes around the
/// expression.
pub proof fn local_uses_get_a_depth(st: Resolution, key: usize, name: Seq<char>)
    requires
        st.scopes.len() <= usize::MAX,
    ensures
        (exists|i: int| 0 <= i < st.scopes.len() && (#[trigger] st.scopes[i]).contains_key(name))
            ==> {
            &&& st.resolve_local(key, name).locals.contains_key(key)
            &&& st.resolve_local(key, name).locals[key] < st.scopes.len()
        },
        !(exists|i: int| 0 <= i < st.scopes.len() && (#[trigger] st.scopes[i]).contains_key(name))
            ==> !st.resolve_local(key, name).locals.contains_key(key),
{
    depth_is_within_the_stack(st.scopes, name);
}

/// The keys of the uses of names in an expression: those of its
/// `Variable`, `Assignment` and `This` nodes.
pub open spec fn expr_uses(e: Expr) -> Set<usize>
    decreases e, 0nat,
{
    match e {
        Expr::Variable { name } => set![name.byte],
        Expr::This { keyword } => set![keyword.byte],
        Expr::Assignment { name, value } => expr_uses(*value).insert(name.byte),
        Expr::Binary { left, operator: _, right } => expr_uses(*left).union(expr_uses(*right)),
        Expr::Logical { left, operator: _, right } => expr_uses(*left).union(expr_uses(*right)),
        Expr::Call { callee, paren: _, arguments } => expr_uses(*callee).union(
            exprs_uses(arguments@, 0),
        ),
        Expr::Grouping { expression } => expr_uses(*expression),
        Expr::Unary { operator: _, right } => expr_uses(*right),
        Expr::Literal { value: _ } => Set::empty(),
        Expr::Get { object, name: _ } => expr_uses(*object),
        Expr::SetProperty { object, name: _, value } => expr_uses(*value).union(expr_uses(*object)),
    }
}

/// The keys of the uses of names in the expressions `es[from..]`.
pub open spec fn exprs_uses(es: Seq<Expr>, from: int) -> Set<usize>
    decreases es, es.len() - from,
{
    if from < 0 || from >= es.len() {
        Set::empty()
    } else {
        expr_uses(es[from]).union(exprs_uses(es, from + 1))
    }
}

/// The keys of the uses of names in a statement.
pub open spec fn stmt_uses(s: Stmt) -> Set<usize>
    decreases s, 0nat,
{
    match s {
        Stmt::Block { statements } => stmts_uses(statements@, 0),
        Stmt::Var { name: _, initializer } => expr_uses(*initializer),
        Stmt::Function { declaration } => stmts_uses(declaration.body@, 0),
        Stmt::Expression { expression } => expr_uses(*expression),
        Stmt::Print { expression } => expr_uses(*expression),
        Stmt::Return { keyword: _, expression } => expr_uses(*expression),
        Stmt::If { condition, then_branch, else_branch } => expr_uses(*condition).union(
            stmt_uses(*then_branch),
        ).union(
            match else_branch {
                Some(branch) => stmt_uses(*branch),
                None => Set::empty(),
            },
        ),
        Stmt::While { condition, body } => expr_uses(*condition).union(stmt_uses(*body)),
        Stmt::Class { name: _, methods, superclass } => (match superclass {
            Some(expression) => expr_uses(*expression),
            None => Set::empty(),
        }).union(methods_uses(methods@, 0)),
    }
}

/// The keys of the uses of names in the statements `ss[from..]`.
pub open spec fn stmts_uses(ss: Seq<Stmt>, from: int) -> Set<usize>
    decreases ss, ss.len() - from,
{
    if from < 0 || from >= ss.len() {
        Set::empty()
    } else {
        stmt_uses(ss[from]).union(stmts_uses(ss, from + 1))
    }
}

/// The keys of the uses of names in the bodies of the methods `ms[from..]`.
pub open spec fn methods_uses(ms: Seq<Rc<FunctionDecl>>, from: int) -> Set<usize>
    decreases ms, ms.len() - from,
{
    if from < 0 || from >= ms.len() {
        Set::empty()
    } else {
        stmts_uses(ms[from].body@, 0).union(methods_uses(ms, from + 1))
    }
}

/// What a depth map that agrees with the record of the uses says of a use:
/// it holds a depth under the key of the use exactly when one of the scopes
/// open at the use declares the name, which is when the name is no global
/// one; and that depth is less than the number of those scopes and leads to
/// the nearest of them that declares the name.
pub proof fn resolved_use_has_its_depth(st: Resolution, key: usize)
    requires
        st.recorded(),
        st.seen.contains_key(key),
    ensures
        ({
            let used = st.seen[key];
            let open = used.scopes.len();
            &&& st.locals.contains_key(key) <==> exists|i: int|
                0 <= i < open && (#[trigger] used.scopes[i]).contains_key(used.name)
            &&& st.locals.contains_key(key) ==> {
                let d = st.locals[key] as int;
                &&& 0 <= d < open
                &&& used.scopes[open - 1 - d].contains_key(used.name)
                &&& forall|nearer: int|
                    0 <= nearer < d ==> !(#[trigger] used.scopes[open - 1 - nearer]).contains_key(
                        used.name,
                    )
            }
        }),
{
    let used = st.seen[key];
    depth_is_within_the_stack(used.scopes, used.name);
    match depth_of(used.scopes, used.name) {
        Some(d) => {
            assert(used.scopes[used.scopes.len() - 1 - d].contains_key(used.name));
        },
        None => {},
    }
}

/// After a whole program was resolved, the depth map holds a depth under
/// the key of a `Variable`, `Assignment` or `This` node of the program
/// exactly when a scope that was open at the node declares the name, that
/// is when the name is no global one; the depth is less than the number of
/// the scopes open there, and leads to the nearest of them that declares
/// the name. This is said of the last node with that key; no two nodes of
/// one parse share a key.
pub proof fn resolved_program_has_every_depth(
    start: Resolution,
    end: Resolution,
    program: Seq<Stmt>,
    key: usize,
)
    requires
        start.recorded(),
        end.keeps_record(start, stmts_uses(program, 0)),
        stmts_uses(program, 0).contains(key),
    ensures
        end.seen.contains_key(key),
        ({
            let used = end.seen[key];
            let open = used.scopes.len();
            &&& end.locals.contains_key(key) <==> exists|i: int|
                0 <= i < open && (#[trigger] used.scopes[i]).contains_key(used.name)
            &&& end.locals.contains_key(key) ==> {
                let d = end.locals[key] as int;
                &&& 0 <= d < open
                &&& used.scopes[open - 1 - d].contains_key(used.name)
                &&& forall|nearer: int|
                    0 <= nearer < d ==> !(#[trigger] used.scopes[open - 1 - nearer]).contains_key(
                        used.name,
                    )
            }
        }),
{
    resolved_use_has_its_depth(end, key);
}

/// Whether an executable pass did what the model says: on success the
/// resolver is in the state that the model gives; on failure the error is
/// the one that the model gives, and the depth map holds what was recorded
/// before the failing place.
pub open spec fn follows(
    model: Result<Resolution, Failure>,
    after: Resolution,
    r: Result<(), LoxError>,
) -> bool {
    match model {
        Ok(st) => r is Ok && after == st,
        Err(failure) => r matches Err(e) && e@ == failure.fault && after.locals == failure.locals,
    }
}

/// The resolver.
pub struct Resolver {
    pub scopes: Vec<StringHashMap<bool>>,
    pub locals: HashMap<usize, usize>,
    pub current_function: FunctionType,
    pub current_class: ClassType,
    /// The record of the uses that were resolved.
    pub seen: Ghost<Map<usize, Use>>,
}

impl View for Resolver {
    type V = Resolution;

    open spec fn view(&self) -> Resolution {
        Resolution {
            scopes: Seq::new(self.scopes.len() as nat, |i: int| self.scopes[i]@),
            locals: self.locals@,
            function: self.current_function,
            class: self.current_class,
            seen: self.seen@,
        }
    }
}

impl Resolver {
    /// A resolver at the top level of a program, outside every scope,
    /// function and class, that adds to the depth map `locals`.
    pub fn new(locals: HashMap<usize, usize>) -> (resolver: Resolver)
        ensures
            resolver@ == (Resolution {
                scopes: Seq::empty(),
                locals: locals@,
                function: FunctionType::TopLevel,
                class: ClassType::TopLevel,
                seen: Map::empty(),
            }),
            resolver@.recorded(),
    {
        let resolver = Resolver {
            scopes: Vec::new(),
            locals,
            current_function: FunctionType::TopLevel,
            current_class: ClassType::TopLevel,
            seen: Ghost(Map::empty()),
        };
        assert(resolver@.scopes =~= Seq::empty());
        resolver
    }

    /// Hands the depth map over.
    pub fn into_locals(self) -> (locals: HashMap<usize, usize>)
        ensures
            locals@ == self@.locals,
    {
        self.locals
    }

    fn begin_scope(&mut self)
        ensures
            final(self)@ == old(self)@.begin_scope(),
    {
        self.scopes.push(StringHashMap::new());
        assert(self@.scopes =~= old(self)@.begin_scope().scopes);
    }

    fn end_scope(&mut self)
        ensures
            final(self)@ == old(self)@.end_scope(),
    {
        if self.scopes.len() > 0 {
            self.scopes.pop();
        }
        assert(self@.scopes =~= old(self)@.end_scope().scopes);
    }

    fn put(&mut self, name: &str, defined: bool)
        ensures
            final(self)@ == old(self)@.put(name@, defined),
    {
        let n = self.scopes.len();
        if n > 0 {
            self.scopes[n - 1].insert(String::from_str(name), defined);
        }
        assert(self@.scopes =~= old(self)@.put(name@, defined).scopes);
    }

    fn declare(&mut self, name: &Token) -> (r: Result<(), LoxError>)
        ensures
            follows(old(self)@.declare(*name), final(self)@, r),
    {
        let n = self.scopes.len();
        if n > 0 && self.scopes[n - 1].contains_key(name.lexeme.as_str()) {
            Err(parser_error(name, "Already a variable with this name in this scope."))
        } else {
            self.put(name.lexeme.as_str(), false);
            Ok(())
        }
    }

    fn define(&mut self, name: &Token)
        ensures
            final(self)@ == old(self)@.define(*name),
    {
        self.put(name.lexeme.as_str(), true);
    }

    /// Looks for the innermost scope that declares `name`: how many scopes
    /// lie between it and the innermost scope.
    fn depth(&self, name: &str) -> (r: Option<usize>)
        ensures
            match depth_of(self@.scopes, name@) {
                Some(d) => r == Some(d as usize) && d < self.scopes.len(),
                None => r is None,
            },
    {
        let n = self.scopes.len();
        let mut d: usize = 0;
        proof {
            assert(self@.scopes.subrange(0, n as int) =~= self@.scopes);
            depth_is_within_the_stack(self@.scopes, name@);
        }
        while d < n
            invariant
                n == self.scopes.len(),
                d <= n,
                match depth_of(self@.scopes.subrange(0, n - d), name@) {
                    Some(rest) => depth_of(self@.scopes, name@) == Some((rest + d) as nat) && rest < n - d,
                    None => depth_of(self@.scopes, name@) is None,
                },
            decreases n - d,
        {
            let ghost here = self@.scopes.subrange(0, n - d);
            assert(here.last() == self.scopes[n - 1 - d]@);
            assert(here.drop_last() =~= self@.scopes.subrange(0, n - (d + 1)));
            proof {
                depth_is_within_the_stack(here.drop_last(), name@);
            }
            if self.scopes[n - 1 - d].contains_key(name) {
                return Some(d);
            }
            d += 1;
        }
        None
    }

    fn resolve_local(&mut self, key: usize, name: &str)
        ensures
            final(self)@ == old(self)@.resolve_local(key, name@),
            final(self)@.keeps_record(old(self)@, set![key]),
    {
        match self.depth(name) {
            Some(d) => {
                self.locals.insert(key, d);
            },
            None => {
                self.locals.remove(&key);
            },
        }
        self.seen = Ghost(self.seen@.insert(key, Use { scopes: old(self)@.scopes, name: name@ }));
        assert(self@.scopes =~= old(self)@.scopes);
        assert(self@.locals =~= old(self)@.resolve_local(key, name@).locals);
    }
}

impl Resolver {
    /// Resolves a program, or the body of a block or of a function: its
    /// statements in order, up to the first error.
    pub fn resolve(&mut self, stmts: &Vec<Stmt>) -> (r: Result<(), LoxError>)
        ensures
            follows(old(self)@.stmts(stmts@, 0), final(self)@, r),
            r is Ok ==> final(self)@.keeps_record(old(self)@, stmts_uses(stmts@, 0)),
        decreases stmts,
    {
        let mut i: usize = 0;
        while i < stmts.len()
            invariant
                i <= stmts.len(),
                self@.stmts(stmts@, i as int) == old(self)@.stmts(stmts@, 0),
                self@.keeps_record(old(self)@, Set::empty()),
                forall|key: usize|
                    stmts_uses(stmts@, 0).contains(key) ==> #[trigger] self@.seen.contains_key(key)
                        || stmts_uses(stmts@, i as int).contains(key),
            decreases stmts.len() - i,
        {
            match self.visit_stmt(&stmts[i]) {
                Ok(_) => {},
                Err(e) => {
                    return Err(e);
                },
            }
            i += 1;
        }
        Ok(())
    }

    /// Resolves the body of a function of the given kind.
    pub fn resolve_function(&mut self, declaration: &FunctionDecl, kind: FunctionType) -> (r:
        Result<(), LoxError>)
        ensures
            follows(old(self)@.function(*declaration, kind), final(self)@, r),
            r is Ok ==> final(self)@.keeps_record(old(self)@, stmts_uses(declaration.body@, 0)),
        decreases declaration,
    {
        let enclosing = self.current_function;
        self.current_function = kind;
        self.begin_scope();
        let ghost entered = self@;
        let mut i: usize = 0;
        while i < declaration.params.len()
            invariant
                i <= declaration.params.len(),
                enclosing == old(self)@.function,
                entered == (Resolution { function: kind, ..old(self)@ }).begin_scope(),
                self@.params(declaration.params@, i as int) == entered.params(
                    declaration.params@,
                    0,
                ),
                self@.keeps_record(old(self)@, Set::empty()),
            decreases declaration.params.len() - i,
        {
            match self.declare(&declaration.params[i]) {
                Ok(_) => {},
                Err(e) => {
                    return Err(e);
                },
            }
            self.define(&declaration.params[i]);
            i += 1;
        }
        match self.resolve(&declaration.body) {
            Ok(_) => {},
            Err(e) => {
                return Err(e);
            },
        }
        self.end_scope();
        self.current_function = enclosing;
        Ok(())
    }

    /// Resolves an expression.
    pub fn visit_expr(&mut self, expression: &Expr) -> (r: Result<(), LoxError>)
        ensures
            follows(old(self)@.expr(*expression), final(self)@, r),
            r is Ok ==> final(self)@.keeps_record(old(self)@, expr_uses(*expression)),
        decreases expression,
    {
        match expression {
            Expr::Variable { name } => {
                let n = self.scopes.len();
                if n > 0 {
                    match self.scopes[n - 1].get(name.lexeme.as_str()) {
                        Some(defined) => {
                            if !*defined {
                                return Err(
                                    error(
                                        name.line,
                                        "Can't read local variable in its own initializer.",
                                    ),
                                );
                            }
                        },
                        None => {},
                    }
                }
                self.resolve_local(name.byte, name.lexeme.as_str());
                Ok(())
            },
            Expr::Assignment { name, value } => {
                match self.visit_expr(value) {
                    Ok(_) => {},
                    Err(e) => {
                        return Err(e);
                    },
                }
                self.resolve_local(name.byte, name.lexeme.as_str());
                Ok(())
            },
            Expr::Binary { left, operator: _, right } => {
                match self.visit_expr(left) {
                    Ok(_) => {},
                    Err(e) => {
                        return Err(e);
                    },
                }
                self.visit_expr(right)
            },
            Expr::Logical { left, operator: _, right } => {
                match self.visit_expr(left) {
                    Ok(_) => {},
                    Err(e) => {
                        return Err(e);
                    },
                }
                self.visit_expr(right)
            },
            Expr::Call { callee, paren: _, arguments } => {
                match self.visit_expr(callee) {
                    Ok(_) => {},
                    Err(e) => {
                        return Err(e);
                    },
                }
                let mut i: usize = 0;
                while i < arguments.len()
                    invariant
                        *expression matches Expr::Call { arguments: all, callee: head, .. } && all
                            == *arguments && head == *callee,
                        i <= arguments.len(),
                        self@.exprs(arguments@, i as int) == old(self)@.expr(*expression),
                        self@.keeps_record(old(self)@, expr_uses(**callee)),
                        forall|key: usize|
                            exprs_uses(arguments@, 0).contains(key)
                                ==> #[trigger] self@.seen.contains_key(key) || exprs_uses(
                                arguments@,
                                i as int,
                            ).contains(key),
                    decreases arguments.len() - i,
                {
                    match self.visit_expr(&arguments[i]) {
                        Ok(_) => {},
                        Err(e) => {
                            return Err(e);
                        },
                    }
                    i += 1;
                }
                Ok(())
            },
            Expr::Grouping { expression: inner } => self.visit_expr(inner),
            Expr::Unary { operator: _, right } => self.visit_expr(right),
            Expr::Literal { value: _ } => Ok(()),
            Expr::Get { object, name: _ } => self.visit_expr(object),
            Expr::SetProperty { object, name: _, value } => {
                match self.visit_expr(value) {
                    Ok(_) => {},
                    Err(e) => {
                        return Err(e);
                    },
                }
                self.visit_expr(object)
            },
            Expr::This { keyword } => {
                match self.current_class {
                    ClassType::TopLevel => Err(
                        parser_error(keyword, "Can't use 'this' outside of a class."),
                    ),
                    _ => {
                        self.resolve_local(keyword.byte, keyword.lexeme.as_str());
                        Ok(())
                    },
                }
            },
        }
    }

    /// Resolves the superclass clause of the class `name`.
    fn resolve_superclass(&mut self, name: &Token, superclass: &Option<Box<Expr>>) -> (r: Result<
        (),
        LoxError,
    >)
        ensures
            follows(old(self)@.superclass(*name, *superclass), final(self)@, r),
            r is Ok ==> final(self)@.keeps_record(
                old(self)@,
                match *superclass {
                    Some(expression) => expr_uses(*expression),
                    None => Set::empty(),
                },
            ),
    {
        match superclass {
            None => Ok(()),
            Some(expression) => {
                self.current_class = ClassType::Subclass;
                match &**expression {
                    Expr::Variable { name: parent } => {
                        if same_text(parent.lexeme.as_str(), name.lexeme.as_str()) {
                            return Err(parser_error(parent, "A class can't inherit from itself."));
                        }
                    },
                    _ => {},
                }
                match self.visit_expr(expression) {
                    Ok(_) => {},
                    Err(e) => {
                        return Err(e);
                    },
                }
                self.begin_scope();
                self.put("super", true);
                Ok(())
            },
        }
    }

    /// Resolves a statement.
    pub fn visit_stmt(&mut self, statement: &Stmt) -> (r: Result<(), LoxError>)
        ensures
            follows(old(self)@.stmt(*statement), final(self)@, r),
            r is Ok ==> final(self)@.keeps_record(old(self)@, stmt_uses(*statement)),
        decreases statement,
    {
        match statement {
            Stmt::Block { statements } => {
                self.begin_scope();
                match self.resolve(statements) {
                    Ok(_) => {},
                    Err(e) => {
                        return Err(e);
                    },
                }
                self.end_scope();
                Ok(())
            },
            Stmt::Var { name, initializer } => {
                match self.declare(name) {
                    Ok(_) => {},
                    Err(e) => {
                        return Err(e);
                    },
                }
                match self.visit_expr(initializer) {
                    Ok(_) => {},
                    Err(e) => {
                        return Err(e);
                    },
                }
                self.define(name);
                Ok(())
            },
            Stmt::Function { declaration } => {
                match self.declare(&declaration.name) {
                    Ok(_) => {},
                    Err(e) => {
                        return Err(e);
                    },
                }
                self.define(&declaration.name);
                self.resolve_function(declaration, FunctionType::Function)
            },
            Stmt::Expression { expression } => self.visit_expr(expression),
            Stmt::Print { expression } => self.visit_expr(expression),
            Stmt::Return { keyword, expression } => {
                match self.current_function {
                    FunctionType::TopLevel => Err(
                        parser_error(keyword, "Can't return from top-level code."),
                    ),
                    FunctionType::Initializer => {
                        match &**expression {
                            Expr::Literal { value: LoxPrimitive::Nil } => Ok(()),
                            _ => Err(
                                parser_error(keyword, "Can't return a value from an initializer."),
                            ),
                        }
                    },
                    _ => self.visit_expr(expression),
                }
            },
            Stmt::If { condition, then_branch, else_branch } => {
                match self.visit_expr(condition) {
                    Ok(_) => {},
                    Err(e) => {
                        return Err(e);
                    },
                }
                match self.visit_stmt(then_branch) {
                    Ok(_) => {},
                    Err(e) => {
                        return Err(e);
                    },
                }
                match else_branch {
                    Some(branch) => self.visit_stmt(branch),
                    None => Ok(()),
                }
            },
            Stmt::While { condition, body } => {
                match self.visit_expr(condition) {
                    Ok(_) => {},
                    Err(e) => {
                        return Err(e);
                    },
                }
                self.visit_stmt(body)
            },
            Stmt::Class { name, methods, superclass } => {
                let enclosing = self.current_class;
                self.current_class = ClassType::Class;
                match self.declare(name) {
                    Ok(_) => {},
                    Err(e) => {
                        return Err(e);
                    },
                }
                self.define(name);
                match self.resolve_superclass(name, superclass) {
                    Ok(_) => {},
                    Err(e) => {
                        return Err(e);
                    },
                }
                self.begin_scope();
                self.put("this", true);
                self.put("inner", true);
                let ghost body = self@;
                let mut i: usize = 0;
                while i < methods.len()
                    invariant
                        *statement matches Stmt::Class { methods: all, superclass: parent, .. }
                            && all == *methods && parent == *superclass,
                        i <= methods.len(),
                        self@.methods(methods@, i as int) == body.methods(methods@, 0),
                        self@.keeps_record(
                            old(self)@,
                            match *superclass {
                                Some(expression) => expr_uses(*expression),
                                None => Set::empty(),
                            },
                        ),
                        forall|key: usize|
                            methods_uses(methods@, 0).contains(key)
                                ==> #[trigger] self@.seen.contains_key(key) || methods_uses(
                                methods@,
                                i as int,
                            ).contains(key),
                        body.methods(methods@, 0) matches Err(fault) ==> old(self)@.stmt(*statement)
                            == Err::<Resolution, Failure>(fault),
                    decreases methods.len() - i,
                {
                    let kind = if same_text(methods[i].name.lexeme.as_str(), "init") {
                        FunctionType::Initializer
                    } else {
                        FunctionType::Method
                    };
                    match self.resolve_function(&methods[i], kind) {
                        Ok(_) => {},
                        Err(e) => {
                            return Err(e);
                        },
                    }
                    i += 1;
                }
                self.end_scope();
                if superclass.is_some() {
                    self.end_scope();
                }
                self.current_class = enclosing;
                Ok(())
            },
        }
    }
}

} // verus!
