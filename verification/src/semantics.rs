//! What it means to run a program: the evaluation of expressions and the
//! execution of statements, stated as relations between the state of the
//! interpreter before, the state after, and the result.
//!
//! The relations follow the structure of the program. They are relations
//! and not functions because a native function may give any number: the
//! clock does.

use crate::ast::{Expr, FunctionDecl, Stmt};
use crate::errors::RuntimeError;
use crate::environment::lookup_depends_on_older_scopes;
use crate::interpreter::{is_budget_exhausted, Interpreter};
use crate::operators::{
    arity_message, binary_result, fails_with, spec_evaluates_right, unary_result,
};
use crate::token::{Token, TokenKind};
use crate::values::{nil, LoxObj};
use vstd::prelude::*;

verus! {

/// What evaluating an expression gives: a value, or a runtime error.
pub type Outcome = Result<LoxObj, RuntimeError>;

/// How the execution of a statement ends: normally, with the value of a
/// `return`, or with a runtime error.
pub type Flow = Result<Option<LoxObj>, RuntimeError>;

/// Always true. A rule that goes through a state and a result on its way
/// names them with this, so that a proof can point at them.
pub open spec fn through<A, B>(state: A, result: B) -> bool {
    true
}

/// `s` with `environment` as its current scope.
pub open spec fn in_scope(s: Interpreter, environment: usize) -> Interpreter {
    Interpreter { environment, ..s }
}

/// `s` with one unit less of budget.
pub open spec fn spent(s: Interpreter) -> Interpreter {
    Interpreter { budget: (s.budget - 1) as u64, ..s }
}

/// Evaluating `e` in state `s` can end in state `t` with the result `r`.
///
/// Operands are evaluated from left to right, and the first error ends
/// the evaluation. A logical operator evaluates its right operand only
/// where `spec_evaluates_right` says so.
pub open spec fn evaluates(s: Interpreter, e: Expr, t: Interpreter, r: Outcome) -> bool
    decreases s.budget, 5int, e, 0nat,
{
    match e {
        Expr::Literal { value } => t == s && r == Ok::<LoxObj, RuntimeError>(
            LoxObj::Primitive(value),
        ),
        Expr::Grouping { expression } => evaluates(s, *expression, t, r),
        Expr::Unary { operator, right } => exists|v: Outcome| #[trigger]
            through(v, ()) && evaluates(s, *right, t, v) && match v {
                Ok(x) => unary_result(operator, x, r),
                Err(error) => r == Err::<LoxObj, RuntimeError>(error),
            },
        Expr::Binary { left, operator, right } => exists|m: Interpreter, lv: Outcome| #[trigger]
            through(m, lv) && evaluates(s, *left, m, lv) && match lv {
                Err(error) => t == m && r == Err::<LoxObj, RuntimeError>(error),
                Ok(a) => m.budget <= s.budget && exists|rv: Outcome| #[trigger]
            through(rv, ()) && evaluates(m, *right, t, rv) && match rv {
                        Ok(b) => binary_result(a, operator, b, r),
                        Err(error) => r == Err::<LoxObj, RuntimeError>(error),
                    },
            },
        Expr::Variable { name } => t == s && s.variable_read(name, r),
        Expr::This { keyword } => t == s && s.variable_read(keyword, r),
        Expr::Assignment { name, value } => exists|m: Interpreter, v: Outcome| #[trigger]
            through(m, v) && evaluates(s, *value, m, v) && match v {
                Err(error) => t == m && r == Err::<LoxObj, RuntimeError>(error),
                Ok(x) => t.same_but_scopes(&m) && t.variable_written(&m, name, x, r),
            },
        Expr::Logical { left, operator, right } => exists|m: Interpreter, lv: Outcome| #[trigger]
            through(m, lv) && evaluates(s, *left, m, lv) && match lv {
                Err(error) => t == m && r == Err::<LoxObj, RuntimeError>(error),
                Ok(a) => if spec_evaluates_right(operator.spec_kind(), a) {
                    m.budget <= s.budget && evaluates(m, *right, t, r)
                } else {
                    t == m && r == Ok::<LoxObj, RuntimeError>(a)
                },
            },
        Expr::Call { callee, paren, arguments } => exists|m: Interpreter, cv: Outcome| #[trigger]
            through(m, cv) && evaluates(s, *callee, m, cv) && match cv {
                Err(error) => t == m && r == Err::<LoxObj, RuntimeError>(error),
                Ok(c) => m.budget <= s.budget && exists|
                    m2: Interpreter,
                    avs: Result<Seq<LoxObj>, RuntimeError>,
                | #[trigger]
            through(m2, avs) && evaluates_all(m, arguments@, 0, Seq::empty(), m2, avs) && match avs {
                        Err(error) => t == m2 && r == Err::<LoxObj, RuntimeError>(error),
                        Ok(args) => m2.budget <= s.budget && called(m2, c, args, paren, t, r),
                    },
            },
        Expr::Get { object, name } => exists|m: Interpreter, ov: Outcome| #[trigger]
            through(m, ov) && evaluates(s, *object, m, ov) && match ov {
                Err(error) => t == m && r == Err::<LoxObj, RuntimeError>(error),
                Ok(o) => t.property_read(&m, o, name, r),
            },
        Expr::SetProperty { object, name, value } => exists|m: Interpreter, ov: Outcome| #[trigger]
            through(m, ov) && evaluates(s, *object, m, ov) && match ov {
                Err(error) => t == m && r == Err::<LoxObj, RuntimeError>(error),
                Ok(LoxObj::Instance(i)) => m.budget <= s.budget && exists|
                    m2: Interpreter,
                    vv: Outcome,
                | #[trigger]
            through(m2, vv) && evaluates(m, *value, m2, vv) && match vv {
                        Err(error) => t == m2 && r == Err::<LoxObj, RuntimeError>(error),
                        Ok(v) => r == Ok::<LoxObj, RuntimeError>(v) && t.field_assigned(
                            &m2,
                            i as int,
                            name.lexeme@,
                            v,
                        ),
                    },
                Ok(_) => t == m && fails_with(r, name.line, "Only instances have fields."@),
            },
    }
}

/// Evaluating the expressions `es[from..]` in order, in state `s`, can end
/// in state `t` with `r`: the values in `found` and then theirs, or the
/// first error.
pub open spec fn evaluates_all(
    s: Interpreter,
    es: Seq<Expr>,
    from: int,
    found: Seq<LoxObj>,
    t: Interpreter,
    r: Result<Seq<LoxObj>, RuntimeError>,
) -> bool
    decreases s.budget, 5int, es, es.len() - from,
{
    if from < 0 || from >= es.len() {
        t == s && r == Ok::<Seq<LoxObj>, RuntimeError>(found)
    } else {
        exists|m: Interpreter, v: Outcome| #[trigger]
            through(m, v) && evaluates(s, es[from], m, v) && match v {
                Err(error) => t == m && r == Err::<Seq<LoxObj>, RuntimeError>(error),
                Ok(x) => m.budget <= s.budget && evaluates_all(
                    m,
                    es,
                    from + 1,
                    found.push(x),
                    t,
                    r,
                ),
            }
    }
}

/// Calling `callee` on `args` in state `s` can end in state `t` with the
/// result `r`.
///
/// What cannot be called, and a call with a number of arguments other than
/// the callee's arity, fail and change nothing.
pub open spec fn called(
    s: Interpreter,
    callee: LoxObj,
    args: Seq<LoxObj>,
    paren: Token,
    t: Interpreter,
    r: Outcome,
) -> bool
    decreases s.budget, 4int, paren, 0nat,
{
    match s.heap.spec_arity(callee) {
        None => t == s && fails_with(r, paren.line, "Can only call functions and classes."@),
        Some(n) => if n != args.len() {
            t == s && fails_with(r, paren.line, arity_message(n, args.len() as usize))
        } else {
            match callee {
                LoxObj::Function(f) => {
                    let function = s.heap.functions[f as int];
                    function_called(
                        s,
                        *function.declaration,
                        function.closure,
                        function.is_initializer,
                        args,
                        paren,
                        t,
                        r,
                    )
                },
                LoxObj::Native(n) => t.native_called(&s, n as int, args, r),
                LoxObj::Class(c) => constructed(s, c, args, paren, t, r),
                LoxObj::List(l) => t == s && s.list_indexed(l as int, args, r),
                _ => false,
            }
        },
    }
}

/// Making an instance of class `class` with the arguments `args` in state
/// `s` can end in state `t` with the result `r`.
///
/// The initializer of the class, its own or an inherited one, is bound to
/// the new instance and called. The result is the instance, whatever the
/// initializer returned, unless the initializer failed.
pub open spec fn constructed(
    s: Interpreter,
    class: usize,
    args: Seq<LoxObj>,
    paren: Token,
    t: Interpreter,
    r: Outcome,
) -> bool
    decreases s.budget, 3int, paren, 0nat,
{
    let instance = LoxObj::Instance(s.heap.instances.len());
    exists|made: Interpreter| #[trigger]
        made.instance_made(&s, class) && match s.heap.spec_find_method(class as int, "init"@) {
            None => t == made && r == Ok::<LoxObj, RuntimeError>(instance),
            Some(f) => exists|ready: Interpreter, h: usize| #[trigger]
                ready.bound(&made, LoxObj::Function(f), instance, LoxObj::Function(h)) && {
                    let initializer = ready.heap.functions[h as int];
                    exists|flow: Outcome| #[trigger]
            through(flow, ()) && function_called(
                            ready,
                            *initializer.declaration,
                            initializer.closure,
                            initializer.is_initializer,
                            args,
                            paren,
                            t,
                            flow,
                        ) && r == (match flow {
                            Ok(_) => Ok::<LoxObj, RuntimeError>(instance),
                            Err(error) => Err::<LoxObj, RuntimeError>(error),
                        })
                },
        }
}

/// Calling the function declared by `declaration`, with the closure
/// `closure`, on `args` in state `s` can end in state `t` with the result
/// `r`.
///
/// A call costs one unit of budget and fails where none is left. The body
/// runs in a new scope inside the closure, in which the parameters are
/// bound to the arguments; when the body is done the scope is left, and
/// released where no function was made in it. An initializer gives what
/// `this` is bound to in its closure, whatever its body returned; any other
/// function gives what its body returned, or `nil`.
pub open spec fn function_called(
    s: Interpreter,
    declaration: FunctionDecl,
    closure: usize,
    is_initializer: bool,
    args: Seq<LoxObj>,
    paren: Token,
    t: Interpreter,
    r: Outcome,
) -> bool
    decreases s.budget, 2int, declaration, 0nat,
{
    if s.budget == 0 {
        &&& t == s
        &&& r matches Err(error)
        &&& is_budget_exhausted(error, paren.line)
    } else {
        exists|framed: Interpreter, m: Interpreter, flow: Flow| #[trigger]
            through(framed, (m, flow)) && framed.frame_opened(
                &s,
                closure,
                declaration.params@,
                args,
            ) && runs_block(
                framed,
                declaration.body@,
                s.environments.scopes.len() as usize,
                m,
                flow,
            ) && t.scope_closed(
                &m,
                s.environments.scopes.len() as usize,
                s.heap.functions.len() as usize,
            ) && match flow {
                Err(error) => r == Err::<LoxObj, RuntimeError>(error),
                Ok(value) => if is_initializer {
                    t.this_read(closure, declaration.name, r)
                } else {
                    r == Ok::<LoxObj, RuntimeError>(
                        match value {
                            Some(v) => v,
                            None => nil(),
                        },
                    )
                },
            }
    }
}

/// Running `statements` in the scope `environment`, in state `s`, can end
/// in state `t` with `r`. Whatever way the statements end, the scope that
/// was current before is current again afterwards.
pub open spec fn runs_block(
    s: Interpreter,
    statements: Seq<Stmt>,
    environment: usize,
    t: Interpreter,
    r: Flow,
) -> bool
    decreases s.budget, 7int, statements, statements.len() + 1,
{
    exists|m: Interpreter| #[trigger]
            through(m, ()) && runs_from(in_scope(s, environment), statements, 0, m, r) && t == in_scope(
            m,
            s.environment,
        )
}

/// Running the statements `statements[from..]` in order, in state `s`, can
/// end in state `t` with `r`: the first statement that returns or fails
/// ends the run.
pub open spec fn runs_from(
    s: Interpreter,
    statements: Seq<Stmt>,
    from: int,
    t: Interpreter,
    r: Flow,
) -> bool
    decreases s.budget, 7int, statements, statements.len() - from,
{
    if from < 0 || from >= statements.len() {
        t == s && r == Ok::<Option<LoxObj>, RuntimeError>(None)
    } else {
        exists|m: Interpreter, flow: Flow| #[trigger]
            through(m, flow) && executes(s, statements[from], m, flow) && match flow {
                Ok(None) => m.budget <= s.budget && runs_from(m, statements, from + 1, t, r),
                _ => t == m && r == flow,
            }
    }
}

/// Repeating `body` while `condition` is truthy, in state `s`, can end in
/// state `t` with `r`. Each round costs one unit of budget, and the loop
/// fails where none is left.
pub open spec fn repeats(s: Interpreter, condition: Expr, body: Stmt, t: Interpreter, r: Flow) -> bool
    decreases s.budget, 6int, body, 0nat,
{
    exists|m: Interpreter, cv: Outcome| #[trigger]
            through(m, cv) && evaluates(s, condition, m, cv) && match cv {
            Err(error) => t == m && r == Err::<Option<LoxObj>, RuntimeError>(error),
            Ok(c) => if !c.spec_is_truthy() {
                t == m && r == Ok::<Option<LoxObj>, RuntimeError>(None)
            } else if m.budget == 0 {
                &&& t == m
                &&& r matches Err(error)
                &&& is_budget_exhausted(error, 0)
            } else {
                m.budget <= s.budget && exists|m2: Interpreter, flow: Flow| #[trigger]
            through(m2, flow) && executes(spent(m), body, m2, flow) && match flow {
                        Ok(None) => m2.budget < s.budget && repeats(m2, condition, body, t, r),
                        _ => t == m2 && r == flow,
                    }
            },
        }
}

/// Executing the statement `stmt` in state `s` can end in state `t` with
/// `r`.
pub open spec fn executes(s: Interpreter, stmt: Stmt, t: Interpreter, r: Flow) -> bool
    decreases s.budget, 7int, stmt, 0nat,
{
    match stmt {
        Stmt::Expression { expression } => exists|v: Outcome| #[trigger]
            through(v, ()) && evaluates(s, *expression, t, v) && r == (match v {
                Ok(_) => Ok::<Option<LoxObj>, RuntimeError>(None),
                Err(error) => Err::<Option<LoxObj>, RuntimeError>(error),
            }),
        Stmt::Print { expression } => exists|m: Interpreter, v: Outcome| #[trigger]
            through(m, v) && evaluates(s, *expression, m, v) && match v {
                Err(error) => t == m && r == Err::<Option<LoxObj>, RuntimeError>(error),
                Ok(x) => t.line_printed(&m, x) && r == Ok::<Option<LoxObj>, RuntimeError>(None),
            },
        Stmt::Var { name, initializer } => exists|m: Interpreter, v: Outcome| #[trigger]
            through(m, v) && evaluates(s, *initializer, m, v) && match v {
                Err(error) => t == m && r == Err::<Option<LoxObj>, RuntimeError>(error),
                Ok(x) => t.variable_defined(&m, m.environment as int, name.lexeme@, x) && r
                    == Ok::<Option<LoxObj>, RuntimeError>(None),
            },
        Stmt::Block { statements } => exists|opened: Interpreter, m: Interpreter| #[trigger]
            through(opened, m) && opened.scope_opened(&s, s.environment) && runs_block(
                opened,
                statements@,
                s.environments.scopes.len() as usize,
                m,
                r,
            ) && t.scope_closed(
                &m,
                s.environments.scopes.len() as usize,
                s.heap.functions.len() as usize,
            ),
        Stmt::If { condition, then_branch, else_branch } => exists|m: Interpreter, cv: Outcome| #[trigger]
            through(m, cv) && evaluates(s, *condition, m, cv) && match cv {
                Err(error) => t == m && r == Err::<Option<LoxObj>, RuntimeError>(error),
                Ok(c) => m.budget <= s.budget && if c.spec_is_truthy() {
                    executes(m, *then_branch, t, r)
                } else {
                    match else_branch {
                        Some(branch) => executes(m, *branch, t, r),
                        None => t == m && r == Ok::<Option<LoxObj>, RuntimeError>(None),
                    }
                },
            },
        Stmt::While { condition, body } => repeats(s, *condition, *body, t, r),
        Stmt::Function { declaration } => t.function_declared(&s, declaration) && r == Ok::<
            Option<LoxObj>,
            RuntimeError,
        >(None),
        Stmt::Return { keyword: _, expression } => exists|v: Outcome| #[trigger]
            through(v, ()) && evaluates(s, *expression, t, v) && r == (match v {
                Ok(x) => Ok::<Option<LoxObj>, RuntimeError>(Some(x)),
                Err(error) => Err::<Option<LoxObj>, RuntimeError>(error),
            }),
        Stmt::Class { name, methods, superclass } => exists|named: Interpreter| #[trigger]
            named.variable_defined(&s, s.environment as int, name.lexeme@, nil()) && match superclass {
                None => t.class_declared(&named, name, methods@, None, named.environment) && r
                    == Ok::<Option<LoxObj>, RuntimeError>(None),
                Some(expression) => exists|m: Interpreter, v: Outcome| #[trigger]
            through(m, v) && evaluates(named, *expression, m, v) && match v {
                        Err(error) => t == m && r == Err::<Option<LoxObj>, RuntimeError>(error),
                        Ok(LoxObj::Class(c)) => exists|opened: Interpreter, ready: Interpreter|
                            opened.scope_opened(&m, m.environment) && #[trigger] ready.variable_defined(
                                &opened,
                                m.environments.scopes.len() as int,
                                "super"@,
                                LoxObj::Class(c),
                            ) && t.class_declared(
                                &ready,
                                name,
                                methods@,
                                Some(c),
                                m.environments.scopes.len() as usize,
                            ) && r == Ok::<Option<LoxObj>, RuntimeError>(None),
                        Ok(_) => t == m && fails_with(r, name.line, "Superclass must be a class."@),
                    },
            },
    }
}

/// Running the statements `statements[from..]` of a program in order, in
/// state `s`, can end in state `t` with `r`: the first runtime error ends
/// the run, and a `return` at the top level ends its statement only.
pub open spec fn interprets_from(
    s: Interpreter,
    statements: Seq<Stmt>,
    from: int,
    t: Interpreter,
    r: Result<(), RuntimeError>,
) -> bool
    decreases statements.len() - from,
{
    if from < 0 || from >= statements.len() {
        t == s && r == Ok::<(), RuntimeError>(())
    } else {
        exists|m: Interpreter, flow: Flow| #[trigger]
            through(m, flow) && executes(s, statements[from], m, flow) && match flow {
                Err(error) => t == m && r == Err::<(), RuntimeError>(error),
                Ok(_) => interprets_from(m, statements, from + 1, t, r),
            }
    }
}

/// Running a program in state `s` can end in state `t` with `r`.
pub open spec fn interprets(
    s: Interpreter,
    statements: Seq<Stmt>,
    t: Interpreter,
    r: Result<(), RuntimeError>,
) -> bool {
    interprets_from(s, statements, 0, t, r)
}

/// A logical operator whose left operand decides the result does not
/// touch its right operand: where `left` came to `a` in state `m`, and `a`
/// is falsy under `and` or truthy under `or`, the whole expression comes to
/// `a` in that very state.
pub proof fn logical_operator_can_skip_its_right_operand(
    s: Interpreter,
    left: Expr,
    operator: Token,
    right: Expr,
    m: Interpreter,
    a: LoxObj,
)
    requires
        evaluates(s, left, m, Ok::<LoxObj, RuntimeError>(a)),
        !spec_evaluates_right(operator.spec_kind(), a),
    ensures
        evaluates(
            s,
            Expr::Logical { left: Box::new(left), operator, right: Box::new(right) },
            m,
            Ok::<LoxObj, RuntimeError>(a),
        ),
        operator.spec_kind() == TokenKind::And ==> !a.spec_is_truthy(),
        operator.spec_kind() != TokenKind::And ==> a.spec_is_truthy(),
{
    assert(through(m, Ok::<LoxObj, RuntimeError>(a)));
}

/// A logical operator whose left operand does not decide the result goes
/// on to its right operand: where `left` came to `a` in state `m`, and `a`
/// is truthy under `and` or falsy under `or`, the whole expression comes to
/// whatever `right` comes to from `m`.
pub proof fn logical_operator_can_take_its_right_operand(
    s: Interpreter,
    left: Expr,
    operator: Token,
    right: Expr,
    m: Interpreter,
    a: LoxObj,
    t: Interpreter,
    r: Outcome,
)
    requires
        evaluates(s, left, m, Ok::<LoxObj, RuntimeError>(a)),
        m.budget <= s.budget,
        spec_evaluates_right(operator.spec_kind(), a),
        evaluates(m, right, t, r),
    ensures
        evaluates(
            s,
            Expr::Logical { left: Box::new(left), operator, right: Box::new(right) },
            t,
            r,
        ),
        operator.spec_kind() == TokenKind::And ==> a.spec_is_truthy(),
        operator.spec_kind() != TokenKind::And ==> !a.spec_is_truthy(),
{
    assert(through(m, Ok::<LoxObj, RuntimeError>(a)));
}

/// A call checks the number of its arguments before anything else
/// happens: with a number other than the callee's arity it fails with the
/// message that names both numbers, and the state is untouched; with the
/// callee's arity, it does not fail with that message for that reason.
pub proof fn call_checks_arity(
    s: Interpreter,
    callee: LoxObj,
    args: Seq<LoxObj>,
    paren: Token,
    t: Interpreter,
    r: Outcome,
)
    requires
        called(s, callee, args, paren, t, r),
        s.heap.spec_arity(callee) is Some,
    ensures
        s.heap.spec_arity(callee)->0 != args.len() ==> t == s && fails_with(
            r,
            paren.line,
            arity_message(s.heap.spec_arity(callee)->0, args.len() as usize),
        ),
        s.heap.spec_arity(callee)->0 == args.len() && callee is Native ==> t.native_called(
            &s,
            callee->Native_0 as int,
            args,
            r,
        ),
{
}

/// Calling a class gives the new instance, whatever its initializer
/// returned: a call of a class that succeeds gives the instance that was
/// made for it, which is of that class.
pub proof fn class_call_gives_the_instance(
    s: Interpreter,
    class: usize,
    args: Seq<LoxObj>,
    paren: Token,
    t: Interpreter,
    v: LoxObj,
)
    requires
        constructed(s, class, args, paren, t, Ok::<LoxObj, RuntimeError>(v)),
    ensures
        v == LoxObj::Instance(s.heap.instances.len()),
{
}

/// An initializer gives what `this` is bound to in its closure, whatever
/// its body returned.
pub proof fn initializer_gives_this(
    s: Interpreter,
    declaration: FunctionDecl,
    closure: usize,
    args: Seq<LoxObj>,
    paren: Token,
    t: Interpreter,
    v: LoxObj,
)
    requires
        function_called(s, declaration, closure, true, args, paren, t, Ok::<LoxObj, RuntimeError>(v)),
    ensures
        t.environments.scopes[closure as int].values@.contains_key("this"@),
        v == t.environments.scopes[closure as int].values@["this"@],
{
}

/// The body of a called function sees its parameters, and for every other
/// name exactly what the function's closure holds at the time of the call:
/// a lookup from the frame finds a name that is no parameter where a lookup
/// from the closure finds it in the state in which the call was made.
pub proof fn frame_sees_the_closure(
    s: Interpreter,
    framed: Interpreter,
    closure: usize,
    params: Seq<Token>,
    args: Seq<LoxObj>,
    name: Seq<char>,
)
    requires
        s.wf(),
        closure < s.environments.scopes.len(),
        framed.frame_opened(&s, closure, params, args),
    ensures
        ({
            let frame = s.environments.scopes.len() as int;
            let bound = framed.environments.scopes[frame].values@;
            &&& bound.contains_key(name) ==> framed.environments.owner(frame, name) == Some(frame)
            &&& !bound.contains_key(name) ==> framed.environments.owner(frame, name)
                == s.environments.owner(closure as int, name)
            &&& forall|i: int| 0 <= i < frame ==> framed.environments.scopes[i] == s.environments.scopes[i]
        }),
{
    let frame = s.environments.scopes.len() as int;
    if !framed.environments.scopes[frame].values@.contains_key(name) {
        lookup_depends_on_older_scopes(framed.environments, s.environments, closure as int, name);
    }
}

/// A function closes over the scope in which its declaration is executed.
pub proof fn function_captures_the_current_scope(
    s: Interpreter,
    declaration: std::rc::Rc<FunctionDecl>,
    t: Interpreter,
    r: Flow,
)
    requires
        executes(s, Stmt::Function { declaration }, t, r),
    ensures
        r == Ok::<Option<LoxObj>, RuntimeError>(None),
        t.heap.functions.len() == s.heap.functions.len() + 1,
        t.heap.functions[s.heap.functions.len() as int].closure == s.environment,
        t.heap.functions[s.heap.functions.len() as int].declaration == declaration,
{
    assert(t.heap.functions@ == s.heap.functions@.push(
        crate::heap::LoxFn { declaration, closure: s.environment, is_initializer: false },
    ));
}

/// Where budget is left, a call runs the body of the function in a frame
/// inside the function's own closure, in which the parameters are bound to
/// the arguments: the call ends as the body ends there, and gives what the
/// body returned, or `nil`.
pub proof fn call_with_budget_runs_the_body(
    s: Interpreter,
    declaration: FunctionDecl,
    closure: usize,
    args: Seq<LoxObj>,
    paren: Token,
    framed: Interpreter,
    m: Interpreter,
    t: Interpreter,
    flow: Flow,
)
    requires
        s.budget > 0,
        framed.frame_opened(&s, closure, declaration.params@, args),
        runs_block(framed, declaration.body@, s.environments.scopes.len() as usize, m, flow),
        t.scope_closed(&m, s.environments.scopes.len() as usize, s.heap.functions.len() as usize),
    ensures
        function_called(
            s,
            declaration,
            closure,
            false,
            args,
            paren,
            t,
            match flow {
                Ok(Some(v)) => Ok::<LoxObj, RuntimeError>(v),
                Ok(None) => Ok::<LoxObj, RuntimeError>(nil()),
                Err(error) => Err::<LoxObj, RuntimeError>(error),
            },
        ),
        framed.environments.scopes[s.environments.scopes.len() as int].enclosing == Some(closure),
{
    assert(through(framed, (m, flow)));
}

/// Where budget is left, the call of an initializer whose body ends
/// without an error gives the instance that `this` is bound to in its
/// closure, whatever the body returned.
pub proof fn initializer_with_budget_gives_the_instance(
    s: Interpreter,
    declaration: FunctionDecl,
    closure: usize,
    args: Seq<LoxObj>,
    paren: Token,
    framed: Interpreter,
    m: Interpreter,
    t: Interpreter,
    returned: Option<LoxObj>,
    instance: LoxObj,
)
    requires
        s.budget > 0,
        framed.frame_opened(&s, closure, declaration.params@, args),
        runs_block(
            framed,
            declaration.body@,
            s.environments.scopes.len() as usize,
            m,
            Ok::<Option<LoxObj>, RuntimeError>(returned),
        ),
        t.scope_closed(&m, s.environments.scopes.len() as usize, s.heap.functions.len() as usize),
        t.environments.scopes[closure as int].values@.contains_key("this"@),
        t.environments.scopes[closure as int].values@["this"@] == instance,
    ensures
        function_called(
            s,
            declaration,
            closure,
            true,
            args,
            paren,
            t,
            Ok::<LoxObj, RuntimeError>(instance),
        ),
{
    assert(through(framed, (m, Ok::<Option<LoxObj>, RuntimeError>(returned))));
}

} // verus!
