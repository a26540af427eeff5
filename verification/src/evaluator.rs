//! The evaluator: walks the syntax tree, producing values and changing the
//! scopes and the heap. Each function is proved to do what the relation of
//! the same purpose in `semantics` says, to keep the interpreter in order,
//! and to leave the current scope as it found it.

use crate::ast::{share, Expr, FunctionDecl, Stmt};
use crate::errors::RuntimeError;
use crate::interpreter::{heap_change_keeps_order, runtime_error, Interpreter};
use crate::operators::{binary, check_arity, evaluates_right, unary};
use crate::semantics::{
    called, constructed, evaluates, evaluates_all, executes, function_called, in_scope,
    interprets, interprets_from, repeats, runs_block, runs_from, spent, through, Flow,
};
use crate::token::Token;
use crate::values::{nil, LoxObj};
use vstd::prelude::*;
use vstd::string::StringExecFns;

verus! {

/// A state that extends one that extends a third extends the third.
pub proof fn extends_is_transitive(last: Interpreter, mid: Interpreter, first: Interpreter)
    requires
        mid.evolves_from(&first),
        last.evolves_from(&mid),
    ensures
        last.evolves_from(&first),
{
    assert forall|i: int| 0 <= i < first.environments.scopes.len() implies (
    #[trigger] last.environments.scopes[i]).enclosing == first.environments.scopes[i].enclosing by {
        assert(mid.environments.scopes[i].enclosing == first.environments.scopes[i].enclosing);
    }
    assert forall|i: int| 0 <= i < first.heap.instances.len() implies (
    #[trigger] last.heap.instances[i]).class == first.heap.instances[i].class by {
        assert(mid.heap.instances[i].class == first.heap.instances[i].class);
    }
}

/// A state that extends another still extends it after a scope that the
/// other did not have was left.
pub proof fn left_scope_extends(
    last: Interpreter,
    run: Interpreter,
    first: Interpreter,
    scope: usize,
    functions: usize,
)
    requires
        run.extends(&first),
        last.scope_closed(&run, scope, functions),
        first.environments.scopes.len() <= scope,
    ensures
        last.extends(&first),
{
    assert forall|i: int| 0 <= i < first.environments.scopes.len() implies (
    #[trigger] last.environments.scopes[i]).enclosing == first.environments.scopes[i].enclosing by {
        assert(last.environments.scopes[i] == run.environments.scopes[i]);
        assert(run.environments.scopes[i].enclosing == first.environments.scopes[i].enclosing);
    }
}

impl Interpreter {
    /// Runs a program: its statements in order, up to the first runtime
    /// error. A `return` at the top level ends its statement only.
    pub fn interpret(&mut self, statements: &Vec<Stmt>) -> (r: Result<(), RuntimeError>)
        requires
            old(self).wf(),
        ensures
            final(self).wf(),
            final(self).extends(old(self)),
            interprets(*old(self), statements@, *final(self), r),
    {
        let mut i: usize = 0;
        while i < statements.len()
            invariant
                i <= statements.len(),
                self.wf(),
                self.extends(old(self)),
                forall|t: Interpreter, r: Result<(), RuntimeError>| #[trigger]
                    interprets_from(*self, statements@, i as int, t, r) ==> interprets_from(
                        *old(self),
                        statements@,
                        0,
                        t,
                        r,
                    ),
            decreases statements.len() - i,
        {
            let ghost mid = *self;
            let step = self.visit_stmt(&statements[i]);
            assert(through(*self, step));
            proof {
                extends_is_transitive(*self, mid, *old(self));
            }
            match step {
                Ok(_) => {
                    assert forall|t: Interpreter, r: Result<(), RuntimeError>| #[trigger]
                        interprets_from(
                            *self,
                            statements@,
                            i + 1,
                            t,
                            r,
                        ) implies interprets_from(*old(self), statements@, 0, t, r) by {
                        assert(interprets_from(mid, statements@, i as int, t, r));
                    }
                },
                Err(error) => {
                    assert(interprets_from(
                        mid,
                        statements@,
                        i as int,
                        *self,
                        Err::<(), RuntimeError>(error),
                    ));
                    return Err(error);
                },
            }
            i += 1;
        }
        assert(interprets_from(*self, statements@, i as int, *self, Ok::<(), RuntimeError>(())));
        Ok(())
    }

    /// Runs `statements` in scope `environment`, then makes the scope that
    /// was current before current again, whether the statements ran to
    /// their end, returned, or failed. The result is the value that a
    /// `return` among them gave, if one was reached.
    pub fn execute_block(&mut self, statements: &Vec<Stmt>, environment: usize) -> (r: Result<
        Option<LoxObj>,
        RuntimeError,
    >)
        requires
            old(self).wf(),
            environment < old(self).environments.scopes.len(),
        ensures
            final(self).wf(),
            final(self).extends(old(self)),
            r matches Ok(Some(v)) ==> v.within(final(self).heap.sizes()),
            runs_block(*old(self), statements@, environment, *final(self), r),
        decreases old(self).budget, 6int, statements,
    {
        let previous = self.environment;
        self.environment = environment;
        let ghost entered = *self;
        assert(entered == in_scope(*old(self), environment));
        let mut result: Result<Option<LoxObj>, RuntimeError> = Ok(None);
        let mut i: usize = 0;
        loop
            invariant_except_break
                result == Ok::<Option<LoxObj>, RuntimeError>(None),
                forall|t: Interpreter, r: Flow| #[trigger]
                    runs_from(*self, statements@, i as int, t, r) ==> runs_from(
                        entered,
                        statements@,
                        0,
                        t,
                        r,
                    ),
            invariant
                i <= statements.len(),
                self.wf(),
                self.evolves_from(old(self)),
                self.environment == environment,
                previous == old(self).environment,
            ensures
                result matches Ok(Some(v)) ==> v.within(self.heap.sizes()),
                runs_from(entered, statements@, 0, *self, result),
            decreases statements.len() - i,
        {
            if i >= statements.len() {
                assert(runs_from(*self, statements@, i as int, *self, result));
                break ;
            }
            let ghost mid = *self;
            let step = self.visit_stmt(&statements[i]);
            assert(through(*self, step));
            proof {
                extends_is_transitive(*self, mid, *old(self));
            }
            match step {
                Ok(None) => {
                    assert forall|t: Interpreter, r: Flow| #[trigger]
                        runs_from(*self, statements@, i + 1, t, r) implies runs_from(
                        entered,
                        statements@,
                        0,
                        t,
                        r,
                    ) by {
                        assert(runs_from(mid, statements@, i as int, t, r));
                    }
                },
                other => {
                    assert(runs_from(mid, statements@, i as int, *self, other));
                    result = other;
                    break ;
                },
            }
            i += 1;
        }
        let ghost done = *self;
        self.environment = previous;
        assert(*self == in_scope(done, old(self).environment));
        assert(through(done, ()));
        result
    }

    /// Calls a function of the program: spends one unit of budget, opens a
    /// scope inside the function's closure, binds the parameters to the
    /// arguments there, and runs the body. An initializer gives what `this`
    /// is bound to in its closure, whatever its body returned; any other
    /// function gives what its body returned, or `nil`.
    pub fn call_function(
        &mut self,
        declaration: &FunctionDecl,
        closure: usize,
        is_initializer: bool,
        args: &Vec<LoxObj>,
        paren: &Token,
    ) -> (r: Result<LoxObj, RuntimeError>)
        requires
            old(self).wf(),
            closure < old(self).environments.scopes.len(),
            old(self).holds_all(args@),
        ensures
            final(self).wf(),
            final(self).extends(old(self)),
            r matches Ok(v) ==> v.within(final(self).heap.sizes()),
            function_called(
                *old(self),
                *declaration,
                closure,
                is_initializer,
                args@,
                *paren,
                *final(self),
                r,
            ),
        decreases old(self).budget, 2int, declaration,
    {
        let functions = self.heap.functions.len();
        let frame = match self.open_frame(closure, &declaration.params, args, paren.line) {
            Ok(frame) => frame,
            Err(error) => {
                return Err(error);
            },
        };
        let ghost framed = *self;
        let returned = self.execute_block(&declaration.body, frame);
        let ghost run = *self;
        proof {
            extends_is_transitive(*self, framed, *old(self));
            assert(through(framed, (run, returned)));
        }
        self.close_scope(frame, functions);
        proof {
            left_scope_extends(*self, run, *old(self), frame, functions);
        }
        match returned {
            Err(error) => Err(error),
            Ok(value) => {
                if is_initializer {
                    self.read_this(closure, &declaration.name)
                } else {
                    match value {
                        Some(v) => Ok(v),
                        None => Ok(nil()),
                    }
                }
            },
        }
    }

    /// Makes an instance of class `class`. Where the class has an
    /// initializer, its own or an inherited one, it is bound to the new
    /// instance and called on `args`. The value of the call is the instance,
    /// whatever the initializer returned.
    pub fn construct(&mut self, class: usize, args: &Vec<LoxObj>, paren: &Token) -> (r: Result<
        LoxObj,
        RuntimeError,
    >)
        requires
            old(self).wf(),
            class < old(self).heap.classes.len(),
            old(self).holds_all(args@),
        ensures
            final(self).wf(),
            final(self).extends(old(self)),
            r matches Ok(v) ==> {
                &&& v == LoxObj::Instance(old(self).heap.instances.len())
                &&& v.within(final(self).heap.sizes())
                &&& final(self).heap.instances[old(self).heap.instances.len() as int].class == class
            },
            constructed(*old(self), class, args@, *paren, *final(self), r),
        decreases old(self).budget, 3int, paren,
    {
        let initializer = self.heap.find_method(class, "init");
        let instance = self.heap.instantiate(class);
        proof {
            heap_change_keeps_order(*self, *old(self));
        }
        let ghost made = *self;
        assert(made.instance_made(old(self), class));
        match initializer {
            None => Ok(instance),
            Some(f) => {
                let bound = self.bind(&LoxObj::Function(f), instance.clone());
                proof {
                    extends_is_transitive(*self, made, *old(self));
                }
                let ghost ready = *self;
                match bound {
                    LoxObj::Function(b) => {
                        let declaration = share(&self.heap.functions[b].declaration);
                        let closure = self.heap.functions[b].closure;
                        let is_initializer = self.heap.functions[b].is_initializer;
                        let done = self.call_function(
                            &declaration,
                            closure,
                            is_initializer,
                            args,
                            paren,
                        );
                        proof {
                            extends_is_transitive(*self, ready, *old(self));
                            assert(through(done, ()));
                            assert(ready.bound(
                                &made,
                                LoxObj::Function(f),
                                instance,
                                LoxObj::Function(b),
                            ));
                        }
                        match done {
                            Ok(_) => Ok(instance),
                            Err(error) => Err(error),
                        }
                    },
                    _ => Ok(instance),
                }
            },
        }
    }

    /// Calls `callee` on `args`.
    ///
    /// Only functions, native functions, classes and lists can be called,
    /// and only with as many arguments as their arity: any other call fails
    /// and changes nothing. A class gives a new instance of itself, and a
    /// list the item at the index it is called with.
    pub fn call(&mut self, callee: &LoxObj, args: &Vec<LoxObj>, paren: &Token) -> (r: Result<
        LoxObj,
        RuntimeError,
    >)
        requires
            old(self).wf(),
            callee.within(old(self).heap.sizes()),
            old(self).holds_all(args@),
        ensures
            final(self).wf(),
            final(self).extends(old(self)),
            r matches Ok(v) ==> v.within(final(self).heap.sizes()),
            called(*old(self), *callee, args@, *paren, *final(self), r),
        decreases old(self).budget, 4int, paren,
    {
        let arity = match self.heap.arity(callee) {
            Some(n) => n,
            None => {
                return Err(runtime_error(paren, "Can only call functions and classes."));
            },
        };
        match check_arity(paren, arity, args.len()) {
            Ok(_) => {},
            Err(error) => {
                return Err(error);
            },
        }
        match callee {
            LoxObj::Function(f) => {
                let declaration = share(&self.heap.functions[*f].declaration);
                let closure = self.heap.functions[*f].closure;
                let is_initializer = self.heap.functions[*f].is_initializer;
                self.call_function(&declaration, closure, is_initializer, args, paren)
            },
            LoxObj::Native(n) => self.call_native(*n, args),
            LoxObj::Class(c) => self.construct(*c, args, paren),
            LoxObj::List(l) => self.index_list(*l, args),
            _ => Err(runtime_error(paren, "Can only call functions and classes.")),
        }
    }

    /// Evaluates an expression: operands from left to right, up to the
    /// first error.
    pub fn visit_expr(&mut self, expr: &Expr) -> (r: Result<LoxObj, RuntimeError>)
        requires
            old(self).wf(),
        ensures
            final(self).wf(),
            final(self).extends(old(self)),
            r matches Ok(v) ==> v.within(final(self).heap.sizes()),
            evaluates(*old(self), *expr, *final(self), r),
        decreases old(self).budget, 5int, expr,
    {
        match expr {
            Expr::Literal { value } => Ok(LoxObj::Primitive(value.clone())),
            Expr::Grouping { expression } => self.visit_expr(expression),
            Expr::Unary { operator, right } => {
                let evaluated = self.visit_expr(right);
                assert(through(*self, evaluated) && through(evaluated, ()));
                match evaluated {
                    Ok(value) => unary(operator, &value),
                    Err(error) => Err(error),
                }
            },
            Expr::Binary { left, operator, right } => {
                let evaluated = self.visit_expr(left);
                assert(through(*self, evaluated) && through(evaluated, ()));
                let l = match evaluated {
                    Ok(value) => value,
                    Err(error) => {
                        return Err(error);
                    },
                };
                let ghost mid = *self;
                let r = self.visit_expr(right);
                assert(through(*self, r) && through(r, ()));
                proof {
                    extends_is_transitive(*self, mid, *old(self));
                }
                match r {
                    Ok(value) => binary(&l, operator, &value),
                    Err(error) => Err(error),
                }
            },
            Expr::Variable { name } => self.lookup_variable(name),
            Expr::This { keyword } => self.lookup_variable(keyword),
            Expr::Assignment { name, value } => {
                let evaluated = self.visit_expr(value);
                assert(through(*self, evaluated) && through(evaluated, ()));
                let v = match evaluated {
                    Ok(value) => value,
                    Err(error) => {
                        return Err(error);
                    },
                };
                let ghost mid = *self;
                let r = self.assign_variable(name, v);
                proof {
                    extends_is_transitive(*self, mid, *old(self));
                }
                r
            },
            Expr::Logical { left, operator, right } => {
                let evaluated = self.visit_expr(left);
                assert(through(*self, evaluated) && through(evaluated, ()));
                let l = match evaluated {
                    Ok(value) => value,
                    Err(error) => {
                        return Err(error);
                    },
                };
                if evaluates_right(operator.kind(), &l) {
                    let ghost mid = *self;
                    let r = self.visit_expr(right);
                    assert(through(*self, r) && through(r, ()));
                    proof {
                        extends_is_transitive(*self, mid, *old(self));
                    }
                    r
                } else {
                    Ok(l)
                }
            },
            Expr::Call { callee, paren, arguments } => {
                let evaluated = self.visit_expr(callee);
                assert(through(*self, evaluated) && through(evaluated, ()));
                let c = match evaluated {
                    Ok(value) => value,
                    Err(error) => {
                        return Err(error);
                    },
                };
                let ghost start = *self;
                let mut args: Vec<LoxObj> = Vec::new();
                let mut k: usize = 0;
                while k < arguments.len()
                    invariant
                        *expr matches Expr::Call { callee: head, arguments: all, .. } && all
                            == *arguments && head == *callee,
                        evaluates(*old(self), **callee, start, Ok::<LoxObj, RuntimeError>(c)),
                        start.budget <= old(self).budget,
                        k <= arguments.len(),
                        args@.len() == k,
                        self.wf(),
                        self.extends(old(self)),
                        self.holds_all(args@),
                        c.within(self.heap.sizes()),
                        forall|t: Interpreter, r: Result<Seq<LoxObj>, RuntimeError>| #[trigger]
                            evaluates_all(*self, arguments@, k as int, args@, t, r)
                                ==> evaluates_all(start, arguments@, 0, Seq::empty(), t, r),
                    decreases arguments.len() - k,
                {
                    let ghost mid = *self;
                    let ghost found = args@;
                    let a = self.visit_expr(&arguments[k]);
                    assert(through(*self, a) && through(a, ()));
                    proof {
                        extends_is_transitive(*self, mid, *old(self));
                    }
                    match a {
                        Ok(value) => {
                            args.push(value);
                            assert forall|t: Interpreter, r: Result<Seq<LoxObj>, RuntimeError>| #[trigger]
                                evaluates_all(
                                    *self,
                                    arguments@,
                                    k + 1,
                                    args@,
                                    t,
                                    r,
                                ) implies evaluates_all(
                                start,
                                arguments@,
                                0,
                                Seq::empty(),
                                t,
                                r,
                            ) by {
                                assert(evaluates_all(mid, arguments@, k as int, found, t, r));
                            }
                        },
                        Err(error) => {
                            assert(evaluates_all(
                                mid,
                                arguments@,
                                k as int,
                                found,
                                *self,
                                Err::<Seq<LoxObj>, RuntimeError>(error),
                            ));
                            assert(through(*self, Err::<Seq<LoxObj>, RuntimeError>(error)));
                            assert(through(start, Ok::<LoxObj, RuntimeError>(c)));
                            return Err(error);
                        },
                    }
                    k += 1;
                }
                let ghost mid = *self;
                assert(evaluates_all(
                    mid,
                    arguments@,
                    k as int,
                    args@,
                    mid,
                    Ok::<Seq<LoxObj>, RuntimeError>(args@),
                ));
                assert(through(mid, Ok::<Seq<LoxObj>, RuntimeError>(args@)));
                assert(through(start, Ok::<LoxObj, RuntimeError>(c)));
                let r = self.call(&c, &args, paren);
                proof {
                    extends_is_transitive(*self, mid, *old(self));
                }
                r
            },
            Expr::Get { object, name } => {
                let evaluated = self.visit_expr(object);
                assert(through(*self, evaluated) && through(evaluated, ()));
                let o = match evaluated {
                    Ok(value) => value,
                    Err(error) => {
                        return Err(error);
                    },
                };
                let ghost mid = *self;
                let r = self.get_property(o, name);
                proof {
                    extends_is_transitive(*self, mid, *old(self));
                }
                r
            },
            Expr::SetProperty { object, name, value } => {
                let evaluated = self.visit_expr(object);
                assert(through(*self, evaluated) && through(evaluated, ()));
                let o = match evaluated {
                    Ok(value) => value,
                    Err(error) => {
                        return Err(error);
                    },
                };
                match o {
                    LoxObj::Instance(_) => {},
                    _ => {
                        return Err(runtime_error(name, "Only instances have fields."));
                    },
                }
                let ghost mid = *self;
                let evaluated = self.visit_expr(value);
                assert(through(*self, evaluated) && through(evaluated, ()));
                let v = match evaluated {
                    Ok(value) => value,
                    Err(error) => {
                        proof {
                            extends_is_transitive(*self, mid, *old(self));
                        }
                        return Err(error);
                    },
                };
                proof {
                    extends_is_transitive(*self, mid, *old(self));
                }
                let ghost ready = *self;
                let r = self.set_field(&o, name, v);
                proof {
                    extends_is_transitive(*self, ready, *old(self));
                }
                Ok(r)
            },
        }
    }

    /// Executes a statement. The result is the value of a `return` that was
    /// reached, if any.
    pub fn visit_stmt(&mut self, statement: &Stmt) -> (r: Result<Option<LoxObj>, RuntimeError>)
        requires
            old(self).wf(),
        ensures
            final(self).wf(),
            final(self).extends(old(self)),
            r matches Ok(Some(v)) ==> v.within(final(self).heap.sizes()),
            executes(*old(self), *statement, *final(self), r),
        decreases old(self).budget, 6int, statement,
    {
        match statement {
            Stmt::Expression { expression } => {
                let evaluated = self.visit_expr(expression);
                assert(through(*self, evaluated) && through(evaluated, ()));
                match evaluated {
                    Ok(_) => Ok(None),
                    Err(error) => Err(error),
                }
            },
            Stmt::Print { expression } => {
                let evaluated = self.visit_expr(expression);
                assert(through(*self, evaluated) && through(evaluated, ()));
                match evaluated {
                    Ok(value) => {
                        let ghost mid = *self;
                        self.print(&value);
                        proof {
                            extends_is_transitive(*self, mid, *old(self));
                        }
                        Ok(None)
                    },
                    Err(error) => Err(error),
                }
            },
            Stmt::Var { name, initializer } => {
                let evaluated = self.visit_expr(initializer);
                assert(through(*self, evaluated) && through(evaluated, ()));
                match evaluated {
                    Ok(value) => {
                        let ghost mid = *self;
                        self.define(self.environment, name.lexeme.clone(), value);
                        proof {
                            extends_is_transitive(*self, mid, *old(self));
                        }
                        Ok(None)
                    },
                    Err(error) => Err(error),
                }
            },
            Stmt::Block { statements } => {
                let functions = self.heap.functions.len();
                let scope = self.open_scope(self.environment);
                let ghost opened = *self;
                let r = self.execute_block(statements, scope);
                let ghost run = *self;
                proof {
                    extends_is_transitive(*self, opened, *old(self));
                    assert(opened.scope_opened(old(self), old(self).environment));
                    assert(through(opened, run));
                }
                self.close_scope(scope, functions);
                proof {
                    left_scope_extends(*self, run, *old(self), scope, functions);
                }
                r
            },
            Stmt::If { condition, then_branch, else_branch } => {
                let evaluated = self.visit_expr(condition);
                assert(through(*self, evaluated) && through(evaluated, ()));
                let c = match evaluated {
                    Ok(value) => value,
                    Err(error) => {
                        return Err(error);
                    },
                };
                let ghost mid = *self;
                if c.is_truthy() {
                    let r = self.visit_stmt(then_branch);
                    assert(through(*self, r));
                    proof {
                        extends_is_transitive(*self, mid, *old(self));
                    }
                    r
                } else {
                    match else_branch {
                        Some(branch) => {
                            let r = self.visit_stmt(branch);
                            assert(through(*self, r));
                            proof {
                                extends_is_transitive(*self, mid, *old(self));
                            }
                            r
                        },
                        None => Ok(None),
                    }
                }
            },
            Stmt::While { condition, body } => {
                loop
                    invariant
                        *statement matches Stmt::While { condition: c, body: b } && c == *condition
                            && b == *body,
                        self.wf(),
                        self.extends(old(self)),
                        forall|t: Interpreter, r: Flow| #[trigger]
                            repeats(*self, **condition, **body, t, r) ==> repeats(
                                *old(self),
                                **condition,
                                **body,
                                t,
                                r,
                            ),
                    decreases self.budget,
                {
                    let ghost top = *self;
                    let c = self.visit_expr(condition);
                    assert(through(*self, c) && through(c, ()));
                    proof {
                        extends_is_transitive(*self, top, *old(self));
                    }
                    let ghost tested = *self;
                    match c {
                        Ok(value) => {
                            if !value.is_truthy() {
                                assert(repeats(
                                    top,
                                    **condition,
                                    **body,
                                    *self,
                                    Ok::<Option<LoxObj>, RuntimeError>(None),
                                ));
                                return Ok(None);
                            }
                        },
                        Err(error) => {
                            assert(repeats(
                                top,
                                **condition,
                                **body,
                                *self,
                                Err::<Option<LoxObj>, RuntimeError>(error),
                            ));
                            return Err(error);
                        },
                    }
                    match self.spend(0) {
                        Ok(_) => {},
                        Err(error) => {
                            assert(*self == tested);
                            assert(repeats(
                                top,
                                **condition,
                                **body,
                                *self,
                                Err::<Option<LoxObj>, RuntimeError>(error),
                            ));
                            return Err(error);
                        },
                    }
                    let ghost mid = *self;
                    assert(mid == spent(tested));
                    let step = self.visit_stmt(body);
                    assert(through(*self, step));
                    proof {
                        extends_is_transitive(*self, mid, *old(self));
                    }
                    match step {
                        Ok(None) => {
                            assert forall|t: Interpreter, r: Flow| #[trigger]
                                repeats(*self, **condition, **body, t, r) implies repeats(
                                *old(self),
                                **condition,
                                **body,
                                t,
                                r,
                            ) by {
                                assert(repeats(top, **condition, **body, t, r));
                            }
                        },
                        other => {
                            assert(repeats(top, **condition, **body, *self, other));
                            return other;
                        },
                    }
                }
            },
            Stmt::Function { declaration } => {
                self.declare_function(declaration);
                Ok(None)
            },
            Stmt::Return { keyword: _, expression } => {
                let evaluated = self.visit_expr(expression);
                assert(through(*self, evaluated) && through(evaluated, ()));
                match evaluated {
                    Ok(value) => Ok(Some(value)),
                    Err(error) => Err(error),
                }
            },
            Stmt::Class { name, methods, superclass } => {
                self.define(self.environment, name.lexeme.clone(), nil());
                let ghost named = *self;
                assert(named.variable_defined(
                    old(self),
                    old(self).environment as int,
                    name.lexeme@,
                    nil(),
                ));
                match superclass {
                    Some(expression) => {
                        let found = self.visit_expr(expression);
                        assert(through(*self, found) && through(found, ()));
                        proof {
                            extends_is_transitive(*self, named, *old(self));
                        }
                        let ghost mid = *self;
                        match found {
                            Ok(LoxObj::Class(c)) => {
                                let scope = self.open_scope(self.environment);
                                let ghost opened = *self;
                                self.define(scope, String::from_str("super"), LoxObj::Class(c));
                                let ghost ready = *self;
                                proof {
                                    extends_is_transitive(*self, mid, *old(self));
                                    assert(opened.scope_opened(&mid, mid.environment));
                                    assert(ready.variable_defined(
                                        &opened,
                                        mid.environments.scopes.len() as int,
                                        "super"@,
                                        LoxObj::Class(c),
                                    ));
                                }
                                self.declare_class(name, methods, Some(c), scope);
                                proof {
                                    extends_is_transitive(*self, ready, *old(self));
                                }
                                Ok(None)
                            },
                            Ok(_) => Err(runtime_error(name, "Superclass must be a class.")),
                            Err(error) => Err(error),
                        }
                    },
                    None => {
                        self.declare_class(name, methods, None, self.environment);
                        proof {
                            extends_is_transitive(*self, named, *old(self));
                        }
                        Ok(None)
                    },
                }
            },
        }
    }
}

} // verus!
