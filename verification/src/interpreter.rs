//! The interpreter's state, and the single steps that change it.

use crate::ast::{share, FunctionDecl};
use crate::environment::{
    is_undefined_variable, stored_keeps_values_within, values_stay_within, Environment,
};
use crate::errors::RuntimeError;
use crate::heap::{method_table, Heap, LoxFn, LoxProperty, NativeFn, NativeKind, DISPLAY_DEPTH};
use crate::number::{
    from_integer, ieee_from_integer, ieee_quotient, ieee_to_integer, negate, negated, quotient,
    to_integer,
};
use crate::operators::fails_with;
use crate::token::{same_text, Token};
use crate::values::{nil, number, pieces, LoxObj, LoxPrimitive, Piece};
use chrono::{DateTime, Utc};
use std::collections::HashMap;
use std::rc::Rc;
use std::time::SystemTime;
use vstd::hash_map::StringHashMap;
use vstd::prelude::*;
use vstd::string::StringExecFns;

verus! {

/// The state of a running program.
pub struct Interpreter {
    /// The scopes: those that are open, and those that were left while a
    /// function could still refer to them.
    pub environments: Environment,
    /// Every object that was ever made.
    pub heap: Heap,
    /// The global scope.
    pub globals: usize,
    /// The scope in which the next statement runs.
    pub environment: usize,
    /// The depth map: for the token, given by its byte offset, of each
    /// expression that refers to a local binding, how many scopes lie between
    /// the expression and the binding.
    pub locals: HashMap<usize, usize>,
    /// The lines printed so far.
    pub output: Vec<Vec<Piece>>,
    /// How many more calls of its own functions and rounds of its loops
    /// the program may make.
    pub budget: u64,
}

/// A runtime error at the line of `token`.
pub fn runtime_error(token: &Token, message: &str) -> (error: RuntimeError)
    ensures
        error.line == token.line,
        error.message@ == message@,
{
    RuntimeError { line: token.line, message: String::from_str(message) }
}

/// Whether `error` says, at `line`, that the budget of calls and loop
/// iterations is used up.
pub open spec fn is_budget_exhausted(error: RuntimeError, line: usize) -> bool {
    &&& error.line == line
    &&& error.message@ == "Execution budget exhausted."@
}

/// The error of a program that has used up its budget.
pub fn budget_exhausted(line: usize) -> (error: RuntimeError)
    ensures
        is_budget_exhausted(error, line),
{
    RuntimeError { line, message: String::from_str("Execution budget exhausted.") }
}

/// Trusted: the wall-clock time in milliseconds since the Unix epoch, which
/// is negative for a clock that stands before it: std's `SystemTime::now`,
/// turned into a date by chrono's `From<SystemTime>` for `DateTime<Utc>`
/// and read by `DateTime::timestamp_millis`. Nothing is claimed of the
/// result.
#[verifier::external_body]
fn wall_clock_millis() -> i64 {
    DateTime::<Utc>::from(SystemTime::now()).timestamp_millis()
}

/// The magnitude of `n`.
pub open spec fn magnitude(n: i64) -> u64 {
    if n >= 0 {
        n as u64
    } else {
        (-(n as int)) as u64
    }
}

/// The number of seconds that `millis` milliseconds are: the binary64
/// quotient of `millis` by a thousand.
pub open spec fn spec_seconds(millis: i64) -> u64 {
    let q = ieee_quotient(ieee_from_integer(magnitude(millis)), ieee_from_integer(1000));
    if millis >= 0 {
        q
    } else {
        negated(q)
    }
}

/// Converts a time in milliseconds to the number of seconds it is.
pub fn seconds(millis: i64) -> (r: u64)
    ensures
        r == spec_seconds(millis),
{
    if millis >= 0 {
        quotient(from_integer(millis as u64), from_integer(1000))
    } else {
        let m: u64 = ((-(millis + 1)) as u64) + 1;
        negate(quotient(from_integer(m), from_integer(1000)))
    }
}

impl Interpreter {
    /// The scopes are chained properly, the current scope exists, and no
    /// value anywhere refers to an object that the heap does not hold.
    pub open spec fn wf(&self) -> bool {
        &&& self.environments.wf()
        &&& self.globals == 0
        &&& self.environment < self.environments.scopes.len()
        &&& self.heap.wf(self.environments.scopes.len() as nat)
        &&& self.environments.values_within(self.heap.sizes())
    }

    /// `self` is a state that a program can reach from `before`: every scope
    /// and object of `before` is still there, no scope has changed what
    /// encloses it, functions and classes are unchanged, the depth map is
    /// unchanged, output was only added, budget was only spent, and the
    /// current scope is the same.
    pub open spec fn extends(&self, before: &Interpreter) -> bool {
        &&& self.evolves_from(before)
        &&& self.environment == before.environment
    }

    /// As `extends`, but for the current scope, which may differ.
    pub open spec fn evolves_from(&self, before: &Interpreter) -> bool {
        &&& self.continues(before)
        &&& self.locals@ == before.locals@
    }

    /// As `evolves_from`, but for the depth map, which may differ.
    pub open spec fn continues(&self, before: &Interpreter) -> bool {
        &&& self.environments.scopes.len() >= before.environments.scopes.len()
        &&& forall|i: int|
            0 <= i < before.environments.scopes.len() ==> (
            #[trigger] self.environments.scopes[i]).enclosing
                == before.environments.scopes[i].enclosing
        &&& self.heap.grown_from(&before.heap)
        &&& self.output.len() >= before.output.len()
        &&& forall|k: int| 0 <= k < before.output.len() ==> self.output[k] == before.output[k]
        &&& self.budget <= before.budget
        &&& self.globals == before.globals
    }

    /// Every one of `values` is a value of this interpreter's heap.
    pub open spec fn holds_all(&self, values: Seq<LoxObj>) -> bool {
        forall|j: int| 0 <= j < values.len() ==> (#[trigger] values[j]).within(self.heap.sizes())
    }

    /// What reading the variable `name` gives: where the depth map has the
    /// token, the binding that many scopes out from the current scope, and
    /// nothing else; where it has not, the global binding.
    pub open spec fn variable_read(&self, name: Token, r: Result<LoxObj, RuntimeError>) -> bool {
        let env = self.environments;
        if self.locals@.contains_key(name.byte) {
            match env.spec_ancestor(self.environment as int, self.locals@[name.byte] as nat) {
                Some(a) if env.scopes[a].values@.contains_key(name.lexeme@) => r == Ok::<
                    LoxObj,
                    RuntimeError,
                >(env.scopes[a].values@[name.lexeme@]),
                _ => r is Err && is_undefined_variable(r->Err_0, name),
            }
        } else {
            if env.scopes[self.globals as int].values@.contains_key(name.lexeme@) {
                r == Ok::<LoxObj, RuntimeError>(env.scopes[self.globals as int].values@[name.lexeme@])
            } else {
                r is Err && is_undefined_variable(r->Err_0, name)
            }
        }
    }

    /// Records that the expression whose token starts at byte `key` refers
    /// to a binding `depth` scopes out.
    pub fn resolve(&mut self, key: usize, depth: usize)
        ensures
            final(self).locals@ == old(self).locals@.insert(key, depth),
            final(self).environments == old(self).environments,
            final(self).heap == old(self).heap,
            final(self).globals == old(self).globals,
            final(self).environment == old(self).environment,
            final(self).output == old(self).output,
            final(self).budget == old(self).budget,
    {
        self.locals.insert(key, depth);
    }

    /// Reads the variable that `name` names.
    pub fn lookup_variable(&self, name: &Token) -> (r: Result<LoxObj, RuntimeError>)
        requires
            self.wf(),
        ensures
            self.variable_read(*name, r),
            r matches Ok(v) ==> v.within(self.heap.sizes()),
    {
        match self.locals.get(&name.byte) {
            Some(distance) => self.environments.get_at(self.environment, *distance, name),
            None => {
                assert(self.environments.owner(0, name.lexeme@) == (
                if self.environments.scopes[0].values@.contains_key(name.lexeme@) {
                    Some(0int)
                } else {
                    None
                }));
                self.environments.get(self.globals, name)
            },
        }
    }
}

/// A token that stands for the word `this` at the place of `at`.
pub(crate) fn this_token(at: &Token) -> (token: Token)
    ensures
        token.lexeme@ == "this"@,
        token.line == at.line,
        token.byte == at.byte,
{
    Token::new(crate::token::TokenType::This, String::from_str("this"), at.line, at.byte)
}

impl Interpreter {
    /// `self` differs from `before` in its scopes at most.
    pub open spec fn same_but_scopes(&self, before: &Interpreter) -> bool {
        &&& self.heap == before.heap
        &&& self.globals == before.globals
        &&& self.environment == before.environment
        &&& self.locals == before.locals
        &&& self.output == before.output
        &&& self.budget == before.budget
    }

    /// `self` differs from `before` in its heap at most.
    pub open spec fn same_but_heap(&self, before: &Interpreter) -> bool {
        &&& self.environments == before.environments
        &&& self.globals == before.globals
        &&& self.environment == before.environment
        &&& self.locals == before.locals
        &&& self.output == before.output
        &&& self.budget == before.budget
    }

    /// `self` differs from `before` in its output at most.
    pub open spec fn same_but_output(&self, before: &Interpreter) -> bool {
        &&& self.environments == before.environments
        &&& self.heap == before.heap
        &&& self.globals == before.globals
        &&& self.environment == before.environment
        &&& self.locals == before.locals
        &&& self.budget == before.budget
    }

    /// `self` differs from `before` in its scopes and its heap at most.
    pub open spec fn same_but_scopes_and_heap(&self, before: &Interpreter) -> bool {
        &&& self.globals == before.globals
        &&& self.environment == before.environment
        &&& self.locals == before.locals
        &&& self.output == before.output
        &&& self.budget == before.budget
    }

    /// `self` is `before` with one more scope, empty and inside `enclosing`.
    pub open spec fn scope_opened(&self, before: &Interpreter, enclosing: usize) -> bool {
        &&& self.same_but_scopes(before)
        &&& self.environments.opened(&before.environments, Some(enclosing))
    }

    /// `self` is `before` after the scope `scope` was left: where the scope
    /// is the last that was opened and the heap holds no more than
    /// `functions` functions, so that no function was made since the scope
    /// was opened, the scope is gone; otherwise nothing has changed.
    pub open spec fn scope_closed(&self, before: &Interpreter, scope: usize, functions: usize) -> bool {
        if before.heap.functions.len() == functions && before.environments.scopes.len() == scope
            + 1 {
            &&& self.same_but_scopes(before)
            &&& self.environments.scopes@ == before.environments.scopes@.drop_last()
        } else {
            *self == *before
        }
    }

    /// `self` is `before` with `name` bound to `value` in `scope`.
    pub open spec fn variable_defined(
        &self,
        before: &Interpreter,
        scope: int,
        name: Seq<char>,
        value: LoxObj,
    ) -> bool {
        &&& self.same_but_scopes(before)
        &&& self.environments.stored(&before.environments, scope, name, value)
    }

    /// `self` is `before` with one more line printed, which writes `value`.
    pub open spec fn line_printed(&self, before: &Interpreter, value: LoxObj) -> bool {
        &&& self.same_but_output(before)
        &&& self.output@.len() == before.output@.len() + 1
        &&& self.output@.drop_last() == before.output@
        &&& pieces(self.output@.last()@) == before.heap.written(value, DISPLAY_DEPTH as nat)
    }

    /// `self` is `before` after the declaration of a function was
    /// executed: the heap has a new function that closes over the current
    /// scope, and the function's name is bound to it there.
    pub open spec fn function_declared(
        &self,
        before: &Interpreter,
        declaration: Rc<FunctionDecl>,
    ) -> bool {
        &&& self.same_but_scopes_and_heap(before)
        &&& self.heap.gained_function(
            &before.heap,
            LoxFn { declaration, closure: before.environment, is_initializer: false },
        )
        &&& self.environments.stored(
            &before.environments,
            before.environment as int,
            declaration.name.lexeme@,
            LoxObj::Function(before.heap.functions.len()),
        )
    }

    /// `self` is `before` after a class was made and bound to its name in
    /// the current scope: the heap has a new function for each method, all
    /// closing over `closure`, and a new class whose table leads to them. A
    /// method named `init` is an initializer.
    pub open spec fn class_declared(
        &self,
        before: &Interpreter,
        name: Token,
        methods: Seq<Rc<FunctionDecl>>,
        superclass: Option<usize>,
        closure: usize,
    ) -> bool {
        let first = before.heap.functions.len() as int;
        let made = self.heap.classes@.last();
        &&& self.same_but_scopes_and_heap(before)
        &&& self.heap.natives == before.heap.natives
        &&& self.heap.instances == before.heap.instances
        &&& self.heap.lists == before.heap.lists
        &&& self.heap.functions.len() == first + methods.len()
        &&& forall|f: int| 0 <= f < first ==> self.heap.functions[f] == before.heap.functions[f]
        &&& forall|k: int|
            0 <= k < methods.len() ==> (#[trigger] self.heap.functions[first + k]) == (LoxFn {
                declaration: methods[k],
                closure,
                is_initializer: methods[k].name.lexeme@ == "init"@,
            })
        &&& self.heap.classes.len() == before.heap.classes.len() + 1
        &&& self.heap.classes@.drop_last() == before.heap.classes@
        &&& made.name@ == name.lexeme@
        &&& made.superclass == superclass
        &&& made.methods@ == method_table(methods, first as nat, methods.len())
        &&& self.environments.stored(
            &before.environments,
            before.environment as int,
            name.lexeme@,
            LoxObj::Class(before.heap.classes.len()),
        )
    }

    /// `self` is `before` with a new instance of `class`.
    pub open spec fn instance_made(&self, before: &Interpreter, class: usize) -> bool {
        &&& self.same_but_heap(before)
        &&& self.heap.gained_instance(&before.heap, class)
    }

    /// `self` is `before` with the field `name` of instance `i` set to
    /// `value`.
    pub open spec fn field_assigned(
        &self,
        before: &Interpreter,
        i: int,
        name: Seq<char>,
        value: LoxObj,
    ) -> bool {
        &&& self.same_but_heap(before)
        &&& self.heap.field_set(&before.heap, i, name, value)
    }

    /// `self` is `before` with one unit of budget spent and with the frame
    /// of a call opened: a new scope inside `closure` in which the
    /// parameters are bound to the arguments, one for one.
    pub open spec fn frame_opened(
        &self,
        before: &Interpreter,
        closure: usize,
        params: Seq<Token>,
        args: Seq<LoxObj>,
    ) -> bool {
        let frame = before.environments.scopes.len() as int;
        &&& before.budget > 0
        &&& self.budget == before.budget - 1
        &&& self.heap == before.heap
        &&& self.globals == before.globals
        &&& self.environment == before.environment
        &&& self.locals == before.locals
        &&& self.output == before.output
        &&& self.environments.scopes.len() == frame + 1
        &&& forall|i: int| 0 <= i < frame ==> self.environments.scopes[i] == before.environments.scopes[i]
        &&& self.environments.scopes[frame].enclosing == Some(closure)
        &&& self.environments.scopes[frame].values@ == bindings(
            params,
            args,
            if params.len() <= args.len() {
                params.len()
            } else {
                args.len()
            },
        )
    }

    /// What an initializer gives when its body is done: the value that
    /// `this` is bound to in its closure.
    pub open spec fn this_read(&self, closure: usize, at: Token, r: Result<LoxObj, RuntimeError>) -> bool {
        let values = self.environments.scopes[closure as int].values@;
        if values.contains_key("this"@) {
            r == Ok::<LoxObj, RuntimeError>(values["this"@])
        } else {
            &&& r matches Err(error)
            &&& error.line == at.line
            &&& error.message@ == "Undefined variable 'this'."@
        }
    }

    /// A fresh interpreter: the global scope holds the native function
    /// `clock` and nothing else, nothing was printed, and the budget is the
    /// largest there is.
    pub fn new() -> (interpreter: Interpreter)
        ensures
            interpreter.wf(),
            interpreter.environment == 0,
            interpreter.environments.scopes.len() == 1,
            interpreter.environments.scopes[0].values@ == Map::<Seq<char>, LoxObj>::empty().insert(
                "clock"@,
                LoxObj::Native(2),
            ),
            interpreter.heap.functions.len() == 0,
            interpreter.heap.classes.len() == 0,
            interpreter.heap.instances.len() == 0,
            interpreter.heap.lists.len() == 0,
            interpreter.heap.natives.len() == 3,
            interpreter.heap.natives[2].kind == NativeKind::Clock,
            interpreter.heap.natives[2].arity == 0,
            interpreter.heap.natives[2].this is None,
            interpreter.locals@ == Map::<usize, usize>::empty(),
            interpreter.output@ == Seq::<Vec<Piece>>::empty(),
            interpreter.budget == u64::MAX,
    {
        let mut environments = Environment::new();
        let mut heap = Heap::new();
        let clock = heap.native_fn(0, NativeKind::Clock);
        let ghost before = environments;
        environments.define(0, String::from_str("clock"), clock);
        let interpreter = Interpreter {
            environments,
            heap,
            globals: 0,
            environment: 0,
            locals: HashMap::new(),
            output: Vec::new(),
            budget: u64::MAX,
        };
        proof {
            assert(heap.functions_ok(1));
            stored_keeps_values_within(
                interpreter.environments,
                before,
                0,
                "clock"@,
                clock,
                heap.sizes(),
            );
        }
        interpreter
    }

    /// Sets how many more calls and loop iterations the program may make.
    pub fn set_budget(&mut self, budget: u64)
        ensures
            final(self).budget == budget,
            final(self).environments == old(self).environments,
            final(self).heap == old(self).heap,
            final(self).globals == old(self).globals,
            final(self).environment == old(self).environment,
            final(self).locals == old(self).locals,
            final(self).output == old(self).output,
    {
        self.budget = budget;
    }

    /// Takes one unit from the budget, or fails where none is left.
    pub fn spend(&mut self, line: usize) -> (r: Result<(), RuntimeError>)
        ensures
            old(self).budget > 0 ==> r is Ok && final(self).budget == old(self).budget - 1,
            old(self).budget == 0 ==> r is Err && is_budget_exhausted(r->Err_0, line)
                && final(self).budget == 0,
            final(self).environments == old(self).environments,
            final(self).heap == old(self).heap,
            final(self).globals == old(self).globals,
            final(self).environment == old(self).environment,
            final(self).locals == old(self).locals,
            final(self).output == old(self).output,
    {
        if self.budget == 0 {
            Err(budget_exhausted(line))
        } else {
            self.budget = self.budget - 1;
            Ok(())
        }
    }

    /// Opens a new scope inside `enclosing`.
    pub fn open_scope(&mut self, enclosing: usize) -> (scope: usize)
        requires
            old(self).wf(),
            enclosing < old(self).environments.scopes.len(),
        ensures
            final(self).wf(),
            final(self).extends(old(self)),
            final(self).same_but_scopes(old(self)),
            scope == old(self).environments.scopes.len(),
            final(self).environments.opened(&old(self).environments, Some(enclosing)),
    {
        let scope = self.environments.with_enclosing(enclosing);
        proof {
            assert forall|i: int, name: Seq<char>|
                0 <= i < self.environments.scopes.len()
                    && #[trigger] self.environments.scopes[i].values@.contains_key(
                    name,
                ) implies self.environments.scopes[i].values@[name].within(self.heap.sizes()) by {
                if i < old(self).environments.scopes.len() {
                    assert(self.environments.scopes[i] == old(self).environments.scopes[i]);
                    assert(old(self).environments.scopes[i].values@.contains_key(name));
                }
            }
        }
        scope
    }

    /// Leaves the scope `scope`, which was opened when the heap held
    /// `functions` functions: the scope is released where nothing can refer
    /// to it, which is where it is the last scope and no function was made
    /// since it was opened.
    pub fn close_scope(&mut self, scope: usize, functions: usize)
        requires
            old(self).wf(),
            old(self).environment < scope,
            functions <= old(self).heap.functions.len(),
            forall|f: int| 0 <= f < functions ==> (#[trigger] old(self).heap.functions[f]).closure < scope,
        ensures
            final(self).wf(),
            final(self).scope_closed(old(self), scope, functions),
    {
        if self.heap.functions.len() == functions && self.environments.scopes.len() > scope
            && self.environments.scopes.len() - 1 == scope {
            self.environments.scopes.pop();
            proof {
                assert forall|i: int, name: Seq<char>|
                    0 <= i < self.environments.scopes.len()
                        && #[trigger] self.environments.scopes[i].values@.contains_key(
                        name,
                    ) implies self.environments.scopes[i].values@[name].within(
                    self.heap.sizes(),
                ) by {
                    assert(self.environments.scopes[i] == old(self).environments.scopes[i]);
                    assert(old(self).environments.scopes[i].values@.contains_key(name));
                }
                assert forall|i: int| 0 <= i < self.environments.scopes.len() implies (
                #[trigger] self.environments.scopes[i].enclosing matches Some(p) ==> p < i) by {
                    assert(self.environments.scopes[i] == old(self).environments.scopes[i]);
                }
            }
        }
    }

    /// Binds `name` to `value` in `scope`.
    pub fn define(&mut self, scope: usize, name: String, value: LoxObj)
        requires
            old(self).wf(),
            scope < old(self).environments.scopes.len(),
            value.within(old(self).heap.sizes()),
        ensures
            final(self).wf(),
            final(self).extends(old(self)),
            final(self).same_but_scopes(old(self)),
            final(self).environments.stored(&old(self).environments, scope as int, name@, value),
    {
        self.environments.define(scope, name, value);
        proof {
            stored_keeps_values_within(
                self.environments,
                old(self).environments,
                scope as int,
                name@,
                value,
                self.heap.sizes(),
            );
        }
    }

    /// What assigning `value` to the variable `name` does: where the depth
    /// map has the token, the scope that many hops out takes the binding;
    /// where it has not, the global scope takes it if it had the name, and
    /// the assignment fails if it had not.
    pub open spec fn variable_written(
        &self,
        before: &Interpreter,
        name: Token,
        value: LoxObj,
        r: Result<LoxObj, RuntimeError>,
    ) -> bool {
        let env = before.environments;
        let target = if before.locals@.contains_key(name.byte) {
            env.spec_ancestor(before.environment as int, before.locals@[name.byte] as nat)
        } else if env.scopes[0].values@.contains_key(name.lexeme@) {
            Some(0int)
        } else {
            None
        };
        match target {
            Some(s) => r == Ok::<LoxObj, RuntimeError>(value) && self.environments.stored(
                &env,
                s,
                name.lexeme@,
                value,
            ),
            None => r is Err && is_undefined_variable(r->Err_0, name) && self.environments == env,
        }
    }

    /// Assigns `value` to the variable that `name` names.
    pub fn assign_variable(&mut self, name: &Token, value: LoxObj) -> (r: Result<
        LoxObj,
        RuntimeError,
    >)
        requires
            old(self).wf(),
            value.within(old(self).heap.sizes()),
        ensures
            final(self).wf(),
            final(self).extends(old(self)),
            final(self).same_but_scopes(old(self)),
            final(self).variable_written(old(self), *name, value, r),
            r matches Ok(v) ==> v.within(final(self).heap.sizes()),
    {
        let ghost env = self.environments;
        let r = match self.locals.get(&name.byte) {
            Some(distance) => {
                let d = *distance;
                self.environments.assign_at(self.environment, d, name, value)
            },
            None => {
                assert(env.owner(0, name.lexeme@) == (if env.scopes[0].values@.contains_key(
                    name.lexeme@,
                ) {
                    Some(0int)
                } else {
                    None
                }));
                self.environments.assign(self.globals, name, value)
            },
        };
        proof {
            if r is Ok {
                let s = choose|s: int| self.environments.stored(&env, s, name.lexeme@, value);
                stored_keeps_values_within(
                    self.environments,
                    env,
                    s,
                    name.lexeme@,
                    value,
                    self.heap.sizes(),
                );
            }
        }
        r
    }

    /// Adds a line to what was printed: `value` as it is written.
    pub fn print(&mut self, value: &LoxObj)
        requires
            old(self).wf(),
            value.within(old(self).heap.sizes()),
        ensures
            final(self).wf(),
            final(self).extends(old(self)),
            final(self).environments == old(self).environments,
            final(self).heap == old(self).heap,
            final(self).budget == old(self).budget,
            final(self).line_printed(old(self), *value),
    {
        let line = self.heap.display(value);
        self.output.push(line);
        assert(self.output@.drop_last() =~= old(self).output@);
    }

    /// What binding `method` to `this` gives.
    ///
    /// A function becomes a new function with the same declaration whose
    /// closure is a new scope, inside the old closure, that holds `this` and
    /// nothing else. A native function becomes a new native function with
    /// `this` as its receiver. Anything else becomes `nil`.
    pub open spec fn bound(
        &self,
        before: &Interpreter,
        method: LoxObj,
        this: LoxObj,
        r: LoxObj,
    ) -> bool {
        match method {
            LoxObj::Function(f) => {
                let scope = before.environments.scopes.len() as int;
                let bound = before.heap.functions[f as int];
                &&& r == LoxObj::Function(before.heap.functions.len())
                &&& self.same_but_scopes_and_heap(before)
                &&& self.heap.gained_function(
                    &before.heap,
                    LoxFn {
                        declaration: bound.declaration,
                        closure: scope as usize,
                        is_initializer: bound.is_initializer,
                    },
                )
                &&& self.environments.scopes.len() == scope + 1
                &&& forall|i: int|
                    0 <= i < scope ==> self.environments.scopes[i] == before.environments.scopes[i]
                &&& self.environments.scopes[scope].enclosing == Some(bound.closure)
                &&& self.environments.scopes[scope].values@ == Map::<Seq<char>, LoxObj>::empty().insert(
                    "this"@,
                    this,
                )
            },
            LoxObj::Native(n) => {
                let bound = before.heap.natives[n as int];
                &&& r == LoxObj::Native(before.heap.natives.len())
                &&& self.same_but_heap(before)
                &&& self.heap.gained_native(
                    &before.heap,
                    NativeFn { arity: bound.arity, kind: bound.kind, this: Some(this) },
                )
            },
            _ => r == nil() && *self == *before,
        }
    }

    /// Binds `method` to `this`, so that the method's body sees `this`.
    pub fn bind(&mut self, method: &LoxObj, this: LoxObj) -> (r: LoxObj)
        requires
            old(self).wf(),
            method.within(old(self).heap.sizes()),
            this.within(old(self).heap.sizes()),
        ensures
            final(self).wf(),
            final(self).extends(old(self)),
            final(self).bound(old(self), *method, this, r),
            r.within(final(self).heap.sizes()),
            final(self).output == old(self).output,
            final(self).budget == old(self).budget,
    {
        match method {
            LoxObj::Function(f) => {
                let closure = self.heap.functions[*f].closure;
                let is_initializer = self.heap.functions[*f].is_initializer;
                let declaration = share(&self.heap.functions[*f].declaration);
                let scope = self.open_scope(closure);
                self.define(scope, String::from_str("this"), this);
                let ghost mid = *self;
                let r = self.heap.lox_fn(declaration, scope, is_initializer);
                proof {
                    assert(mid.heap.wf(mid.environments.scopes.len() as nat));
                    assert(self.heap.wf(self.environments.scopes.len() as nat));
                    assert(self.environments.scopes[scope as int].values@
                        =~= Map::<Seq<char>, LoxObj>::empty().insert("this"@, this));
                }
                r
            },
            LoxObj::Native(n) => {
                let arity = self.heap.natives[*n].arity;
                let kind = self.heap.natives[*n].kind;
                self.heap.native_method(arity, kind, Some(this))
            },
            _ => nil(),
        }
    }
}

/// The bindings of the first `n` of `params` to the first `n` of `args`: a
/// later parameter of the same name takes the place of an earlier one.
pub open spec fn bindings(params: Seq<Token>, args: Seq<LoxObj>, n: nat) -> Map<Seq<char>, LoxObj>
    decreases n,
{
    if n == 0 || n > params.len() || n > args.len() {
        Map::empty()
    } else {
        bindings(params, args, (n - 1) as nat).insert(params[n - 1].lexeme@, args[n - 1])
    }
}

/// A change of the heap alone that keeps the heap in order and only adds to
/// it leaves the interpreter in order.
pub proof fn heap_change_keeps_order(after: Interpreter, before: Interpreter)
    requires
        before.wf(),
        after.same_but_heap(&before),
        after.heap.wf(after.environments.scopes.len() as nat),
        after.heap.grown_from(&before.heap),
    ensures
        after.wf(),
        after.extends(&before),
{
    values_stay_within(after.environments, before.heap.sizes(), after.heap.sizes());
}

impl Interpreter {
    /// What calling native function `n` does.
    ///
    /// `clock` gives the number of seconds that some count of milliseconds
    /// is, and changes nothing. `push`, bound to a list
    /// and given one argument, appends it and gives `nil`. `pop`, bound to a
    /// list, removes the last item and gives it, or fails on an empty list.
    /// A list method that is bound to no list fails.
    pub open spec fn native_called(
        &self,
        before: &Interpreter,
        n: int,
        args: Seq<LoxObj>,
        r: Result<LoxObj, RuntimeError>,
    ) -> bool {
        let native = before.heap.natives[n];
        match native.kind {
            NativeKind::Clock => {
                &&& exists|millis: i64|
                    r == Ok::<LoxObj, RuntimeError>(number(#[trigger] spec_seconds(millis)))
                &&& *self == *before
            },
            NativeKind::ListPush => match native.this {
                Some(LoxObj::List(l)) if args.len() == 1 => {
                    &&& r == Ok::<LoxObj, RuntimeError>(nil())
                    &&& self.same_but_heap(before)
                    &&& self.heap.list_changed(
                        &before.heap,
                        l as int,
                        before.heap.lists[l as int].items@.push(args[0]),
                    )
                },
                _ => fails_with(r, 0, "Can only push one item to a list."@) && *self == *before,
            },
            NativeKind::ListPop => match native.this {
                Some(LoxObj::List(l)) => if before.heap.lists[l as int].items.len() > 0 {
                    &&& r == Ok::<LoxObj, RuntimeError>(before.heap.lists[l as int].items@.last())
                    &&& self.same_but_heap(before)
                    &&& self.heap.list_changed(
                        &before.heap,
                        l as int,
                        before.heap.lists[l as int].items@.drop_last(),
                    )
                } else {
                    fails_with(r, 0, "Cannot pop from empty list"@) && *self == *before
                },
                _ => fails_with(r, 0, "Can only pop from a list."@) && *self == *before,
            },
        }
    }

    /// Calls native function `n` on `args`.
    pub fn call_native(&mut self, n: usize, args: &Vec<LoxObj>) -> (r: Result<LoxObj, RuntimeError>)
        requires
            old(self).wf(),
            n < old(self).heap.natives.len(),
            old(self).holds_all(args@),
        ensures
            final(self).wf(),
            final(self).extends(old(self)),
            final(self).same_but_heap(old(self)),
            final(self).native_called(old(self), n as int, args@, r),
            r matches Ok(v) ==> v.within(final(self).heap.sizes()),
    {
        let kind = self.heap.natives[n].kind;
        let target = match &self.heap.natives[n].this {
            Some(LoxObj::List(l)) => Some(*l),
            _ => None,
        };
        match kind {
            NativeKind::Clock => {
                let millis = wall_clock_millis();
                Ok(number(seconds(millis)))
            },
            NativeKind::ListPush => {
                if target.is_some() && args.len() == 1 {
                    let l = target.unwrap();
                    self.heap.list_push(l, args[0].clone());
                    proof {
                        heap_change_keeps_order(*self, *old(self));
                    }
                    Ok(nil())
                } else {
                    Err(
                        RuntimeError {
                            line: 0,
                            message: String::from_str("Can only push one item to a list."),
                        },
                    )
                }
            },
            NativeKind::ListPop => {
                if target.is_none() {
                    Err(
                        RuntimeError {
                            line: 0,
                            message: String::from_str("Can only pop from a list."),
                        },
                    )
                } else {
                    let l = target.unwrap();
                    if self.heap.lists[l].items.len() == 0 {
                        Err(
                            RuntimeError {
                                line: 0,
                                message: String::from_str("Cannot pop from empty list"),
                            },
                        )
                    } else {
                        let popped = self.heap.list_pop(l);
                        proof {
                            heap_change_keeps_order(*self, *old(self));
                        }
                        Ok(popped.unwrap())
                    }
                }
            },
        }
    }

    /// What calling list `l` on `args` gives: the item at the index that the
    /// one argument, a number, is cut off to; an error for an index beyond
    /// the list, and for an argument that is not a number.
    pub open spec fn list_indexed(&self, l: int, args: Seq<LoxObj>, r: Result<LoxObj, RuntimeError>) -> bool {
        let items = self.heap.lists[l].items@;
        if args.len() == 1 && args[0] matches LoxObj::Primitive(LoxPrimitive::Number(bits)) {
            let index = ieee_to_integer(args[0]->Primitive_0->Number_0);
            if index < items.len() {
                r == Ok::<LoxObj, RuntimeError>(items[index as int])
            } else {
                fails_with(r, 0, "List index out of range"@)
            }
        } else {
            fails_with(r, 0, "List index has to be a number"@)
        }
    }

    /// Calls list `l` on `args`.
    pub fn index_list(&self, l: usize, args: &Vec<LoxObj>) -> (r: Result<LoxObj, RuntimeError>)
        requires
            self.wf(),
            l < self.heap.lists.len(),
        ensures
            self.list_indexed(l as int, args@, r),
            r matches Ok(v) ==> v.within(self.heap.sizes()),
    {
        let found = if args.len() == 1 {
            match &args[0] {
                LoxObj::Primitive(LoxPrimitive::Number(bits)) => Some(to_integer(*bits)),
                _ => None,
            }
        } else {
            None
        };
        match found {
            Some(index) => {
                if index < self.heap.lists[l].items.len() as u64 {
                    assert(self.heap.list_ok(l as int));
                    Ok(self.heap.lists[l].items[index as usize].clone())
                } else {
                    Err(
                        RuntimeError {
                            line: 0,
                            message: String::from_str("List index out of range"),
                        },
                    )
                }
            },
            None => Err(
                RuntimeError { line: 0, message: String::from_str("List index has to be a number") },
            ),
        }
    }

    /// What reading the property `name` of `object` gives: a field's value;
    /// a method, bound to `object`; or an error, for a property that is not
    /// there and for a value that has no properties.
    pub open spec fn property_read(
        &self,
        before: &Interpreter,
        object: LoxObj,
        name: Token,
        r: Result<LoxObj, RuntimeError>,
    ) -> bool {
        match before.heap.property(object, name.lexeme@) {
            LoxProperty::Invalid => fails_with(r, name.line, "Only instances have properties."@)
                && *self == *before,
            LoxProperty::Undef => fails_with(
                r,
                name.line,
                "Undefined property '"@ + name.lexeme@ + "'."@,
            ) && *self == *before,
            LoxProperty::Field(v) => r == Ok::<LoxObj, RuntimeError>(v) && *self == *before,
            LoxProperty::Method(m) => r matches Ok(v) && self.bound(before, m, object, v),
        }
    }

    /// Reads the property `name` of `object`.
    pub fn get_property(&mut self, object: LoxObj, name: &Token) -> (r: Result<LoxObj, RuntimeError>)
        requires
            old(self).wf(),
            object.within(old(self).heap.sizes()),
        ensures
            final(self).wf(),
            final(self).extends(old(self)),
            final(self).property_read(old(self), object, *name, r),
            r matches Ok(v) ==> v.within(final(self).heap.sizes()),
            final(self).output == old(self).output,
            final(self).budget == old(self).budget,
    {
        match self.heap.get_property(&object, name) {
            LoxProperty::Invalid => Err(runtime_error(name, "Only instances have properties.")),
            LoxProperty::Undef => {
                let mut message = String::from_str("Undefined property '");
                message.append(name.lexeme.as_str());
                message.append("'.");
                Err(RuntimeError { line: name.line, message })
            },
            LoxProperty::Field(v) => Ok(v),
            LoxProperty::Method(m) => Ok(self.bind(&m, object)),
        }
    }

    /// Sets the field `name` of `object`, which is an instance, to `value`.
    pub fn set_field(&mut self, object: &LoxObj, name: &Token, value: LoxObj) -> (r: LoxObj)
        requires
            old(self).wf(),
            *object is Instance,
            object.within(old(self).heap.sizes()),
            value.within(old(self).heap.sizes()),
        ensures
            final(self).wf(),
            final(self).extends(old(self)),
            final(self).same_but_heap(old(self)),
            r == value,
            final(self).field_assigned(
                old(self),
                object->Instance_0 as int,
                name.lexeme@,
                value,
            ),
    {
        let stored = self.heap.set_property(object, name, &value);
        proof {
            heap_change_keeps_order(*self, *old(self));
        }
        value
    }

    /// Makes the function that `declaration` declares, closing over the
    /// current scope, and binds it to its name there.
    pub fn declare_function(&mut self, declaration: &Rc<FunctionDecl>)
        requires
            old(self).wf(),
        ensures
            final(self).wf(),
            final(self).extends(old(self)),
            final(self).function_declared(old(self), *declaration),
    {
        let function = self.heap.lox_fn(share(declaration), self.environment, false);
        proof {
            heap_change_keeps_order(*self, *old(self));
        }
        self.define(self.environment, declaration.name.lexeme.clone(), function);
    }

    /// Makes the class `name` with the given methods, each closing over
    /// `closure`, and binds it to its name in the current scope. A method
    /// named `init` is the class's initializer.
    pub fn declare_class(
        &mut self,
        name: &Token,
        methods: &Vec<Rc<FunctionDecl>>,
        superclass: Option<usize>,
        closure: usize,
    )
        requires
            old(self).wf(),
            closure < old(self).environments.scopes.len(),
            superclass matches Some(s) ==> s < old(self).heap.classes.len(),
        ensures
            final(self).wf(),
            final(self).extends(old(self)),
            final(self).class_declared(old(self), *name, methods@, superclass, closure),
    {
        let mut table: StringHashMap<usize> = StringHashMap::new();
        let mut k: usize = 0;
        let first = self.heap.functions.len();
        while k < methods.len()
            invariant
                k <= methods.len(),
                first == old(self).heap.functions.len(),
                self.wf(),
                self.extends(old(self)),
                self.same_but_heap(old(self)),
                self.heap.natives == old(self).heap.natives,
                self.heap.classes == old(self).heap.classes,
                self.heap.instances == old(self).heap.instances,
                self.heap.lists == old(self).heap.lists,
                closure < self.environments.scopes.len(),
                self.heap.functions.len() == first + k,
                table@ == method_table(methods@, first as nat, k as nat),
                forall|method: Seq<char>| #[trigger]
                    table@.contains_key(method) ==> table@[method] < self.heap.functions.len(),
                forall|f: int|
                    0 <= f < first ==> self.heap.functions[f] == old(self).heap.functions[f],
                forall|j: int|
                    0 <= j < k ==> (#[trigger] self.heap.functions[first + j]) == (LoxFn {
                        declaration: methods[j],
                        closure,
                        is_initializer: methods[j].name.lexeme@ == "init"@,
                    }),
            decreases methods.len() - k,
        {
            let ghost mid = *self;
            let is_initializer = same_text(methods[k].name.lexeme.as_str(), "init");
            self.heap.lox_fn(share(&methods[k]), closure, is_initializer);
            proof {
                heap_change_keeps_order(*self, mid);
                assert forall|j: int| 0 <= j < k + 1 implies (
                #[trigger] self.heap.functions[first + j]) == (LoxFn {
                    declaration: methods[j],
                    closure,
                    is_initializer: methods[j].name.lexeme@ == "init"@,
                }) by {
                    if j < k {
                        assert(self.heap.functions[first + j] == mid.heap.functions[first + j]);
                    }
                }
                assert forall|f: int| 0 <= f < first implies self.heap.functions[f] == old(
                    self,
                ).heap.functions[f] by {
                    assert(self.heap.functions[f] == mid.heap.functions[f]);
                }
            }
            table.insert(methods[k].name.lexeme.clone(), first + k);
            k += 1;
        }
        let ghost mid = *self;
        let class = self.heap.lox_class(name.lexeme.clone(), table, superclass);
        proof {
            heap_change_keeps_order(*self, mid);
            assert(self.heap.classes@.drop_last() =~= old(self).heap.classes@);
        }
        self.define(self.environment, name.lexeme.clone(), class);
    }

    /// Spends one unit of budget and opens the frame of a call: a scope
    /// inside `closure` in which the parameters are bound to the
    /// arguments. Fails, and changes nothing, where no budget is left.
    pub fn open_frame(
        &mut self,
        closure: usize,
        params: &Vec<Token>,
        args: &Vec<LoxObj>,
        line: usize,
    ) -> (r: Result<usize, RuntimeError>)
        requires
            old(self).wf(),
            closure < old(self).environments.scopes.len(),
            old(self).holds_all(args@),
        ensures
            final(self).wf(),
            final(self).extends(old(self)),
            old(self).budget == 0 ==> r is Err && is_budget_exhausted(r->Err_0, line) && *final(self)
                == *old(self),
            old(self).budget > 0 ==> r == Ok::<usize, RuntimeError>(
                old(self).environments.scopes.len(),
            ) && final(self).frame_opened(old(self), closure, params@, args@),
    {
        match self.spend(line) {
            Ok(_) => {},
            Err(error) => {
                return Err(error);
            },
        }
        let ghost spent = *self;
        let frame = self.open_scope(closure);
        let mut k: usize = 0;
        while k < params.len() && k < args.len()
            invariant
                k <= params.len(),
                k <= args.len(),
                self.wf(),
                self.extends(&spent),
                self.same_but_scopes(&spent),
                frame == spent.environments.scopes.len(),
                self.environments.scopes.len() == frame + 1,
                forall|i: int|
                    0 <= i < frame ==> self.environments.scopes[i] == spent.environments.scopes[i],
                self.environments.scopes[frame as int].enclosing == Some(closure),
                self.environments.scopes[frame as int].values@ == bindings(params@, args@, k as nat),
                spent.holds_all(args@),
            decreases params.len() - k,
        {
            let ghost mid = *self;
            self.define(frame, params[k].lexeme.clone(), args[k].clone());
            proof {
                assert forall|i: int| 0 <= i < frame implies self.environments.scopes[i]
                    == spent.environments.scopes[i] by {
                    assert(self.environments.scopes[i] == mid.environments.scopes[i]);
                }
            }
            k += 1;
        }
        Ok(frame)
    }

    /// Reads what `this` is bound to in the scope `closure`, for the
    /// initializer declared at `at`.
    pub fn read_this(&self, closure: usize, at: &Token) -> (r: Result<LoxObj, RuntimeError>)
        requires
            self.wf(),
            closure < self.environments.scopes.len(),
        ensures
            self.this_read(closure, *at, r),
            r matches Ok(v) ==> v.within(self.heap.sizes()),
    {
        let token = this_token(at);
        let r = self.environments.get_at(closure, 0, &token);
        proof {
            assert("Undefined variable '"@ + "this"@ + "'."@ =~= "Undefined variable 'this'."@) by {
                reveal_strlit("Undefined variable '");
                reveal_strlit("this");
                reveal_strlit("'.");
                reveal_strlit("Undefined variable 'this'.");
            }
        }
        r
    }
}

} // verus!
