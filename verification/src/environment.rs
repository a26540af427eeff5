//! Environments: the lexical scopes of a running program. Every scope lives
//! in one arena and is named by its index there; a scope's enclosing scope
//! always has a smaller index, so no chain of scopes can lead back to itself.

use crate::errors::RuntimeError;
use crate::token::Token;
use crate::values::{LoxObj, Sizes};
use vstd::hash_map::StringHashMap;
use vstd::prelude::*;
use vstd::string::StringExecFns;

verus! {

/// One scope: its bindings, and the scope that encloses it.
pub struct Scope {
    pub enclosing: Option<usize>,
    pub values: StringHashMap<LoxObj>,
}

/// The scopes of an interpreter. Scope 0 is the global scope.
pub struct Environment {
    pub scopes: Vec<Scope>,
}

/// Whether `error` reports that the variable `name` is undefined.
pub open spec fn is_undefined_variable(error: RuntimeError, name: Token) -> bool {
    &&& error.line == name.line
    &&& error.message@ == "Undefined variable '"@ + name.lexeme@ + "'."@
}

/// The error for a variable that no scope defines.
pub fn undefined_variable(name: &Token) -> (error: RuntimeError)
    ensures
        is_undefined_variable(error, *name),
{
    let mut message = String::from_str("Undefined variable '");
    message.append(name.lexeme.as_str());
    message.append("'.");
    RuntimeError { line: name.line, message }
}

impl Environment {
    /// The global scope exists and is the root, and every other scope is
    /// enclosed by an older one.
    pub open spec fn wf(&self) -> bool {
        &&& self.scopes.len() > 0
        &&& forall|i: int|
            0 <= i < self.scopes.len() ==> (#[trigger] self.scopes[i].enclosing matches Some(p)
                ==> p < i)
    }

    /// The scope reached by walking `distance` enclosing hops from `scope`.
    pub open spec fn spec_ancestor(&self, scope: int, distance: nat) -> Option<int>
        decreases distance,
    {
        if !(0 <= scope < self.scopes.len()) {
            None
        } else if distance == 0 {
            Some(scope)
        } else {
            match self.scopes[scope].enclosing {
                Some(p) => self.spec_ancestor(p as int, (distance - 1) as nat),
                None => None,
            }
        }
    }

    /// The nearest scope that binds `name`, looking in `scope` first and then
    /// outwards.
    pub open spec fn owner(&self, scope: int, name: Seq<char>) -> Option<int>
        decreases scope,
    {
        if !(0 <= scope < self.scopes.len()) {
            None
        } else if self.scopes[scope].values@.contains_key(name) {
            Some(scope)
        } else {
            match self.scopes[scope].enclosing {
                Some(p) => if p < scope {
                    self.owner(p as int, name)
                } else {
                    None
                },
                None => None,
            }
        }
    }

    /// `self` is `before` with `name` bound to `value` in `scope`, and
    /// nothing else changed.
    pub open spec fn stored(
        &self,
        before: &Environment,
        scope: int,
        name: Seq<char>,
        value: LoxObj,
    ) -> bool {
        &&& 0 <= scope < before.scopes.len()
        &&& self.scopes.len() == before.scopes.len()
        &&& self.scopes[scope].enclosing == before.scopes[scope].enclosing
        &&& self.scopes[scope].values@ == before.scopes[scope].values@.insert(name, value)
        &&& forall|i: int|
            0 <= i < before.scopes.len() && i != scope ==> self.scopes[i] == before.scopes[i]
    }

    /// `self` is `before` with one more scope, empty and enclosed by
    /// `enclosing`.
    pub open spec fn opened(&self, before: &Environment, enclosing: Option<usize>) -> bool {
        &&& self.scopes.len() == before.scopes.len() + 1
        &&& self.scopes[before.scopes.len() as int].enclosing == enclosing
        &&& self.scopes[before.scopes.len() as int].values@ == Map::<Seq<char>, LoxObj>::empty()
        &&& forall|i: int| 0 <= i < before.scopes.len() ==> self.scopes[i] == before.scopes[i]
    }

    /// Every value bound in any scope is a primitive or a handle into a heap
    /// of the given sizes.
    pub open spec fn values_within(&self, sizes: Sizes) -> bool {
        forall|i: int, name: Seq<char>|
            0 <= i < self.scopes.len() && #[trigger] self.scopes[i].values@.contains_key(name)
                ==> self.scopes[i].values@[name].within(sizes)
    }

    /// An arena that holds the global scope only.
    pub fn new() -> (env: Environment)
        ensures
            env.wf(),
            env.scopes.len() == 1,
            env.scopes[0].enclosing is None,
            env.scopes[0].values@ == Map::<Seq<char>, LoxObj>::empty(),
    {
        let mut scopes = Vec::new();
        scopes.push(Scope { enclosing: None, values: StringHashMap::new() });
        Environment { scopes }
    }

    /// Opens a new, empty scope inside `enclosing` and returns its index.
    pub fn with_enclosing(&mut self, enclosing: usize) -> (scope: usize)
        requires
            old(self).wf(),
            enclosing < old(self).scopes.len(),
        ensures
            final(self).wf(),
            scope == old(self).scopes.len(),
            final(self).opened(old(self), Some(enclosing)),
    {
        let scope = self.scopes.len();
        self.scopes.push(Scope { enclosing: Some(enclosing), values: StringHashMap::new() });
        scope
    }

    /// Binds `name` to `value` in `scope`, whether or not it was bound there.
    pub fn define(&mut self, scope: usize, name: String, value: LoxObj)
        requires
            old(self).wf(),
            scope < old(self).scopes.len(),
        ensures
            final(self).wf(),
            final(self).stored(old(self), scope as int, name@, value),
    {
        self.scopes[scope].values.insert(name, value);
    }

    /// Looks `name` up in `scope` and then in the scopes around it.
    pub fn get(&self, scope: usize, name: &Token) -> (r: Result<LoxObj, RuntimeError>)
        requires
            self.wf(),
            scope < self.scopes.len(),
        ensures
            match self.owner(scope as int, name.lexeme@) {
                Some(s) => r == Ok::<LoxObj, RuntimeError>(self.scopes[s].values@[name.lexeme@]),
                None => r is Err && is_undefined_variable(r->Err_0, *name),
            },
            forall|sizes: Sizes| #[trigger]
                self.values_within(sizes) ==> (r matches Ok(v) ==> v.within(sizes)),
    {
        let mut current = scope;
        loop
            invariant
                self.wf(),
                current < self.scopes.len(),
                self.owner(current as int, name.lexeme@) == self.owner(scope as int, name.lexeme@),
            decreases current,
        {
            match self.scopes[current].values.get(name.lexeme.as_str()) {
                Some(value) => {
                    assert(self.scopes[current as int].values@.contains_key(name.lexeme@));
                    return Ok(value.clone());
                },
                None => {},
            }
            match self.scopes[current].enclosing {
                Some(p) => {
                    current = p;
                },
                None => {
                    return Err(undefined_variable(name));
                },
            }
        }
    }

    /// Rebinds `name` in the nearest scope that binds it, looking in `scope`
    /// first and then outwards. The value of the assignment is `value`.
    pub fn assign(&mut self, scope: usize, name: &Token, value: LoxObj) -> (r: Result<
        LoxObj,
        RuntimeError,
    >)
        requires
            old(self).wf(),
            scope < old(self).scopes.len(),
        ensures
            final(self).wf(),
            match old(self).owner(scope as int, name.lexeme@) {
                Some(s) => {
                    &&& r == Ok::<LoxObj, RuntimeError>(value)
                    &&& final(self).stored(old(self), s, name.lexeme@, value)
                },
                None => {
                    &&& r is Err
                    &&& is_undefined_variable(r->Err_0, *name)
                    &&& *final(self) == *old(self)
                },
            },
    {
        let mut current = scope;
        loop
            invariant
                *self == *old(self),
                self.wf(),
                current < self.scopes.len(),
                self.owner(current as int, name.lexeme@) == self.owner(scope as int, name.lexeme@),
            decreases current,
        {
            if self.scopes[current].values.contains_key(name.lexeme.as_str()) {
                self.scopes[current].values.insert(name.lexeme.clone(), value.clone());
                return Ok(value);
            }
            match self.scopes[current].enclosing {
                Some(p) => {
                    current = p;
                },
                None => {
                    return Err(undefined_variable(name));
                },
            }
        }
    }

    /// Walks `distance` enclosing hops from `scope`.
    pub fn ancestor(&self, scope: usize, distance: usize) -> (r: Option<usize>)
        requires
            self.wf(),
            scope < self.scopes.len(),
        ensures
            match r {
                Some(a) => self.spec_ancestor(scope as int, distance as nat) == Some(a as int)
                    && a < self.scopes.len(),
                None => self.spec_ancestor(scope as int, distance as nat) is None,
            },
    {
        let mut current = scope;
        let mut left = distance;
        while left > 0
            invariant
                self.wf(),
                current < self.scopes.len(),
                self.spec_ancestor(current as int, left as nat) == self.spec_ancestor(
                    scope as int,
                    distance as nat,
                ),
            decreases left,
        {
            match self.scopes[current].enclosing {
                Some(p) => {
                    current = p;
                    left -= 1;
                },
                None => {
                    return None;
                },
            }
        }
        Some(current)
    }

    /// Reads `name` in the scope `distance` hops out from `scope`, without
    /// looking any further.
    pub fn get_at(&self, scope: usize, distance: usize, name: &Token) -> (r: Result<
        LoxObj,
        RuntimeError,
    >)
        requires
            self.wf(),
            scope < self.scopes.len(),
        ensures
            match self.spec_ancestor(scope as int, distance as nat) {
                Some(a) if self.scopes[a].values@.contains_key(name.lexeme@) => r == Ok::<
                    LoxObj,
                    RuntimeError,
                >(self.scopes[a].values@[name.lexeme@]),
                _ => r is Err && is_undefined_variable(r->Err_0, *name),
            },
            forall|sizes: Sizes| #[trigger]
                self.values_within(sizes) ==> (r matches Ok(v) ==> v.within(sizes)),
    {
        match self.ancestor(scope, distance) {
            Some(a) => match self.scopes[a].values.get(name.lexeme.as_str()) {
                Some(value) => {
                    assert(self.scopes[a as int].values@.contains_key(name.lexeme@));
                    Ok(value.clone())
                },
                None => Err(undefined_variable(name)),
            },
            None => Err(undefined_variable(name)),
        }
    }

    /// Binds `name` to `value` in the scope `distance` hops out from `scope`.
    pub fn assign_at(&mut self, scope: usize, distance: usize, name: &Token, value: LoxObj) -> (r:
        Result<LoxObj, RuntimeError>)
        requires
            old(self).wf(),
            scope < old(self).scopes.len(),
        ensures
            final(self).wf(),
            match old(self).spec_ancestor(scope as int, distance as nat) {
                Some(a) => {
                    &&& r == Ok::<LoxObj, RuntimeError>(value)
                    &&& final(self).stored(old(self), a, name.lexeme@, value)
                },
                None => {
                    &&& r is Err
                    &&& is_undefined_variable(r->Err_0, *name)
                    &&& *final(self) == *old(self)
                },
            },
    {
        match self.ancestor(scope, distance) {
            Some(a) => {
                self.scopes[a].values.insert(name.lexeme.clone(), value.clone());
                Ok(value)
            },
            None => Err(undefined_variable(name)),
        }
    }
}

/// No scope is its own ancestor: walking one or more hops outwards always
/// ends in an older scope.
pub proof fn scope_is_never_its_own_ancestor(env: Environment, scope: int, distance: nat)
    requires
        env.wf(),
        distance > 0,
    ensures
        env.spec_ancestor(scope, distance) matches Some(a) ==> 0 <= a < scope,
    decreases distance,
{
    if 0 <= scope < env.scopes.len() {
        match env.scopes[scope].enclosing {
            Some(p) => {
                if distance > 1 {
                    scope_is_never_its_own_ancestor(env, p as int, (distance - 1) as nat);
                }
            },
            None => {},
        }
    }
}

/// Binding a value that is within `sizes` keeps every bound value within
/// `sizes`.
pub proof fn stored_keeps_values_within(
    after: Environment,
    before: Environment,
    scope: int,
    name: Seq<char>,
    value: LoxObj,
    sizes: Sizes,
)
    requires
        after.stored(&before, scope, name, value),
        before.values_within(sizes),
        value.within(sizes),
    ensures
        after.values_within(sizes),
{
    assert forall|i: int, n: Seq<char>|
        0 <= i < after.scopes.len() && #[trigger] after.scopes[i].values@.contains_key(
            n,
        ) implies after.scopes[i].values@[n].within(sizes) by {
        if i != scope {
            assert(after.scopes[i] == before.scopes[i]);
        } else if n != name {
            assert(before.scopes[i].values@.contains_key(n));
        }
    }
}

/// Values that are within a heap stay within it when it grows.
pub proof fn values_stay_within(env: Environment, smaller: Sizes, larger: Sizes)
    requires
        env.values_within(smaller),
        larger.covers(smaller),
    ensures
        env.values_within(larger),
{
    assert forall|i: int, n: Seq<char>|
        0 <= i < env.scopes.len() && #[trigger] env.scopes[i].values@.contains_key(
            n,
        ) implies env.scopes[i].values@[n].within(larger) by {
        assert(env.scopes[i].values@[n].within(smaller));
    }
}

/// A binding is seen from every scope that looked it up in the scope where
/// it was stored, and what is seen is the value stored last: a scope that
/// found `name` in `scope` before finds it there again, now bound to `value`.
pub proof fn store_is_seen_from_inside(
    after: Environment,
    before: Environment,
    scope: int,
    name: Seq<char>,
    value: LoxObj,
    from: int,
)
    requires
        before.wf(),
        after.stored(&before, scope, name, value),
        before.owner(from, name) == Some(scope),
    ensures
        after.owner(from, name) == Some(scope),
        after.scopes[scope].values@[name] == value,
    decreases from,
{
    if from != scope {
        assert(after.scopes[from] == before.scopes[from]);
        match before.scopes[from].enclosing {
            Some(p) => {
                store_is_seen_from_inside(after, before, scope, name, value, p as int);
            },
            None => {},
        }
    }
}

/// A lookup from a scope depends on that scope and on older ones only: two
/// arenas that agree on them give the same owner.
pub proof fn lookup_depends_on_older_scopes(
    one: Environment,
    other: Environment,
    scope: int,
    name: Seq<char>,
)
    requires
        0 <= scope < one.scopes.len(),
        scope < other.scopes.len(),
        forall|i: int| 0 <= i <= scope ==> one.scopes[i] == other.scopes[i],
    ensures
        one.owner(scope, name) == other.owner(scope, name),
    decreases scope,
{
    if !one.scopes[scope].values@.contains_key(name) {
        match one.scopes[scope].enclosing {
            Some(p) => {
                if p < scope {
                    lookup_depends_on_older_scopes(one, other, p as int, name);
                }
            },
            None => {},
        }
    }
}

} // verus!
