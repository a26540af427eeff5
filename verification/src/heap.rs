//! The heap: the objects that values refer to by handle. Functions, native
//! functions and classes never change once made; instances gain and rebind
//! fields; lists grow and shrink.

use crate::ast::FunctionDecl;
use crate::number::{from_integer, ieee_from_integer};
use crate::token::{same_text, Token};
use crate::values::{
    number, pieces, pieces_push, LoxObj, LoxPrimitive, Piece, PieceModel, Sizes,
};
use vstd::string::StringExecFns;
use std::rc::Rc;
use vstd::hash_map::StringHashMap;
use vstd::prelude::*;

verus! {

/// What a native function does when called.
#[derive(Debug, Clone, Copy, PartialEq, Eq, Structural)]
pub enum NativeKind {
    /// The wall-clock time in seconds.
    Clock,
    /// Appends its argument to the list it is bound to.
    ListPush,
    /// Removes and returns the last item of the list it is bound to.
    ListPop,
}

/// A function that the interpreter provides, with the number of arguments it
/// takes and, for a method of a built-in type, the receiver it is bound to.
pub struct NativeFn {
    pub arity: usize,
    pub kind: NativeKind,
    pub this: Option<LoxObj>,
}

/// A function of the program: its declaration, the scope that was current
/// when the declaration was executed, and whether it is a class initializer.
pub struct LoxFn {
    pub declaration: Rc<FunctionDecl>,
    pub closure: usize,
    pub is_initializer: bool,
}

/// A class: its name, its own methods by name (handles of functions), and
/// its superclass.
pub struct LoxClass {
    pub name: String,
    pub methods: StringHashMap<usize>,
    pub superclass: Option<usize>,
}

/// An instance: its class, fixed when it is made, and its fields.
pub struct LoxInstance {
    pub class: usize,
    pub fields: StringHashMap<LoxObj>,
}

/// A list of values.
pub struct LoxList {
    pub items: Vec<LoxObj>,
}

/// What looking a property up on a value finds.
pub enum LoxProperty {
    /// The value has no properties at all.
    Invalid,
    /// The value has properties, but not this one.
    Undef,
    /// A field, or a property that is a plain value.
    Field(LoxObj),
    /// A method, still to be bound to the value it was found on.
    Method(LoxObj),
}

/// The handle of the unbound native function behind a list's `push`.
pub const LIST_PUSH: usize = 0;

/// The handle of the unbound native function behind a list's `pop`.
pub const LIST_POP: usize = 1;

/// All the objects of an interpreter, one arena for each kind. An object's
/// handle is its index in its arena; no object is ever removed.
pub struct Heap {
    pub natives: Vec<NativeFn>,
    pub functions: Vec<LoxFn>,
    pub classes: Vec<LoxClass>,
    pub instances: Vec<LoxInstance>,
    pub lists: Vec<LoxList>,
}

impl Heap {
    /// How many objects of each kind the heap holds.
    pub open spec fn sizes(&self) -> Sizes {
        Sizes {
            natives: self.natives.len() as nat,
            functions: self.functions.len() as nat,
            classes: self.classes.len() as nat,
            instances: self.instances.len() as nat,
            lists: self.lists.len() as nat,
        }
    }

    /// The two list methods sit at their fixed handles, and no native
    /// function is bound to a value outside the heap.
    pub open spec fn natives_ok(&self) -> bool {
        &&& self.natives.len() >= 2
        &&& self.natives[LIST_PUSH as int].kind == NativeKind::ListPush
        &&& self.natives[LIST_PUSH as int].arity == 1
        &&& self.natives[LIST_PUSH as int].this is None
        &&& self.natives[LIST_POP as int].kind == NativeKind::ListPop
        &&& self.natives[LIST_POP as int].arity == 0
        &&& self.natives[LIST_POP as int].this is None
        &&& forall|n: int|
            0 <= n < self.natives.len() ==> (#[trigger] self.natives[n].this matches Some(v)
                ==> v.within(self.sizes()))
    }

    /// Every function closes over one of the first `scopes` scopes.
    pub open spec fn functions_ok(&self, scopes: nat) -> bool {
        forall|f: int| 0 <= f < self.functions.len() ==> (#[trigger] self.functions[f]).closure < scopes
    }

    /// Class `c` has an older class as its superclass, if any, and functions
    /// of this heap as its methods.
    pub open spec fn class_ok(&self, c: int) -> bool {
        &&& self.classes[c].superclass matches Some(s) ==> s < c
        &&& forall|name: Seq<char>| #[trigger]
            self.classes[c].methods@.contains_key(name) ==> self.classes[c].methods@[name]
                < self.functions.len()
    }

    /// Instance `i` is of a class of this heap, and its fields hold values
    /// of this heap.
    pub open spec fn instance_ok(&self, i: int) -> bool {
        &&& self.instances[i].class < self.classes.len()
        &&& forall|name: Seq<char>| #[trigger]
            self.instances[i].fields@.contains_key(name) ==> self.instances[i].fields@[name].within(
                self.sizes(),
            )
    }

    /// List `l` holds values of this heap.
    pub open spec fn list_ok(&self, l: int) -> bool {
        forall|j: int|
            0 <= j < self.lists[l].items.len() ==> (#[trigger] self.lists[l].items[j]).within(
                self.sizes(),
            )
    }

    /// No object refers to an object outside this heap.
    pub open spec fn objects_ok(&self) -> bool {
        &&& self.natives_ok()
        &&& forall|c: int| 0 <= c < self.classes.len() ==> #[trigger] self.class_ok(c)
        &&& forall|i: int| 0 <= i < self.instances.len() ==> #[trigger] self.instance_ok(i)
        &&& forall|l: int| 0 <= l < self.lists.len() ==> #[trigger] self.list_ok(l)
    }

    /// No object refers to anything outside this heap or beyond the first
    /// `scopes` scopes.
    pub open spec fn wf(&self, scopes: nat) -> bool {
        &&& self.objects_ok()
        &&& self.functions_ok(scopes)
    }

    /// `self` holds everything that `before` held: every object of `before`
    /// is still there under its handle; functions, native functions and
    /// classes are unchanged, and no instance has changed its class.
    pub open spec fn grown_from(&self, before: &Heap) -> bool {
        &&& self.sizes().covers(before.sizes())
        &&& forall|n: int| 0 <= n < before.natives.len() ==> self.natives[n] == before.natives[n]
        &&& forall|f: int|
            0 <= f < before.functions.len() ==> self.functions[f] == before.functions[f]
        &&& forall|c: int| 0 <= c < before.classes.len() ==> self.classes[c] == before.classes[c]
        &&& forall|i: int|
            0 <= i < before.instances.len() ==> (#[trigger] self.instances[i]).class
                == before.instances[i].class
    }

    /// A heap that holds the two list methods and nothing else.
    pub fn new() -> (heap: Heap)
        ensures
            heap.wf(0),
            heap.natives.len() == 2,
            heap.functions.len() == 0,
            heap.classes.len() == 0,
            heap.instances.len() == 0,
            heap.lists.len() == 0,
    {
        let mut natives = Vec::new();
        natives.push(NativeFn { arity: 1, kind: NativeKind::ListPush, this: None });
        natives.push(NativeFn { arity: 0, kind: NativeKind::ListPop, this: None });
        Heap {
            natives,
            functions: Vec::new(),
            classes: Vec::new(),
            instances: Vec::new(),
            lists: Vec::new(),
        }
    }

    /// Adds a native function, bound to `this` if one is given.
    pub fn native_method(&mut self, arity: usize, kind: NativeKind, this: Option<LoxObj>) -> (r:
        LoxObj)
        requires
            old(self).natives_ok(),
            this matches Some(v) ==> v.within(old(self).sizes()),
        ensures
            r == LoxObj::Native(old(self).natives.len()),
            final(self).natives@ == old(self).natives@.push(NativeFn { arity, kind, this }),
            final(self).functions == old(self).functions,
            final(self).classes == old(self).classes,
            final(self).instances == old(self).instances,
            final(self).lists == old(self).lists,
            final(self).grown_from(old(self)),
            forall|scopes: nat| old(self).wf(scopes) ==> final(self).wf(scopes),
    {
        let handle = self.natives.len();
        self.natives.push(NativeFn { arity, kind, this });
        proof {
            assert forall|scopes: nat| old(self).wf(scopes) implies self.wf(scopes) by {
                classes_stay_ok(*old(self), *self);
                instances_stay_ok(*old(self), *self);
                lists_stay_ok(*old(self), *self);
            }
        }
        LoxObj::Native(handle)
    }

    /// Adds a native function that is bound to nothing.
    pub fn native_fn(&mut self, arity: usize, kind: NativeKind) -> (r: LoxObj)
        requires
            old(self).natives_ok(),
        ensures
            r == LoxObj::Native(old(self).natives.len()),
            final(self).natives@ == old(self).natives@.push(NativeFn { arity, kind, this: None }),
            final(self).functions == old(self).functions,
            final(self).classes == old(self).classes,
            final(self).instances == old(self).instances,
            final(self).lists == old(self).lists,
            final(self).grown_from(old(self)),
            forall|scopes: nat| old(self).wf(scopes) ==> final(self).wf(scopes),
    {
        self.native_method(arity, kind, None)
    }
}

impl Heap {
    /// Adds a function made from `declaration`, closing over scope `closure`.
    pub fn lox_fn(&mut self, declaration: Rc<FunctionDecl>, closure: usize, is_initializer: bool) -> (r:
        LoxObj)
        ensures
            r == LoxObj::Function(old(self).functions.len()),
            final(self).functions@ == old(self).functions@.push(
                LoxFn { declaration, closure, is_initializer },
            ),
            final(self).natives == old(self).natives,
            final(self).classes == old(self).classes,
            final(self).instances == old(self).instances,
            final(self).lists == old(self).lists,
            final(self).grown_from(old(self)),
            forall|scopes: nat| old(self).wf(scopes) && closure < scopes ==> final(self).wf(scopes),
    {
        let handle = self.functions.len();
        self.functions.push(LoxFn { declaration, closure, is_initializer });
        proof {
            assert forall|scopes: nat| old(self).wf(scopes) && closure < scopes implies self.wf(
                scopes,
            ) by {
                natives_stay_ok(*old(self), *self);
                classes_stay_ok(*old(self), *self);
                instances_stay_ok(*old(self), *self);
                lists_stay_ok(*old(self), *self);
            }
        }
        LoxObj::Function(handle)
    }

    /// Adds a class. Its methods are functions of this heap, and its
    /// superclass, if it has one, is a class of this heap.
    pub fn lox_class(
        &mut self,
        name: String,
        methods: StringHashMap<usize>,
        superclass: Option<usize>,
    ) -> (r: LoxObj)
        requires
            superclass matches Some(s) ==> s < old(self).classes.len(),
            forall|method: Seq<char>| #[trigger]
                methods@.contains_key(method) ==> methods@[method] < old(self).functions.len(),
        ensures
            r == LoxObj::Class(old(self).classes.len()),
            final(self).classes@ == old(self).classes@.push(LoxClass { name, methods, superclass }),
            final(self).natives == old(self).natives,
            final(self).functions == old(self).functions,
            final(self).instances == old(self).instances,
            final(self).lists == old(self).lists,
            final(self).grown_from(old(self)),
            forall|scopes: nat| old(self).wf(scopes) ==> final(self).wf(scopes),
    {
        let handle = self.classes.len();
        self.classes.push(LoxClass { name, methods, superclass });
        proof {
            assert forall|scopes: nat| old(self).wf(scopes) implies self.wf(scopes) by {
                natives_stay_ok(*old(self), *self);
                instances_stay_ok(*old(self), *self);
                lists_stay_ok(*old(self), *self);
                assert forall|c: int| 0 <= c < self.classes.len() implies #[trigger] self.class_ok(
                    c,
                ) by {
                    if c < old(self).classes.len() {
                        assert(old(self).class_ok(c));
                    }
                }
            }
        }
        LoxObj::Class(handle)
    }

    /// Adds an instance of `class`, with no fields yet.
    pub fn instantiate(&mut self, class: usize) -> (r: LoxObj)
        requires
            class < old(self).classes.len(),
        ensures
            r == LoxObj::Instance(old(self).instances.len()),
            final(self).instances.len() == old(self).instances.len() + 1,
            final(self).instances[old(self).instances.len() as int].class == class,
            final(self).instances[old(self).instances.len() as int].fields@ == Map::<
                Seq<char>,
                LoxObj,
            >::empty(),
            forall|i: int|
                0 <= i < old(self).instances.len() ==> final(self).instances[i] == old(
                    self,
                ).instances[i],
            final(self).natives == old(self).natives,
            final(self).functions == old(self).functions,
            final(self).classes == old(self).classes,
            final(self).lists == old(self).lists,
            final(self).grown_from(old(self)),
            forall|scopes: nat| old(self).wf(scopes) ==> final(self).wf(scopes),
    {
        let handle = self.instances.len();
        self.instances.push(LoxInstance { class, fields: StringHashMap::new() });
        proof {
            assert forall|scopes: nat| old(self).wf(scopes) implies self.wf(scopes) by {
                natives_stay_ok(*old(self), *self);
                classes_stay_ok(*old(self), *self);
                lists_stay_ok(*old(self), *self);
                assert forall|i: int|
                    0 <= i < self.instances.len() implies #[trigger] self.instance_ok(i) by {
                    if i < old(self).instances.len() {
                        assert(old(self).instance_ok(i));
                    }
                }
            }
        }
        LoxObj::Instance(handle)
    }

    /// Adds an empty list.
    pub fn lox_list(&mut self) -> (r: LoxObj)
        ensures
            r == LoxObj::List(old(self).lists.len()),
            final(self).lists.len() == old(self).lists.len() + 1,
            final(self).lists[old(self).lists.len() as int].items@ == Seq::<LoxObj>::empty(),
            forall|l: int| 0 <= l < old(self).lists.len() ==> final(self).lists[l] == old(self).lists[l],
            final(self).natives == old(self).natives,
            final(self).functions == old(self).functions,
            final(self).classes == old(self).classes,
            final(self).instances == old(self).instances,
            final(self).grown_from(old(self)),
            forall|scopes: nat| old(self).wf(scopes) ==> final(self).wf(scopes),
    {
        let handle = self.lists.len();
        self.lists.push(LoxList { items: Vec::new() });
        proof {
            assert forall|scopes: nat| old(self).wf(scopes) implies self.wf(scopes) by {
                natives_stay_ok(*old(self), *self);
                classes_stay_ok(*old(self), *self);
                instances_stay_ok(*old(self), *self);
                assert forall|l: int| 0 <= l < self.lists.len() implies #[trigger] self.list_ok(
                    l,
                ) by {
                    if l < old(self).lists.len() {
                        assert(old(self).list_ok(l));
                    }
                }
            }
        }
        LoxObj::List(handle)
    }

    /// The method that `class` has under `name`: its own, or else the one
    /// that its nearest superclass has.
    pub open spec fn spec_find_method(&self, class: int, name: Seq<char>) -> Option<usize>
        decreases class,
    {
        if !(0 <= class < self.classes.len()) {
            None
        } else if self.classes[class].methods@.contains_key(name) {
            Some(self.classes[class].methods@[name])
        } else {
            match self.classes[class].superclass {
                Some(s) => if s < class {
                    self.spec_find_method(s as int, name)
                } else {
                    None
                },
                None => None,
            }
        }
    }

    /// Looks a method up in `class` and then up its chain of superclasses.
    pub fn find_method(&self, class: usize, name: &str) -> (r: Option<usize>)
        requires
            class < self.classes.len(),
            forall|c: int| 0 <= c < self.classes.len() ==> #[trigger] self.class_ok(c),
        ensures
            r == self.spec_find_method(class as int, name@),
            r matches Some(f) ==> f < self.functions.len(),
    {
        let mut current = class;
        loop
            invariant
                current < self.classes.len(),
                forall|c: int| 0 <= c < self.classes.len() ==> #[trigger] self.class_ok(c),
                self.spec_find_method(current as int, name@) == self.spec_find_method(
                    class as int,
                    name@,
                ),
            decreases current,
        {
            assert(self.class_ok(current as int));
            match self.classes[current].methods.get(name) {
                Some(f) => {
                    return Some(*f);
                },
                None => {},
            }
            match self.classes[current].superclass {
                Some(s) => {
                    current = s;
                },
                None => {
                    return None;
                },
            }
        }
    }

    /// What the property `name` of `object` is: a field of an instance
    /// before a method of its class; `push`, `pop` and `len` of a list;
    /// nothing on any other value.
    pub open spec fn property(&self, object: LoxObj, name: Seq<char>) -> LoxProperty {
        match object {
            LoxObj::Instance(i) => if self.instances[i as int].fields@.contains_key(name) {
                LoxProperty::Field(self.instances[i as int].fields@[name])
            } else {
                match self.spec_find_method(self.instances[i as int].class as int, name) {
                    Some(f) => LoxProperty::Method(LoxObj::Function(f)),
                    None => LoxProperty::Undef,
                }
            },
            LoxObj::List(l) => if name == "push"@ {
                LoxProperty::Method(LoxObj::Native(LIST_PUSH))
            } else if name == "pop"@ {
                LoxProperty::Method(LoxObj::Native(LIST_POP))
            } else if name == "len"@ {
                LoxProperty::Field(
                    number(ieee_from_integer(self.lists[l as int].items.len() as u64)),
                )
            } else {
                LoxProperty::Undef
            },
            _ => LoxProperty::Invalid,
        }
    }

    /// Looks the property `name` up on `object`.
    pub fn get_property(&self, object: &LoxObj, name: &Token) -> (r: LoxProperty)
        requires
            object.within(self.sizes()),
            self.objects_ok(),
        ensures
            r == self.property(*object, name.lexeme@),
            r matches LoxProperty::Field(v) ==> v.within(self.sizes()),
            r matches LoxProperty::Method(v) ==> v.within(self.sizes()) && !(v is Primitive),
    {
        match object {
            LoxObj::Instance(i) => {
                assert(self.instance_ok(*i as int));
                match self.instances[*i].fields.get(name.lexeme.as_str()) {
                    Some(value) => LoxProperty::Field(value.clone()),
                    None => match self.find_method(self.instances[*i].class, name.lexeme.as_str()) {
                        Some(f) => LoxProperty::Method(LoxObj::Function(f)),
                        None => LoxProperty::Undef,
                    },
                }
            },
            LoxObj::List(l) => {
                if same_text(name.lexeme.as_str(), "push") {
                    LoxProperty::Method(LoxObj::Native(LIST_PUSH))
                } else if same_text(name.lexeme.as_str(), "pop") {
                    LoxProperty::Method(LoxObj::Native(LIST_POP))
                } else if same_text(name.lexeme.as_str(), "len") {
                    LoxProperty::Field(number(from_integer(self.lists[*l].items.len() as u64)))
                } else {
                    LoxProperty::Undef
                }
            },
            _ => LoxProperty::Invalid,
        }
    }

    /// `self` is `before` with the field `name` of instance `i` set to
    /// `value`, and nothing else changed.
    pub open spec fn field_set(&self, before: &Heap, i: int, name: Seq<char>, value: LoxObj) -> bool {
        &&& self.natives == before.natives
        &&& self.functions == before.functions
        &&& self.classes == before.classes
        &&& self.lists == before.lists
        &&& self.instances.len() == before.instances.len()
        &&& self.instances[i].class == before.instances[i].class
        &&& self.instances[i].fields@ == before.instances[i].fields@.insert(name, value)
        &&& forall|j: int|
            0 <= j < before.instances.len() && j != i ==> self.instances[j] == before.instances[j]
    }

    /// Sets the property `name` of `object` to `value`. Only an instance
    /// takes it: the result is then `value`. Any other object refuses, and
    /// nothing changes.
    pub fn set_property(&mut self, object: &LoxObj, name: &Token, value: &LoxObj) -> (r: Option<
        LoxObj,
    >)
        requires
            object.within(old(self).sizes()),
            value.within(old(self).sizes()),
        ensures
            match *object {
                LoxObj::Instance(i) => r == Some(*value) && final(self).field_set(
                    old(self),
                    i as int,
                    name.lexeme@,
                    *value,
                ),
                _ => r is None && *final(self) == *old(self),
            },
            final(self).grown_from(old(self)),
            forall|scopes: nat| old(self).wf(scopes) ==> final(self).wf(scopes),
    {
        match object {
            LoxObj::Instance(i) => {
                self.instances[*i].fields.insert(name.lexeme.clone(), value.clone());
                proof {
                    assert forall|scopes: nat| old(self).wf(scopes) implies self.wf(scopes) by {
                        natives_stay_ok(*old(self), *self);
                        classes_stay_ok(*old(self), *self);
                        lists_stay_ok(*old(self), *self);
                        assert forall|j: int|
                            0 <= j < self.instances.len() implies #[trigger] self.instance_ok(
                            j,
                        ) by {
                            assert(old(self).instance_ok(j));
                            if j == *i {
                                assert forall|n: Seq<char>| #[trigger]
                                    self.instances[j].fields@.contains_key(
                                        n,
                                    ) implies self.instances[j].fields@[n].within(self.sizes()) by {
                                    if n != name.lexeme@ {
                                        assert(old(self).instances[j].fields@.contains_key(n));
                                    }
                                }
                            }
                        }
                    }
                }
                Some(value.clone())
            },
            _ => None,
        }
    }

    /// Appends `value` to list `l`.
    pub fn list_push(&mut self, l: usize, value: LoxObj)
        requires
            l < old(self).lists.len(),
            value.within(old(self).sizes()),
        ensures
            final(self).natives == old(self).natives,
            final(self).functions == old(self).functions,
            final(self).classes == old(self).classes,
            final(self).instances == old(self).instances,
            final(self).lists.len() == old(self).lists.len(),
            final(self).lists[l as int].items@ == old(self).lists[l as int].items@.push(value),
            forall|k: int|
                0 <= k < old(self).lists.len() && k != l ==> final(self).lists[k] == old(self).lists[k],
            final(self).grown_from(old(self)),
            forall|scopes: nat| old(self).wf(scopes) ==> final(self).wf(scopes),
    {
        self.lists[l].items.push(value);
        proof {
            assert forall|scopes: nat| old(self).wf(scopes) implies self.wf(scopes) by {
                natives_stay_ok(*old(self), *self);
                classes_stay_ok(*old(self), *self);
                instances_stay_ok(*old(self), *self);
                assert forall|k: int| 0 <= k < self.lists.len() implies #[trigger] self.list_ok(
                    k,
                ) by {
                    assert(old(self).list_ok(k));
                }
            }
        }
    }

    /// Removes the last item of list `l` and returns it; `None`, and no
    /// change, where the list is empty.
    pub fn list_pop(&mut self, l: usize) -> (r: Option<LoxObj>)
        requires
            l < old(self).lists.len(),
        ensures
            final(self).natives == old(self).natives,
            final(self).functions == old(self).functions,
            final(self).classes == old(self).classes,
            final(self).instances == old(self).instances,
            final(self).lists.len() == old(self).lists.len(),
            forall|k: int|
                0 <= k < old(self).lists.len() && k != l ==> final(self).lists[k] == old(self).lists[k],
            old(self).lists[l as int].items.len() == 0 ==> r is None && final(self).lists[l as int].items@
                == old(self).lists[l as int].items@,
            old(self).lists[l as int].items.len() > 0 ==> r == Some(
                old(self).lists[l as int].items@.last(),
            ) && final(self).lists[l as int].items@ == old(self).lists[l as int].items@.drop_last(),
            final(self).grown_from(old(self)),
            forall|scopes: nat|
                old(self).wf(scopes) ==> final(self).wf(scopes) && (r matches Some(v) ==> v.within(
                    final(self).sizes(),
                )),
    {
        let r = self.lists[l].items.pop();
        proof {
            assert forall|scopes: nat| old(self).wf(scopes) implies self.wf(scopes) && (
            r matches Some(v) ==> v.within(self.sizes())) by {
                natives_stay_ok(*old(self), *self);
                classes_stay_ok(*old(self), *self);
                instances_stay_ok(*old(self), *self);
                assert(old(self).list_ok(l as int));
                assert forall|k: int| 0 <= k < self.lists.len() implies #[trigger] self.list_ok(
                    k,
                ) by {
                    assert(old(self).list_ok(k));
                }
            }
        }
        r
    }
}

/// The native functions of a heap stay in order when only other arenas grow.
pub proof fn natives_stay_ok(before: Heap, after: Heap)
    requires
        before.natives_ok(),
        after.natives == before.natives,
        after.sizes().covers(before.sizes()),
    ensures
        after.natives_ok(),
{
}

/// The classes of a heap stay in order when the heap gains functions.
pub proof fn classes_stay_ok(before: Heap, after: Heap)
    requires
        forall|c: int| 0 <= c < before.classes.len() ==> #[trigger] before.class_ok(c),
        after.classes == before.classes,
        after.functions.len() >= before.functions.len(),
    ensures
        forall|c: int| 0 <= c < after.classes.len() ==> #[trigger] after.class_ok(c),
{
    assert forall|c: int| 0 <= c < after.classes.len() implies #[trigger] after.class_ok(c) by {
        assert(before.class_ok(c));
    }
}

/// The instances of a heap stay in order when only other arenas grow.
pub proof fn instances_stay_ok(before: Heap, after: Heap)
    requires
        forall|i: int| 0 <= i < before.instances.len() ==> #[trigger] before.instance_ok(i),
        after.instances == before.instances,
        after.sizes().covers(before.sizes()),
    ensures
        forall|i: int| 0 <= i < after.instances.len() ==> #[trigger] after.instance_ok(i),
{
    assert forall|i: int| 0 <= i < after.instances.len() implies #[trigger] after.instance_ok(
        i,
    ) by {
        assert(before.instance_ok(i));
    }
}

/// The lists of a heap stay in order when only other arenas grow.
pub proof fn lists_stay_ok(before: Heap, after: Heap)
    requires
        forall|l: int| 0 <= l < before.lists.len() ==> #[trigger] before.list_ok(l),
        after.lists == before.lists,
        after.sizes().covers(before.sizes()),
    ensures
        forall|l: int| 0 <= l < after.lists.len() ==> #[trigger] after.list_ok(l),
{
    assert forall|l: int| 0 <= l < after.lists.len() implies #[trigger] after.list_ok(l) by {
        assert(before.list_ok(l));
    }
}

impl Heap {
    /// How many arguments `callee` takes: a function as many as it has
    /// parameters, a native function what it says, a class as many as its
    /// initializer, or none without one, and a list one, the index. `None`
    /// for what is not callable.
    pub open spec fn spec_arity(&self, callee: LoxObj) -> Option<usize> {
        match callee {
            LoxObj::Function(f) => Some(self.functions[f as int].declaration.params.len()),
            LoxObj::Native(n) => Some(self.natives[n as int].arity),
            LoxObj::Class(c) => match self.spec_find_method(c as int, "init"@) {
                Some(f) => Some(self.functions[f as int].declaration.params.len()),
                None => Some(0),
            },
            LoxObj::List(_) => Some(1),
            _ => None,
        }
    }

    /// How many arguments `callee` takes, if it can be called at all.
    pub fn arity(&self, callee: &LoxObj) -> (r: Option<usize>)
        requires
            callee.within(self.sizes()),
            self.objects_ok(),
        ensures
            r == self.spec_arity(*callee),
            r is Some <==> callee.spec_callable(),
    {
        match callee {
            LoxObj::Function(f) => Some(self.functions[*f].declaration.params.len()),
            LoxObj::Native(n) => Some(self.natives[*n].arity),
            LoxObj::Class(c) => match self.find_method(*c, "init") {
                Some(f) => Some(self.functions[f].declaration.params.len()),
                None => Some(0),
            },
            LoxObj::List(_) => Some(1),
            _ => None,
        }
    }
}

/// How deep lists inside lists are written out before a list is written as
/// `[...]`.
pub const DISPLAY_DEPTH: usize = 32;

impl Heap {
    /// The text that stands for a value that is written as one piece of
    /// text: everything but a number and a list.
    pub open spec fn label(&self, object: LoxObj) -> Option<Seq<char>> {
        match object {
            LoxObj::Primitive(LoxPrimitive::Number(_)) => None,
            LoxObj::Primitive(LoxPrimitive::Bool(b)) => Some(
                if b {
                    "true"@
                } else {
                    "false"@
                },
            ),
            LoxObj::Primitive(LoxPrimitive::String(text)) => Some(text@),
            LoxObj::Primitive(LoxPrimitive::Nil) => Some("nil"@),
            LoxObj::Native(_) => Some("<native fn>"@),
            LoxObj::Function(f) => Some(
                "<fn "@ + self.functions[f as int].declaration.name.lexeme@ + ">"@,
            ),
            LoxObj::Class(c) => Some(self.classes[c as int].name@),
            LoxObj::Instance(i) => Some(
                self.classes[self.instances[i as int].class as int].name@ + " instance"@,
            ),
            LoxObj::List(_) => None,
        }
    }

    /// How `object` is written: a number as one number piece, a list as
    /// its items between brackets, separated by `, `, and anything else as
    /// one piece of text. A list that lies `depth` lists deep inside the
    /// one being written is written as `[...]`.
    pub open spec fn written(&self, object: LoxObj, depth: nat) -> Seq<PieceModel>
        decreases depth, 0nat,
    {
        match object {
            LoxObj::Primitive(LoxPrimitive::Number(bits)) => seq![PieceModel::Number(bits)],
            LoxObj::List(l) => if depth == 0 {
                seq![PieceModel::Text("[...]"@)]
            } else {
                seq![PieceModel::Text("["@)] + self.written_items(
                    self.lists[l as int].items@,
                    0,
                    (depth - 1) as nat,
                ) + seq![PieceModel::Text("]"@)]
            },
            _ => seq![PieceModel::Text(self.label(object)->0)],
        }
    }

    /// How the items `items[from..]` of a list are written: each after a
    /// `, `, but for the first of the list.
    pub open spec fn written_items(&self, items: Seq<LoxObj>, from: int, depth: nat) -> Seq<
        PieceModel,
    >
        decreases depth, items.len() - from + 1,
    {
        if from < 0 || from >= items.len() {
            Seq::empty()
        } else {
            (if from > 0 {
                seq![PieceModel::Text(", "@)]
            } else {
                Seq::empty()
            }) + self.written(items[from], depth) + self.written_items(items, from + 1, depth)
        }
    }

    /// Appends `text` to `line`.
    fn push_text(line: &mut Vec<Piece>, text: String)
        ensures
            pieces(final(line)@) == pieces(old(line)@).push(PieceModel::Text(text@)),
    {
        proof {
            pieces_push(line@, Piece::Text(text));
        }
        line.push(Piece::Text(text));
    }

    /// Appends to `line` the pieces that write `object`.
    pub fn display_into(&self, object: &LoxObj, depth: usize, line: &mut Vec<Piece>)
        requires
            object.within(self.sizes()),
            self.objects_ok(),
        ensures
            pieces(final(line)@) == pieces(old(line)@) + self.written(*object, depth as nat),
        decreases depth,
    {
        let ghost before = pieces(line@);
        match object {
            LoxObj::Primitive(LoxPrimitive::Number(bits)) => {
                proof {
                    pieces_push(line@, Piece::Number(*bits));
                }
                line.push(Piece::Number(*bits));
            },
            LoxObj::Primitive(LoxPrimitive::Bool(b)) => {
                Self::push_text(line, String::from_str(if *b { "true" } else { "false" }));
            },
            LoxObj::Primitive(LoxPrimitive::String(text)) => {
                Self::push_text(line, text.clone());
            },
            LoxObj::Primitive(LoxPrimitive::Nil) => {
                Self::push_text(line, String::from_str("nil"));
            },
            LoxObj::Native(_) => {
                Self::push_text(line, String::from_str("<native fn>"));
            },
            LoxObj::Function(f) => {
                let mut text = String::from_str("<fn ");
                text.append(self.functions[*f].declaration.name.lexeme.as_str());
                text.append(">");
                Self::push_text(line, text);
            },
            LoxObj::Class(c) => {
                Self::push_text(line, self.classes[*c].name.clone());
            },
            LoxObj::Instance(i) => {
                assert(self.instance_ok(*i as int));
                let mut text = self.classes[self.instances[*i].class].name.clone();
                text.append(" instance");
                Self::push_text(line, text);
            },
            LoxObj::List(l) => {
                if depth == 0 {
                    Self::push_text(line, String::from_str("[...]"));
                } else {
                    Self::push_text(line, String::from_str("["));
                    let ghost items = self.lists[*l as int].items@;
                    let ghost inner = (depth - 1) as nat;
                    let mut j: usize = 0;
                    while j < self.lists[*l].items.len()
                        invariant
                            *l < self.lists.len(),
                            self.objects_ok(),
                            depth > 0,
                            inner == depth - 1,
                            items == self.lists[*l as int].items@,
                            j <= items.len(),
                            pieces(line@) + self.written_items(items, j as int, inner) == before.push(
                                PieceModel::Text("["@),
                            ) + self.written_items(items, 0, inner),
                        decreases self.lists[*l as int].items.len() - j,
                    {
                        let ghost start = pieces(line@);
                        if j > 0 {
                            Self::push_text(line, String::from_str(", "));
                        }
                        assert(self.list_ok(*l as int));
                        self.display_into(&self.lists[*l].items[j], depth - 1, line);
                        assert(pieces(line@) + self.written_items(items, j + 1, inner) =~= start
                            + self.written_items(items, j as int, inner));
                        j += 1;
                    }
                    assert(pieces(line@) =~= before.push(PieceModel::Text("["@)) + self.written_items(
                        items,
                        0,
                        inner,
                    ));
                    Self::push_text(line, String::from_str("]"));
                }
            },
        }
        assert(pieces(line@) =~= before + self.written(*object, depth as nat));
    }

    /// The pieces that write `object` on a line of its own.
    pub fn display(&self, object: &LoxObj) -> (line: Vec<Piece>)
        requires
            object.within(self.sizes()),
            self.objects_ok(),
        ensures
            pieces(line@) == self.written(*object, DISPLAY_DEPTH as nat),
    {
        let mut line = Vec::new();
        assert(pieces(line@) =~= Seq::<PieceModel>::empty());
        self.display_into(object, DISPLAY_DEPTH, &mut line);
        assert(pieces(line@) =~= self.written(*object, DISPLAY_DEPTH as nat));
        line
    }
}

impl Heap {
    /// `self` is `before` with the function `made` added, and nothing else
    /// changed.
    pub open spec fn gained_function(&self, before: &Heap, made: LoxFn) -> bool {
        &&& self.functions@ == before.functions@.push(made)
        &&& self.natives == before.natives
        &&& self.classes == before.classes
        &&& self.instances == before.instances
        &&& self.lists == before.lists
    }

    /// `self` is `before` with the native function `made` added, and
    /// nothing else changed.
    pub open spec fn gained_native(&self, before: &Heap, made: NativeFn) -> bool {
        &&& self.natives@ == before.natives@.push(made)
        &&& self.functions == before.functions
        &&& self.classes == before.classes
        &&& self.instances == before.instances
        &&& self.lists == before.lists
    }

    /// `self` is `before` with a new instance of `class` added, which has
    /// no fields, and nothing else changed.
    pub open spec fn gained_instance(&self, before: &Heap, class: usize) -> bool {
        &&& self.instances.len() == before.instances.len() + 1
        &&& self.instances[before.instances.len() as int].class == class
        &&& self.instances[before.instances.len() as int].fields@ == Map::<
            Seq<char>,
            LoxObj,
        >::empty()
        &&& forall|i: int|
            0 <= i < before.instances.len() ==> self.instances[i] == before.instances[i]
        &&& self.natives == before.natives
        &&& self.functions == before.functions
        &&& self.classes == before.classes
        &&& self.lists == before.lists
    }

    /// `self` is `before` with the items of list `l` replaced by `items`,
    /// and nothing else changed.
    pub open spec fn list_changed(&self, before: &Heap, l: int, items: Seq<LoxObj>) -> bool {
        &&& self.natives == before.natives
        &&& self.functions == before.functions
        &&& self.classes == before.classes
        &&& self.instances == before.instances
        &&& self.lists.len() == before.lists.len()
        &&& self.lists[l].items@ == items
        &&& forall|k: int| 0 <= k < before.lists.len() && k != l ==> self.lists[k] == before.lists[k]
    }
}

/// The table of the methods `methods[..n]` of a class, where the function
/// made of `methods[k]` has the handle `base + k`: each name leads to the
/// last method of that name.
pub open spec fn method_table(methods: Seq<Rc<FunctionDecl>>, base: nat, n: nat) -> Map<
    Seq<char>,
    usize,
>
    decreases n,
{
    if n == 0 || n > methods.len() {
        Map::empty()
    } else {
        method_table(methods, base, (n - 1) as nat).insert(
            methods[n - 1].name.lexeme@,
            (base + n - 1) as usize,
        )
    }
}

} // verus!
