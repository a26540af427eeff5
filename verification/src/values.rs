//! Runtime values: primitives held inline, and handles to the objects that
//! live in the interpreter's heap.

use crate::number::{
    difference, equal, ieee_difference, ieee_equal, ieee_less, ieee_less_equal, ieee_product,
    ieee_quotient, ieee_sum, less, less_equal, negate, negated, product, quotient, sum,
};
use vstd::prelude::*;
use vstd::string::StringExecFns;

verus! {

/// A value that is compared by what it holds. A number is the bit pattern of
/// an IEEE-754 binary64 value.
#[derive(Debug)]
pub enum LoxPrimitive {
    Number(u64),
    Bool(bool),
    String(String),
    Nil,
}

impl Clone for LoxPrimitive {
    fn clone(&self) -> (r: Self)
        ensures
            r == *self,
    {
        match self {
            LoxPrimitive::Number(bits) => LoxPrimitive::Number(*bits),
            LoxPrimitive::Bool(b) => LoxPrimitive::Bool(*b),
            LoxPrimitive::String(text) => LoxPrimitive::String(text.clone()),
            LoxPrimitive::Nil => LoxPrimitive::Nil,
        }
    }
}

impl LoxPrimitive {
    /// Only `nil` and `false` are falsy.
    pub open spec fn spec_is_truthy(&self) -> bool {
        match *self {
            LoxPrimitive::Bool(b) => b,
            LoxPrimitive::Nil => false,
            _ => true,
        }
    }

    /// Only `nil` and `false` are falsy.
    #[verifier::when_used_as_spec(spec_is_truthy)]
    pub fn is_truthy(&self) -> (r: bool)
        ensures
            r == self.spec_is_truthy(),
    {
        match self {
            LoxPrimitive::Bool(b) => *b,
            LoxPrimitive::Nil => false,
            _ => true,
        }
    }

    /// Equality of primitives: numbers by IEEE-754 equality, booleans and
    /// strings by what they hold, `nil` equal to itself, and values of
    /// different kinds never equal.
    pub open spec fn spec_equals(&self, other: &LoxPrimitive) -> bool {
        match (*self, *other) {
            (LoxPrimitive::Number(a), LoxPrimitive::Number(b)) => ieee_equal(a, b),
            (LoxPrimitive::Bool(a), LoxPrimitive::Bool(b)) => a == b,
            (LoxPrimitive::String(a), LoxPrimitive::String(b)) => a@ == b@,
            (LoxPrimitive::Nil, LoxPrimitive::Nil) => true,
            _ => false,
        }
    }

    /// Whether two primitives are equal.
    pub fn equals(&self, other: &LoxPrimitive) -> (r: bool)
        ensures
            r == self.spec_equals(other),
    {
        match (self, other) {
            (LoxPrimitive::Number(a), LoxPrimitive::Number(b)) => equal(*a, *b),
            (LoxPrimitive::Bool(a), LoxPrimitive::Bool(b)) => *a == *b,
            (LoxPrimitive::String(a), LoxPrimitive::String(b)) => *a == *b,
            (LoxPrimitive::Nil, LoxPrimitive::Nil) => true,
            _ => false,
        }
    }

    /// What `+` yields: the sum of two numbers, or the concatenation of two
    /// strings; nothing for any other pair.
    pub open spec fn sum_matches(&self, rhs: &LoxPrimitive, r: Option<LoxPrimitive>) -> bool {
        match (*self, *rhs) {
            (LoxPrimitive::Number(a), LoxPrimitive::Number(b)) => r == Some(
                LoxPrimitive::Number(ieee_sum(a, b)),
            ),
            (LoxPrimitive::String(a), LoxPrimitive::String(b)) => {
                &&& r matches Some(LoxPrimitive::String(text))
                &&& text@ == a@ + b@
            },
            _ => r is None,
        }
    }

    /// `self + rhs`.
    pub fn add(&self, rhs: &LoxPrimitive) -> (r: Option<LoxPrimitive>)
        ensures
            self.sum_matches(rhs, r),
    {
        match (self, rhs) {
            (LoxPrimitive::Number(a), LoxPrimitive::Number(b)) => Some(
                LoxPrimitive::Number(sum(*a, *b)),
            ),
            (LoxPrimitive::String(a), LoxPrimitive::String(b)) => Some(
                LoxPrimitive::String(a.clone().concat(b.as_str())),
            ),
            _ => None,
        }
    }

    /// What `-` yields: defined on two numbers only.
    pub open spec fn spec_sub(&self, rhs: &LoxPrimitive) -> Option<LoxPrimitive> {
        match (*self, *rhs) {
            (LoxPrimitive::Number(a), LoxPrimitive::Number(b)) => Some(
                LoxPrimitive::Number(ieee_difference(a, b)),
            ),
            _ => None,
        }
    }

    /// `self - rhs`.
    pub fn sub(&self, rhs: &LoxPrimitive) -> (r: Option<LoxPrimitive>)
        ensures
            r == self.spec_sub(rhs),
    {
        match (self, rhs) {
            (LoxPrimitive::Number(a), LoxPrimitive::Number(b)) => Some(
                LoxPrimitive::Number(difference(*a, *b)),
            ),
            _ => None,
        }
    }

    /// What `*` yields: defined on two numbers only.
    pub open spec fn spec_mul(&self, rhs: &LoxPrimitive) -> Option<LoxPrimitive> {
        match (*self, *rhs) {
            (LoxPrimitive::Number(a), LoxPrimitive::Number(b)) => Some(
                LoxPrimitive::Number(ieee_product(a, b)),
            ),
            _ => None,
        }
    }

    /// `self * rhs`.
    pub fn mul(&self, rhs: &LoxPrimitive) -> (r: Option<LoxPrimitive>)
        ensures
            r == self.spec_mul(rhs),
    {
        match (self, rhs) {
            (LoxPrimitive::Number(a), LoxPrimitive::Number(b)) => Some(
                LoxPrimitive::Number(product(*a, *b)),
            ),
            _ => None,
        }
    }

    /// What `/` yields: defined on two numbers only.
    pub open spec fn spec_div(&self, rhs: &LoxPrimitive) -> Option<LoxPrimitive> {
        match (*self, *rhs) {
            (LoxPrimitive::Number(a), LoxPrimitive::Number(b)) => Some(
                LoxPrimitive::Number(ieee_quotient(a, b)),
            ),
            _ => None,
        }
    }

    /// `self / rhs`.
    pub fn div(&self, rhs: &LoxPrimitive) -> (r: Option<LoxPrimitive>)
        ensures
            r == self.spec_div(rhs),
    {
        match (self, rhs) {
            (LoxPrimitive::Number(a), LoxPrimitive::Number(b)) => Some(
                LoxPrimitive::Number(quotient(*a, *b)),
            ),
            _ => None,
        }
    }

    /// What unary `-` yields: defined on a number only.
    pub open spec fn spec_neg(&self) -> Option<LoxPrimitive> {
        match *self {
            LoxPrimitive::Number(a) => Some(LoxPrimitive::Number(negated(a))),
            _ => None,
        }
    }

    /// `-self`.
    pub fn neg(&self) -> (r: Option<LoxPrimitive>)
        ensures
            r == self.spec_neg(),
    {
        match self {
            LoxPrimitive::Number(a) => Some(LoxPrimitive::Number(negate(*a))),
            _ => None,
        }
    }

    /// What `<` yields: defined on two numbers only.
    pub open spec fn spec_less(&self, rhs: &LoxPrimitive) -> Option<bool> {
        match (*self, *rhs) {
            (LoxPrimitive::Number(a), LoxPrimitive::Number(b)) => Some(ieee_less(a, b)),
            _ => None,
        }
    }

    /// `self < rhs`.
    pub fn less(&self, rhs: &LoxPrimitive) -> (r: Option<bool>)
        ensures
            r == self.spec_less(rhs),
    {
        match (self, rhs) {
            (LoxPrimitive::Number(a), LoxPrimitive::Number(b)) => Some(less(*a, *b)),
            _ => None,
        }
    }

    /// What `<=` yields: defined on two numbers only.
    pub open spec fn spec_less_equal(&self, rhs: &LoxPrimitive) -> Option<bool> {
        match (*self, *rhs) {
            (LoxPrimitive::Number(a), LoxPrimitive::Number(b)) => Some(ieee_less_equal(a, b)),
            _ => None,
        }
    }

    /// `self <= rhs`.
    pub fn less_equal(&self, rhs: &LoxPrimitive) -> (r: Option<bool>)
        ensures
            r == self.spec_less_equal(rhs),
    {
        match (self, rhs) {
            (LoxPrimitive::Number(a), LoxPrimitive::Number(b)) => Some(less_equal(*a, *b)),
            _ => None,
        }
    }
}

/// One part of a printed line: text as it stands, or a number, given by the
/// bits of its binary64 value, that is still to be written in decimal.
#[derive(Debug)]
pub enum Piece {
    Text(String),
    Number(u64),
}

/// A piece of a printed line as a mathematical value.
pub enum PieceModel {
    Text(Seq<char>),
    Number(u64),
}

impl View for Piece {
    type V = PieceModel;

    open spec fn view(&self) -> PieceModel {
        match *self {
            Piece::Text(text) => PieceModel::Text(text@),
            Piece::Number(bits) => PieceModel::Number(bits),
        }
    }
}

/// The pieces of a line as mathematical values.
pub open spec fn pieces(line: Seq<Piece>) -> Seq<PieceModel> {
    Seq::new(line.len(), |i: int| line[i]@)
}

/// The pieces of a line with one more piece.
pub proof fn pieces_push(line: Seq<Piece>, piece: Piece)
    ensures
        pieces(line.push(piece)) == pieces(line).push(piece@),
{
    assert(pieces(line.push(piece)) =~= pieces(line).push(piece@));
}

/// How many objects of each kind a heap holds: the bound under which a
/// handle refers to an object.
pub struct Sizes {
    pub natives: nat,
    pub functions: nat,
    pub classes: nat,
    pub instances: nat,
    pub lists: nat,
}

impl Sizes {
    /// Whether a heap of these sizes holds at least what one of sizes
    /// `smaller` holds.
    pub open spec fn covers(&self, smaller: Sizes) -> bool {
        &&& smaller.natives <= self.natives
        &&& smaller.functions <= self.functions
        &&& smaller.classes <= self.classes
        &&& smaller.instances <= self.instances
        &&& smaller.lists <= self.lists
    }
}

/// A runtime value. Primitives are held inline; every other value is a
/// handle to an object in the heap, and two such values are equal exactly
/// when they are the same handle.
#[derive(Debug)]
pub enum LoxObj {
    Primitive(LoxPrimitive),
    Native(usize),
    Function(usize),
    Class(usize),
    Instance(usize),
    List(usize),
}

impl Clone for LoxObj {
    fn clone(&self) -> (r: Self)
        ensures
            r == *self,
    {
        match self {
            LoxObj::Primitive(p) => LoxObj::Primitive(p.clone()),
            LoxObj::Native(h) => LoxObj::Native(*h),
            LoxObj::Function(h) => LoxObj::Function(*h),
            LoxObj::Class(h) => LoxObj::Class(*h),
            LoxObj::Instance(h) => LoxObj::Instance(*h),
            LoxObj::List(h) => LoxObj::List(*h),
        }
    }
}

impl LoxObj {
    /// Everything but `nil` and `false` is truthy; an empty list, zero and
    /// the empty string are.
    pub open spec fn spec_is_truthy(&self) -> bool {
        match *self {
            LoxObj::Primitive(p) => p.spec_is_truthy(),
            _ => true,
        }
    }

    /// Everything but `nil` and `false` is truthy.
    #[verifier::when_used_as_spec(spec_is_truthy)]
    pub fn is_truthy(&self) -> (r: bool)
        ensures
            r == self.spec_is_truthy(),
    {
        match self {
            LoxObj::Primitive(p) => p.is_truthy(),
            _ => true,
        }
    }

    /// The primitive that this value holds, if it is one.
    pub fn primitive(&self) -> (r: Option<&LoxPrimitive>)
        ensures
            r == (match *self {
                LoxObj::Primitive(p) => Some(&p),
                _ => None,
            }),
    {
        match self {
            LoxObj::Primitive(p) => Some(p),
            _ => None,
        }
    }

    /// Equality of values: two primitives by `LoxPrimitive::spec_equals`;
    /// two heap objects when they are the same object; never a primitive
    /// with a heap object.
    pub open spec fn spec_equals(&self, other: &LoxObj) -> bool {
        match (*self, *other) {
            (LoxObj::Primitive(a), LoxObj::Primitive(b)) => a.spec_equals(&b),
            (LoxObj::Native(a), LoxObj::Native(b)) => a == b,
            (LoxObj::Function(a), LoxObj::Function(b)) => a == b,
            (LoxObj::Class(a), LoxObj::Class(b)) => a == b,
            (LoxObj::Instance(a), LoxObj::Instance(b)) => a == b,
            (LoxObj::List(a), LoxObj::List(b)) => a == b,
            _ => false,
        }
    }

    /// Whether two values are equal.
    pub fn equals(&self, other: &LoxObj) -> (r: bool)
        ensures
            r == self.spec_equals(other),
    {
        match (self, other) {
            (LoxObj::Primitive(a), LoxObj::Primitive(b)) => a.equals(b),
            (LoxObj::Native(a), LoxObj::Native(b)) => *a == *b,
            (LoxObj::Function(a), LoxObj::Function(b)) => *a == *b,
            (LoxObj::Class(a), LoxObj::Class(b)) => *a == *b,
            (LoxObj::Instance(a), LoxObj::Instance(b)) => *a == *b,
            (LoxObj::List(a), LoxObj::List(b)) => *a == *b,
            _ => false,
        }
    }

    /// The value of `self == other`.
    pub fn is_equal(&self, other: &LoxObj) -> (r: LoxObj)
        ensures
            r == boolean(self.spec_equals(other)),
    {
        boolean(self.equals(other))
    }

    /// The value of `self != other`.
    pub fn is_diff(&self, other: &LoxObj) -> (r: LoxObj)
        ensures
            r == boolean(!self.spec_equals(other)),
    {
        boolean(!self.equals(other))
    }

    /// Whether this value is a primitive or a handle to an object of a heap
    /// of the given sizes.
    pub open spec fn within(&self, sizes: Sizes) -> bool {
        match *self {
            LoxObj::Primitive(_) => true,
            LoxObj::Native(h) => h < sizes.natives,
            LoxObj::Function(h) => h < sizes.functions,
            LoxObj::Class(h) => h < sizes.classes,
            LoxObj::Instance(h) => h < sizes.instances,
            LoxObj::List(h) => h < sizes.lists,
        }
    }

    /// Whether this value can be called: a function, a native function, a
    /// class, or a list, which is called with the index of an item.
    pub open spec fn spec_callable(&self) -> bool {
        *self is Function || *self is Native || *self is Class || *self is List
    }

    /// Whether this value can be called.
    #[verifier::when_used_as_spec(spec_callable)]
    pub fn callable(&self) -> (r: bool)
        ensures
            r == self.spec_callable(),
    {
        match self {
            LoxObj::Function(_) | LoxObj::Native(_) | LoxObj::Class(_) | LoxObj::List(_) => true,
            _ => false,
        }
    }

    /// The handle of the class that this value is, if it is one.
    pub fn class(&self) -> (r: Option<usize>)
        ensures
            r == (match *self {
                LoxObj::Class(c) => Some(c),
                _ => None,
            }),
    {
        match self {
            LoxObj::Class(c) => Some(*c),
            _ => None,
        }
    }

    /// Whether this value is a handle to a heap object rather than a primitive.
    pub open spec fn is_reference(&self) -> bool {
        !(*self is Primitive)
    }
}

impl PartialEq for LoxObj {
    /// Two values are equal as `equals` says.
    fn eq(&self, other: &Self) -> (r: bool) {
        self.equals(other)
    }
}

impl vstd::std_specs::cmp::PartialEqSpecImpl for LoxObj {
    open spec fn obeys_eq_spec() -> bool {
        true
    }

    open spec fn eq_spec(&self, other: &Self) -> bool {
        self.spec_equals(other)
    }
}

/// The number with the given binary64 bit pattern.
pub open spec fn spec_number(bits: u64) -> LoxObj {
    LoxObj::Primitive(LoxPrimitive::Number(bits))
}

/// The number with the given binary64 bit pattern.
#[verifier::when_used_as_spec(spec_number)]
pub fn number(bits: u64) -> (r: LoxObj)
    ensures
        r == spec_number(bits),
{
    LoxObj::Primitive(LoxPrimitive::Number(bits))
}

pub open spec fn spec_boolean(b: bool) -> LoxObj {
    LoxObj::Primitive(LoxPrimitive::Bool(b))
}

/// The boolean `b`.
#[verifier::when_used_as_spec(spec_boolean)]
pub fn boolean(b: bool) -> (r: LoxObj)
    ensures
        r == spec_boolean(b),
{
    LoxObj::Primitive(LoxPrimitive::Bool(b))
}

/// The string `s`.
pub fn string(s: String) -> (r: LoxObj)
    ensures
        r == LoxObj::Primitive(LoxPrimitive::String(s)),
{
    LoxObj::Primitive(LoxPrimitive::String(s))
}

pub open spec fn spec_nil() -> LoxObj {
    LoxObj::Primitive(LoxPrimitive::Nil)
}

/// The value `nil`.
#[verifier::when_used_as_spec(spec_nil)]
pub fn nil() -> (r: LoxObj)
    ensures
        r == spec_nil(),
{
    LoxObj::Primitive(LoxPrimitive::Nil)
}

/// Equality of heap objects is identity: two values that are not
/// primitives are equal exactly when they are the same handle.
pub proof fn reference_equality_is_identity(a: LoxObj, b: LoxObj)
    requires
        a.is_reference(),
        b.is_reference(),
    ensures
        a.spec_equals(&b) <==> a == b,
{
}

/// Equality of booleans, strings and `nil` is structural: two such values
/// are equal exactly when they are the same kind and hold the same thing.
pub proof fn primitive_equality_is_structural(a: LoxPrimitive, b: LoxPrimitive)
    requires
        !(a is Number),
        !(b is Number),
    ensures
        a.spec_equals(&b) <==> (match (a, b) {
            (LoxPrimitive::Bool(x), LoxPrimitive::Bool(y)) => x == y,
            (LoxPrimitive::String(x), LoxPrimitive::String(y)) => x@ == y@,
            (LoxPrimitive::Nil, LoxPrimitive::Nil) => true,
            _ => false,
        }),
{
}

/// A primitive never equals a heap object.
pub proof fn primitive_never_equals_reference(a: LoxObj, b: LoxObj)
    requires
        a is Primitive,
        b.is_reference(),
    ensures
        !a.spec_equals(&b),
        !b.spec_equals(&a),
{
}

} // verus!
