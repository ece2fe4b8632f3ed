//! Runtime values.

use vstd::prelude::*;
use vstd::std_specs::cmp::PartialEqSpecImpl;
use crate::number::{equal, number_equal};

verus! {

/// A value of the language. Numbers hold the bit pattern of a double.
/// Functions, instances and classes are handles into the interpreter's
/// stores, so two of them are the same value exactly when the handles agree.
#[derive(Debug, Clone)]
pub enum Object {
    Nil,
    Boolean(bool),
    Number(u64),
    String(String),
    Function(usize),
    Instance(usize),
    Class(usize),
}

/// What an [`Object`] stands for: the same value with text as a sequence of
/// characters.
pub enum ObjectView {
    Nil,
    Boolean(bool),
    Number(u64),
    String(Seq<char>),
    Function(usize),
    Instance(usize),
    Class(usize),
}

impl DeepView for Object {
    type V = ObjectView;

    open spec fn deep_view(&self) -> ObjectView {
        match self {
            Object::Nil => ObjectView::Nil,
            Object::Boolean(b) => ObjectView::Boolean(*b),
            Object::Number(n) => ObjectView::Number(*n),
            Object::String(s) => ObjectView::String(s@),
            Object::Function(f) => ObjectView::Function(*f),
            Object::Instance(i) => ObjectView::Instance(*i),
            Object::Class(c) => ObjectView::Class(*c),
        }
    }
}

impl ObjectView {
    /// Only `nil` and `false` count as false.
    pub open spec fn is_truthy(self) -> bool {
        match self {
            ObjectView::Nil => false,
            ObjectView::Boolean(b) => b,
            _ => true,
        }
    }

    /// Equality of the language: values of different kinds are never equal,
    /// numbers compare as doubles, text by content, and functions, instances
    /// and classes by identity.
    pub open spec fn equals(self, other: ObjectView) -> bool {
        match (self, other) {
            (ObjectView::Nil, ObjectView::Nil) => true,
            (ObjectView::Boolean(a), ObjectView::Boolean(b)) => a == b,
            (ObjectView::Number(a), ObjectView::Number(b)) => equal(a, b),
            (ObjectView::String(a), ObjectView::String(b)) => a == b,
            (ObjectView::Function(a), ObjectView::Function(b)) => a == b,
            (ObjectView::Instance(a), ObjectView::Instance(b)) => a == b,
            (ObjectView::Class(a), ObjectView::Class(b)) => a == b,
            _ => false,
        }
    }
}

impl Object {
    /// Whether the value counts as true: everything does but `nil` and
    /// `false`.
    pub fn is_truthy(&self) -> (r: bool)
        ensures
            r == self.deep_view().is_truthy(),
    {
        match self {
            Object::Nil => false,
            Object::Boolean(b) => *b,
            _ => true,
        }
    }

    /// A second copy of the value.
    pub fn duplicate(&self) -> (r: Object)
        ensures
            r == *self,
    {
        match self {
            Object::Nil => Object::Nil,
            Object::Boolean(b) => Object::Boolean(*b),
            Object::Number(n) => Object::Number(*n),
            Object::String(s) => Object::String(s.clone()),
            Object::Function(f) => Object::Function(*f),
            Object::Instance(i) => Object::Instance(*i),
            Object::Class(c) => Object::Class(*c),
        }
    }
}

impl PartialEq for Object {
    fn eq(&self, other: &Object) -> (r: bool) {
        match (self, other) {
            (Object::Nil, Object::Nil) => true,
            (Object::Boolean(a), Object::Boolean(b)) => *a == *b,
            (Object::Number(a), Object::Number(b)) => number_equal(*a, *b),
            (Object::String(a), Object::String(b)) => *a == *b,
            (Object::Function(a), Object::Function(b)) => *a == *b,
            (Object::Instance(a), Object::Instance(b)) => *a == *b,
            (Object::Class(a), Object::Class(b)) => *a == *b,
            _ => false,
        }
    }
}

impl PartialEqSpecImpl for Object {
    open spec fn obeys_eq_spec() -> bool {
        true
    }

    open spec fn eq_spec(&self, other: &Object) -> bool {
        self.deep_view().equals(other.deep_view())
    }
}

/// Equality is symmetric, and reflexive on everything but NaN.
pub proof fn lemma_equals_symmetric(a: ObjectView, b: ObjectView)
    ensures
        a.equals(b) == b.equals(a),
        !(a matches ObjectView::Number(n) && crate::number::is_nan(n)) ==> a.equals(a),
{
}

} // verus!
