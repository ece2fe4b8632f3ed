//! Callable values: the built-in clock and functions declared in a program.

use vstd::prelude::*;
use std::rc::Rc;
use crate::environment::{Environment, EnvironmentView};
use crate::interpreter::Request;
use crate::object::{Object, ObjectView};
use crate::stmt::FunctionStmt;

verus! {

/// The built-in function `clock`, which takes no arguments and gives the
/// seconds that have passed since the start of 1970.
#[derive(Debug, Clone, Copy, PartialEq, Eq, Structural)]
pub struct Clock {}

impl Clock {
    /// The clock.
    pub fn new() -> (r: Clock)
        ensures
            r == (Clock {  }),
    {
        Clock {  }
    }

    /// The clock takes no arguments.
    pub fn arity(&self) -> (r: usize)
        ensures
            r == 0,
    {
        0
    }

    /// What a call of the clock comes to: the question for the time, which
    /// whoever drives the machine answers. The library reads no clock itself.
    pub fn call(&self) -> (request: Request)
        ensures
            request == Request::Clock,
    {
        Request::Clock
    }
}

/// A function of the program: its declaration, the scope it was declared in
/// and whether it is the initializer of a class.
#[derive(Debug, Clone)]
pub struct Function {
    pub declaration: Rc<FunctionStmt>,
    pub closure: usize,
    pub is_initializer: bool,
}

impl Function {
    /// The function of the declaration, closed over the scope at `closure`.
    pub fn new(declaration: Rc<FunctionStmt>, closure: usize, is_initializer: bool) -> (r: Function)
        ensures
            r == (Function { declaration, closure, is_initializer }),
    {
        Function { declaration, closure, is_initializer }
    }

    /// The number of parameters.
    pub open spec fn parameters(self) -> nat {
        self.declaration.params@.len()
    }

    /// The name the function was declared under.
    pub open spec fn name(self) -> Seq<char> {
        self.declaration.name.lexeme@
    }

    /// The number of arguments that a call takes.
    pub fn arity(&self) -> (r: usize)
        ensures
            r == self.parameters(),
    {
        self.declaration.params.len()
    }

    /// A second handle on the same function.
    pub fn duplicate(&self) -> (r: Function)
        ensures
            r == *self,
    {
        Function {
            declaration: self.declaration.clone(),
            closure: self.closure,
            is_initializer: self.is_initializer,
        }
    }
}

/// The scope that binds `this` to the instance at `instance`, around which
/// lies the scope `closure`.
pub open spec fn this_scope(closure: usize, instance: usize) -> EnvironmentView {
    EnvironmentView {
        enclosing: Some(closure),
        values: Map::<Seq<char>, ObjectView>::empty().insert(
            "this"@,
            ObjectView::Instance(instance),
        ),
    }
}

/// What binding `method` to the instance at `instance` gives: the store with
/// one more scope, which binds `this`, and the method closed over that scope.
pub open spec fn bound(scopes: Seq<EnvironmentView>, method: Function, instance: usize) -> (
    Seq<EnvironmentView>,
    Function,
) {
    (
        scopes.push(this_scope(method.closure, instance)),
        Function {
            declaration: method.declaration,
            closure: scopes.len() as usize,
            is_initializer: method.is_initializer,
        },
    )
}

impl Function {
    /// The method bound to the instance at `instance`: a function like this
    /// one, in whose scope `this` is that instance.
    pub fn bind(&self, environments: &mut Vec<Environment>, instance: usize) -> (r: Function)
        ensures
            (final(environments).deep_view(), r) == bound(
                old(environments).deep_view(),
                *self,
                instance,
            ),
    {
        let ghost before = environments.deep_view();
        let mut scope = Environment::new(Some(self.closure));
        scope.define(String::from_str("this"), Object::Instance(instance));
        let place = environments.len();
        environments.push(scope);
        assert(environments.deep_view() =~= before.push(this_scope(self.closure, instance)));
        Function {
            declaration: self.declaration.clone(),
            closure: place,
            is_initializer: self.is_initializer,
        }
    }
}

/// What a call can be made on, apart from classes.
#[derive(Debug, Clone)]
pub enum Callable {
    Clock(Clock),
    Function(Function),
}

impl Callable {
    /// The number of parameters.
    pub open spec fn parameters(self) -> nat {
        match self {
            Callable::Clock(_) => 0,
            Callable::Function(f) => f.parameters(),
        }
    }

    /// The number of arguments that a call takes.
    pub fn arity(&self) -> (r: usize)
        ensures
            r == self.parameters(),
    {
        match self {
            Callable::Clock(c) => c.arity(),
            Callable::Function(f) => f.arity(),
        }
    }

    /// A second handle on the same function.
    pub fn duplicate(&self) -> (r: Callable)
        ensures
            r == *self,
    {
        match self {
            Callable::Clock(c) => Callable::Clock(*c),
            Callable::Function(f) => Callable::Function(f.duplicate()),
        }
    }
}

} // verus!
