//! Classes: a name, an optional superclass, methods and fields of their own.

use vstd::prelude::*;
use std::rc::Rc;
use crate::environment::Bindings;
use crate::function::Function;
use crate::instance::IsInstance;
use crate::object::{Object, ObjectView};
use crate::token::Token;

verus! {

/// A class: its name, the place of its superclass if it has one, its
/// methods and the fields that were set on the class itself.
#[derive(Debug, Clone)]
pub struct Class {
    pub name: Rc<Token>,
    pub superclass: Option<usize>,
    /// The methods in the order of their declaration. Where two have one
    /// name, the later one counts.
    pub methods: Vec<Function>,
    pub fields: Bindings<Object>,
}

/// What a [`Class`] stands for.
pub struct ClassView {
    pub name: Rc<Token>,
    pub superclass: Option<usize>,
    pub methods: Seq<Function>,
    pub fields: Map<Seq<char>, ObjectView>,
}

impl DeepView for Class {
    type V = ClassView;

    open spec fn deep_view(&self) -> ClassView {
        ClassView {
            name: self.name,
            superclass: self.superclass,
            methods: self.methods@,
            fields: self.fields.deep_view(),
        }
    }
}

impl IsInstance for Class {

}

/// The method called `key` among `methods`: the last one of that name.
pub open spec fn own_method(methods: Seq<Function>, key: Seq<char>) -> Option<Function>
    decreases methods.len(),
{
    if methods.len() == 0 {
        None
    } else if methods.last().name() == key {
        Some(methods.last())
    } else {
        own_method(methods.drop_last(), key)
    }
}

/// The method called `key` of the class at `class`, looked for in the class
/// itself and then up its superclasses, at most `steps` of them.
pub open spec fn method_of(classes: Seq<ClassView>, class: usize, key: Seq<char>, steps: nat)
    -> Option<Function>
    decreases steps,
{
    if class >= classes.len() {
        None
    } else {
        match own_method(classes[class as int].methods, key) {
            Some(method) => Some(method),
            None => if steps == 0 {
                None
            } else {
                match classes[class as int].superclass {
                    Some(above) => method_of(classes, above, key, (steps - 1) as nat),
                    None => None,
                }
            },
        }
    }
}

/// The method called `key` of the class at `class`. No chain of
/// superclasses is longer than the store of classes.
pub open spec fn find_method(classes: Seq<ClassView>, class: usize, key: Seq<char>) -> Option<
    Function,
> {
    method_of(classes, class, key, classes.len())
}

/// The number of arguments that a call of the class takes: those of its
/// initializer, or none if it has no initializer.
pub open spec fn class_arity(classes: Seq<ClassView>, class: usize) -> nat {
    match find_method(classes, class, "init"@) {
        Some(initializer) => initializer.parameters(),
        None => 0,
    }
}

impl Class {
    /// A class without fields of its own.
    pub fn new(name: Rc<Token>, superclass: Option<usize>, methods: Vec<Function>) -> (r: Class)
        ensures
            r.deep_view() == (ClassView {
                name,
                superclass,
                methods: methods@,
                fields: Map::<Seq<char>, ObjectView>::empty(),
            }),
    {
        Class { name, superclass, methods, fields: Bindings::new() }
    }

    /// The class's own method called `key`.
    pub fn own_method(&self, key: &String) -> (r: Option<Function>)
        ensures
            r == own_method(self.methods@, key@),
    {
        let mut i = self.methods.len();
        assert(self.methods@.subrange(0, i as int) =~= self.methods@);
        while i > 0
            invariant
                i <= self.methods@.len(),
                own_method(self.methods@, key@) == own_method(
                    self.methods@.subrange(0, i as int),
                    key@,
                ),
            decreases i,
        {
            let ghost front = self.methods@.subrange(0, i as int);
            assert(front.drop_last() =~= self.methods@.subrange(0, i - 1));
            i -= 1;
            if self.methods[i].declaration.name.lexeme == *key {
                return Some(self.methods[i].duplicate());
            }
        }
        assert(self.methods@.subrange(0, 0).len() == 0);
        None
    }

    /// The method called `key`, from the class at `class` or the nearest
    /// superclass that has one.
    pub fn find_method(classes: &Vec<Class>, class: usize, key: &String) -> (r: Option<Function>)
        ensures
            r == find_method(classes.deep_view(), class, key@),
    {
        let mut current = class;
        let mut steps = classes.len();
        loop
            invariant
                find_method(classes.deep_view(), class, key@) == method_of(
                    classes.deep_view(),
                    current,
                    key@,
                    steps as nat,
                ),
            decreases steps,
        {
            if current >= classes.len() {
                return None;
            }
            match classes[current].own_method(key) {
                Some(method) => {
                    return Some(method);
                },
                None => {},
            }
            if steps == 0 {
                return None;
            }
            match classes[current].superclass {
                Some(above) => {
                    current = above;
                    steps = steps - 1;
                },
                None => {
                    return None;
                },
            }
        }
    }

    /// The number of arguments that a call of the class at `class` takes.
    pub fn arity(classes: &Vec<Class>, class: usize) -> (r: usize)
        ensures
            r == class_arity(classes.deep_view(), class),
    {
        let init = String::from_str("init");
        match Class::find_method(classes, class, &init) {
            Some(initializer) => initializer.arity(),
            None => 0,
        }
    }
}

} // verus!
