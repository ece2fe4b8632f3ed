//! The stores in which scopes, functions, classes and instances live.
//!
//! A value refers to one of them by its place in its store. Nothing is ever
//! taken out of a store, so a place that was handed out stays good. Every
//! operation still checks the places it is given and reports one that points
//! at nothing as an error of the kind `Unreachable`.

use vstd::prelude::*;
use crate::class::{find_method, Class, ClassView};
use crate::environment::{with_binding, Environment, EnvironmentView};
use crate::function::{bound, Callable, Function};
use crate::instance::{Instance, InstanceView};
use crate::interpreter::{fail, failure, value_view, ErrorKind, InterpretError, InterpretErrorView};
use crate::object::{Object, ObjectView};

verus! {

/// The four stores.
#[derive(Debug, Clone)]
pub struct Heap {
    pub environments: Vec<Environment>,
    pub functions: Vec<Callable>,
    pub classes: Vec<Class>,
    pub instances: Vec<Instance>,
}

/// What a [`Heap`] stands for.
pub struct HeapView {
    pub environments: Seq<EnvironmentView>,
    pub functions: Seq<Callable>,
    pub classes: Seq<ClassView>,
    pub instances: Seq<InstanceView>,
}

impl DeepView for Heap {
    type V = HeapView;

    open spec fn deep_view(&self) -> HeapView {
        HeapView {
            environments: self.environments.deep_view(),
            functions: self.functions@,
            classes: self.classes.deep_view(),
            instances: self.instances.deep_view(),
        }
    }
}

impl HeapView {
    /// The stores with one more, empty, scope inside `enclosing`.
    pub open spec fn scoped(self, enclosing: Option<usize>) -> HeapView {
        HeapView {
            environments: self.environments.push(
                EnvironmentView { enclosing, values: Map::<Seq<char>, ObjectView>::empty() },
            ),
            ..self
        }
    }

    /// The stores after `key` has been bound to `value` in the scope at
    /// `scope`. A scope that is not there changes nothing.
    pub open spec fn defined(self, scope: usize, key: Seq<char>, value: ObjectView) -> HeapView {
        if scope < self.environments.len() {
            HeapView { environments: with_binding(self.environments, scope, key, value), ..self }
        } else {
            self
        }
    }

    /// The stores with one more function.
    pub open spec fn with_function(self, callable: Callable) -> HeapView {
        HeapView { functions: self.functions.push(callable), ..self }
    }

    /// The stores with one more class.
    pub open spec fn with_class(self, class: ClassView) -> HeapView {
        HeapView { classes: self.classes.push(class), ..self }
    }

    /// The stores with one more instance, of the class at `class` and
    /// without fields.
    pub open spec fn with_instance(self, class: usize) -> HeapView {
        HeapView {
            instances: self.instances.push(
                InstanceView { class, fields: Map::<Seq<char>, ObjectView>::empty() },
            ),
            ..self
        }
    }

    /// The stores after `method` has been bound to the instance at
    /// `instance` and the bound method stored as the newest function.
    pub open spec fn bound_method(self, method: Function, instance: usize) -> HeapView {
        HeapView {
            environments: bound(self.environments, method, instance).0,
            functions: self.functions.push(
                Callable::Function(bound(self.environments, method, instance).1),
            ),
            ..self
        }
    }

    /// What reading the property `key` of the instance at `instance` gives:
    /// the field of that name or, if there is none, the method of that name
    /// from the instance's class or its superclasses, bound to the instance
    /// and stored as a new function.
    pub open spec fn instance_get(self, instance: usize, key: Seq<char>) -> (
        HeapView,
        Result<ObjectView, InterpretErrorView>,
    ) {
        if instance >= self.instances.len() {
            (self, Err(failure(ErrorKind::Unreachable, 0, key)))
        } else if self.instances[instance as int].fields.contains_key(key) {
            (self, Ok(self.instances[instance as int].fields[key]))
        } else {
            match find_method(self.classes, self.instances[instance as int].class, key) {
                Some(method) => (
                    self.bound_method(method, instance),
                    Ok(ObjectView::Function(self.functions.len() as usize)),
                ),
                None => (self, Err(failure(ErrorKind::UndefinedProperty, 0, key))),
            }
        }
    }

    /// What writing the field `key` of the instance at `instance` gives.
    pub open spec fn instance_set(self, instance: usize, key: Seq<char>, value: ObjectView)
        -> Result<HeapView, InterpretErrorView> {
        if instance >= self.instances.len() {
            Err(failure(ErrorKind::Unreachable, 0, key))
        } else {
            Ok(
                HeapView {
                    instances: self.instances.update(
                        instance as int,
                        InstanceView {
                            class: self.instances[instance as int].class,
                            fields: self.instances[instance as int].fields.insert(key, value),
                        },
                    ),
                    ..self
                },
            )
        }
    }

    /// What reading the field `key` of the class at `class` gives.
    pub open spec fn class_get(self, class: usize, key: Seq<char>) -> Result<
        ObjectView,
        InterpretErrorView,
    > {
        if class >= self.classes.len() {
            Err(failure(ErrorKind::Unreachable, 0, key))
        } else if self.classes[class as int].fields.contains_key(key) {
            Ok(self.classes[class as int].fields[key])
        } else {
            Err(failure(ErrorKind::UndefinedProperty, 0, key))
        }
    }

    /// What writing the field `key` of the class at `class` gives.
    pub open spec fn class_set(self, class: usize, key: Seq<char>, value: ObjectView) -> Result<
        HeapView,
        InterpretErrorView,
    > {
        if class >= self.classes.len() {
            Err(failure(ErrorKind::Unreachable, 0, key))
        } else {
            Ok(
                HeapView {
                    classes: self.classes.update(
                        class as int,
                        ClassView {
                            fields: self.classes[class as int].fields.insert(key, value),
                            ..self.classes[class as int]
                        },
                    ),
                    ..self
                },
            )
        }
    }
}

impl Heap {
    /// Empty stores.
    pub fn new() -> (r: Heap)
        ensures
            r.deep_view() == (HeapView {
                environments: Seq::<EnvironmentView>::empty(),
                functions: Seq::<Callable>::empty(),
                classes: Seq::<ClassView>::empty(),
                instances: Seq::<InstanceView>::empty(),
            }),
    {
        let r = Heap {
            environments: Vec::new(),
            functions: Vec::new(),
            classes: Vec::new(),
            instances: Vec::new(),
        };
        assert(r.environments.deep_view() =~= Seq::<EnvironmentView>::empty());
        assert(r.classes.deep_view() =~= Seq::<ClassView>::empty());
        assert(r.instances.deep_view() =~= Seq::<InstanceView>::empty());
        r
    }

    /// Opens a scope inside `enclosing` and gives its place.
    pub fn scope(&mut self, enclosing: Option<usize>) -> (r: usize)
        ensures
            final(self).deep_view() == old(self).deep_view().scoped(enclosing),
            r == old(self).environments@.len(),
    {
        let place = self.environments.len();
        self.environments.push(Environment::new(enclosing));
        assert(self.environments.deep_view() =~= old(self).deep_view().scoped(
            enclosing,
        ).environments);
        place
    }

    /// Binds `key` to `value` in the scope at `scope`.
    pub fn define(&mut self, scope: usize, key: String, value: Object)
        ensures
            final(self).deep_view() == old(self).deep_view().defined(
                scope,
                key@,
                value.deep_view(),
            ),
    {
        if scope < self.environments.len() {
            Environment::bind(&mut self.environments, scope, key, value);
        }
    }

    /// Stores a function and gives its place.
    pub fn function(&mut self, callable: Callable) -> (r: usize)
        ensures
            final(self).deep_view() == old(self).deep_view().with_function(callable),
            r == old(self).functions@.len(),
    {
        let place = self.functions.len();
        self.functions.push(callable);
        place
    }

    /// Binds `method` to the instance at `instance`, stores the bound method
    /// and gives its place.
    pub fn bind(&mut self, method: &Function, instance: usize) -> (r: usize)
        ensures
            final(self).deep_view() == old(self).deep_view().bound_method(*method, instance),
            r == old(self).functions@.len(),
    {
        let function = method.bind(&mut self.environments, instance);
        self.function(Callable::Function(function))
    }

    /// Stores a class and gives its place.
    pub fn class(&mut self, class: Class) -> (r: usize)
        ensures
            final(self).deep_view() == old(self).deep_view().with_class(class.deep_view()),
            r == old(self).classes@.len(),
    {
        let place = self.classes.len();
        self.classes.push(class);
        assert(self.classes.deep_view() =~= old(self).classes.deep_view().push(class.deep_view()));
        place
    }

    /// Makes an instance of the class at `class` and gives its place.
    pub fn instance(&mut self, class: usize) -> (r: usize)
        ensures
            final(self).deep_view() == old(self).deep_view().with_instance(class),
            r == old(self).instances@.len(),
    {
        let place = self.instances.len();
        self.instances.push(Instance::new(class));
        assert(self.instances.deep_view() =~= old(self).deep_view().with_instance(
            class,
        ).instances);
        place
    }
}

impl Instance {
    /// Reads the property `key` of the instance at `instance`.
    pub fn get(heap: &mut Heap, instance: usize, key: &String) -> (r: Result<
        Object,
        InterpretError,
    >)
        ensures
            (final(heap).deep_view(), value_view(r)) == old(heap).deep_view().instance_get(
                instance,
                key@,
            ),
    {
        if instance >= heap.instances.len() {
            return Err(fail(ErrorKind::Unreachable, 0, key));
        }
        match heap.instances[instance].fields.get(key) {
            Some(v) => {
                return Ok(v.duplicate());
            },
            None => {},
        }
        let class = heap.instances[instance].class;
        match Class::find_method(&heap.classes, class, key) {
            Some(method) => Ok(Object::Function(heap.bind(&method, instance))),
            None => Err(fail(ErrorKind::UndefinedProperty, 0, key)),
        }
    }

    /// Writes the field `key` of the instance at `instance`.
    pub fn set(heap: &mut Heap, instance: usize, key: &String, value: Object) -> (r: Result<
        (),
        InterpretError,
    >)
        ensures
            match r {
                Ok(_) => Ok(final(heap).deep_view()),
                Err(e) => Err(e.deep_view()),
            } == old(heap).deep_view().instance_set(instance, key@, value.deep_view()),
            r is Err ==> *final(heap) == *old(heap),
    {
        if instance >= heap.instances.len() {
            return Err(fail(ErrorKind::Unreachable, 0, key));
        }
        let ghost before = heap.deep_view();
        let target = &mut heap.instances[instance];
        target.fields.insert(key.clone(), value);
        assert(heap.instances.deep_view() =~= before.instance_set(
            instance,
            key@,
            value.deep_view(),
        )->Ok_0.instances);
        Ok(())
    }
}

impl Class {
    /// Reads the field `key` of the class at `class`.
    pub fn get(heap: &Heap, class: usize, key: &String) -> (r: Result<Object, InterpretError>)
        ensures
            value_view(r) == heap.deep_view().class_get(class, key@),
    {
        if class >= heap.classes.len() {
            return Err(fail(ErrorKind::Unreachable, 0, key));
        }
        match heap.classes[class].fields.get(key) {
            Some(v) => Ok(v.duplicate()),
            None => Err(fail(ErrorKind::UndefinedProperty, 0, key)),
        }
    }

    /// Writes the field `key` of the class at `class`.
    pub fn set(heap: &mut Heap, class: usize, key: &String, value: Object) -> (r: Result<
        (),
        InterpretError,
    >)
        ensures
            match r {
                Ok(_) => Ok(final(heap).deep_view()),
                Err(e) => Err(e.deep_view()),
            } == old(heap).deep_view().class_set(class, key@, value.deep_view()),
            r is Err ==> *final(heap) == *old(heap),
    {
        if class >= heap.classes.len() {
            return Err(fail(ErrorKind::Unreachable, 0, key));
        }
        let ghost before = heap.deep_view();
        let target = &mut heap.classes[class];
        target.fields.insert(key.clone(), value);
        assert(heap.classes.deep_view() =~= before.class_set(
            class,
            key@,
            value.deep_view(),
        )->Ok_0.classes);
        Ok(())
    }
}

} // verus!
