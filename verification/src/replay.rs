//! Running a program a second time.
//!
//! The stores only grow, so a second run of a block finds more in them than
//! the first run did, and what it makes gets later places. Apart from that
//! the two runs are alike: what stands at a place in the first run stands in
//! the second run at the place that the shift assigns to it, and the machine
//! wants the same things done, step for step.

use vstd::prelude::*;
use std::rc::Rc;
use crate::class::{class_arity, find_method, method_of, own_method, ClassView};
use crate::environment::{
    ancestor,
    assign,
    holder,
    lemma_found_in_store,
    lookup,
    read_at,
    write_at,
    EnvironmentView,
};
use crate::expr::{Expr, HashExpr, SuperExpr};
use crate::function::{bound, this_scope, Callable, Function};
use crate::heap::HeapView;
use crate::instance::InstanceView;
use crate::interpreter::{ControlView, FrameView, InterpreterView};
use crate::object::ObjectView;
use crate::semantics::{bind_parameters, methods_of, render};
use crate::laws::lemma_run_keeps_tables;
use crate::soundness::{
    callable_sound,
    class_sound,
    declared,
    fits,
    frame_sound,
    function_sound,
    heap_sound,
    instance_sound,
    layered,
    lemma_bind_parameters_anchor,
    lemma_bind_parameters_sizes,
    lemma_find_method,
    lemma_growth,
    lemma_grown_heap,
    lemma_run_grows,
    lemma_step_grows,
    lemma_step_keeps_layers,
    lemma_step_keeps_sound,
    live,
    scope_sound,
    sizes,
    table_live,
    values_live,
    Sizes,
};
use crate::stmt::{ClassStmt, Stmt};
use crate::token::Token;

verus! {

/// Which places of the second run answer to which places of the first:
/// a place below the cut is the same in both, a place from the cut on lies
/// further up in the second run by a fixed amount. There is a cut and an
/// amount for each of the four stores.
pub struct Shift {
    pub cut: Sizes,
    pub by: Sizes,
}

/// The place that answers to `place`.
pub open spec fn moved(cut: nat, by: nat, place: usize) -> usize {
    if place < cut {
        place
    } else {
        (place + by) as usize
    }
}

impl Shift {
    /// The place of the scope that answers to the scope at `place`.
    pub open spec fn scope(self, place: usize) -> usize {
        moved(self.cut.scopes, self.by.scopes, place)
    }

    /// The place of the function that answers.
    pub open spec fn function(self, place: usize) -> usize {
        moved(self.cut.functions, self.by.functions, place)
    }

    /// The place of the class that answers.
    pub open spec fn class(self, place: usize) -> usize {
        moved(self.cut.classes, self.by.classes, place)
    }

    /// The place of the instance that answers.
    pub open spec fn instance(self, place: usize) -> usize {
        moved(self.cut.instances, self.by.instances, place)
    }

    /// The place of the scope that answers, if there is a scope.
    pub open spec fn optional_scope(self, place: Option<usize>) -> Option<usize> {
        match place {
            Some(place) => Some(self.scope(place)),
            None => None,
        }
    }

    /// The place of the class that answers, if there is a class.
    pub open spec fn optional_class(self, place: Option<usize>) -> Option<usize> {
        match place {
            Some(place) => Some(self.class(place)),
            None => None,
        }
    }

    /// The value that answers to `value`.
    pub open spec fn value(self, value: ObjectView) -> ObjectView {
        match value {
            ObjectView::Function(f) => ObjectView::Function(self.function(f)),
            ObjectView::Class(c) => ObjectView::Class(self.class(c)),
            ObjectView::Instance(i) => ObjectView::Instance(self.instance(i)),
            _ => value,
        }
    }

    /// The function that answers to `function`.
    pub open spec fn method(self, function: Function) -> Function {
        Function {
            declaration: function.declaration,
            closure: self.scope(function.closure),
            is_initializer: function.is_initializer,
        }
    }

    /// The function that answers, if there is a function.
    pub open spec fn optional_method(self, function: Option<Function>) -> Option<Function> {
        match function {
            Some(function) => Some(self.method(function)),
            None => None,
        }
    }

    /// The callable that answers: the clock answers to itself.
    pub open spec fn callable(self, callable: Callable) -> Callable {
        match callable {
            Callable::Function(function) => Callable::Function(self.method(function)),
            clock => clock,
        }
    }

    /// Whether the second table holds, under the same names, the values that
    /// answer to those of the first.
    pub open spec fn tables(self, a: Map<Seq<char>, ObjectView>, b: Map<Seq<char>, ObjectView>)
        -> bool {
        forall|key: Seq<char>|
            #![trigger a.contains_key(key)]
            #![trigger b.contains_key(key)]
            a.contains_key(key) == b.contains_key(key) && (a.contains_key(key) ==> b[key]
                == self.value(a[key]))
    }

    /// Whether the second list holds the values that answer to those of the first.
    pub open spec fn values(self, a: Seq<ObjectView>, b: Seq<ObjectView>) -> bool {
        a.len() == b.len() && forall|i: int|
            0 <= i < a.len() ==> #[trigger] b[i] == self.value(a[i])
    }

    /// Whether the second scope answers to the first.
    pub open spec fn scopes(self, a: EnvironmentView, b: EnvironmentView) -> bool {
        b.enclosing == self.optional_scope(a.enclosing) && self.tables(a.values, b.values)
    }

    /// Whether the second list holds the methods that answer to those of the first.
    pub open spec fn methods(self, a: Seq<Function>, b: Seq<Function>) -> bool {
        a.len() == b.len() && forall|i: int|
            0 <= i < a.len() ==> #[trigger] b[i] == self.method(a[i])
    }

    /// Whether the second class answers to the first.
    pub open spec fn classes(self, a: ClassView, b: ClassView) -> bool {
        &&& b.name == a.name
        &&& b.superclass == self.optional_class(a.superclass)
        &&& self.methods(a.methods, b.methods)
        &&& self.tables(a.fields, b.fields)
    }

    /// Whether the second instance answers to the first.
    pub open spec fn instances(self, a: InstanceView, b: InstanceView) -> bool {
        b.class == self.class(a.class) && self.tables(a.fields, b.fields)
    }

    /// Whether the stores of the second run hold, at the places that answer,
    /// what answers to the contents of the stores of the first run.
    pub open spec fn heaps(self, a: HeapView, b: HeapView) -> bool {
        &&& fits(sizes(b))
        &&& self.cut.scopes <= a.environments.len()
        &&& self.cut.functions <= a.functions.len()
        &&& self.cut.classes <= a.classes.len()
        &&& self.cut.instances <= a.instances.len()
        &&& b.environments.len() == a.environments.len() + self.by.scopes
        &&& b.functions.len() == a.functions.len() + self.by.functions
        &&& b.classes.len() == a.classes.len() + self.by.classes
        &&& b.instances.len() == a.instances.len() + self.by.instances
        &&& forall|i: int|
            0 <= i < a.environments.len() ==> self.scopes(
                #[trigger] a.environments[i],
                b.environments[self.scope(i as usize) as int],
            )
        &&& forall|i: int|
            0 <= i < a.functions.len() ==> b.functions[self.function(i as usize) as int]
                == self.callable(#[trigger] a.functions[i])
        &&& forall|i: int|
            0 <= i < a.classes.len() ==> self.classes(
                #[trigger] a.classes[i],
                b.classes[self.class(i as usize) as int],
            )
        &&& forall|i: int|
            0 <= i < a.instances.len() ==> self.instances(
                #[trigger] a.instances[i],
                b.instances[self.instance(i as usize) as int],
            )
    }

    /// Whether the second frame answers to the first.
    pub open spec fn frames(self, a: FrameView, b: FrameView) -> bool {
        match a {
            FrameView::BinaryApply { op, left } => b == (FrameView::BinaryApply {
                op,
                left: self.value(left),
            }),
            FrameView::Arguments { paren, arguments, callee, values } => {
                &&& b matches FrameView::Arguments {
                    paren: paren2,
                    arguments: arguments2,
                    callee: callee2,
                    values: values2,
                }
                &&& paren2 == paren
                &&& arguments2 == arguments
                &&& callee2 == self.value(callee)
                &&& self.values(values, values2)
            },
            FrameView::SetValue { name, object } => b == (FrameView::SetValue {
                name,
                object: self.value(object),
            }),
            FrameView::Construct { instance } => b == (FrameView::Construct {
                instance: self.instance(instance),
            }),
            FrameView::Call { initializer } => b == (FrameView::Call {
                initializer: self.optional_scope(initializer),
            }),
            FrameView::Block { statements, index, previous } => b == (FrameView::Block {
                statements,
                index,
                previous: self.scope(previous),
            }),
            _ => b == a,
        }
    }

    /// Whether the frames of the second stack answer to those of the first, one by one.
    pub open spec fn stacks(self, a: Seq<FrameView>, b: Seq<FrameView>) -> bool {
        a.len() == b.len() && forall|i: int|
            0 <= i < a.len() ==> self.frames(#[trigger] a[i], b[i])
    }

    /// What answers to what the machine does next.
    pub open spec fn control(self, a: ControlView) -> ControlView {
        match a {
            ControlView::Value(value) => ControlView::Value(self.value(value)),
            ControlView::Return(value) => ControlView::Return(self.value(value)),
            ControlView::Output(value) => ControlView::Output(self.value(value)),
            _ => a,
        }
    }

    /// Whether the second machine answers to the first: the same distances
    /// and globals, and stores, stack, current scope and next thing to do
    /// that answer to those of the first.
    pub open spec fn machines(self, a: InterpreterView, b: InterpreterView) -> bool {
        &&& b.locals == a.locals
        &&& b.globals == a.globals
        &&& a.globals < self.cut.scopes
        &&& a.heap.environments[a.globals as int].enclosing is None
        &&& b.environment == self.scope(a.environment)
        &&& self.heaps(a.heap, b.heap)
        &&& self.stacks(a.stack, b.stack)
        &&& b.control == self.control(a.control)
    }
}

/// The scope that answers to the scope some way out lies the same way out
/// from the scope that answers to the start.
proof fn lemma_ancestor(s: Shift, a: HeapView, b: HeapView, from: usize, distance: nat)
    requires
        s.heaps(a, b),
        heap_sound(a),
        from < a.environments.len(),
    ensures
        ancestor(b.environments, s.scope(from), distance) == s.optional_scope(
            ancestor(a.environments, from, distance),
        ),
        ancestor(a.environments, from, distance) matches Some(scope) ==> scope
            < a.environments.len(),
    decreases distance,
{
    assert(s.scopes(a.environments[from as int], b.environments[s.scope(from) as int]));
    assert(scope_sound(sizes(a), a.environments[from as int]));
    if distance > 0 {
        match a.environments[from as int].enclosing {
            Some(around) => lemma_ancestor(s, a, b, around, (distance - 1) as nat),
            None => {},
        }
    }
}

/// What is read in the second run answers to what is read in the first.
proof fn lemma_read(s: Shift, a: HeapView, b: HeapView, from: usize, distance: nat, key: Seq<char>)
    requires
        s.heaps(a, b),
        heap_sound(a),
        from < a.environments.len(),
    ensures
        read_at(b.environments, s.scope(from), distance, key) == match read_at(
            a.environments,
            from,
            distance,
            key,
        ) {
            Ok(value) => Ok(s.value(value)),
            Err(error) => Err(error),
        },
{
    lemma_ancestor(s, a, b, from, distance);
    match ancestor(a.environments, from, distance) {
        Some(scope) => {
            assert(s.scopes(a.environments[scope as int], b.environments[s.scope(scope) as int]));
        },
        None => {},
    }
}

/// A scope without a scope around it is all that a search from it sees.
proof fn lemma_lookup(s: Shift, a: HeapView, b: HeapView, from: usize, key: Seq<char>)
    requires
        s.heaps(a, b),
        heap_sound(a),
        from < a.environments.len(),
        a.environments[from as int].enclosing is None,
    ensures
        holder(b.environments, s.scope(from), key, b.environments.len()) == s.optional_scope(
            holder(a.environments, from, key, a.environments.len()),
        ),
        holder(a.environments, from, key, a.environments.len()) matches Some(scope) ==> scope
            == from,
        lookup(b.environments, s.scope(from), key) == match lookup(a.environments, from, key) {
            Ok(value) => Ok(s.value(value)),
            Err(error) => Err(error),
        },
{
    assert(s.scopes(a.environments[from as int], b.environments[s.scope(from) as int]));
}


/// Stores that answer to each other still do after a change that leaves each
/// entry as it was in both, or puts entries in its place that answer to
/// each other.
proof fn lemma_heaps(s: Shift, a: HeapView, b: HeapView, a2: HeapView, b2: HeapView)
    requires
        s.heaps(a, b),
        fits(sizes(b2)),
        a.environments.len() <= a2.environments.len(),
        a.functions.len() <= a2.functions.len(),
        a.classes.len() <= a2.classes.len(),
        a.instances.len() <= a2.instances.len(),
        b2.environments.len() == a2.environments.len() + s.by.scopes,
        b2.functions.len() == a2.functions.len() + s.by.functions,
        b2.classes.len() == a2.classes.len() + s.by.classes,
        b2.instances.len() == a2.instances.len() + s.by.instances,
        forall|i: int|
            0 <= i < a2.environments.len() ==> (i < a.environments.len()
                && #[trigger] a2.environments[i] == a.environments[i]
                && b2.environments[s.scope(i as usize) as int] == b.environments[s.scope(
                i as usize,
            ) as int]) || s.scopes(a2.environments[i], b2.environments[s.scope(i as usize) as int]),
        forall|i: int|
            0 <= i < a2.functions.len() ==> (i < a.functions.len() && #[trigger] a2.functions[i]
                == a.functions[i] && b2.functions[s.function(i as usize) as int]
                == b.functions[s.function(i as usize) as int]) || b2.functions[s.function(
                i as usize,
            ) as int] == s.callable(a2.functions[i]),
        forall|i: int|
            0 <= i < a2.classes.len() ==> (i < a.classes.len() && #[trigger] a2.classes[i]
                == a.classes[i] && b2.classes[s.class(i as usize) as int] == b.classes[s.class(
                i as usize,
            ) as int]) || s.classes(a2.classes[i], b2.classes[s.class(i as usize) as int]),
        forall|i: int|
            0 <= i < a2.instances.len() ==> (i < a.instances.len() && #[trigger] a2.instances[i]
                == a.instances[i] && b2.instances[s.instance(i as usize) as int]
                == b.instances[s.instance(i as usize) as int]) || s.instances(
                a2.instances[i],
                b2.instances[s.instance(i as usize) as int],
            ),
    ensures
        s.heaps(a2, b2),
{
    assert forall|i: int| 0 <= i < a2.environments.len() implies s.scopes(
        #[trigger] a2.environments[i],
        b2.environments[s.scope(i as usize) as int],
    ) by {
        if i < a.environments.len() && a2.environments[i] == a.environments[i] {
            assert(s.scopes(a.environments[i], b.environments[s.scope(i as usize) as int]));
        }
    }
    assert forall|i: int| 0 <= i < a2.functions.len() implies b2.functions[s.function(
        i as usize,
    ) as int] == s.callable(#[trigger] a2.functions[i]) by {
        if i < a.functions.len() && a2.functions[i] == a.functions[i] {
            assert(b.functions[s.function(i as usize) as int] == s.callable(a.functions[i]));
        }
    }
    assert forall|i: int| 0 <= i < a2.classes.len() implies s.classes(
        #[trigger] a2.classes[i],
        b2.classes[s.class(i as usize) as int],
    ) by {
        if i < a.classes.len() && a2.classes[i] == a.classes[i] {
            assert(s.classes(a.classes[i], b.classes[s.class(i as usize) as int]));
        }
    }
    assert forall|i: int| 0 <= i < a2.instances.len() implies s.instances(
        #[trigger] a2.instances[i],
        b2.instances[s.instance(i as usize) as int],
    ) by {
        if i < a.instances.len() && a2.instances[i] == a.instances[i] {
            assert(s.instances(a.instances[i], b.instances[s.instance(i as usize) as int]));
        }
    }
}

/// A new scope in both runs.
proof fn lemma_scoped(s: Shift, a: HeapView, b: HeapView, enclosing: Option<usize>)
    requires
        s.heaps(a, b),
        enclosing matches Some(around) ==> around < a.environments.len(),
        fits(sizes(b.scoped(s.optional_scope(enclosing)))),
    ensures
        s.heaps(a.scoped(enclosing), b.scoped(s.optional_scope(enclosing))),
        s.scope(a.environments.len() as usize) == b.environments.len(),
{
    lemma_heaps(s, a, b, a.scoped(enclosing), b.scoped(s.optional_scope(enclosing)));
}

/// A value under a name in both runs.
proof fn lemma_defined(
    s: Shift,
    a: HeapView,
    b: HeapView,
    scope: usize,
    key: Seq<char>,
    value: ObjectView,
)
    requires
        s.heaps(a, b),
        scope < a.environments.len(),
    ensures
        s.heaps(a.defined(scope, key, value), b.defined(s.scope(scope), key, s.value(value))),
{
    assert(s.scopes(a.environments[scope as int], b.environments[s.scope(scope) as int]));
    lemma_heaps(
        s,
        a,
        b,
        a.defined(scope, key, value),
        b.defined(s.scope(scope), key, s.value(value)),
    );
}

proof fn lemma_with_function(s: Shift, a: HeapView, b: HeapView, callable: Callable)
    requires
        s.heaps(a, b),
        fits(sizes(b.with_function(s.callable(callable)))),
    ensures
        s.heaps(a.with_function(callable), b.with_function(s.callable(callable))),
        s.function(a.functions.len() as usize) == b.functions.len(),
{
    lemma_heaps(s, a, b, a.with_function(callable), b.with_function(s.callable(callable)));
}

proof fn lemma_with_class(s: Shift, a: HeapView, b: HeapView, class: ClassView, class2: ClassView)
    requires
        s.heaps(a, b),
        s.classes(class, class2),
        fits(sizes(b.with_class(class2))),
    ensures
        s.heaps(a.with_class(class), b.with_class(class2)),
        s.class(a.classes.len() as usize) == b.classes.len(),
{
    lemma_heaps(s, a, b, a.with_class(class), b.with_class(class2));
}

proof fn lemma_with_instance(s: Shift, a: HeapView, b: HeapView, class: usize)
    requires
        s.heaps(a, b),
        fits(sizes(b.with_instance(s.class(class)))),
    ensures
        s.heaps(a.with_instance(class), b.with_instance(s.class(class))),
        s.instance(a.instances.len() as usize) == b.instances.len(),
{
    lemma_heaps(s, a, b, a.with_instance(class), b.with_instance(s.class(class)));
}

/// A method bound in both runs.
proof fn lemma_bound(s: Shift, a: HeapView, b: HeapView, method: Function, instance: usize)
    requires
        s.heaps(a, b),
        b.environments.len() < usize::MAX,
    ensures
        s.heaps(
            HeapView { environments: bound(a.environments, method, instance).0, ..a },
            HeapView {
                environments: bound(b.environments, s.method(method), s.instance(instance)).0,
                ..b
            },
        ),
        bound(b.environments, s.method(method), s.instance(instance)).1 == s.method(
            bound(a.environments, method, instance).1,
        ),
{
    let a2 = HeapView { environments: bound(a.environments, method, instance).0, ..a };
    let b2 = HeapView {
        environments: bound(b.environments, s.method(method), s.instance(instance)).0,
        ..b
    };
    assert(s.scopes(
        this_scope(method.closure, instance),
        this_scope(s.scope(method.closure), s.instance(instance)),
    ));
    lemma_heaps(s, a, b, a2, b2);
}

proof fn lemma_bound_method(s: Shift, a: HeapView, b: HeapView, method: Function, instance: usize)
    requires
        s.heaps(a, b),
        fits(sizes(b.bound_method(s.method(method), s.instance(instance)))),
    ensures
        s.heaps(
            a.bound_method(method, instance),
            b.bound_method(s.method(method), s.instance(instance)),
        ),
        s.function(a.functions.len() as usize) == b.functions.len(),
{
    lemma_bound(s, a, b, method, instance);
    let a2 = HeapView { environments: bound(a.environments, method, instance).0, ..a };
    let b2 = HeapView {
        environments: bound(b.environments, s.method(method), s.instance(instance)).0,
        ..b
    };
    lemma_with_function(s, a2, b2, Callable::Function(bound(a.environments, method, instance).1));
}

/// Parameters bound in both runs.
proof fn lemma_bind_parameters(
    s: Shift,
    a: HeapView,
    b: HeapView,
    scope: usize,
    params: Seq<Rc<Token>>,
    values: Seq<ObjectView>,
    values2: Seq<ObjectView>,
    i: nat,
)
    requires
        s.heaps(a, b),
        s.values(values, values2),
        scope < a.environments.len(),
    ensures
        s.heaps(
            bind_parameters(a, scope, params, values, i),
            bind_parameters(b, s.scope(scope), params, values2, i),
        ),
    decreases params.len() - i,
{
    if i < params.len() && i < values.len() {
        lemma_defined(s, a, b, scope, params[i as int].lexeme@, values[i as int]);
        lemma_bind_parameters(
            s,
            a.defined(scope, params[i as int].lexeme@, values[i as int]),
            b.defined(s.scope(scope), params[i as int].lexeme@, values2[i as int]),
            scope,
            params,
            values,
            values2,
            i + 1,
        );
    }
}

/// What is assigned in the second run answers to what is assigned in the
/// first.
proof fn lemma_write(
    s: Shift,
    a: HeapView,
    b: HeapView,
    from: usize,
    distance: nat,
    key: Seq<char>,
    value: ObjectView,
)
    requires
        s.heaps(a, b),
        heap_sound(a),
        from < a.environments.len(),
    ensures
        match write_at(a.environments, from, distance, key, value) {
            Ok(environments) => write_at(
                b.environments,
                s.scope(from),
                distance,
                key,
                s.value(value),
            ) matches Ok(environments2) && s.heaps(
                HeapView { environments, ..a },
                HeapView { environments: environments2, ..b },
            ),
            Err(error) => write_at(b.environments, s.scope(from), distance, key, s.value(value))
                == Err::<Seq<EnvironmentView>, _>(error),
        },
        a.environments[from as int].enclosing is None ==> match assign(
            a.environments,
            from,
            key,
            value,
        ) {
            Ok(environments) => assign(
                b.environments,
                s.scope(from),
                key,
                s.value(value),
            ) matches Ok(environments2) && s.heaps(
                HeapView { environments, ..a },
                HeapView { environments: environments2, ..b },
            ),
            Err(error) => assign(b.environments, s.scope(from), key, s.value(value)) == Err::<
                Seq<EnvironmentView>,
                _,
            >(error),
        },
{
    lemma_ancestor(s, a, b, from, distance);
    match ancestor(a.environments, from, distance) {
        Some(scope) => {
            assert(s.scopes(a.environments[scope as int], b.environments[s.scope(scope) as int]));
            lemma_defined(s, a, b, scope, key, value);
        },
        None => {},
    }
    if a.environments[from as int].enclosing is None {
        lemma_lookup(s, a, b, from, key);
        lemma_defined(s, a, b, from, key, value);
    }
}


/// The method found among methods that answer answers to the method found.
proof fn lemma_own_method(s: Shift, a: Seq<Function>, b: Seq<Function>, key: Seq<char>)
    requires
        s.methods(a, b),
    ensures
        own_method(b, key) == s.optional_method(own_method(a, key)),
    decreases a.len(),
{
    if a.len() > 0 {
        assert(b[b.len() - 1] == s.method(a[a.len() - 1]));
        if a.last().name() != key {
            assert forall|i: int| 0 <= i < a.drop_last().len() implies #[trigger] b.drop_last()[i]
                == s.method(a.drop_last()[i]) by {
                assert(b[i] == s.method(a[i]));
            }
            lemma_own_method(s, a.drop_last(), b.drop_last(), key);
        }
    }
}

/// The method found for the class that answers answers to the method found
/// for the class. No class has more classes above it than lie before it in
/// the store, so a search that may take that many steps finds what any longer
/// search finds.
proof fn lemma_method_of(
    s: Shift,
    a: HeapView,
    b: HeapView,
    class: usize,
    key: Seq<char>,
    steps: nat,
    steps2: nat,
)
    requires
        s.heaps(a, b),
        layered(a.classes),
        class < a.classes.len(),
        steps >= class,
        steps2 >= class,
    ensures
        method_of(b.classes, s.class(class), key, steps2) == s.optional_method(
            method_of(a.classes, class, key, steps),
        ),
    decreases class,
{
    assert(s.classes(a.classes[class as int], b.classes[s.class(class) as int]));
    lemma_own_method(
        s,
        a.classes[class as int].methods,
        b.classes[s.class(class) as int].methods,
        key,
    );
    if own_method(a.classes[class as int].methods, key) is None {
        match a.classes[class as int].superclass {
            Some(above) => {
                assert(above < class);
                lemma_method_of(s, a, b, above, key, (steps - 1) as nat, (steps2 - 1) as nat);
            },
            None => {},
        }
    }
}

proof fn lemma_method(s: Shift, a: HeapView, b: HeapView, class: usize, key: Seq<char>)
    requires
        s.heaps(a, b),
        layered(a.classes),
        class < a.classes.len(),
    ensures
        find_method(b.classes, s.class(class), key) == s.optional_method(
            find_method(a.classes, class, key),
        ),
        class_arity(b.classes, s.class(class)) == class_arity(a.classes, class),
{
    lemma_method_of(s, a, b, class, key, a.classes.len(), b.classes.len());
    lemma_method_of(s, a, b, class, "init"@, a.classes.len(), b.classes.len());
}

/// A property read in both runs.
proof fn lemma_instance_get(s: Shift, a: HeapView, b: HeapView, instance: usize, key: Seq<char>)
    requires
        s.heaps(a, b),
        heap_sound(a),
        layered(a.classes),
        instance < a.instances.len(),
        fits(sizes(b.instance_get(s.instance(instance), key).0)),
    ensures
        s.heaps(a.instance_get(instance, key).0, b.instance_get(s.instance(instance), key).0),
        b.instance_get(s.instance(instance), key).1 == match a.instance_get(instance, key).1 {
            Ok(value) => Ok(s.value(value)),
            Err(error) => Err(error),
        },
{
    assert(s.instances(a.instances[instance as int], b.instances[s.instance(instance) as int]));
    assert(instance_sound(sizes(a), a.instances[instance as int]));
    if !a.instances[instance as int].fields.contains_key(key) {
        let class = a.instances[instance as int].class;
        lemma_method(s, a, b, class, key);
        match find_method(a.classes, class, key) {
            Some(method) => lemma_bound_method(s, a, b, method, instance),
            None => {},
        }
    }
}

/// A field written, and a field of a class read, in both runs.
proof fn lemma_fields(
    s: Shift,
    a: HeapView,
    b: HeapView,
    place: usize,
    key: Seq<char>,
    value: ObjectView,
)
    requires
        s.heaps(a, b),
    ensures
        place < a.instances.len() ==> s.heaps(
            a.instance_set(place, key, value)->Ok_0,
            b.instance_set(s.instance(place), key, s.value(value))->Ok_0,
        ) && b.instance_set(s.instance(place), key, s.value(value)) is Ok,
        place < a.classes.len() ==> s.heaps(
            a.class_set(place, key, value)->Ok_0,
            b.class_set(s.class(place), key, s.value(value))->Ok_0,
        ) && b.class_set(s.class(place), key, s.value(value)) is Ok,
        place < a.classes.len() ==> b.class_get(s.class(place), key) == match a.class_get(
            place,
            key,
        ) {
            Ok(found) => Ok(s.value(found)),
            Err(error) => Err(error),
        },
{
    if place < a.instances.len() {
        assert(s.instances(a.instances[place as int], b.instances[s.instance(place) as int]));
        lemma_heaps(
            s,
            a,
            b,
            a.instance_set(place, key, value)->Ok_0,
            b.instance_set(s.instance(place), key, s.value(value))->Ok_0,
        );
    }
    if place < a.classes.len() {
        assert(s.classes(a.classes[place as int], b.classes[s.class(place) as int]));
        lemma_heaps(
            s,
            a,
            b,
            a.class_set(place, key, value)->Ok_0,
            b.class_set(s.class(place), key, s.value(value))->Ok_0,
        );
    }
}

/// A value is printed in the second run as it is in the first.
proof fn lemma_render(s: Shift, a: HeapView, b: HeapView, value: ObjectView)
    requires
        s.heaps(a, b),
        heap_sound(a),
        live(sizes(a), value),
    ensures
        render(b, s.value(value)) == render(a, value),
{
    match value {
        ObjectView::Function(f) => {
            assert(b.functions[s.function(f) as int] == s.callable(a.functions[f as int]));
        },
        ObjectView::Class(c) => {
            assert(s.classes(a.classes[c as int], b.classes[s.class(c) as int]));
        },
        ObjectView::Instance(i) => {
            assert(s.instances(a.instances[i as int], b.instances[s.instance(i) as int]));
            assert(instance_sound(sizes(a), a.instances[i as int]));
            let c = a.instances[i as int].class;
            assert(s.classes(a.classes[c as int], b.classes[s.class(c) as int]));
        },
        _ => {},
    }
}


impl Shift {
    /// Whether the second machine answers to the first, and the first is in
    /// a state of the kind that the machine reaches.
    pub open spec fn ready(self, a: InterpreterView, b: InterpreterView) -> bool {
        self.machines(a, b) && a.sound() && layered(a.heap.classes)
    }
}

proof fn lemma_pushed(s: Shift, a: InterpreterView, b: InterpreterView, f: FrameView, g: FrameView)
    requires
        s.machines(a, b),
        s.frames(f, g),
    ensures
        s.machines(a.pushed(f), b.pushed(g)),
{
    assert forall|i: int| 0 <= i < a.stack.push(f).len() implies s.frames(
        #[trigger] a.stack.push(f)[i],
        b.stack.push(g)[i],
    ) by {
        if i < a.stack.len() {
            assert(s.frames(a.stack[i], b.stack[i]));
        }
    }
}

proof fn lemma_popped(s: Shift, a: InterpreterView, b: InterpreterView)
    requires
        s.machines(a, b),
        a.stack.len() > 0,
    ensures
        s.machines(a.popped(), b.popped()),
        s.frames(a.stack.last(), b.stack.last()),
{
    assert(s.frames(a.stack[a.stack.len() - 1], b.stack[a.stack.len() - 1]));
    assert forall|i: int| 0 <= i < a.stack.drop_last().len() implies s.frames(
        #[trigger] a.stack.drop_last()[i],
        b.stack.drop_last()[i],
    ) by {
        assert(s.frames(a.stack[i], b.stack[i]));
    }
}

proof fn lemma_lookup_variable(
    s: Shift,
    a: InterpreterView,
    b: InterpreterView,
    name: &Token,
    id: usize,
)
    requires
        s.ready(a, b),
    ensures
        s.machines(a.lookup_variable(*name, id), b.lookup_variable(*name, id)),
{
    lemma_read(s, a.heap, b.heap, a.environment, a.locals[id] as nat, name.lexeme@);
    lemma_lookup(s, a.heap, b.heap, a.globals, name.lexeme@);
}

proof fn lemma_assign_variable(
    s: Shift,
    a: InterpreterView,
    b: InterpreterView,
    name: &Token,
    id: usize,
    value: ObjectView,
)
    requires
        s.ready(a, b),
    ensures
        s.machines(
            a.assign_variable(*name, id, value),
            b.assign_variable(*name, id, s.value(value)),
        ),
{
    lemma_write(s, a.heap, b.heap, a.environment, a.locals[id] as nat, name.lexeme@, value);
    lemma_write(s, a.heap, b.heap, a.globals, 0, name.lexeme@, value);
    lemma_found_in_store(a.heap.environments, a.environment, a.locals[id] as nat, name.lexeme@);
    lemma_found_in_store(a.heap.environments, a.globals, a.heap.environments.len(), name.lexeme@);
}

proof fn lemma_super_method(
    s: Shift,
    a: InterpreterView,
    b: InterpreterView,
    access: &SuperExpr,
    id: usize,
)
    requires
        s.ready(a, b),
        fits(sizes(b.super_method(*access, id).heap)),
    ensures
        s.machines(a.super_method(*access, id), b.super_method(*access, id)),
{
    if a.locals.contains_key(id) && a.locals[id] != 0 {
        let distance = a.locals[id];
        lemma_read(s, a.heap, b.heap, a.environment, distance as nat, "super"@);
        lemma_read(s, a.heap, b.heap, a.environment, (distance - 1) as nat, "this"@);
        crate::soundness::lemma_read(a.heap, a.environment, distance as nat, "super"@);
        crate::soundness::lemma_read(a.heap, a.environment, (distance - 1) as nat, "this"@);
        match (
            read_at(a.heap.environments, a.environment, distance as nat, "super"@),
            read_at(a.heap.environments, a.environment, (distance - 1) as nat, "this"@),
        ) {
            (Ok(ObjectView::Class(class)), Ok(ObjectView::Instance(instance))) => {
                lemma_method(s, a.heap, b.heap, class, access.method.lexeme@);
                match find_method(a.heap.classes, class, access.method.lexeme@) {
                    Some(method) => lemma_bound_method(s, a.heap, b.heap, method, instance),
                    None => {},
                }
            },
            _ => {},
        }
    }
}

/// What starting on an expression puts on the stack answers to itself.
proof fn lemma_plain_frames(s: Shift, a: InterpreterView, b: InterpreterView)
    requires
        s.machines(a, b),
    ensures
        forall|f: FrameView|
            s.frames(f, f) ==> s.machines(#[trigger] a.pushed(f), b.pushed(f)),
{
    assert forall|f: FrameView| s.frames(f, f) implies s.machines(
        #[trigger] a.pushed(f),
        b.pushed(f),
    ) by {
        lemma_pushed(s, a, b, f, f);
    }
}

proof fn lemma_visit_expr(s: Shift, a: InterpreterView, b: InterpreterView, e: &HashExpr)
    requires
        s.ready(a, b),
        fits(sizes(b.visit_expr(*e).heap)),
    ensures
        s.machines(a.visit_expr(*e), b.visit_expr(*e)),
{
    lemma_plain_frames(s, a, b);
    match &e.expr {
        Expr::Variable(variable) => lemma_lookup_variable(s, a, b, &variable.name, e.id),
        Expr::This(this) => lemma_lookup_variable(s, a, b, &this.keyword, e.id),
        Expr::Super(access) => lemma_super_method(s, a, b, access, e.id),
        _ => {},
    }
}

proof fn lemma_declare_class(
    s: Shift,
    a: InterpreterView,
    b: InterpreterView,
    declaration: &ClassStmt,
    superclass: Option<usize>,
)
    requires
        s.ready(a, b),
        superclass matches Some(above) ==> above < a.heap.classes.len(),
        fits(sizes(b.declare_class(*declaration, s.optional_class(superclass)).heap)),
    ensures
        s.machines(
            a.declare_class(*declaration, superclass),
            b.declare_class(*declaration, s.optional_class(superclass)),
        ),
{
    let fresh = a.heap.environments.len() as usize;
    let fresh2 = b.heap.environments.len() as usize;
    let heap = match superclass {
        Some(above) => a.heap.scoped(Some(a.environment)).defined(
            fresh,
            "super"@,
            ObjectView::Class(above),
        ),
        None => a.heap,
    };
    let heap2 = match superclass {
        Some(above) => b.heap.scoped(Some(b.environment)).defined(
            fresh2,
            "super"@,
            ObjectView::Class(s.class(above)),
        ),
        None => b.heap,
    };
    match superclass {
        Some(above) => {
            lemma_scoped(s, a.heap, b.heap, Some(a.environment));
            lemma_defined(
                s,
                a.heap.scoped(Some(a.environment)),
                b.heap.scoped(Some(b.environment)),
                fresh,
                "super"@,
                ObjectView::Class(above),
            );
        },
        None => {},
    }
    let closure = if superclass is Some {
        fresh
    } else {
        a.environment
    };
    let closure2 = if superclass is Some {
        fresh2
    } else {
        b.environment
    };
    let class = ClassView {
        name: declaration.name,
        superclass,
        methods: methods_of(declaration.methods@, closure),
        fields: Map::empty(),
    };
    let class2 = ClassView {
        name: declaration.name,
        superclass: s.optional_class(superclass),
        methods: methods_of(declaration.methods@, closure2),
        fields: Map::empty(),
    };
    assert(s.classes(class, class2));
    lemma_with_class(s, heap, heap2, class, class2);
    lemma_defined(
        s,
        heap.with_class(class),
        heap2.with_class(class2),
        a.environment,
        declaration.name.lexeme@,
        ObjectView::Class(heap.classes.len() as usize),
    );
}

proof fn lemma_visit_stmt(s: Shift, a: InterpreterView, b: InterpreterView, statement: &Stmt)
    requires
        s.ready(a, b),
        a.control is Next,
        fits(sizes(b.visit_stmt(*statement).heap)),
    ensures
        s.machines(a.visit_stmt(*statement), b.visit_stmt(*statement)),
{
    lemma_plain_frames(s, a, b);
    match statement {
        Stmt::Var(var) => {
            if var.initializer.is_none() {
                lemma_defined(s, a.heap, b.heap, a.environment, var.name.lexeme@, ObjectView::Nil);
            }
        },
        Stmt::Block(block) => {
            lemma_scoped(s, a.heap, b.heap, Some(a.environment));
            let entered = a.with_heap(a.heap.scoped(Some(a.environment)));
            let entered2 = b.with_heap(b.heap.scoped(Some(b.environment)));
            lemma_pushed(
                s,
                entered,
                entered2,
                FrameView::Block {
                    statements: block.statements@,
                    index: 0,
                    previous: a.environment,
                },
                FrameView::Block {
                    statements: block.statements@,
                    index: 0,
                    previous: b.environment,
                },
            );
        },
        Stmt::Function(declaration) => {
            let callable = declared(declaration, a.environment);
            lemma_with_function(s, a.heap, b.heap, callable);
            lemma_defined(
                s,
                a.heap.with_function(callable),
                b.heap.with_function(s.callable(callable)),
                a.environment,
                declaration.name.lexeme@,
                ObjectView::Function(a.heap.functions.len() as usize),
            );
        },
        Stmt::Class(declaration) => {
            if declaration.superclass.is_none() {
                lemma_declare_class(s, a, b, declaration, None);
            }
        },
        _ => {},
    }
}


proof fn lemma_call_function(
    s: Shift,
    a: InterpreterView,
    b: InterpreterView,
    function: Function,
    arguments: Seq<ObjectView>,
    arguments2: Seq<ObjectView>,
    paren: &Token,
)
    requires
        s.machines(a, b),
        function.closure < a.heap.environments.len(),
        s.values(arguments, arguments2),
        fits(sizes(b.call_function(s.method(function), arguments2, *paren).heap)),
    ensures
        s.machines(
            a.call_function(function, arguments, *paren),
            b.call_function(s.method(function), arguments2, *paren),
        ),
{
    if arguments.len() == function.parameters() {
        let scope = a.heap.environments.len() as usize;
        let scope2 = b.heap.environments.len() as usize;
        let opened = a.heap.scoped(Some(function.closure));
        let opened2 = b.heap.scoped(Some(s.scope(function.closure)));
        lemma_bind_parameters_sizes(
            opened2,
            scope2,
            function.declaration.params@,
            arguments2,
            0,
        );
        lemma_scoped(s, a.heap, b.heap, Some(function.closure));
        lemma_bind_parameters_anchor(
            opened,
            scope,
            function.declaration.params@,
            arguments,
            0,
            a.globals,
        );
        lemma_bind_parameters(
            s,
            opened,
            opened2,
            scope,
            function.declaration.params@,
            arguments,
            arguments2,
            0,
        );
        let bound_a = a.with_heap(
            bind_parameters(opened, scope, function.declaration.params@, arguments, 0),
        );
        let bound_b = b.with_heap(
            bind_parameters(opened2, scope2, function.declaration.params@, arguments2, 0),
        );
        let call = FrameView::Call {
            initializer: if function.is_initializer {
                Some(function.closure)
            } else {
                None
            },
        };
        let call2 = FrameView::Call {
            initializer: if function.is_initializer {
                Some(s.scope(function.closure))
            } else {
                None
            },
        };
        lemma_pushed(s, bound_a, bound_b, call, call2);
        lemma_pushed(
            s,
            bound_a.pushed(call),
            bound_b.pushed(call2),
            FrameView::Block {
                statements: function.declaration.body@,
                index: 0,
                previous: a.environment,
            },
            FrameView::Block {
                statements: function.declaration.body@,
                index: 0,
                previous: b.environment,
            },
        );
    }
}

proof fn lemma_call_class(
    s: Shift,
    a: InterpreterView,
    b: InterpreterView,
    class: usize,
    arguments: Seq<ObjectView>,
    arguments2: Seq<ObjectView>,
    paren: &Token,
)
    requires
        s.ready(a, b),
        class < a.heap.classes.len(),
        s.values(arguments, arguments2),
        fits(sizes(b.call_class(s.class(class), arguments2, *paren).heap)),
    ensures
        s.machines(
            a.call_class(class, arguments, *paren),
            b.call_class(s.class(class), arguments2, *paren),
        ),
{
    lemma_method(s, a.heap, b.heap, class, "init"@);
    lemma_find_method(a.heap, class, "init"@);
    if arguments.len() == class_arity(a.heap.classes, class) {
        let instance = a.heap.instances.len() as usize;
        let instance2 = b.heap.instances.len() as usize;
        let heap = a.heap.with_instance(class);
        let heap2 = b.heap.with_instance(s.class(class));
        match find_method(a.heap.classes, class, "init"@) {
            Some(initializer) => {
                let method = bound(heap.environments, initializer, instance).1;
                let method2 = bound(heap2.environments, s.method(initializer), instance2).1;
                let bound_heap = HeapView {
                    environments: bound(heap.environments, initializer, instance).0,
                    ..heap
                };
                let bound_heap2 = HeapView {
                    environments: bound(heap2.environments, s.method(initializer), instance2).0,
                    ..heap2
                };
                if arguments2.len() == method2.parameters() {
                    lemma_bind_parameters_sizes(
                        bound_heap2.scoped(Some(method2.closure)),
                        bound_heap2.environments.len() as usize,
                        method2.declaration.params@,
                        arguments2,
                        0,
                    );
                }
                lemma_with_instance(s, a.heap, b.heap, class);
                lemma_bound(s, heap, heap2, initializer, instance);
                let ready = a.with_heap(bound_heap);
                let ready2 = b.with_heap(bound_heap2);
                lemma_pushed(
                    s,
                    ready,
                    ready2,
                    FrameView::Construct { instance },
                    FrameView::Construct { instance: instance2 },
                );
                lemma_call_function(
                    s,
                    ready.pushed(FrameView::Construct { instance }),
                    ready2.pushed(FrameView::Construct { instance: instance2 }),
                    method,
                    arguments,
                    arguments2,
                    paren,
                );
            },
            None => {
                lemma_with_instance(s, a.heap, b.heap, class);
            },
        }
    }
}

proof fn lemma_call(
    s: Shift,
    a: InterpreterView,
    b: InterpreterView,
    callee: ObjectView,
    arguments: Seq<ObjectView>,
    arguments2: Seq<ObjectView>,
    paren: &Token,
)
    requires
        s.ready(a, b),
        live(sizes(a.heap), callee),
        s.values(arguments, arguments2),
        fits(sizes(b.call(s.value(callee), arguments2, *paren).heap)),
    ensures
        s.machines(
            a.call(callee, arguments, *paren),
            b.call(s.value(callee), arguments2, *paren),
        ),
{
    match callee {
        ObjectView::Function(f) => {
            assert(b.heap.functions[s.function(f) as int] == s.callable(
                a.heap.functions[f as int],
            ));
            assert(callable_sound(sizes(a.heap), a.heap.functions[f as int]));
            match a.heap.functions[f as int] {
                Callable::Function(function) => lemma_call_function(
                    s,
                    a,
                    b,
                    function,
                    arguments,
                    arguments2,
                    paren,
                ),
                _ => {},
            }
        },
        ObjectView::Class(class) => lemma_call_class(s, a, b, class, arguments, arguments2, paren),
        _ => {},
    }
}

proof fn lemma_property(
    s: Shift,
    a: InterpreterView,
    b: InterpreterView,
    object: ObjectView,
    name: &Token,
    value: ObjectView,
)
    requires
        s.ready(a, b),
        live(sizes(a.heap), object),
    ensures
        fits(sizes(b.get_property(s.value(object), *name).heap)) ==> s.machines(
            a.get_property(object, *name),
            b.get_property(s.value(object), *name),
        ),
        s.machines(
            a.set_property(object, *name, value),
            b.set_property(s.value(object), *name, s.value(value)),
        ),
{
    lemma_fields(s, a.heap, b.heap, 0, name.lexeme@, value);
    match object {
        ObjectView::Instance(instance) => {
            if fits(sizes(b.get_property(s.value(object), *name).heap)) {
                lemma_instance_get(s, a.heap, b.heap, instance, name.lexeme@);
            }
            lemma_fields(s, a.heap, b.heap, instance, name.lexeme@, value);
        },
        ObjectView::Class(class) => {
            lemma_fields(s, a.heap, b.heap, class, name.lexeme@, value);
        },
        _ => {},
    }
}

/// Values that are in the stores are equal in the second run where they
/// are in the first.
proof fn lemma_equals(s: Shift, a: HeapView, b: HeapView, x: ObjectView, y: ObjectView)
    requires
        s.heaps(a, b),
        live(sizes(a), x),
        live(sizes(a), y),
    ensures
        s.value(x).equals(s.value(y)) == x.equals(y),
        s.value(x).is_truthy() == x.is_truthy(),
{
}

proof fn lemma_finish_call(
    s: Shift,
    a: InterpreterView,
    b: InterpreterView,
    initializer: Option<usize>,
    value: ObjectView,
)
    requires
        s.ready(a, b),
        initializer matches Some(closure) ==> closure < a.heap.environments.len(),
    ensures
        s.machines(
            a.finish_call(initializer, value),
            b.finish_call(s.optional_scope(initializer), s.value(value)),
        ),
{
    match initializer {
        Some(closure) => lemma_read(s, a.heap, b.heap, closure, 0, "this"@),
        None => {},
    }
}


proof fn lemma_resume(s: Shift, a: InterpreterView, b: InterpreterView, value: ObjectView)
    requires
        s.ready(a, b),
        a.control is Next,
        live(sizes(a.heap), value),
        fits(sizes(b.resume(s.value(value)).heap)),
    ensures
        s.machines(a.resume(value), b.resume(s.value(value))),
{
    if a.stack.len() > 0 {
        lemma_popped(s, a, b);
        crate::soundness::lemma_popped(a);
        let rest = a.popped();
        let rest2 = b.popped();
        lemma_plain_frames(s, rest, rest2);
        match a.stack.last() {
            FrameView::BinaryRight { op, right } => lemma_pushed(
                s,
                rest,
                rest2,
                FrameView::BinaryApply { op, left: value },
                FrameView::BinaryApply { op, left: s.value(value) },
            ),
            FrameView::BinaryApply { op, left } => lemma_equals(s, a.heap, b.heap, left, value),
            FrameView::Assign { name, id } => lemma_assign_variable(
                s,
                rest,
                rest2,
                &name,
                id,
                value,
            ),
            FrameView::Callee { paren, arguments } => {
                if arguments.len() == 0 {
                    lemma_call(s, rest, rest2, value, Seq::empty(), Seq::empty(), &paren);
                } else {
                    lemma_pushed(
                        s,
                        rest,
                        rest2,
                        FrameView::Arguments {
                            paren,
                            arguments,
                            callee: value,
                            values: Seq::empty(),
                        },
                        FrameView::Arguments {
                            paren,
                            arguments,
                            callee: s.value(value),
                            values: Seq::empty(),
                        },
                    );
                }
            },
            FrameView::Arguments { paren, arguments, callee, values } => {
                let values2 = b.stack.last()->Arguments_values;
                assert(s.values(values.push(value), values2.push(s.value(value)))) by {
                    assert forall|i: int|
                        0 <= i < values.push(value).len() implies #[trigger] values2.push(
                        s.value(value),
                    )[i] == s.value(values.push(value)[i]) by {
                        if i < values.len() {
                            assert(values2[i] == s.value(values[i]));
                        }
                    }
                };
                if values.len() + 1 < arguments.len() {
                    lemma_pushed(
                        s,
                        rest,
                        rest2,
                        FrameView::Arguments {
                            paren,
                            arguments,
                            callee,
                            values: values.push(value),
                        },
                        FrameView::Arguments {
                            paren,
                            arguments,
                            callee: s.value(callee),
                            values: values2.push(s.value(value)),
                        },
                    );
                } else {
                    lemma_call(
                        s,
                        rest,
                        rest2,
                        callee,
                        values.push(value),
                        values2.push(s.value(value)),
                        &paren,
                    );
                }
            },
            FrameView::Get { name } => lemma_property(s, rest, rest2, value, &name, value),
            FrameView::SetObject { name, value: written } => lemma_pushed(
                s,
                rest,
                rest2,
                FrameView::SetValue { name, object: value },
                FrameView::SetValue { name, object: s.value(value) },
            ),
            FrameView::SetValue { name, object } => lemma_property(
                s,
                rest,
                rest2,
                object,
                &name,
                value,
            ),
            FrameView::Var { name } => lemma_defined(
                s,
                rest.heap,
                rest2.heap,
                rest.environment,
                name.lexeme@,
                value,
            ),
            FrameView::ClassSuper { declaration } => match value {
                ObjectView::Class(above) => lemma_declare_class(
                    s,
                    rest,
                    rest2,
                    &declaration,
                    Some(above),
                ),
                _ => {},
            },
            _ => {},
        }
    }
}

proof fn lemma_leave(s: Shift, a: InterpreterView, b: InterpreterView, value: ObjectView)
    requires
        s.ready(a, b),
        a.control is Next,
    ensures
        s.machines(a.advance(), b.advance()),
        s.machines(a.unwind(value), b.unwind(s.value(value))),
{
    if a.stack.len() > 0 {
        lemma_popped(s, a, b);
        crate::soundness::lemma_popped(a);
        let rest = a.popped();
        let rest2 = b.popped();
        lemma_plain_frames(s, rest, rest2);
        match a.stack.last() {
            FrameView::Block { statements, index, previous } => lemma_pushed(
                s,
                rest,
                rest2,
                FrameView::Block { statements, index: (index + 1) as usize, previous },
                FrameView::Block {
                    statements,
                    index: (index + 1) as usize,
                    previous: s.scope(previous),
                },
            ),
            FrameView::Call { initializer } => {
                lemma_finish_call(s, rest, rest2, initializer, ObjectView::Nil);
                lemma_finish_call(s, rest, rest2, initializer, value);
            },
            _ => {},
        }
    }
}

/// A step of the second machine answers to the step of the first, as long
/// as the stores of the second fit in memory.
pub proof fn lemma_step(s: Shift, a: InterpreterView, b: InterpreterView, reply: Option<u64>)
    requires
        s.ready(a, b),
        fits(sizes(b.step(reply).heap)),
    ensures
        s.machines(a.step(reply), b.step(reply)),
{
    let idle = a.becoming(ControlView::Next);
    let idle2 = b.becoming(ControlView::Next);
    match a.control {
        ControlView::Evaluate(e) => lemma_visit_expr(s, idle, idle2, &e),
        ControlView::Execute(statement) => lemma_visit_stmt(s, idle, idle2, &statement),
        ControlView::Value(value) => lemma_resume(s, idle, idle2, value),
        ControlView::Next => lemma_leave(s, idle, idle2, ObjectView::Nil),
        ControlView::Return(value) => lemma_leave(s, idle, idle2, value),
        _ => {},
    }
}

/// The second machine wants done what the first wants done.
pub proof fn lemma_action(s: Shift, a: InterpreterView, b: InterpreterView)
    requires
        s.ready(a, b),
    ensures
        b.action() == a.action(),
{
    match a.control {
        ControlView::Output(value) => lemma_render(s, a.heap, b.heap, value),
        _ => {},
    }
}


/// A run of the second machine answers to the run of the first, step for
/// step, and the second machine wants the same things done, as long as its
/// stores fit in memory.
pub proof fn lemma_run(s: Shift, a: InterpreterView, b: InterpreterView, inputs: Seq<Option<u64>>)
    requires
        s.ready(a, b),
        fits(sizes(b.run(inputs).heap)),
    ensures
        s.ready(a.run(inputs), b.run(inputs)),
        b.trace(inputs) == a.trace(inputs),
    decreases inputs.len(),
{
    if inputs.len() > 0 {
        let next = a.step(inputs[0]);
        let next2 = b.step(inputs[0]);
        lemma_step_grows(b, inputs[0]);
        lemma_run_grows(next2, inputs.drop_first());
        lemma_step(s, a, b, inputs[0]);
        lemma_step_keeps_sound(a, inputs[0]);
        lemma_step_keeps_layers(a, inputs[0]);
        lemma_action(s, next, next2);
        lemma_run(s, next, next2, inputs.drop_first());
    }
}

/// The machine about to run a block in a scope of its own: the scope is
/// added to the stores and becomes the current one, and the block is
/// entered.
pub open spec fn entered(
    machine: InterpreterView,
    scope: EnvironmentView,
    statements: Seq<Rc<Stmt>>,
) -> InterpreterView {
    machine.with_heap(
        HeapView { environments: machine.heap.environments.push(scope), ..machine.heap },
    ).execute_block(statements, machine.heap.environments.len() as usize).becoming(
        ControlView::Next,
    )
}

/// Whether the stores `after` hold, at every place of the stores `before`,
/// what `before` holds there: nothing that was there has been changed.
pub open spec fn kept(before: HeapView, after: HeapView) -> bool {
    &&& before.environments.len() <= after.environments.len()
    &&& before.functions.len() <= after.functions.len()
    &&& before.classes.len() <= after.classes.len()
    &&& before.instances.len() <= after.instances.len()
    &&& forall|i: int|
        0 <= i < before.environments.len() ==> #[trigger] after.environments[i]
            == before.environments[i]
    &&& forall|i: int|
        0 <= i < before.functions.len() ==> #[trigger] after.functions[i] == before.functions[i]
    &&& forall|i: int|
        0 <= i < before.classes.len() ==> #[trigger] after.classes[i] == before.classes[i]
    &&& forall|i: int|
        0 <= i < before.instances.len() ==> #[trigger] after.instances[i] == before.instances[i]
}

/// What refers to places below the cut only answers to itself.
proof fn lemma_same(s: Shift)
    ensures
        forall|value: ObjectView| #[trigger] live(s.cut, value) ==> s.value(value) == value,
        forall|table: Map<Seq<char>, ObjectView>| #[trigger]
            table_live(s.cut, table) ==> s.tables(table, table),
        forall|values: Seq<ObjectView>| #[trigger]
            values_live(s.cut, values) ==> s.values(values, values),
        forall|scope: EnvironmentView| #[trigger]
            scope_sound(s.cut, scope) ==> s.scopes(scope, scope),
        forall|callable: Callable| #[trigger]
            callable_sound(s.cut, callable) ==> s.callable(callable) == callable,
        forall|class: ClassView| #[trigger] class_sound(s.cut, class) ==> s.classes(class, class),
        forall|instance: InstanceView| #[trigger]
            instance_sound(s.cut, instance) ==> s.instances(instance, instance),
        forall|frame: FrameView| #[trigger]
            frame_sound(s.cut, frame) ==> s.frames(frame, frame),
{
    assert forall|table: Map<Seq<char>, ObjectView>| #[trigger]
        table_live(s.cut, table) implies s.tables(table, table) by {
        assert forall|key: Seq<char>| table.contains_key(key) implies table[key] == s.value(
            table[key],
        ) by {
            assert(live(s.cut, table[key]));
        }
    }
    assert forall|values: Seq<ObjectView>| #[trigger] values_live(s.cut, values) implies s.values(
        values,
        values,
    ) by {
        assert forall|i: int| 0 <= i < values.len() implies #[trigger] values[i] == s.value(
            values[i],
        ) by {
            assert(live(s.cut, values[i]));
        }
    }
    assert forall|class: ClassView| #[trigger] class_sound(s.cut, class) implies s.classes(
        class,
        class,
    ) by {
        assert forall|i: int| 0 <= i < class.methods.len() implies #[trigger] class.methods[i]
            == s.method(class.methods[i]) by {
            assert(function_sound(s.cut, class.methods[i]));
        }
    }
}

/// What answers to something that refers to places below the cut only is
/// that thing itself.
proof fn lemma_unmoved(s: Shift)
    ensures
        forall|a: EnvironmentView, b: EnvironmentView|
            scope_sound(s.cut, a) && #[trigger] s.scopes(a, b) ==> b == a,
        forall|a: ClassView, b: ClassView|
            class_sound(s.cut, a) && #[trigger] s.classes(a, b) ==> b == a,
        forall|a: InstanceView, b: InstanceView|
            instance_sound(s.cut, a) && #[trigger] s.instances(a, b) ==> b == a,
        forall|a: FrameView, b: FrameView|
            frame_sound(s.cut, a) && #[trigger] s.frames(a, b) ==> b == a,
{
    assert forall|a: Map<Seq<char>, ObjectView>, b: Map<Seq<char>, ObjectView>|
        table_live(s.cut, a) && #[trigger] s.tables(a, b) implies b == a by {
        assert forall|key: Seq<char>| a.contains_key(key) implies b[key] == a[key] by {
            assert(live(s.cut, a[key]));
        }
        assert(b =~= a);
    }
    assert forall|a: Seq<ObjectView>, b: Seq<ObjectView>|
        values_live(s.cut, a) && #[trigger] s.values(a, b) implies b == a by {
        assert forall|i: int| 0 <= i < a.len() implies b[i] == a[i] by {
            assert(live(s.cut, a[i]));
        }
        assert(b =~= a);
    }
    assert forall|a: ClassView, b: ClassView| class_sound(s.cut, a) && #[trigger] s.classes(
        a,
        b,
    ) implies b == a by {
        assert forall|i: int| 0 <= i < a.methods.len() implies b.methods[i] == a.methods[i] by {
            assert(function_sound(s.cut, a.methods[i]));
        }
        assert(b.methods =~= a.methods);
    }
}

/// A block that is run a second time in a scope like that of the first run
/// does what it did the first time, if the first run left what was there
/// before it as it was.
///
/// The machine is well formed. `scope` is the scope that the block gets: it
/// lies inside a scope of the stores and binds names to values of the stores.
/// The first run starts with `scope` added to the stores as a fresh scope; it
/// may declare variables, functions and classes, make instances and call what
/// it likes. It is without effect on the outside if it ends with the stack and
/// the current scope as they were and with everything that the stores held
/// before as it was. The second run starts from the state in which the first
/// ended, again with `scope` added as a fresh scope, and is given the same
/// answers. Then the second run asks, prints and fails exactly as the first
/// did, step for step, and it too ends with the stack, the current scope and
/// everything that the stores held before the first run as they were.
pub proof fn lemma_block_repeats(
    machine: InterpreterView,
    scope: EnvironmentView,
    statements: Seq<Rc<Stmt>>,
    inputs: Seq<Option<u64>>,
)
    requires
        machine.well_formed(),
        scope_sound(sizes(machine.heap), scope),
        ({
            let after = entered(machine, scope, statements).run(inputs);
            &&& kept(machine.heap, after.heap)
            &&& after.stack == machine.stack
            &&& after.environment == machine.environment
        }),
        fits(
            sizes(
                entered(entered(machine, scope, statements).run(inputs), scope, statements).run(
                    inputs,
                ).heap,
            ),
        ),
    ensures
        ({
            let first = entered(machine, scope, statements);
            let second = entered(first.run(inputs), scope, statements);
            &&& second.trace(inputs) == first.trace(inputs)
            &&& second.run(inputs).action() == first.run(inputs).action()
            &&& kept(machine.heap, second.run(inputs).heap)
            &&& second.run(inputs).stack == machine.stack
            &&& second.run(inputs).environment == machine.environment
        }),
{
    let first = entered(machine, scope, statements);
    let after = first.run(inputs);
    let second = entered(after, scope, statements);
    let again = second.run(inputs);
    let s = Shift {
        cut: sizes(machine.heap),
        by: Sizes {
            scopes: (after.heap.environments.len() - machine.heap.environments.len()) as nat,
            functions: (after.heap.functions.len() - machine.heap.functions.len()) as nat,
            classes: (after.heap.classes.len() - machine.heap.classes.len()) as nat,
            instances: (after.heap.instances.len() - machine.heap.instances.len()) as nat,
        },
    };
    lemma_run_grows(second, inputs);
    lemma_run_grows(first, inputs);
    lemma_same(s);
    lemma_unmoved(s);
    // The first run starts in a sound state.
    lemma_growth(sizes(machine.heap), sizes(first.heap));
    lemma_grown_heap(machine.heap, first.heap);
    assert(first.sound()) by {
        assert forall|i: int| 0 <= i < first.stack.len() implies frame_sound(
            sizes(first.heap),
            #[trigger] first.stack[i],
        ) by {
            if i < machine.stack.len() {
                assert(frame_sound(sizes(machine.heap), machine.stack[i]));
            }
        }
    };
    // The second run starts in the state that answers to it.
    assert(s.heaps(first.heap, second.heap)) by {
        assert forall|i: int| 0 <= i < first.heap.environments.len() implies s.scopes(
            #[trigger] first.heap.environments[i],
            second.heap.environments[s.scope(i as usize) as int],
        ) by {
            if i < machine.heap.environments.len() {
                assert(after.heap.environments[i] == machine.heap.environments[i]);
                assert(scope_sound(sizes(machine.heap), machine.heap.environments[i]));
            }
        }
        assert forall|i: int|
            0 <= i < first.heap.functions.len() implies second.heap.functions[s.function(
            i as usize,
        ) as int] == s.callable(#[trigger] first.heap.functions[i]) by {
            assert(after.heap.functions[i] == machine.heap.functions[i]);
            assert(callable_sound(sizes(machine.heap), machine.heap.functions[i]));
        }
        assert forall|i: int| 0 <= i < first.heap.classes.len() implies s.classes(
            #[trigger] first.heap.classes[i],
            second.heap.classes[s.class(i as usize) as int],
        ) by {
            assert(after.heap.classes[i] == machine.heap.classes[i]);
            assert(class_sound(sizes(machine.heap), machine.heap.classes[i]));
        }
        assert forall|i: int| 0 <= i < first.heap.instances.len() implies s.instances(
            #[trigger] first.heap.instances[i],
            second.heap.instances[s.instance(i as usize) as int],
        ) by {
            assert(after.heap.instances[i] == machine.heap.instances[i]);
            assert(instance_sound(sizes(machine.heap), machine.heap.instances[i]));
        }
    };
    assert(s.stacks(first.stack, second.stack)) by {
        assert forall|i: int| 0 <= i < first.stack.len() implies s.frames(
            #[trigger] first.stack[i],
            second.stack[i],
        ) by {
            if i < machine.stack.len() {
                assert(frame_sound(sizes(machine.heap), machine.stack[i]));
            }
        }
    };
    lemma_run_keeps_tables(first, inputs);
    assert(second.locals == first.locals);
    assert(second.globals == first.globals);
    assert(first.globals < s.cut.scopes);
    assert(first.heap.environments[first.globals as int].enclosing is None);
    assert(second.environment == s.scope(first.environment));
    assert(second.control == s.control(first.control));
    assert(layered(first.heap.classes));
    assert(s.machines(first, second));
    assert(s.ready(first, second));
    lemma_run(s, first, second, inputs);
    lemma_action(s, after, again);
    // The second run ends as the first did.
    assert(again.stack =~= machine.stack) by {
        assert forall|i: int| 0 <= i < machine.stack.len() implies again.stack[i]
            == machine.stack[i] by {
            assert(s.frames(after.stack[i], again.stack[i]));
            assert(frame_sound(sizes(machine.heap), machine.stack[i]));
        }
    };
    assert(kept(machine.heap, again.heap)) by {
        assert forall|i: int|
            0 <= i < machine.heap.environments.len() implies #[trigger] again.heap.environments[i]
            == machine.heap.environments[i] by {
            assert(after.heap.environments[i] == machine.heap.environments[i]);
            assert(s.scopes(
                after.heap.environments[i],
                again.heap.environments[s.scope(i as usize) as int],
            ));
            assert(scope_sound(sizes(machine.heap), machine.heap.environments[i]));
        }
        assert forall|i: int|
            0 <= i < machine.heap.functions.len() implies #[trigger] again.heap.functions[i]
            == machine.heap.functions[i] by {
            assert(after.heap.functions[i] == machine.heap.functions[i]);
            assert(again.heap.functions[s.function(i as usize) as int] == s.callable(
                after.heap.functions[i],
            ));
            assert(callable_sound(sizes(machine.heap), machine.heap.functions[i]));
        }
        assert forall|i: int|
            0 <= i < machine.heap.classes.len() implies #[trigger] again.heap.classes[i]
            == machine.heap.classes[i] by {
            assert(after.heap.classes[i] == machine.heap.classes[i]);
            assert(s.classes(
                after.heap.classes[i],
                again.heap.classes[s.class(i as usize) as int],
            ));
            assert(class_sound(sizes(machine.heap), machine.heap.classes[i]));
        }
        assert forall|i: int|
            0 <= i < machine.heap.instances.len() implies #[trigger] again.heap.instances[i]
            == machine.heap.instances[i] by {
            assert(after.heap.instances[i] == machine.heap.instances[i]);
            assert(s.instances(
                after.heap.instances[i],
                again.heap.instances[s.instance(i as usize) as int],
            ));
            assert(instance_sound(sizes(machine.heap), machine.heap.instances[i]));
        }
    };
}

} // verus!
