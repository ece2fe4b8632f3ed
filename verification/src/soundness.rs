//! What holds of every state that the machine reaches.
//!
//! * It is *sound*: every place that a value, a scope, a function, a class,
//!   an instance or a frame refers to is a place in the stores.
//! * It is *anchored*: leaving the blocks that are under way leads back to
//!   the scope of the globals.
//! * It is *orderly*: each frame on the stack waits for what the frame above
//!   it, or the machine itself, is about to hand on.

use vstd::prelude::*;
use std::rc::Rc;
use crate::class::{class_arity, find_method, method_of, own_method, ClassView};
use crate::environment::{
    ancestor,
    assign,
    holder,
    lemma_found_in_store,
    lookup,
    read_at,
    write_at,
    EnvironmentView,
};
use crate::function::{bound, this_scope, Callable, Function};
use crate::heap::HeapView;
use crate::instance::InstanceView;
use crate::interpreter::{ControlView, FrameView, InterpreterView};
use crate::object::ObjectView;
use crate::semantics::{bind_parameters, methods_of};
use crate::expr::{Expr, HashExpr, SuperExpr};
use crate::stmt::{ClassStmt, FunctionStmt, Stmt};
use crate::token::Token;

verus! {

/// How many scopes, functions, classes and instances there are.
pub struct Sizes {
    pub scopes: nat,
    pub functions: nat,
    pub classes: nat,
    pub instances: nat,
}

/// The sizes of the stores.
pub open spec fn sizes(heap: HeapView) -> Sizes {
    Sizes {
        scopes: heap.environments.len(),
        functions: heap.functions.len(),
        classes: heap.classes.len(),
        instances: heap.instances.len(),
    }
}

/// Whether stores of these sizes can be held in memory.
pub open spec fn fits(s: Sizes) -> bool {
    s.scopes <= usize::MAX && s.functions <= usize::MAX && s.classes <= usize::MAX && s.instances
        <= usize::MAX
}

/// Whether the value refers to something that is in the stores.
pub open spec fn live(s: Sizes, value: ObjectView) -> bool {
    match value {
        ObjectView::Function(f) => f < s.functions,
        ObjectView::Class(c) => c < s.classes,
        ObjectView::Instance(i) => i < s.instances,
        _ => true,
    }
}

/// Whether every value of the table is live.
pub open spec fn table_live(s: Sizes, table: Map<Seq<char>, ObjectView>) -> bool {
    forall|key: Seq<char>| table.contains_key(key) ==> live(s, #[trigger] table[key])
}

/// Whether every value of the list is live.
pub open spec fn values_live(s: Sizes, values: Seq<ObjectView>) -> bool {
    forall|i: int| 0 <= i < values.len() ==> live(s, #[trigger] values[i])
}

/// Whether the scope lies inside a scope of the stores, if inside any, and
/// holds live values.
pub open spec fn scope_sound(s: Sizes, scope: EnvironmentView) -> bool {
    &&& scope.enclosing matches Some(around) ==> around < s.scopes
    &&& table_live(s, scope.values)
}

/// Whether the scope that the function closes over is in the stores.
pub open spec fn function_sound(s: Sizes, function: Function) -> bool {
    function.closure < s.scopes
}

/// Whether the callable, if it is a function, is sound.
pub open spec fn callable_sound(s: Sizes, callable: Callable) -> bool {
    callable matches Callable::Function(function) ==> function_sound(s, function)
}

/// Whether every method of the list is sound.
pub open spec fn methods_sound(s: Sizes, methods: Seq<Function>) -> bool {
    forall|i: int| 0 <= i < methods.len() ==> function_sound(s, #[trigger] methods[i])
}

/// Whether the superclass, the methods and the fields of the class are in
/// the stores.
pub open spec fn class_sound(s: Sizes, class: ClassView) -> bool {
    &&& class.superclass matches Some(above) ==> above < s.classes
    &&& methods_sound(s, class.methods)
    &&& table_live(s, class.fields)
}

/// Whether the class and the fields of the instance are in the stores.
pub open spec fn instance_sound(s: Sizes, instance: InstanceView) -> bool {
    &&& instance.class < s.classes
    &&& table_live(s, instance.fields)
}

/// Whether everything in the stores refers to places in the stores.
pub open spec fn heap_sound(heap: HeapView) -> bool {
    &&& fits(sizes(heap))
    &&& forall|i: int|
        0 <= i < heap.environments.len() ==> scope_sound(
            sizes(heap),
            #[trigger] heap.environments[i],
        )
    &&& forall|i: int|
        0 <= i < heap.functions.len() ==> callable_sound(sizes(heap), #[trigger] heap.functions[i])
    &&& forall|i: int|
        0 <= i < heap.classes.len() ==> class_sound(sizes(heap), #[trigger] heap.classes[i])
    &&& forall|i: int|
        0 <= i < heap.instances.len() ==> instance_sound(
            sizes(heap),
            #[trigger] heap.instances[i],
        )
}

/// Whether the values and the scopes that the frame keeps are in the
/// stores.
pub open spec fn frame_sound(s: Sizes, frame: FrameView) -> bool {
    match frame {
        FrameView::BinaryApply { op, left } => live(s, left),
        FrameView::Arguments { paren, arguments, callee, values } => live(s, callee)
            && values_live(s, values),
        FrameView::SetValue { name, object } => live(s, object),
        FrameView::Construct { instance } => instance < s.instances,
        FrameView::Call { initializer } => initializer matches Some(closure) ==> closure
            < s.scopes,
        FrameView::Block { statements, index, previous } => previous < s.scopes,
        _ => true,
    }
}

/// Whether the value at hand, if there is one, is live.
pub open spec fn control_sound(s: Sizes, control: ControlView) -> bool {
    match control {
        ControlView::Value(value) => live(s, value),
        ControlView::Return(value) => live(s, value),
        ControlView::Output(value) => live(s, value),
        _ => true,
    }
}

/// Whether every frame of the stack is sound.
pub open spec fn stack_sound(s: Sizes, stack: Seq<FrameView>) -> bool {
    forall|i: int| 0 <= i < stack.len() ==> frame_sound(s, #[trigger] stack[i])
}

impl InterpreterView {
    /// Whether every place that the machine refers to is a place in its
    /// stores.
    pub open spec fn sound(self) -> bool {
        &&& heap_sound(self.heap)
        &&& self.globals < self.heap.environments.len()
        &&& self.environment < self.heap.environments.len()
        &&& stack_sound(sizes(self.heap), self.stack)
        &&& control_sound(sizes(self.heap), self.control)
    }
}

/// The machine is sound before its first step.
pub proof fn lemma_loaded_is_sound(locals: Map<usize, usize>, statements: Seq<Rc<Stmt>>)
    ensures
        InterpreterView::loaded(locals, statements).sound(),
{
}

/// Whether stores of the sizes `a` are no larger than stores of the sizes
/// `b`.
pub open spec fn within(a: Sizes, b: Sizes) -> bool {
    a.scopes <= b.scopes && a.functions <= b.functions && a.classes <= b.classes && a.instances
        <= b.instances
}

/// What refers to places in the stores still does when the stores grow.
pub proof fn lemma_growth(a: Sizes, b: Sizes)
    requires
        within(a, b),
    ensures
        forall|value: ObjectView| #[trigger] live(a, value) ==> live(b, value),
        forall|table: Map<Seq<char>, ObjectView>| #[trigger]
            table_live(a, table) ==> table_live(b, table),
        forall|values: Seq<ObjectView>| #[trigger]
            values_live(a, values) ==> values_live(b, values),
        forall|scope: EnvironmentView| #[trigger] scope_sound(a, scope) ==> scope_sound(b, scope),
        forall|callable: Callable| #[trigger]
            callable_sound(a, callable) ==> callable_sound(b, callable),
        forall|methods: Seq<Function>| #[trigger]
            methods_sound(a, methods) ==> methods_sound(b, methods),
        forall|class: ClassView| #[trigger] class_sound(a, class) ==> class_sound(b, class),
        forall|instance: InstanceView| #[trigger]
            instance_sound(a, instance) ==> instance_sound(b, instance),
        forall|frame: FrameView| #[trigger] frame_sound(a, frame) ==> frame_sound(b, frame),
        forall|stack: Seq<FrameView>| #[trigger] stack_sound(a, stack) ==> stack_sound(b, stack),
        forall|control: ControlView| #[trigger]
            control_sound(a, control) ==> control_sound(b, control),
{
    assert forall|table: Map<Seq<char>, ObjectView>| #[trigger]
        table_live(a, table) implies table_live(b, table) by {
        assert forall|key: Seq<char>| table.contains_key(key) implies live(
            b,
            #[trigger] table[key],
        ) by {
            assert(live(a, table[key]));
        }
    }
    assert forall|values: Seq<ObjectView>| #[trigger] values_live(a, values) implies values_live(
        b,
        values,
    ) by {
        assert forall|i: int| 0 <= i < values.len() implies live(b, #[trigger] values[i]) by {
            assert(live(a, values[i]));
        }
    }
    assert forall|methods: Seq<Function>| #[trigger]
        methods_sound(a, methods) implies methods_sound(b, methods) by {
        assert forall|i: int| 0 <= i < methods.len() implies function_sound(
            b,
            #[trigger] methods[i],
        ) by {
            assert(function_sound(a, methods[i]));
        }
    }
    assert forall|stack: Seq<FrameView>| #[trigger] stack_sound(a, stack) implies stack_sound(
        b,
        stack,
    ) by {
        assert forall|i: int| 0 <= i < stack.len() implies frame_sound(b, #[trigger] stack[i]) by {
            assert(frame_sound(a, stack[i]));
        }
    }
}

/// Stores that grow by sound things stay sound: `after` holds what `before`
/// held, unchanged, and what it holds besides is sound.
pub proof fn lemma_grown_heap(before: HeapView, after: HeapView)
    requires
        heap_sound(before),
        fits(sizes(after)),
        within(sizes(before), sizes(after)),
        forall|i: int|
            0 <= i < after.environments.len() ==> (i < before.environments.len()
                && #[trigger] after.environments[i] == before.environments[i]) || scope_sound(
                sizes(after),
                after.environments[i],
            ),
        forall|i: int|
            0 <= i < after.functions.len() ==> (i < before.functions.len()
                && #[trigger] after.functions[i] == before.functions[i]) || callable_sound(
                sizes(after),
                after.functions[i],
            ),
        forall|i: int|
            0 <= i < after.classes.len() ==> (i < before.classes.len()
                && #[trigger] after.classes[i] == before.classes[i]) || class_sound(
                sizes(after),
                after.classes[i],
            ),
        forall|i: int|
            0 <= i < after.instances.len() ==> (i < before.instances.len()
                && #[trigger] after.instances[i] == before.instances[i]) || instance_sound(
                sizes(after),
                after.instances[i],
            ),
    ensures
        heap_sound(after),
{
    lemma_growth(sizes(before), sizes(after));
    assert forall|i: int| 0 <= i < after.environments.len() implies scope_sound(
        sizes(after),
        #[trigger] after.environments[i],
    ) by {
        if i < before.environments.len() && after.environments[i] == before.environments[i] {
            assert(scope_sound(sizes(before), before.environments[i]));
        }
    }
    assert forall|i: int| 0 <= i < after.functions.len() implies callable_sound(
        sizes(after),
        #[trigger] after.functions[i],
    ) by {
        if i < before.functions.len() && after.functions[i] == before.functions[i] {
            assert(callable_sound(sizes(before), before.functions[i]));
        }
    }
    assert forall|i: int| 0 <= i < after.classes.len() implies class_sound(
        sizes(after),
        #[trigger] after.classes[i],
    ) by {
        if i < before.classes.len() && after.classes[i] == before.classes[i] {
            assert(class_sound(sizes(before), before.classes[i]));
        }
    }
    assert forall|i: int| 0 <= i < after.instances.len() implies instance_sound(
        sizes(after),
        #[trigger] after.instances[i],
    ) by {
        if i < before.instances.len() && after.instances[i] == before.instances[i] {
            assert(instance_sound(sizes(before), before.instances[i]));
        }
    }
}

/// A new scope inside a scope of the stores keeps the stores sound.
proof fn lemma_scoped(heap: HeapView, enclosing: Option<usize>)
    requires
        heap_sound(heap),
        enclosing matches Some(around) ==> around < heap.environments.len(),
        fits(sizes(heap.scoped(enclosing))),
    ensures
        heap_sound(heap.scoped(enclosing)),
{
    lemma_grown_heap(heap, heap.scoped(enclosing));
}

/// A sound value under a name keeps the stores sound.
proof fn lemma_defined(heap: HeapView, scope: usize, key: Seq<char>, value: ObjectView)
    requires
        heap_sound(heap),
        live(sizes(heap), value),
    ensures
        heap_sound(heap.defined(scope, key, value)),
        sizes(heap.defined(scope, key, value)) == sizes(heap),
{
    if scope < heap.environments.len() {
        assert(scope_sound(sizes(heap), heap.environments[scope as int]));
        lemma_grown_heap(heap, heap.defined(scope, key, value));
    }
}

proof fn lemma_with_function(heap: HeapView, callable: Callable)
    requires
        heap_sound(heap),
        callable_sound(sizes(heap), callable),
        fits(sizes(heap.with_function(callable))),
    ensures
        heap_sound(heap.with_function(callable)),
{
    lemma_growth(sizes(heap), sizes(heap.with_function(callable)));
    lemma_grown_heap(heap, heap.with_function(callable));
}

proof fn lemma_with_class(heap: HeapView, class: ClassView)
    requires
        heap_sound(heap),
        class_sound(sizes(heap), class),
        fits(sizes(heap.with_class(class))),
    ensures
        heap_sound(heap.with_class(class)),
{
    lemma_growth(sizes(heap), sizes(heap.with_class(class)));
    lemma_grown_heap(heap, heap.with_class(class));
}

proof fn lemma_with_instance(heap: HeapView, class: usize)
    requires
        heap_sound(heap),
        class < heap.classes.len(),
        fits(sizes(heap.with_instance(class))),
    ensures
        heap_sound(heap.with_instance(class)),
{
    lemma_grown_heap(heap, heap.with_instance(class));
}

/// Binding a sound method to an instance of the stores keeps the stores
/// sound, and the bound method is sound.
proof fn lemma_bound(heap: HeapView, method: Function, instance: usize)
    requires
        heap_sound(heap),
        function_sound(sizes(heap), method),
        instance < heap.instances.len(),
        heap.environments.len() < usize::MAX,
    ensures
        heap_sound(
            HeapView { environments: bound(heap.environments, method, instance).0, ..heap },
        ),
        function_sound(
            sizes(HeapView { environments: bound(heap.environments, method, instance).0, ..heap }),
            bound(heap.environments, method, instance).1,
        ),
{
    let after = HeapView { environments: bound(heap.environments, method, instance).0, ..heap };
    assert(scope_sound(sizes(after), this_scope(method.closure, instance)));
    lemma_grown_heap(heap, after);
}

proof fn lemma_bound_method(heap: HeapView, method: Function, instance: usize)
    requires
        heap_sound(heap),
        function_sound(sizes(heap), method),
        instance < heap.instances.len(),
        fits(sizes(heap.bound_method(method, instance))),
    ensures
        heap_sound(heap.bound_method(method, instance)),
{
    let middle = HeapView { environments: bound(heap.environments, method, instance).0, ..heap };
    lemma_bound(heap, method, instance);
    lemma_with_function(middle, Callable::Function(bound(heap.environments, method, instance).1));
}

/// Binding the parameters of a call to sound values keeps the stores sound.
proof fn lemma_bind_parameters(
    heap: HeapView,
    scope: usize,
    params: Seq<Rc<Token>>,
    values: Seq<ObjectView>,
    i: nat,
)
    requires
        heap_sound(heap),
        values_live(sizes(heap), values),
    ensures
        heap_sound(bind_parameters(heap, scope, params, values, i)),
        sizes(bind_parameters(heap, scope, params, values, i)) == sizes(heap),
    decreases params.len() - i,
{
    if i < params.len() && i < values.len() {
        assert(live(sizes(heap), values[i as int]));
        lemma_defined(heap, scope, params[i as int].lexeme@, values[i as int]);
        lemma_bind_parameters(
            heap.defined(scope, params[i as int].lexeme@, values[i as int]),
            scope,
            params,
            values,
            i + 1,
        );
    }
}

/// What is read from sound stores is sound.
pub proof fn lemma_read(heap: HeapView, from: usize, distance: nat, key: Seq<char>)
    requires
        heap_sound(heap),
    ensures
        read_at(heap.environments, from, distance, key) matches Ok(value) ==> live(
            sizes(heap),
            value,
        ),
        lookup(heap.environments, from, key) matches Ok(value) ==> live(sizes(heap), value),
{
    lemma_found_in_store(heap.environments, from, distance, key);
    lemma_found_in_store(heap.environments, from, heap.environments.len(), key);
    match ancestor(heap.environments, from, distance) {
        Some(scope) => {
            assert(scope_sound(sizes(heap), heap.environments[scope as int]));
        },
        None => {},
    }
    match holder(heap.environments, from, key, heap.environments.len()) {
        Some(scope) => {
            assert(scope_sound(sizes(heap), heap.environments[scope as int]));
        },
        None => {},
    }
}

/// Assigning a sound value keeps the stores sound.
proof fn lemma_write(
    heap: HeapView,
    from: usize,
    distance: nat,
    key: Seq<char>,
    value: ObjectView,
)
    requires
        heap_sound(heap),
        live(sizes(heap), value),
    ensures
        write_at(heap.environments, from, distance, key, value) matches Ok(environments)
            ==> heap_sound(HeapView { environments, ..heap }) && environments.len()
            == heap.environments.len(),
        assign(heap.environments, from, key, value) matches Ok(environments) ==> heap_sound(
            HeapView { environments, ..heap },
        ) && environments.len() == heap.environments.len(),
{
    lemma_found_in_store(heap.environments, from, distance, key);
    lemma_found_in_store(heap.environments, from, heap.environments.len(), key);
    match ancestor(heap.environments, from, distance) {
        Some(scope) => {
            lemma_defined(heap, scope, key, value);
        },
        None => {},
    }
    match holder(heap.environments, from, key, heap.environments.len()) {
        Some(scope) => {
            lemma_defined(heap, scope, key, value);
        },
        None => {},
    }
}

/// A method found in sound stores is sound.
proof fn lemma_own_method(s: Sizes, methods: Seq<Function>, key: Seq<char>)
    requires
        methods_sound(s, methods),
    ensures
        own_method(methods, key) matches Some(method) ==> function_sound(s, method),
    decreases methods.len(),
{
    if methods.len() > 0 {
        assert(function_sound(s, methods[methods.len() - 1]));
        if methods.last().name() != key {
            assert forall|i: int| 0 <= i < methods.drop_last().len() implies function_sound(
                s,
                #[trigger] methods.drop_last()[i],
            ) by {
                assert(function_sound(s, methods[i]));
            }
            lemma_own_method(s, methods.drop_last(), key);
        }
    }
}

proof fn lemma_method_of(heap: HeapView, class: usize, key: Seq<char>, steps: nat)
    requires
        heap_sound(heap),
    ensures
        method_of(heap.classes, class, key, steps) matches Some(method) ==> function_sound(
            sizes(heap),
            method,
        ),
    decreases steps,
{
    if class < heap.classes.len() {
        assert(class_sound(sizes(heap), heap.classes[class as int]));
        lemma_own_method(sizes(heap), heap.classes[class as int].methods, key);
        if own_method(heap.classes[class as int].methods, key) is None && steps > 0 {
            match heap.classes[class as int].superclass {
                Some(above) => lemma_method_of(heap, above, key, (steps - 1) as nat),
                None => {},
            }
        }
    }
}

/// A method found for a class of sound stores is sound.
pub proof fn lemma_find_method(heap: HeapView, class: usize, key: Seq<char>)
    requires
        heap_sound(heap),
    ensures
        find_method(heap.classes, class, key) matches Some(method) ==> function_sound(
            sizes(heap),
            method,
        ),
{
    lemma_method_of(heap, class, key, heap.classes.len());
}

/// Binding parameters adds nothing to the stores.
pub proof fn lemma_bind_parameters_sizes(
    heap: HeapView,
    scope: usize,
    params: Seq<Rc<Token>>,
    values: Seq<ObjectView>,
    i: nat,
)
    ensures
        sizes(bind_parameters(heap, scope, params, values, i)) == sizes(heap),
    decreases params.len() - i,
{
    if i < params.len() && i < values.len() {
        lemma_bind_parameters_sizes(
            heap.defined(scope, params[i as int].lexeme@, values[i as int]),
            scope,
            params,
            values,
            i + 1,
        );
    }
}

/// Reading a property of sound stores gives a sound value and keeps the
/// stores sound.
proof fn lemma_instance_get(heap: HeapView, instance: usize, key: Seq<char>)
    requires
        heap_sound(heap),
        fits(sizes(heap.instance_get(instance, key).0)),
    ensures
        heap_sound(heap.instance_get(instance, key).0),
        within(sizes(heap), sizes(heap.instance_get(instance, key).0)),
        heap.instance_get(instance, key).1 matches Ok(value) ==> live(
            sizes(heap.instance_get(instance, key).0),
            value,
        ),
        heap.instance_get(instance, key).1 is Err ==> heap.instance_get(instance, key).0 == heap,
{
    if instance < heap.instances.len() {
        assert(instance_sound(sizes(heap), heap.instances[instance as int]));
        if !heap.instances[instance as int].fields.contains_key(key) {
            lemma_find_method(heap, heap.instances[instance as int].class, key);
            match find_method(heap.classes, heap.instances[instance as int].class, key) {
                Some(method) => lemma_bound_method(heap, method, instance),
                None => {},
            }
        }
    }
}

/// Writing a sound value to a field keeps the stores sound.
proof fn lemma_set_field(heap: HeapView, place: usize, key: Seq<char>, value: ObjectView)
    requires
        heap_sound(heap),
        live(sizes(heap), value),
    ensures
        heap.instance_set(place, key, value) matches Ok(after) ==> heap_sound(after) && sizes(
            after,
        ) == sizes(heap),
        heap.class_set(place, key, value) matches Ok(after) ==> heap_sound(after) && sizes(after)
            == sizes(heap),
        heap.class_get(place, key) matches Ok(found) ==> live(sizes(heap), found),
{
    if place < heap.instances.len() {
        assert(instance_sound(sizes(heap), heap.instances[place as int]));
        lemma_grown_heap(heap, heap.instance_set(place, key, value)->Ok_0);
    }
    if place < heap.classes.len() {
        assert(class_sound(sizes(heap), heap.classes[place as int]));
        lemma_grown_heap(heap, heap.class_set(place, key, value)->Ok_0);
    }
}

/// Whether the machine `after` has the stores of `before` or larger ones.
pub open spec fn grown(before: InterpreterView, after: InterpreterView) -> bool {
    within(sizes(before.heap), sizes(after.heap))
}

proof fn lemma_lookup_variable(machine: InterpreterView, name: &Token, id: usize)
    requires
        machine.sound(),
    ensures
        machine.lookup_variable(*name, id).sound(),
        machine.lookup_variable(*name, id).heap == machine.heap,
{
    lemma_read(machine.heap, machine.environment, machine.locals[id] as nat, name.lexeme@);
    lemma_read(machine.heap, machine.globals, 0, name.lexeme@);
}

proof fn lemma_assign_variable(
    machine: InterpreterView,
    name: &Token,
    id: usize,
    value: ObjectView,
)
    requires
        machine.sound(),
        live(sizes(machine.heap), value),
    ensures
        machine.assign_variable(*name, id, value).sound(),
        sizes(machine.assign_variable(*name, id, value).heap) == sizes(machine.heap),
{
    lemma_write(machine.heap, machine.environment, machine.locals[id] as nat, name.lexeme@, value);
    lemma_write(machine.heap, machine.globals, 0, name.lexeme@, value);
}

proof fn lemma_super_method(machine: InterpreterView, access: &SuperExpr, id: usize)
    requires
        machine.sound(),
        fits(sizes(machine.super_method(*access, id).heap)),
    ensures
        machine.super_method(*access, id).sound(),
        grown(machine, machine.super_method(*access, id)),
{
    if machine.locals.contains_key(id) && machine.locals[id] != 0 {
        let distance = machine.locals[id];
        lemma_read(machine.heap, machine.environment, distance as nat, "super"@);
        lemma_read(machine.heap, machine.environment, (distance - 1) as nat, "this"@);
        match (
            read_at(machine.heap.environments, machine.environment, distance as nat, "super"@),
            read_at(
                machine.heap.environments,
                machine.environment,
                (distance - 1) as nat,
                "this"@,
            ),
        ) {
            (Ok(ObjectView::Class(class)), Ok(ObjectView::Instance(instance))) => {
                lemma_find_method(machine.heap, class, access.method.lexeme@);
                match find_method(machine.heap.classes, class, access.method.lexeme@) {
                    Some(method) => {
                        lemma_bound_method(machine.heap, method, instance);
                        lemma_growth(
                            sizes(machine.heap),
                            sizes(machine.heap.bound_method(method, instance)),
                        );
                    },
                    None => {},
                }
            },
            _ => {},
        }
    }
}

/// What is left when the top frame is taken off a sound machine is sound,
/// and so is the frame.
pub proof fn lemma_popped(machine: InterpreterView)
    requires
        machine.sound(),
        machine.stack.len() > 0,
    ensures
        machine.popped().sound(),
        frame_sound(sizes(machine.heap), machine.stack.last()),
{
    assert(frame_sound(sizes(machine.heap), machine.stack[machine.stack.len() - 1]));
}

proof fn lemma_visit_expr(machine: InterpreterView, e: &HashExpr)
    requires
        machine.sound(),
        machine.control is Next,
        fits(sizes(machine.visit_expr(*e).heap)),
    ensures
        machine.visit_expr(*e).sound(),
        grown(machine, machine.visit_expr(*e)),
{
    match &e.expr {
        Expr::Variable(variable) => lemma_lookup_variable(
            machine,
            &variable.name,
            e.id,
        ),
        Expr::This(this) => lemma_lookup_variable(machine, &this.keyword, e.id),
        Expr::Super(access) => lemma_super_method(machine, access, e.id),
        _ => {},
    }
}

/// A call of a function adds to the stores and takes nothing away.
proof fn lemma_call_function_grows(
    machine: InterpreterView,
    function: Function,
    arguments: Seq<ObjectView>,
    paren: &Token,
)
    ensures
        grown(machine, machine.call_function(function, arguments, *paren)),
{
    lemma_bind_parameters_sizes(
        machine.heap.scoped(Some(function.closure)),
        machine.heap.environments.len() as usize,
        function.declaration.params@,
        arguments,
        0,
    );
}

proof fn lemma_call_grows(
    machine: InterpreterView,
    callee: ObjectView,
    arguments: Seq<ObjectView>,
    paren: &Token,
)
    ensures
        grown(machine, machine.call(callee, arguments, *paren)),
{
    match callee {
        ObjectView::Function(f) => {
            if f < machine.heap.functions.len() {
                match machine.heap.functions[f as int] {
                    Callable::Function(function) => lemma_call_function_grows(
                        machine,
                        function,
                        arguments,
                        paren,
                    ),
                    _ => {},
                }
            }
        },
        ObjectView::Class(class) => {
            if class < machine.heap.classes.len() {
                let instance = machine.heap.instances.len() as usize;
                let heap = machine.heap.with_instance(class);
                match find_method(machine.heap.classes, class, "init"@) {
                    Some(initializer) => {
                        let bound_heap = HeapView {
                            environments: bound(heap.environments, initializer, instance).0,
                            ..heap
                        };
                        lemma_call_function_grows(
                            machine.with_heap(bound_heap).pushed(
                                FrameView::Construct { instance },
                            ),
                            bound(heap.environments, initializer, instance).1,
                            arguments,
                            paren,
                        );
                    },
                    None => {},
                }
            }
        },
        _ => {},
    }
}

proof fn lemma_assign_grows(
    machine: InterpreterView,
    name: &Token,
    id: usize,
    value: ObjectView,
)
    ensures
        sizes(machine.assign_variable(*name, id, value).heap) == sizes(machine.heap),
{
    lemma_found_in_store(
        machine.heap.environments,
        machine.environment,
        machine.locals[id] as nat,
        name.lexeme@,
    );
    lemma_found_in_store(
        machine.heap.environments,
        machine.globals,
        machine.heap.environments.len(),
        name.lexeme@,
    );
}

proof fn lemma_property_grows(
    machine: InterpreterView,
    object: ObjectView,
    name: &Token,
    value: ObjectView,
)
    ensures
        grown(machine, machine.get_property(object, *name)),
        sizes(machine.set_property(object, *name, value).heap) == sizes(machine.heap),
{
}

proof fn lemma_declare_class_grows(
    machine: InterpreterView,
    declaration: &ClassStmt,
    superclass: Option<usize>,
)
    ensures
        grown(machine, machine.declare_class(*declaration, superclass)),
{
}

proof fn lemma_resume_grows(machine: InterpreterView, value: ObjectView)
    ensures
        grown(machine, machine.resume(value)),
{
    if machine.stack.len() > 0 {
        let rest = machine.popped();
        match machine.stack.last() {
            FrameView::Assign { name, id } => lemma_assign_grows(rest, &name, id, value),
            FrameView::Callee { paren, arguments } => {
                lemma_call_grows(rest, value, Seq::empty(), &paren);
            },
            FrameView::Arguments { paren, arguments, callee, values } => {
                lemma_call_grows(rest, callee, values.push(value), &paren);
            },
            FrameView::Get { name } => lemma_property_grows(rest, value, &name, value),
            FrameView::SetValue { name, object } => lemma_property_grows(
                rest,
                object,
                &name,
                value,
            ),
            FrameView::ClassSuper { declaration } => match value {
                ObjectView::Class(above) => lemma_declare_class_grows(
                    rest,
                    &declaration,
                    Some(above),
                ),
                _ => {},
            },
            _ => {},
        }
    }
}

/// A step adds to the stores and takes nothing away.
pub proof fn lemma_step_grows(machine: InterpreterView, reply: Option<u64>)
    ensures
        grown(machine, machine.step(reply)),
{
    let idle = machine.becoming(ControlView::Next);
    match machine.control {
        ControlView::Value(value) => lemma_resume_grows(idle, value),
        _ => {},
    }
}

/// A run adds to the stores and takes nothing away.
pub proof fn lemma_run_grows(machine: InterpreterView, inputs: Seq<Option<u64>>)
    ensures
        grown(machine, machine.run(inputs)),
    decreases inputs.len(),
{
    if inputs.len() > 0 {
        lemma_step_grows(machine, inputs[0]);
        lemma_run_grows(machine.step(inputs[0]), inputs.drop_first());
    }
}

proof fn lemma_declare_class(
    machine: InterpreterView,
    declaration: &ClassStmt,
    superclass: Option<usize>,
)
    requires
        machine.sound(),
        superclass matches Some(above) ==> above < machine.heap.classes.len(),
        fits(sizes(machine.declare_class(*declaration, superclass).heap)),
    ensures
        machine.declare_class(*declaration, superclass).sound(),
        grown(machine, machine.declare_class(*declaration, superclass)),
{
    let fresh = machine.heap.environments.len() as usize;
    let heap = match superclass {
        Some(above) => machine.heap.scoped(Some(machine.environment)).defined(
            fresh,
            "super"@,
            ObjectView::Class(above),
        ),
        None => machine.heap,
    };
    let closure = if superclass is Some {
        fresh
    } else {
        machine.environment
    };
    match superclass {
        Some(above) => {
            lemma_scoped(machine.heap, Some(machine.environment));
            lemma_defined(
                machine.heap.scoped(Some(machine.environment)),
                fresh,
                "super"@,
                ObjectView::Class(above),
            );
        },
        None => {},
    }
    let class = ClassView {
        name: declaration.name,
        superclass,
        methods: methods_of(declaration.methods@, closure),
        fields: Map::empty(),
    };
    assert(class_sound(sizes(heap), class));
    lemma_with_class(heap, class);
    lemma_defined(
        heap.with_class(class),
        machine.environment,
        declaration.name.lexeme@,
        ObjectView::Class(heap.classes.len() as usize),
    );
    let after = machine.declare_class(*declaration, superclass);
    lemma_growth(sizes(machine.heap), sizes(after.heap));
}

/// The function that a declaration stands for in the scope at `closure`.
pub open spec fn declared(declaration: &Rc<FunctionStmt>, closure: usize) -> Callable {
    Callable::Function(Function { declaration: *declaration, closure, is_initializer: false })
}

proof fn lemma_visit_stmt(machine: InterpreterView, s: &Stmt)
    requires
        machine.sound(),
        machine.control is Next,
        fits(sizes(machine.visit_stmt(*s).heap)),
    ensures
        machine.visit_stmt(*s).sound(),
        grown(machine, machine.visit_stmt(*s)),
{
    match s {
        Stmt::Var(statement) => {
            if statement.initializer.is_none() {
                lemma_defined(
                    machine.heap,
                    machine.environment,
                    statement.name.lexeme@,
                    ObjectView::Nil,
                );
            }
        },
        Stmt::Block(block) => {
            lemma_scoped(machine.heap, Some(machine.environment));
            lemma_growth(
                sizes(machine.heap),
                sizes(machine.heap.scoped(Some(machine.environment))),
            );
        },
        Stmt::Function(declaration) => {
            let callable = declared(declaration, machine.environment);
            lemma_with_function(machine.heap, callable);
            lemma_defined(
                machine.heap.with_function(callable),
                machine.environment,
                declaration.name.lexeme@,
                ObjectView::Function(machine.heap.functions.len() as usize),
            );
            lemma_growth(sizes(machine.heap), sizes(machine.heap.with_function(callable)));
        },
        Stmt::Class(declaration) => {
            if declaration.superclass.is_none() {
                lemma_declare_class(machine, declaration, None);
            }
        },
        _ => {},
    }
}

proof fn lemma_call_function(
    machine: InterpreterView,
    function: Function,
    arguments: Seq<ObjectView>,
    paren: &Token,
)
    requires
        machine.sound(),
        function_sound(sizes(machine.heap), function),
        values_live(sizes(machine.heap), arguments),
        fits(sizes(machine.call_function(function, arguments, *paren).heap)),
    ensures
        machine.call_function(function, arguments, *paren).sound(),
        grown(machine, machine.call_function(function, arguments, *paren)),
{
    if arguments.len() == function.parameters() {
        let scope = machine.heap.environments.len() as usize;
        let opened = machine.heap.scoped(Some(function.closure));
        lemma_bind_parameters_sizes(opened, scope, function.declaration.params@, arguments, 0);
        lemma_scoped(machine.heap, Some(function.closure));
        lemma_growth(sizes(machine.heap), sizes(opened));
        lemma_bind_parameters(opened, scope, function.declaration.params@, arguments, 0);
    }
}

proof fn lemma_call_class(
    machine: InterpreterView,
    class: usize,
    arguments: Seq<ObjectView>,
    paren: &Token,
)
    requires
        machine.sound(),
        values_live(sizes(machine.heap), arguments),
        fits(sizes(machine.call_class(class, arguments, *paren).heap)),
    ensures
        machine.call_class(class, arguments, *paren).sound(),
        grown(machine, machine.call_class(class, arguments, *paren)),
{
    if class < machine.heap.classes.len() && arguments.len() == class_arity(
        machine.heap.classes,
        class,
    ) {
        let instance = machine.heap.instances.len() as usize;
        let heap = machine.heap.with_instance(class);
        lemma_find_method(machine.heap, class, "init"@);
        match find_method(machine.heap.classes, class, "init"@) {
            Some(initializer) => {
                let bound_heap = HeapView {
                    environments: bound(heap.environments, initializer, instance).0,
                    ..heap
                };
                let method = bound(heap.environments, initializer, instance).1;
                let ready = machine.with_heap(bound_heap).pushed(
                    FrameView::Construct { instance },
                );
                if arguments.len() == method.parameters() {
                    lemma_bind_parameters_sizes(
                        bound_heap.scoped(Some(method.closure)),
                        bound_heap.environments.len() as usize,
                        method.declaration.params@,
                        arguments,
                        0,
                    );
                }
                lemma_with_instance(machine.heap, class);
                lemma_growth(sizes(machine.heap), sizes(heap));
                lemma_bound(heap, initializer, instance);
                lemma_growth(sizes(heap), sizes(bound_heap));
                lemma_growth(sizes(machine.heap), sizes(bound_heap));
                assert(ready.sound());
                lemma_call_function(ready, method, arguments, paren);
            },
            None => {
                lemma_with_instance(machine.heap, class);
                lemma_growth(sizes(machine.heap), sizes(heap));
            },
        }
    }
}

proof fn lemma_call(
    machine: InterpreterView,
    callee: ObjectView,
    arguments: Seq<ObjectView>,
    paren: &Token,
)
    requires
        machine.sound(),
        live(sizes(machine.heap), callee),
        values_live(sizes(machine.heap), arguments),
        fits(sizes(machine.call(callee, arguments, *paren).heap)),
    ensures
        machine.call(callee, arguments, *paren).sound(),
        grown(machine, machine.call(callee, arguments, *paren)),
{
    match callee {
        ObjectView::Function(f) => {
            assert(callable_sound(sizes(machine.heap), machine.heap.functions[f as int]));
            match machine.heap.functions[f as int] {
                Callable::Function(function) => lemma_call_function(
                    machine,
                    function,
                    arguments,
                    paren,
                ),
                _ => {},
            }
        },
        ObjectView::Class(class) => lemma_call_class(machine, class, arguments, paren),
        _ => {},
    }
}

proof fn lemma_property(
    machine: InterpreterView,
    object: ObjectView,
    name: &Token,
    value: ObjectView,
)
    requires
        machine.sound(),
        live(sizes(machine.heap), object),
        live(sizes(machine.heap), value),
    ensures
        fits(sizes(machine.get_property(object, *name).heap)) ==> machine.get_property(
            object,
            *name,
        ).sound() && grown(machine, machine.get_property(object, *name)),
        machine.set_property(object, *name, value).sound(),
        sizes(machine.set_property(object, *name, value).heap) == sizes(machine.heap),
{
    match object {
        ObjectView::Instance(instance) => {
            if fits(sizes(machine.get_property(object, *name).heap)) {
                lemma_instance_get(machine.heap, instance, name.lexeme@);
                lemma_growth(
                    sizes(machine.heap),
                    sizes(machine.heap.instance_get(instance, name.lexeme@).0),
                );
            }
            lemma_set_field(machine.heap, instance, name.lexeme@, value);
        },
        ObjectView::Class(class) => {
            lemma_set_field(machine.heap, class, name.lexeme@, value);
        },
        _ => {},
    }
}

proof fn lemma_finish_call(
    machine: InterpreterView,
    initializer: Option<usize>,
    value: ObjectView,
)
    requires
        machine.sound(),
        live(sizes(machine.heap), value),
    ensures
        machine.finish_call(initializer, value).sound(),
        machine.finish_call(initializer, value).heap == machine.heap,
{
    match initializer {
        Some(closure) => lemma_read(machine.heap, closure, 0, "this"@),
        None => {},
    }
}

proof fn lemma_resume(machine: InterpreterView, value: ObjectView)
    requires
        machine.sound(),
        machine.control is Next,
        live(sizes(machine.heap), value),
        fits(sizes(machine.resume(value).heap)),
    ensures
        machine.resume(value).sound(),
        grown(machine, machine.resume(value)),
{
    if machine.stack.len() > 0 {
        lemma_popped(machine);
        let rest = machine.popped();
        match machine.stack.last() {
            FrameView::Assign { name, id } => lemma_assign_variable(rest, &name, id, value),
            FrameView::Callee { paren, arguments } => {
                if arguments.len() == 0 {
                    lemma_call(rest, value, Seq::empty(), &paren);
                }
            },
            FrameView::Arguments { paren, arguments, callee, values } => {
                assert(values_live(sizes(machine.heap), values.push(value))) by {
                    assert forall|i: int| 0 <= i < values.push(value).len() implies live(
                        sizes(machine.heap),
                        #[trigger] values.push(value)[i],
                    ) by {
                        if i < values.len() {
                            assert(live(sizes(machine.heap), values[i]));
                        }
                    }
                };
                if !(values.len() + 1 < arguments.len()) {
                    lemma_call(rest, callee, values.push(value), &paren);
                }
            },
            FrameView::Get { name } => lemma_property(rest, value, &name, value),
            FrameView::SetValue { name, object } => lemma_property(rest, object, &name, value),
            FrameView::Var { name } => lemma_defined(
                rest.heap,
                rest.environment,
                name.lexeme@,
                value,
            ),
            FrameView::ClassSuper { declaration } => match value {
                ObjectView::Class(above) => {
                    if above < rest.heap.classes.len() {
                        lemma_declare_class(rest, &declaration, Some(above));
                    }
                },
                _ => {},
            },
            _ => {},
        }
    }
}

proof fn lemma_advance(machine: InterpreterView)
    requires
        machine.sound(),
        machine.control is Next,
    ensures
        machine.advance().sound(),
        machine.advance().heap == machine.heap,
{
    if machine.stack.len() > 0 {
        lemma_popped(machine);
        match machine.stack.last() {
            FrameView::Call { initializer } => lemma_finish_call(
                machine.popped(),
                initializer,
                ObjectView::Nil,
            ),
            _ => {},
        }
    }
}

proof fn lemma_unwind(machine: InterpreterView, value: ObjectView)
    requires
        machine.sound(),
        machine.control is Next,
        live(sizes(machine.heap), value),
    ensures
        machine.unwind(value).sound(),
        machine.unwind(value).heap == machine.heap,
{
    if machine.stack.len() > 0 {
        lemma_popped(machine);
        match machine.stack.last() {
            FrameView::Call { initializer } => lemma_finish_call(
                machine.popped(),
                initializer,
                value,
            ),
            _ => {},
        }
    }
}

/// A step takes a sound machine to a sound machine: whatever the program,
/// the answers and the clock, nothing in a state that the machine reaches
/// refers to a place outside the stores. The stores only grow.
pub proof fn lemma_step_keeps_sound(machine: InterpreterView, reply: Option<u64>)
    requires
        machine.sound(),
        fits(sizes(machine.step(reply).heap)),
    ensures
        machine.step(reply).sound(),
        grown(machine, machine.step(reply)),
{
    let idle = machine.becoming(ControlView::Next);
    match machine.control {
        ControlView::Evaluate(e) => lemma_visit_expr(idle, &e),
        ControlView::Execute(s) => lemma_visit_stmt(idle, &s),
        ControlView::Value(value) => lemma_resume(idle, value),
        ControlView::Next => lemma_advance(idle),
        ControlView::Return(value) => lemma_unwind(idle, value),
        _ => {},
    }
}

/// Every state that a sound machine reaches is sound, as long as the
/// stores fit in memory.
pub proof fn lemma_run_keeps_sound(machine: InterpreterView, inputs: Seq<Option<u64>>)
    requires
        machine.sound(),
        fits(sizes(machine.run(inputs).heap)),
    ensures
        machine.run(inputs).sound(),
        grown(machine, machine.run(inputs)),
    decreases inputs.len(),
{
    if inputs.len() > 0 {
        let next = machine.step(inputs[0]);
        lemma_run_grows(next, inputs.drop_first());
        lemma_step_grows(machine, inputs[0]);
        lemma_step_keeps_sound(machine, inputs[0]);
        lemma_run_keeps_sound(next, inputs.drop_first());
    }
}

/// The scope that is current once every block on the stack has been left:
/// going down the stack from `environment`, each block hands over to the scope
/// it found when it was entered.
pub open spec fn base_scope(stack: Seq<FrameView>, environment: usize) -> usize
    decreases stack.len(),
{
    if stack.len() == 0 {
        environment
    } else {
        match stack.last() {
            FrameView::Block { statements, index, previous } => base_scope(
                stack.drop_last(),
                previous,
            ),
            _ => base_scope(stack.drop_last(), environment),
        }
    }
}

impl InterpreterView {
    /// Whether leaving every block that is under way leads back to the
    /// scope of the globals, around which no scope lies.
    pub open spec fn anchored(self) -> bool {
        &&& base_scope(self.stack, self.environment) == self.globals
        &&& self.globals < self.heap.environments.len()
        &&& self.heap.environments[self.globals as int].enclosing is None
    }
}

/// The machine is anchored before its first step.
pub proof fn lemma_loaded_is_anchored(locals: Map<usize, usize>, statements: Seq<Rc<Stmt>>)
    ensures
        InterpreterView::loaded(locals, statements).anchored(),
{
    reveal_with_fuel(base_scope, 2);
    let machine = InterpreterView::loaded(locals, statements);
    assert(machine.stack.drop_last() =~= Seq::<FrameView>::empty());
}

/// Putting a frame on the stack that is no block, or a block that keeps the
/// current scope, leaves the base as it was.
proof fn lemma_base_pushed(
    stack: Seq<FrameView>,
    frame: FrameView,
    environment: usize,
    entered: usize,
)
    ensures
        !(frame is Block) ==> base_scope(stack.push(frame), environment) == base_scope(
            stack,
            environment,
        ),
        frame matches FrameView::Block { statements, index, previous } ==> base_scope(
            stack.push(frame),
            entered,
        ) == base_scope(stack, previous),
{
    assert(stack.push(frame).drop_last() =~= stack);
}

/// Whether `after` comes from `before` by a change that keeps the machine
/// anchored: same globals, the scope of the globals untouched but for its
/// values, and the same base.
pub open spec fn keeps_anchor(before: InterpreterView, after: InterpreterView) -> bool {
    before.anchored() ==> after.anchored() && after.globals == before.globals
}

proof fn lemma_anchor_assign(
    machine: InterpreterView,
    name: &Token,
    id: usize,
    value: ObjectView,
)
    ensures
        keeps_anchor(machine, machine.assign_variable(*name, id, value)),
        machine.assign_variable(*name, id, value).stack == machine.stack || machine.assign_variable(
            *name,
            id,
            value,
        ).stack.len() == 0,
{
    lemma_found_in_store(
        machine.heap.environments,
        machine.environment,
        machine.locals[id] as nat,
        name.lexeme@,
    );
    lemma_found_in_store(
        machine.heap.environments,
        machine.globals,
        machine.heap.environments.len(),
        name.lexeme@,
    );
}

proof fn lemma_anchor_call_function(
    machine: InterpreterView,
    function: Function,
    arguments: Seq<ObjectView>,
    paren: &Token,
)
    ensures
        keeps_anchor(machine, machine.call_function(function, arguments, *paren)),
{
    if arguments.len() == function.parameters() && machine.anchored() {
        let scope = machine.heap.environments.len() as usize;
        let opened = machine.heap.scoped(Some(function.closure));
        lemma_bind_parameters_anchor(
            opened,
            scope,
            function.declaration.params@,
            arguments,
            0,
            machine.globals,
        );
        let call = FrameView::Call {
            initializer: if function.is_initializer {
                Some(function.closure)
            } else {
                None
            },
        };
        let block = FrameView::Block {
            statements: function.declaration.body@,
            index: 0,
            previous: machine.environment,
        };
        lemma_base_pushed(machine.stack, call, machine.environment, scope);
        lemma_base_pushed(machine.stack.push(call), block, machine.environment, scope);
    }
}

/// Binding parameters leaves the shape of every scope as it was.
pub proof fn lemma_bind_parameters_anchor(
    heap: HeapView,
    scope: usize,
    params: Seq<Rc<Token>>,
    values: Seq<ObjectView>,
    i: nat,
    place: usize,
)
    requires
        place < heap.environments.len(),
    ensures
        place < bind_parameters(heap, scope, params, values, i).environments.len(),
        bind_parameters(heap, scope, params, values, i).environments[place as int].enclosing
            == heap.environments[place as int].enclosing,
    decreases params.len() - i,
{
    if i < params.len() && i < values.len() {
        lemma_bind_parameters_anchor(
            heap.defined(scope, params[i as int].lexeme@, values[i as int]),
            scope,
            params,
            values,
            i + 1,
            place,
        );
    }
}

proof fn lemma_anchor_call(
    machine: InterpreterView,
    callee: ObjectView,
    arguments: Seq<ObjectView>,
    paren: &Token,
)
    ensures
        keeps_anchor(machine, machine.call(callee, arguments, *paren)),
{
    match callee {
        ObjectView::Function(f) => {
            if f < machine.heap.functions.len() {
                match machine.heap.functions[f as int] {
                    Callable::Function(function) => lemma_anchor_call_function(
                        machine,
                        function,
                        arguments,
                        paren,
                    ),
                    _ => {},
                }
            }
        },
        ObjectView::Class(class) => {
            if class < machine.heap.classes.len() {
                let instance = machine.heap.instances.len() as usize;
                let heap = machine.heap.with_instance(class);
                match find_method(machine.heap.classes, class, "init"@) {
                    Some(initializer) => {
                        let bound_heap = HeapView {
                            environments: bound(heap.environments, initializer, instance).0,
                            ..heap
                        };
                        let ready = machine.with_heap(bound_heap).pushed(
                            FrameView::Construct { instance },
                        );
                        lemma_base_pushed(
                            machine.stack,
                            FrameView::Construct { instance },
                            machine.environment,
                            0,
                        );
                        lemma_anchor_call_function(
                            ready,
                            bound(heap.environments, initializer, instance).1,
                            arguments,
                            paren,
                        );
                    },
                    None => {},
                }
            }
        },
        _ => {},
    }
}

proof fn lemma_anchor_resume(machine: InterpreterView, value: ObjectView)
    requires
        machine.control is Next,
    ensures
        keeps_anchor(machine, machine.resume(value)),
{
    if machine.stack.len() > 0 && machine.anchored() {
        let rest = machine.popped();
        let top = machine.stack.last();
        assert(!(top is Block) ==> rest.anchored());
        match top {
            FrameView::BinaryRight { op, right } => lemma_base_pushed(
                rest.stack,
                FrameView::BinaryApply { op, left: value },
                rest.environment,
                0,
            ),
            FrameView::Assign { name, id } => lemma_anchor_assign(rest, &name, id, value),
            FrameView::Callee { paren, arguments } => {
                lemma_anchor_call(rest, value, Seq::empty(), &paren);
                lemma_base_pushed(
                    rest.stack,
                    FrameView::Arguments { paren, arguments, callee: value, values: Seq::empty() },
                    rest.environment,
                    0,
                );
            },
            FrameView::Arguments { paren, arguments, callee, values } => {
                lemma_anchor_call(rest, callee, values.push(value), &paren);
                lemma_base_pushed(
                    rest.stack,
                    FrameView::Arguments { paren, arguments, callee, values: values.push(value) },
                    rest.environment,
                    0,
                );
            },
            FrameView::SetObject { name, value: written } => lemma_base_pushed(
                rest.stack,
                FrameView::SetValue { name, object: value },
                rest.environment,
                0,
            ),
            FrameView::WhileCondition { condition, body } => lemma_base_pushed(
                rest.stack,
                FrameView::WhileBody { condition, body },
                rest.environment,
                0,
            ),
            _ => {},
        }
    }
}

/// What starting on an expression or a statement puts on the stack keeps
/// the base: a frame that is no block, or a block that keeps the current
/// scope.
proof fn lemma_anchor_pushes(machine: InterpreterView)
    requires
        machine.anchored(),
    ensures
        forall|frame: FrameView|
            !(frame is Block) ==> #[trigger] base_scope(
                machine.stack.push(frame),
                machine.environment,
            ) == machine.globals,
        forall|statements: Seq<Rc<Stmt>>, entered: usize| #[trigger]
            base_scope(
                machine.stack.push(
                    FrameView::Block { statements, index: 0, previous: machine.environment },
                ),
                entered,
            ) == machine.globals,
{
    assert forall|frame: FrameView| !(frame is Block) implies #[trigger] base_scope(
        machine.stack.push(frame),
        machine.environment,
    ) == machine.globals by {
        lemma_base_pushed(machine.stack, frame, machine.environment, 0);
    }
    assert forall|statements: Seq<Rc<Stmt>>, entered: usize| #[trigger]
        base_scope(
            machine.stack.push(
                FrameView::Block { statements, index: 0, previous: machine.environment },
            ),
            entered,
        ) == machine.globals by {
        lemma_base_pushed(
            machine.stack,
            FrameView::Block { statements, index: 0, previous: machine.environment },
            machine.environment,
            entered,
        );
    }
}

proof fn lemma_anchor_visit_expr(machine: InterpreterView, e: &HashExpr)
    requires
        machine.control is Next,
    ensures
        keeps_anchor(machine, machine.visit_expr(*e)),
{
    if machine.anchored() {
        lemma_anchor_pushes(machine);
    }
}

proof fn lemma_anchor_visit_stmt(machine: InterpreterView, s: &Stmt)
    requires
        machine.control is Next,
    ensures
        keeps_anchor(machine, machine.visit_stmt(*s)),
{
    if machine.anchored() {
        lemma_anchor_pushes(machine);
    }
}

proof fn lemma_anchor_leave(machine: InterpreterView, value: ObjectView)
    requires
        machine.control is Next,
    ensures
        keeps_anchor(machine, machine.advance()),
        keeps_anchor(machine, machine.unwind(value)),
{
    if machine.stack.len() > 0 && machine.anchored() {
        let rest = machine.popped();
        match machine.stack.last() {
            FrameView::Block { statements, index, previous } => lemma_base_pushed(
                rest.stack,
                FrameView::Block { statements, index: (index + 1) as usize, previous },
                previous,
                machine.environment,
            ),
            FrameView::WhileBody { condition, body } => lemma_base_pushed(
                rest.stack,
                FrameView::WhileCondition { condition, body },
                rest.environment,
                0,
            ),
            _ => {},
        }
    }
}

/// A step keeps the machine anchored. So a program that has run to its end,
/// or has stopped on an error, has left every block and stands in the scope
/// of the globals again.
pub proof fn lemma_step_keeps_anchor(machine: InterpreterView, reply: Option<u64>)
    requires
        machine.anchored(),
    ensures
        machine.step(reply).anchored(),
        machine.step(reply).globals == machine.globals,
        machine.step(reply).stack.len() == 0 ==> machine.step(reply).environment
            == machine.globals,
{
    let idle = machine.becoming(ControlView::Next);
    match machine.control {
        ControlView::Evaluate(e) => lemma_anchor_visit_expr(idle, &e),
        ControlView::Execute(s) => lemma_anchor_visit_stmt(idle, &s),
        ControlView::Value(value) => lemma_anchor_resume(idle, value),
        ControlView::Next => lemma_anchor_leave(idle, ObjectView::Nil),
        ControlView::Return(value) => lemma_anchor_leave(idle, value),
        _ => {},
    }
}

/// What a frame waits for, and what it hands on when it is done: the value
/// of an expression, or the end of a statement.
#[derive(PartialEq, Eq, Structural)]
pub enum Turn {
    Value,
    Next,
}

/// What the frame waits for. A block, the body of a loop and a call wait for
/// a statement to end; every other frame waits for a value.
pub open spec fn accepts(frame: FrameView) -> Turn {
    match frame {
        FrameView::Block { statements, index, previous } => Turn::Next,
        FrameView::WhileBody { condition, body } => Turn::Next,
        FrameView::Call { initializer } => Turn::Next,
        _ => Turn::Value,
    }
}

/// What the frame hands on to the frame below it: frames of expressions and
/// calls a value, frames of statements the end of the statement.
pub open spec fn yields(frame: FrameView) -> Turn {
    match frame {
        FrameView::Discard => Turn::Next,
        FrameView::Print => Turn::Next,
        FrameView::Var { name } => Turn::Next,
        FrameView::Block { statements, index, previous } => Turn::Next,
        FrameView::If { then_branch, else_branch } => Turn::Next,
        FrameView::WhileCondition { condition, body } => Turn::Next,
        FrameView::WhileBody { condition, body } => Turn::Next,
        FrameView::Return => Turn::Next,
        FrameView::ClassSuper { declaration } => Turn::Next,
        _ => Turn::Value,
    }
}

/// Whether the stack waits for `turn`: its top frame does, or it is empty
/// and a statement is to end.
pub open spec fn awaits(stack: Seq<FrameView>, turn: Turn) -> bool {
    if stack.len() == 0 {
        turn == Turn::Next
    } else {
        accepts(stack.last()) == turn
    }
}

/// Whether each frame hands on what the frame below it waits for, and the
/// lowest frame the end of a statement.
pub open spec fn chained(stack: Seq<FrameView>) -> bool
    decreases stack.len(),
{
    if stack.len() == 0 {
        true
    } else {
        awaits(stack.drop_last(), yields(stack.last())) && chained(stack.drop_last())
    }
}

impl InterpreterView {
    /// Whether the stack is chained and waits for what the machine is about
    /// to produce. In such a state a value always finds a frame that takes
    /// values, and the end of a statement a frame that takes that, or the end
    /// of the program.
    pub open spec fn orderly(self) -> bool {
        &&& chained(self.stack)
        &&& match self.control {
            ControlView::Evaluate(_) => awaits(self.stack, Turn::Value),
            ControlView::Value(_) => awaits(self.stack, Turn::Value),
            ControlView::Await(_) => awaits(self.stack, Turn::Value),
            ControlView::Execute(_) => awaits(self.stack, Turn::Next),
            ControlView::Next => awaits(self.stack, Turn::Next),
            ControlView::Output(_) => awaits(self.stack, Turn::Next),
            _ => true,
        }
    }
}

/// The machine is orderly before its first step.
pub proof fn lemma_loaded_is_orderly(locals: Map<usize, usize>, statements: Seq<Rc<Stmt>>)
    ensures
        InterpreterView::loaded(locals, statements).orderly(),
{
    let machine = InterpreterView::loaded(locals, statements);
    assert(chained(Seq::<FrameView>::empty()));
    lemma_chain_pushed(Seq::empty(), machine.stack[0]);
    assert(machine.stack =~= Seq::<FrameView>::empty().push(machine.stack[0]));
}

/// A chained stack stays chained when its top frame is taken off, and then
/// waits for what that frame hands on.
proof fn lemma_chain_popped(stack: Seq<FrameView>)
    requires
        chained(stack),
        stack.len() > 0,
    ensures
        chained(stack.drop_last()),
        awaits(stack.drop_last(), yields(stack.last())),
{
}

/// A chained stack stays chained when it takes a frame that hands on what
/// the stack waits for.
proof fn lemma_chain_pushed(stack: Seq<FrameView>, frame: FrameView)
    requires
        chained(stack),
        awaits(stack, yields(frame)),
    ensures
        chained(stack.push(frame)),
        awaits(stack.push(frame), accepts(frame)),
{
    assert(stack.push(frame).drop_last() =~= stack);
}

proof fn lemma_order_call_function(
    machine: InterpreterView,
    function: Function,
    arguments: Seq<ObjectView>,
    paren: &Token,
)
    requires
        chained(machine.stack),
        awaits(machine.stack, Turn::Value),
    ensures
        machine.call_function(function, arguments, *paren).orderly(),
{
    if arguments.len() == function.parameters() {
        let call = FrameView::Call {
            initializer: if function.is_initializer {
                Some(function.closure)
            } else {
                None
            },
        };
        let block = FrameView::Block {
            statements: function.declaration.body@,
            index: 0,
            previous: machine.environment,
        };
        lemma_chain_pushed(machine.stack, call);
        lemma_chain_pushed(machine.stack.push(call), block);
    }
}

proof fn lemma_order_call(
    machine: InterpreterView,
    callee: ObjectView,
    arguments: Seq<ObjectView>,
    paren: &Token,
)
    requires
        chained(machine.stack),
        awaits(machine.stack, Turn::Value),
    ensures
        machine.call(callee, arguments, *paren).orderly(),
{
    match callee {
        ObjectView::Function(f) => {
            if f < machine.heap.functions.len() {
                match machine.heap.functions[f as int] {
                    Callable::Function(function) => lemma_order_call_function(
                        machine,
                        function,
                        arguments,
                        paren,
                    ),
                    _ => {},
                }
            }
        },
        ObjectView::Class(class) => {
            if class < machine.heap.classes.len() {
                let instance = machine.heap.instances.len() as usize;
                let heap = machine.heap.with_instance(class);
                match find_method(machine.heap.classes, class, "init"@) {
                    Some(initializer) => {
                        let bound_heap = HeapView {
                            environments: bound(heap.environments, initializer, instance).0,
                            ..heap
                        };
                        let construct = FrameView::Construct { instance };
                        lemma_chain_pushed(machine.stack, construct);
                        lemma_order_call_function(
                            machine.with_heap(bound_heap).pushed(construct),
                            bound(heap.environments, initializer, instance).1,
                            arguments,
                            paren,
                        );
                    },
                    None => {},
                }
            }
        },
        _ => {},
    }
}

proof fn lemma_order_resume(machine: InterpreterView, value: ObjectView)
    requires
        chained(machine.stack),
        awaits(machine.stack, Turn::Value),
    ensures
        machine.resume(value).orderly(),
{
    lemma_chain_popped(machine.stack);
    let rest = machine.popped();
    match machine.stack.last() {
        FrameView::BinaryRight { op, right } => lemma_chain_pushed(
            rest.stack,
            FrameView::BinaryApply { op, left: value },
        ),
        FrameView::Callee { paren, arguments } => {
            lemma_order_call(rest, value, Seq::empty(), &paren);
            lemma_chain_pushed(
                rest.stack,
                FrameView::Arguments { paren, arguments, callee: value, values: Seq::empty() },
            );
        },
        FrameView::Arguments { paren, arguments, callee, values } => {
            lemma_order_call(rest, callee, values.push(value), &paren);
            lemma_chain_pushed(
                rest.stack,
                FrameView::Arguments { paren, arguments, callee, values: values.push(value) },
            );
        },
        FrameView::SetObject { name, value: written } => lemma_chain_pushed(
            rest.stack,
            FrameView::SetValue { name, object: value },
        ),
        FrameView::WhileCondition { condition, body } => lemma_chain_pushed(
            rest.stack,
            FrameView::WhileBody { condition, body },
        ),
        _ => {},
    }
}

/// Every frame that starting on an expression or a statement puts on the
/// stack keeps the stack chained.
proof fn lemma_order_pushes(machine: InterpreterView)
    requires
        chained(machine.stack),
    ensures
        forall|frame: FrameView|
            awaits(machine.stack, yields(frame)) ==> chained(
                #[trigger] machine.stack.push(frame),
            ) && awaits(machine.stack.push(frame), accepts(frame)),
{
    assert forall|frame: FrameView| awaits(machine.stack, yields(frame)) implies chained(
        #[trigger] machine.stack.push(frame),
    ) && awaits(machine.stack.push(frame), accepts(frame)) by {
        lemma_chain_pushed(machine.stack, frame);
    }
}

proof fn lemma_order_visit_expr(machine: InterpreterView, e: &HashExpr)
    requires
        chained(machine.stack),
        awaits(machine.stack, Turn::Value),
    ensures
        machine.visit_expr(*e).orderly(),
{
    lemma_order_pushes(machine);
}

proof fn lemma_order_visit_stmt(machine: InterpreterView, s: &Stmt)
    requires
        chained(machine.stack),
        awaits(machine.stack, Turn::Next),
    ensures
        machine.visit_stmt(*s).orderly(),
{
    lemma_order_pushes(machine);
}

proof fn lemma_order_leave(machine: InterpreterView, value: ObjectView)
    requires
        chained(machine.stack),
    ensures
        awaits(machine.stack, Turn::Next) ==> machine.advance().orderly(),
        machine.unwind(value).orderly(),
{
    if machine.stack.len() > 0 {
        lemma_chain_popped(machine.stack);
        let rest = machine.popped();
        match machine.stack.last() {
            FrameView::Block { statements, index, previous } => lemma_chain_pushed(
                rest.stack,
                FrameView::Block { statements, index: (index + 1) as usize, previous },
            ),
            FrameView::WhileBody { condition, body } => lemma_chain_pushed(
                rest.stack,
                FrameView::WhileCondition { condition, body },
            ),
            _ => {},
        }
    }
}

/// A step keeps the machine orderly. So the machine never has a value at
/// hand that no frame waits for, nor a statement that ends where a value is
/// waited for.
pub proof fn lemma_step_keeps_order(machine: InterpreterView, reply: Option<u64>)
    requires
        machine.orderly(),
    ensures
        machine.step(reply).orderly(),
{
    let idle = machine.becoming(ControlView::Next);
    match machine.control {
        ControlView::Evaluate(e) => lemma_order_visit_expr(idle, &e),
        ControlView::Execute(s) => lemma_order_visit_stmt(idle, &s),
        ControlView::Value(value) => lemma_order_resume(idle, value),
        ControlView::Next => lemma_order_leave(idle, ObjectView::Nil),
        ControlView::Return(value) => lemma_order_leave(idle, value),
        _ => {},
    }
}

/// Whether every class lies after its superclass in the store. Classes are
/// declared after their superclasses, so no chain of superclasses comes back
/// to where it started.
pub open spec fn layered(classes: Seq<ClassView>) -> bool {
    forall|i: int|
        0 <= i < classes.len() ==> ((#[trigger] classes[i]).superclass matches Some(above)
            ==> above < i)
}

/// Binding parameters changes scopes only.
proof fn lemma_bind_parameters_classes(
    heap: HeapView,
    scope: usize,
    params: Seq<Rc<Token>>,
    values: Seq<ObjectView>,
    i: nat,
)
    ensures
        bind_parameters(heap, scope, params, values, i).classes == heap.classes,
    decreases params.len() - i,
{
    if i < params.len() && i < values.len() {
        lemma_bind_parameters_classes(
            heap.defined(scope, params[i as int].lexeme@, values[i as int]),
            scope,
            params,
            values,
            i + 1,
        );
    }
}

proof fn lemma_layers_call_function(
    machine: InterpreterView,
    function: Function,
    arguments: Seq<ObjectView>,
    paren: &Token,
)
    ensures
        machine.call_function(function, arguments, *paren).heap.classes == machine.heap.classes,
{
    lemma_bind_parameters_classes(
        machine.heap.scoped(Some(function.closure)),
        machine.heap.environments.len() as usize,
        function.declaration.params@,
        arguments,
        0,
    );
}

proof fn lemma_layers_call(
    machine: InterpreterView,
    callee: ObjectView,
    arguments: Seq<ObjectView>,
    paren: &Token,
)
    ensures
        machine.call(callee, arguments, *paren).heap.classes == machine.heap.classes,
{
    match callee {
        ObjectView::Function(f) => {
            if f < machine.heap.functions.len() {
                match machine.heap.functions[f as int] {
                    Callable::Function(function) => lemma_layers_call_function(
                        machine,
                        function,
                        arguments,
                        paren,
                    ),
                    _ => {},
                }
            }
        },
        ObjectView::Class(class) => {
            if class < machine.heap.classes.len() {
                let instance = machine.heap.instances.len() as usize;
                let heap = machine.heap.with_instance(class);
                match find_method(machine.heap.classes, class, "init"@) {
                    Some(initializer) => {
                        let bound_heap = HeapView {
                            environments: bound(heap.environments, initializer, instance).0,
                            ..heap
                        };
                        lemma_layers_call_function(
                            machine.with_heap(bound_heap).pushed(
                                FrameView::Construct { instance },
                            ),
                            bound(heap.environments, initializer, instance).1,
                            arguments,
                            paren,
                        );
                    },
                    None => {},
                }
            }
        },
        _ => {},
    }
}

proof fn lemma_layers_declare_class(
    machine: InterpreterView,
    declaration: &ClassStmt,
    superclass: Option<usize>,
)
    requires
        layered(machine.heap.classes),
        superclass matches Some(above) ==> above < machine.heap.classes.len(),
    ensures
        layered(machine.declare_class(*declaration, superclass).heap.classes),
{
    let after = machine.declare_class(*declaration, superclass).heap.classes;
    assert forall|i: int|
        0 <= i < after.len() implies ((#[trigger] after[i]).superclass matches Some(above)
        ==> above < i) by {
        if i < machine.heap.classes.len() {
            assert(after[i] == machine.heap.classes[i]);
        }
    }
}

proof fn lemma_layers_fields(classes: Seq<ClassView>, after: Seq<ClassView>)
    requires
        layered(classes),
        after.len() == classes.len(),
        forall|i: int|
            0 <= i < classes.len() ==> (#[trigger] after[i]).superclass == classes[i].superclass,
    ensures
        layered(after),
{
    assert forall|i: int|
        0 <= i < after.len() implies ((#[trigger] after[i]).superclass matches Some(above)
        ==> above < i) by {
        assert(after[i].superclass == classes[i].superclass);
    }
}

proof fn lemma_layers_set_property(
    machine: InterpreterView,
    object: ObjectView,
    name: &Token,
    value: ObjectView,
)
    requires
        layered(machine.heap.classes),
    ensures
        layered(machine.set_property(object, *name, value).heap.classes),
{
    lemma_layers_fields(
        machine.heap.classes,
        machine.set_property(object, *name, value).heap.classes,
    );
}

proof fn lemma_layers_visit_stmt(machine: InterpreterView, s: &Stmt)
    requires
        layered(machine.heap.classes),
    ensures
        layered(machine.visit_stmt(*s).heap.classes),
{
    match s {
        Stmt::Class(declaration) => {
            if declaration.superclass.is_none() {
                lemma_layers_declare_class(machine, declaration, None);
            }
        },
        _ => {},
    }
}

proof fn lemma_layers_resume(machine: InterpreterView, value: ObjectView)
    requires
        layered(machine.heap.classes),
    ensures
        layered(machine.resume(value).heap.classes),
{
    if machine.stack.len() > 0 {
        let rest = machine.popped();
        match machine.stack.last() {
            FrameView::Assign { name, id } => {
                lemma_assign_grows(rest, &name, id, value);
            },
            FrameView::Callee { paren, arguments } => {
                lemma_layers_call(rest, value, Seq::empty(), &paren);
            },
            FrameView::Arguments { paren, arguments, callee, values } => {
                lemma_layers_call(rest, callee, values.push(value), &paren);
            },
            FrameView::SetValue { name, object } => {
                lemma_layers_set_property(rest, object, &name, value);
            },
            FrameView::ClassSuper { declaration } => match value {
                ObjectView::Class(above) => {
                    if above < rest.heap.classes.len() {
                        lemma_layers_declare_class(rest, &declaration, Some(above));
                    }
                },
                _ => {},
            },
            _ => {},
        }
    }
}

/// A step keeps the classes layered.
pub proof fn lemma_step_keeps_layers(machine: InterpreterView, reply: Option<u64>)
    requires
        layered(machine.heap.classes),
    ensures
        layered(machine.step(reply).heap.classes),
{
    let idle = machine.becoming(ControlView::Next);
    match machine.control {
        ControlView::Execute(s) => lemma_layers_visit_stmt(idle, &s),
        ControlView::Value(value) => lemma_layers_resume(idle, value),
        _ => {},
    }
}

impl InterpreterView {
    /// What holds of every state that the machine reaches: it is sound,
    /// anchored and orderly, and its classes are layered.
    pub open spec fn well_formed(self) -> bool {
        self.sound() && self.anchored() && self.orderly() && layered(self.heap.classes)
    }
}

/// The machine is well formed before its first step.
pub proof fn lemma_loaded_is_well_formed(locals: Map<usize, usize>, statements: Seq<Rc<Stmt>>)
    ensures
        InterpreterView::loaded(locals, statements).well_formed(),
{
    lemma_loaded_is_sound(locals, statements);
    lemma_loaded_is_anchored(locals, statements);
    lemma_loaded_is_orderly(locals, statements);
}

/// A step takes a well-formed machine to a well-formed machine, as long as
/// the stores fit in memory.
pub proof fn lemma_step_keeps_well_formed(machine: InterpreterView, reply: Option<u64>)
    requires
        machine.well_formed(),
        fits(sizes(machine.step(reply).heap)),
    ensures
        machine.step(reply).well_formed(),
{
    lemma_step_keeps_sound(machine, reply);
    lemma_step_keeps_anchor(machine, reply);
    lemma_step_keeps_order(machine, reply);
    lemma_step_keeps_layers(machine, reply);
}

/// Every state that the machine reaches from its first is well formed,
/// whatever the program and the answers of the driver, as long as the
/// stores fit in memory.
pub proof fn lemma_reached_states(
    locals: Map<usize, usize>,
    statements: Seq<Rc<Stmt>>,
    inputs: Seq<Option<u64>>,
)
    requires
        fits(sizes(InterpreterView::loaded(locals, statements).run(inputs).heap)),
    ensures
        InterpreterView::loaded(locals, statements).run(inputs).well_formed(),
{
    let machine = InterpreterView::loaded(locals, statements);
    lemma_loaded_is_well_formed(locals, statements);
    lemma_run_keeps_sound(machine, inputs);
    lemma_run_keeps_shape(machine, inputs);
}

/// A run keeps the machine anchored and orderly, and its classes layered.
pub proof fn lemma_run_keeps_shape(machine: InterpreterView, inputs: Seq<Option<u64>>)
    ensures
        machine.anchored() ==> machine.run(inputs).anchored(),
        machine.orderly() ==> machine.run(inputs).orderly(),
        layered(machine.heap.classes) ==> layered(machine.run(inputs).heap.classes),
    decreases inputs.len(),
{
    if inputs.len() > 0 {
        let next = machine.step(inputs[0]);
        if machine.anchored() {
            lemma_step_keeps_anchor(machine, inputs[0]);
        }
        if machine.orderly() {
            lemma_step_keeps_order(machine, inputs[0]);
        }
        if layered(machine.heap.classes) {
            lemma_step_keeps_layers(machine, inputs[0]);
        }
        lemma_run_keeps_shape(next, inputs.drop_first());
    }
}

} // verus!
