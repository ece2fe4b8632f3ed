//! Laws of the machine: what holds of every program and every state.

use vstd::prelude::*;
use std::rc::Rc;
use crate::class::find_method;
use crate::environment::{
    ancestor,
    lemma_binding_keeps_chain,
    read_at,
    EnvironmentView,
};
use crate::expr::HashExpr;
use crate::function::{bound, this_scope, Callable, Function};
use crate::heap::HeapView;
use crate::interpreter::{
    ControlView,
    ErrorKind,
    FrameView,
    InterpretErrorView,
    InterpreterView,
    Operation,
    Request,
};
use crate::number::is_zero;
use crate::object::ObjectView;
use crate::semantics::bind_parameters;
use crate::soundness::{function_sound, heap_sound, scope_sound, sizes};
use crate::stmt::Stmt;
use crate::token::{Token, TokenType};

verus! {

/// Whether every scope of the store lies inside a scope of the store.
pub open spec fn closed(scopes: Seq<EnvironmentView>) -> bool {
    forall|i: int|
        0 <= i < scopes.len() ==> ((#[trigger] scopes[i]).enclosing matches Some(around)
            ==> around < scopes.len())
}

/// No step changes the table of distances or the place of the globals.
pub proof fn lemma_step_keeps_tables(machine: InterpreterView, reply: Option<u64>)
    ensures
        machine.step(reply).locals == machine.locals,
        machine.step(reply).globals == machine.globals,
{
}

/// No run changes the table of distances or the place of the globals.
pub proof fn lemma_run_keeps_tables(machine: InterpreterView, inputs: Seq<Option<u64>>)
    ensures
        machine.run(inputs).locals == machine.locals,
        machine.run(inputs).globals == machine.globals,
    decreases inputs.len(),
{
    if inputs.len() > 0 {
        lemma_step_keeps_tables(machine, inputs[0]);
        lemma_run_keeps_tables(machine.step(inputs[0]), inputs.drop_first());
    }
}

/// A block that leaves the stores, the stack and the current scope as it
/// found them can be run again with the same result: entered from the state
/// it ended in and given the same inputs, the machine does and ends as it did
/// the first time.
pub proof fn lemma_block_without_effects_repeats(
    machine: InterpreterView,
    statements: Seq<Rc<Stmt>>,
    environment: usize,
    inputs: Seq<Option<u64>>,
)
    requires
        ({
            let after = machine.execute_block(statements, environment).becoming(
                ControlView::Next,
            ).run(inputs);
            &&& after.heap == machine.heap
            &&& after.stack == machine.stack
            &&& after.environment == machine.environment
        }),
    ensures
        ({
            let first = machine.execute_block(statements, environment).becoming(ControlView::Next);
            let second = first.run(inputs).execute_block(statements, environment).becoming(
                ControlView::Next,
            );
            &&& second.trace(inputs) == first.trace(inputs)
            &&& second.run(inputs) == first.run(inputs)
        }),
{
    let first = machine.execute_block(statements, environment).becoming(ControlView::Next);
    lemma_run_keeps_tables(first, inputs);
    let second = first.run(inputs).execute_block(statements, environment).becoming(
        ControlView::Next,
    );
    assert(second == first);
}

/// A store that gains a scope keeps the chains of the scopes it had.
pub proof fn lemma_new_scope_keeps_chain(
    scopes: Seq<EnvironmentView>,
    scope: EnvironmentView,
    from: usize,
    distance: nat,
)
    requires
        closed(scopes),
        from < scopes.len(),
    ensures
        ancestor(scopes.push(scope), from, distance) == ancestor(scopes, from, distance),
    decreases distance,
{
    if distance > 0 {
        match scopes[from as int].enclosing {
            Some(around) => lemma_new_scope_keeps_chain(
                scopes,
                scope,
                around,
                (distance - 1) as nat,
            ),
            None => {},
        }
    }
}

/// Binding the parameters of a call changes no chain, and no value outside
/// the scope of the call.
pub proof fn lemma_parameters_stay_local(
    heap: HeapView,
    scope: usize,
    params: Seq<Rc<Token>>,
    values: Seq<ObjectView>,
    i: nat,
    from: usize,
    distance: nat,
    key: Seq<char>,
)
    requires
        ancestor(heap.environments, from, distance) != Some(scope),
    ensures
        ancestor(bind_parameters(heap, scope, params, values, i).environments, from, distance)
            == ancestor(heap.environments, from, distance),
        read_at(bind_parameters(heap, scope, params, values, i).environments, from, distance, key)
            == read_at(heap.environments, from, distance, key),
    decreases params.len() - i,
{
    if i < params.len() && i < values.len() {
        let next = heap.defined(scope, params[i as int].lexeme@, values[i as int]);
        if scope < heap.environments.len() {
            lemma_binding_keeps_chain(
                heap.environments,
                scope,
                params[i as int].lexeme@,
                values[i as int],
                from,
                distance,
            );
            crate::environment::lemma_found_in_store(heap.environments, from, distance, key);
        }
        lemma_parameters_stay_local(next, scope, params, values, i + 1, from, distance, key);
    }
}

/// In sound stores every scope lies inside a scope of the stores.
pub proof fn lemma_sound_is_closed(heap: HeapView)
    requires
        heap_sound(heap),
    ensures
        closed(heap.environments),
{
    assert forall|i: int| 0 <= i < heap.environments.len() implies ((
    #[trigger] heap.environments[i]).enclosing matches Some(around) ==> around
        < heap.environments.len()) by {
        assert(scope_sound(sizes(heap), heap.environments[i]));
    }
}

/// A function sees the scope it closed over as that scope is when the
/// function is called: inside the call, a name that lies `distance + 1`
/// scopes out reads what the name `distance` scopes out from the closure
/// holds at the time of the call, whatever was assigned there since the
/// function was declared.
pub proof fn lemma_call_sees_captured_scope(
    machine: InterpreterView,
    function: Function,
    arguments: Seq<ObjectView>,
    paren: Token,
    distance: nat,
    key: Seq<char>,
)
    requires
        machine.sound(),
        function_sound(sizes(machine.heap), function),
        arguments.len() == function.parameters(),
    ensures
        ({
            let called = machine.call_function(function, arguments, paren);
            &&& called.environment == machine.heap.environments.len()
            &&& read_at(called.heap.environments, called.environment, distance + 1, key)
                == read_at(machine.heap.environments, function.closure, distance, key)
        }),
{
    lemma_sound_is_closed(machine.heap);
    let scope = machine.heap.environments.len() as usize;
    let opened = machine.heap.scoped(Some(function.closure));
    let fresh = opened.environments[scope as int];
    lemma_new_scope_keeps_chain(machine.heap.environments, fresh, function.closure, distance);
    crate::environment::lemma_found_in_store(
        machine.heap.environments,
        function.closure,
        distance,
        key,
    );
    assert(ancestor(opened.environments, scope, distance + 1) == ancestor(
        opened.environments,
        function.closure,
        distance,
    ));
    lemma_parameters_stay_local(
        opened,
        scope,
        function.declaration.params@,
        arguments,
        0,
        scope,
        distance + 1,
        key,
    );
}

/// A method read off an instance is a function in whose scope `this` is
/// that instance.
pub proof fn lemma_method_is_bound_to_instance(heap: HeapView, instance: usize, key: Seq<char>)
    requires
        heap_sound(heap),
        instance < heap.instances.len(),
        !heap.instances[instance as int].fields.contains_key(key),
        find_method(heap.classes, heap.instances[instance as int].class, key) is Some,
    ensures
        ({
            let (after, found) = heap.instance_get(instance, key);
            &&& found matches Ok(ObjectView::Function(place))
            &&& place < after.functions.len()
            &&& after.functions[place as int] matches Callable::Function(method)
            &&& method.declaration == find_method(
                heap.classes,
                heap.instances[instance as int].class,
                key,
            )->Some_0.declaration
            &&& read_at(after.environments, method.closure, 0, "this"@) == Ok::<
                ObjectView,
                InterpretErrorView,
            >(ObjectView::Instance(instance))
        }),
{
    let method = find_method(heap.classes, heap.instances[instance as int].class, key)->Some_0;
    let (scopes, function) = bound(heap.environments, method, instance);
    assert(ancestor(scopes, function.closure, 0) == Some(function.closure));
    assert(scopes[function.closure as int] == this_scope(method.closure, instance));
}

/// `and` and `or` give their left operand, and never turn to the right one,
/// where the left one settles the matter: `and` on a false one, `or` on a
/// true one. Otherwise they turn to the right operand, whose value is theirs.
pub proof fn lemma_short_circuit(
    machine: InterpreterView,
    op: Rc<Token>,
    right: Rc<HashExpr>,
    left: ObjectView,
    reply: Option<u64>,
)
    requires
        op.token_type == TokenType::And || op.token_type == TokenType::Or,
    ensures
        ({
            let before = machine.pushed(FrameView::Logical { op, right }).becoming(
                ControlView::Value(left),
            );
            let settled = (op.token_type == TokenType::And) != left.is_truthy();
            before.step(reply) == if settled {
                machine.becoming(ControlView::Value(left))
            } else {
                machine.becoming(ControlView::Evaluate(right))
            }
        }),
{
    let before = machine.pushed(FrameView::Logical { op, right }).becoming(
        ControlView::Value(left),
    );
    let idle = before.becoming(ControlView::Next);
    assert(idle.stack.last() == (FrameView::Logical { op, right }));
    assert(idle.popped().stack =~= machine.stack);
    assert(idle.popped() == machine.becoming(ControlView::Next));
}

/// A division of numbers is an error exactly where the divisor is a zero;
/// elsewhere the quotient is asked for.
pub proof fn lemma_division(machine: InterpreterView, op: Token, left: u64, right: u64)
    requires
        op.token_type == TokenType::Slash,
    ensures
        machine.binary(op, ObjectView::Number(left), ObjectView::Number(right)) == if is_zero(
            right,
        ) {
            machine.failed_at(ErrorKind::DivisionByZero, op)
        } else {
            machine.becoming(
                ControlView::Await(
                    Request::Arithmetic { operation: Operation::Divide, left, right },
                ),
            )
        },
{
}

/// A block gives back the scope it found, whichever way it is left: when
/// its last statement is done with, and when a `return` passes through it.
pub proof fn lemma_block_restores_scope(
    machine: InterpreterView,
    statements: Seq<Rc<Stmt>>,
    index: usize,
    previous: usize,
    value: ObjectView,
    reply: Option<u64>,
)
    requires
        machine.stack.len() > 0,
        machine.stack.last() == (FrameView::Block { statements, index, previous }),
    ensures
        index >= statements.len() ==> machine.becoming(ControlView::Next).step(reply) == (
        InterpreterView {
            environment: previous,
            stack: machine.stack.drop_last(),
            control: ControlView::Next,
            ..machine
        }),
        machine.becoming(ControlView::Return(value)).step(reply) == (InterpreterView {
            environment: previous,
            stack: machine.stack.drop_last(),
            control: ControlView::Return(value),
            ..machine
        }),
{
}

/// A block that is entered and has nothing left to run leaves the machine
/// as it was: entering changes nothing but the stack and the current scope,
/// and leaving undoes both.
pub proof fn lemma_empty_block_changes_nothing(
    machine: InterpreterView,
    environment: usize,
    reply: Option<u64>,
)
    ensures
        machine.execute_block(Seq::empty(), environment).becoming(ControlView::Next).step(reply)
            == machine.becoming(ControlView::Next),
{
    let entered = machine.execute_block(Seq::empty(), environment).becoming(ControlView::Next);
    assert(entered.stack.drop_last() =~= machine.stack);
}

/// An error ends every block and call at once: the machine that stops on
/// an error has an empty stack and stands in the scope of the globals.
pub proof fn lemma_failure_leaves_all_blocks(
    machine: InterpreterView,
    kind: ErrorKind,
    line: usize,
    lexeme: Seq<char>,
)
    ensures
        machine.failed(kind, line, lexeme).stack.len() == 0,
        machine.failed(kind, line, lexeme).environment == machine.globals,
        machine.failed(kind, line, lexeme).heap == machine.heap,
        machine.failed(kind, line, lexeme).action() is Fail,
{
}

} // verus!
