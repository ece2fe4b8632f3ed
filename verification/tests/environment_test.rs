use rlox::class::Class;
use rlox::environment::{Bindings, Environment};
use rlox::function::{Callable, Clock, Function};
use rlox::heap::Heap;
use rlox::instance::Instance;
use rlox::interpreter::{ErrorKind, InterpretError};
use rlox::object::Object;
use rlox::stmt::FunctionStmt;
use rlox::token::{Token, TokenType};
use std::rc::Rc;

fn key(name: &str) -> String {
    name.to_string()
}

fn number(value: f64) -> Object {
    Object::Number(value.to_bits())
}

fn kind_of<T: std::fmt::Debug>(result: Result<T, InterpretError>) -> ErrorKind {
    match result {
        Err(InterpretError::Error(error)) => error.kind,
        other => panic!("{:?}", other),
    }
}

/// Three scopes in a chain, 0 around 1 around 2, and a fourth beside them.
fn chain() -> Vec<Environment> {
    let mut globals = Environment::new(None);
    globals.define(key("a"), number(1.0));
    globals.define(key("g"), Object::String(key("global")));
    let mut middle = Environment::new(Some(0));
    middle.define(key("a"), number(2.0));
    middle.define(key("m"), Object::Boolean(true));
    let mut inner = Environment::new(Some(1));
    inner.define(key("i"), Object::Nil);
    let mut beside = Environment::new(None);
    beside.define(key("a"), number(4.0));
    vec![globals, middle, inner, beside]
}

#[test]
fn a_table_keeps_the_last_value_of_a_name() {
    let mut table: Bindings<Object> = Bindings::new();
    assert!(!table.contains(&key("a")));
    assert!(table.get(&key("a")).is_none());
    table.insert(key("a"), number(1.0));
    table.insert(key("b"), number(2.0));
    table.insert(key("a"), number(3.0));
    assert!(table.contains(&key("a")));
    assert_eq!(table.get(&key("a")), Some(&number(3.0)));
    assert_eq!(table.get(&key("b")), Some(&number(2.0)));
    assert!(table.get(&key("c")).is_none());
    assert_eq!(table.entries.len(), 2);
    let mut flags: Bindings<bool> = Bindings::new();
    flags.insert(key(""), false);
    flags.insert(key(""), true);
    assert_eq!(flags.get(&key("")), Some(&true));
}

#[test]
fn define_shadows_and_replaces() {
    let mut scope = Environment::new(Some(7));
    assert_eq!(scope.enclosing, Some(7));
    scope.define(key("a"), number(1.0));
    scope.define(key("a"), Object::Nil);
    assert_eq!(scope.values.get(&key("a")), Some(&Object::Nil));
}

#[test]
fn get_at_walks_the_given_distance() {
    let scopes = chain();
    assert_eq!(Environment::get_at(&scopes, 2, 0, &key("i")).ok(), Some(Object::Nil));
    assert_eq!(Environment::get_at(&scopes, 2, 1, &key("a")).ok(), Some(number(2.0)));
    assert_eq!(Environment::get_at(&scopes, 2, 2, &key("a")).ok(), Some(number(1.0)));
    assert_eq!(Environment::get_at(&scopes, 1, 1, &key("g")).ok(), Some(Object::String(key("global"))));
    assert_eq!(Environment::get_at(&scopes, 3, 0, &key("a")).ok(), Some(number(4.0)));
    assert_eq!(Environment::ancestor(&scopes, 2, 2), Some(0));
    assert_eq!(Environment::ancestor(&scopes, 2, 3), None);
    assert_eq!(Environment::ancestor(&scopes, 9, 0), None);
}

#[test]
fn get_at_looks_in_one_scope_only() {
    let scopes = chain();
    assert_eq!(kind_of(Environment::get_at(&scopes, 2, 0, &key("a"))), ErrorKind::UndefinedVariable);
    assert_eq!(kind_of(Environment::get_at(&scopes, 2, 1, &key("g"))), ErrorKind::UndefinedVariable);
    assert_eq!(kind_of(Environment::get_at(&scopes, 2, 3, &key("a"))), ErrorKind::Unreachable);
    assert_eq!(kind_of(Environment::get_at(&scopes, 4, 0, &key("a"))), ErrorKind::Unreachable);
}

#[test]
fn what_is_assigned_at_a_distance_is_read_at_that_distance() {
    let mut scopes = chain();
    assert!(Environment::set_at(&mut scopes, 2, 1, &key("a"), number(20.0)).is_ok());
    assert_eq!(Environment::get_at(&scopes, 2, 1, &key("a")).ok(), Some(number(20.0)));
    assert_eq!(Environment::get_at(&scopes, 1, 0, &key("a")).ok(), Some(number(20.0)));
    assert_eq!(Environment::get_at(&scopes, 2, 2, &key("a")).ok(), Some(number(1.0)));
    assert_eq!(Environment::get_at(&scopes, 3, 0, &key("a")).ok(), Some(number(4.0)));
    assert_eq!(Environment::get_at(&scopes, 1, 0, &key("m")).ok(), Some(Object::Boolean(true)));
}

#[test]
fn assigning_needs_a_definition() {
    let mut scopes = chain();
    assert_eq!(
        kind_of(Environment::set_at(&mut scopes, 2, 0, &key("a"), Object::Nil)),
        ErrorKind::UndefinedVariable
    );
    assert_eq!(
        kind_of(Environment::set_at(&mut scopes, 2, 5, &key("a"), Object::Nil)),
        ErrorKind::Unreachable
    );
    assert_eq!(
        kind_of(Environment::set(&mut scopes, 3, &key("g"), Object::Nil)),
        ErrorKind::UndefinedVariable
    );
    assert_eq!(scopes[2].values.entries.len(), 1);
    assert_eq!(Environment::get_at(&scopes, 2, 1, &key("a")).ok(), Some(number(2.0)));
}

#[test]
fn get_and_set_find_the_nearest_definition() {
    let mut scopes = chain();
    assert_eq!(Environment::get(&scopes, 2, &key("a")).ok(), Some(number(2.0)));
    assert_eq!(Environment::get(&scopes, 2, &key("g")).ok(), Some(Object::String(key("global"))));
    assert_eq!(Environment::get(&scopes, 0, &key("a")).ok(), Some(number(1.0)));
    assert_eq!(kind_of(Environment::get(&scopes, 0, &key("m"))), ErrorKind::UndefinedVariable);
    assert_eq!(kind_of(Environment::get(&scopes, 8, &key("a"))), ErrorKind::UndefinedVariable);
    assert_eq!(Environment::holder(&scopes, 2, &key("g")), Some(0));
    assert!(Environment::set(&mut scopes, 2, &key("g"), Object::Nil).is_ok());
    assert_eq!(Environment::get(&scopes, 0, &key("g")).ok(), Some(Object::Nil));
    assert!(Environment::set(&mut scopes, 2, &key("a"), Object::Nil).is_ok());
    assert_eq!(Environment::get(&scopes, 1, &key("a")).ok(), Some(Object::Nil));
    assert_eq!(Environment::get(&scopes, 0, &key("a")).ok(), Some(number(1.0)));
}

#[test]
fn a_chain_that_bites_its_tail_is_walked_once() {
    let mut first = Environment::new(Some(1));
    first.define(key("x"), Object::Nil);
    let scopes = vec![first, Environment::new(Some(0))];
    assert_eq!(kind_of(Environment::get(&scopes, 0, &key("missing"))), ErrorKind::UndefinedVariable);
    assert_eq!(Environment::get(&scopes, 1, &key("x")).ok(), Some(Object::Nil));
    assert_eq!(Environment::ancestor(&scopes, 0, 5), Some(1));
}

fn token(name: &str) -> Rc<Token> {
    Rc::new(Token::new(TokenType::Identifier, name.to_string(), Object::Nil, 1))
}

fn method(name: &str, params: usize, closure: usize) -> Function {
    let params = (0..params).map(|i| token(&format!("p{}", i))).collect();
    Function::new(Rc::new(FunctionStmt::new(token(name), params, Vec::new())), closure, name == "init")
}

/// A class `Base` with `init(p0, p1)` and `name()`, a class `Derived` below
/// it with its own `name()` and `only()`.
fn classes() -> Heap {
    let mut heap = Heap::new();
    let globals = heap.scope(None);
    let base = heap.class(Class::new(
        token("Base"),
        None,
        vec![method("init", 2, globals), method("name", 0, globals)],
    ));
    heap.class(Class::new(
        token("Derived"),
        Some(base),
        vec![method("name", 1, globals), method("only", 0, globals), method("only", 3, globals)],
    ));
    heap
}

#[test]
fn methods_are_found_up_the_chain() {
    let heap = classes();
    assert_eq!(Class::find_method(&heap.classes, 0, &key("name")).unwrap().arity(), 0);
    assert_eq!(Class::find_method(&heap.classes, 1, &key("name")).unwrap().arity(), 1);
    assert_eq!(Class::find_method(&heap.classes, 1, &key("init")).unwrap().arity(), 2);
    assert!(Class::find_method(&heap.classes, 1, &key("init")).unwrap().is_initializer);
    assert!(Class::find_method(&heap.classes, 0, &key("only")).is_none());
    assert!(Class::find_method(&heap.classes, 1, &key("missing")).is_none());
    assert!(Class::find_method(&heap.classes, 2, &key("name")).is_none());
    assert_eq!(Class::find_method(&heap.classes, 1, &key("only")).unwrap().arity(), 3);
    assert_eq!(heap.classes[1].own_method(&key("only")).unwrap().arity(), 3);
    assert!(heap.classes[1].own_method(&key("init")).is_none());
}

#[test]
fn the_arity_of_a_class_is_that_of_its_initializer() {
    let mut heap = classes();
    assert_eq!(Class::arity(&heap.classes, 0), 2);
    assert_eq!(Class::arity(&heap.classes, 1), 2);
    let plain = heap.class(Class::new(token("Plain"), None, vec![method("m", 4, 0)]));
    assert_eq!(Class::arity(&heap.classes, plain), 0);
    assert_eq!(Class::arity(&heap.classes, 17), 0);
    assert_eq!(Clock::new().arity(), 0);
    assert_eq!(Callable::Clock(Clock::new()).arity(), 0);
    assert_eq!(Callable::Function(method("f", 3, 0)).arity(), 3);
}

#[test]
fn a_method_read_off_an_instance_knows_the_instance() {
    let mut heap = classes();
    let first = heap.instance(1);
    let second = heap.instance(1);
    let scopes = heap.environments.len();
    let functions = heap.functions.len();
    let bound = match Instance::get(&mut heap, second, &key("name")) {
        Ok(Object::Function(place)) => place,
        other => panic!("{:?}", other),
    };
    assert_eq!(bound, functions);
    assert_eq!(heap.environments.len(), scopes + 1);
    let closure = match &heap.functions[bound] {
        Callable::Function(function) => {
            assert_eq!(function.declaration.name.lexeme, "name");
            assert_eq!(function.arity(), 1);
            function.closure
        }
        other => panic!("{:?}", other),
    };
    assert_eq!(closure, scopes);
    assert_eq!(
        Environment::get_at(&heap.environments, closure, 0, &key("this")).ok(),
        Some(Object::Instance(second))
    );
    assert_eq!(heap.environments[closure].enclosing, Some(0));
    assert_ne!(first, second);
}

#[test]
fn fields_come_before_methods() {
    let mut heap = classes();
    let instance = heap.instance(1);
    assert!(Instance::set(&mut heap, instance, &key("name"), number(5.0)).is_ok());
    assert!(Instance::set(&mut heap, instance, &key("other"), Object::Nil).is_ok());
    assert_eq!(Instance::get(&mut heap, instance, &key("name")).ok(), Some(number(5.0)));
    assert_eq!(Instance::get(&mut heap, instance, &key("other")).ok(), Some(Object::Nil));
    assert!(Instance::set(&mut heap, instance, &key("name"), number(6.0)).is_ok());
    assert_eq!(Instance::get(&mut heap, instance, &key("name")).ok(), Some(number(6.0)));
    assert_eq!(heap.functions.len(), 0);
    assert_eq!(
        kind_of(Instance::get(&mut heap, instance, &key("missing"))),
        ErrorKind::UndefinedProperty
    );
    assert_eq!(kind_of(Instance::get(&mut heap, 9, &key("name"))), ErrorKind::Unreachable);
    assert_eq!(kind_of(Instance::set(&mut heap, 9, &key("name"), Object::Nil)), ErrorKind::Unreachable);
}

#[test]
fn classes_have_fields_but_give_no_methods() {
    let mut heap = classes();
    assert_eq!(kind_of(Class::get(&heap, 0, &key("name"))), ErrorKind::UndefinedProperty);
    assert!(Class::set(&mut heap, 0, &key("count"), number(1.0)).is_ok());
    assert_eq!(Class::get(&heap, 0, &key("count")).ok(), Some(number(1.0)));
    assert_eq!(kind_of(Class::get(&heap, 1, &key("count"))), ErrorKind::UndefinedProperty);
    assert_eq!(kind_of(Class::get(&heap, 5, &key("count"))), ErrorKind::Unreachable);
    assert_eq!(kind_of(Class::set(&mut heap, 5, &key("count"), Object::Nil)), ErrorKind::Unreachable);
}

#[test]
fn binding_leaves_the_method_as_it_was() {
    let mut heap = classes();
    let instance = heap.instance(0);
    let unbound = method("m", 1, 0);
    let bound = unbound.bind(&mut heap.environments, instance);
    assert_eq!(unbound.closure, 0);
    assert_eq!(bound.closure, 1);
    assert_eq!(bound.is_initializer, unbound.is_initializer);
    assert!(Rc::ptr_eq(&bound.declaration, &unbound.declaration));
    let again = unbound.bind(&mut heap.environments, instance);
    assert_eq!(again.closure, 2);
}

#[test]
fn stores_hand_out_places_in_order() {
    let mut heap = Heap::new();
    assert_eq!(heap.scope(None), 0);
    assert_eq!(heap.scope(Some(0)), 1);
    heap.define(1, key("x"), Object::Nil);
    heap.define(5, key("y"), Object::Nil);
    assert_eq!(heap.environments.len(), 2);
    assert!(heap.environments[1].values.contains(&key("x")));
    assert!(!heap.environments[0].values.contains(&key("y")));
    assert_eq!(heap.function(Callable::Clock(Clock::new())), 0);
    assert_eq!(heap.function(Callable::Function(method("f", 0, 1))), 1);
    assert_eq!(heap.instance(3), 0);
    assert_eq!(heap.instances[0].class, 3);
}
