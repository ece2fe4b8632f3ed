use rlox::expr::{Expr, HashExpr, LiteralExpr};
use rlox::interpreter::{Action, Control, ErrorKind, Frame, Interpreter, Request};
use rlox::object::Object;
use rlox::parser::parse;
use rlox::resolver::Resolver;
use rlox::scanner::scan_tokens;
use rlox::stmt::{ExpressionStmt, PrintStmt, Stmt};
use std::collections::HashMap;
use std::rc::Rc;

fn double_of(lexeme: &String) -> u64 {
    lexeme.parse::<f64>().unwrap().to_bits()
}

/// The machine loaded with a program that did not go through the resolver.
fn unresolved(code: &str) -> Interpreter {
    Interpreter::new(HashMap::new(), parse(scan_tokens(code, &double_of).unwrap()).unwrap())
}

fn resolved(code: &str) -> Interpreter {
    let statements = parse(scan_tokens(code, &double_of).unwrap()).unwrap();
    let locals = Resolver::new().resolve(&statements).unwrap();
    Interpreter::new(locals, statements)
}

/// Steps until the machine wants something other than to go on.
fn next_action(machine: &mut Interpreter, reply: Option<u64>) -> Action {
    let mut reply = reply;
    for _ in 0..100_000 {
        match machine.step(reply.take()) {
            Action::Continue => {}
            action => return action,
        }
    }
    panic!("the machine goes on and on");
}

#[test]
fn a_fresh_machine_knows_the_clock() {
    let machine = resolved("");
    assert_eq!(machine.globals, 0);
    assert_eq!(machine.environment, 0);
    assert_eq!(machine.heap.environments.len(), 1);
    assert_eq!(machine.heap.environments[0].enclosing, None);
    assert_eq!(
        machine.heap.environments[0].values.get(&"clock".to_string()),
        Some(&Object::Function(0))
    );
    assert_eq!(machine.heap.functions.len(), 1);
    assert_eq!(machine.stack.len(), 1);
    assert!(matches!(machine.control, Control::Next));
    assert!(matches!(machine.action(), Action::Continue));
}

#[test]
fn an_empty_program_is_done_at_once() {
    let mut machine = resolved("");
    assert!(matches!(machine.step(None), Action::Continue));
    assert!(matches!(machine.step(None), Action::Done));
    assert!(machine.stack.is_empty());
}

#[test]
fn a_return_outside_every_function_stops_the_machine() {
    let mut machine = unresolved("print 1; return 2; print 3;");
    assert!(matches!(next_action(&mut machine, None), Action::PrintNumber(_)));
    match next_action(&mut machine, None) {
        Action::Fail(error) => assert_eq!(error.kind, ErrorKind::ReturnOutsideFunction),
        other => panic!("{:?}", other),
    }
    assert_eq!(machine.environment, machine.globals);
}

#[test]
fn without_distances_every_name_is_a_global() {
    let mut machine = unresolved("var a = 1; { var a = 2; print a; }");
    match next_action(&mut machine, None) {
        Action::PrintNumber(bits) => assert_eq!(f64::from_bits(bits), 1.0),
        other => panic!("{:?}", other),
    }
    let mut machine = resolved("var a = 1; { var a = 2; print a; }");
    match next_action(&mut machine, None) {
        Action::PrintNumber(bits) => assert_eq!(f64::from_bits(bits), 2.0),
        other => panic!("{:?}", other),
    }
}

#[test]
fn a_literal_is_no_place_for_a_handle() {
    let literal = |value: Object| {
        let expression = Rc::new(HashExpr::new(1, Expr::Literal(LiteralExpr::new(value))));
        vec![Rc::new(Stmt::Print(PrintStmt::new(expression)))]
    };
    let mut machine = Interpreter::new(HashMap::new(), literal(Object::Instance(7)));
    match next_action(&mut machine, None) {
        Action::Fail(error) => assert_eq!(error.kind, ErrorKind::Unreachable),
        other => panic!("{:?}", other),
    }
    let mut machine = Interpreter::new(HashMap::new(), literal(Object::String("fine".to_string())));
    assert!(matches!(next_action(&mut machine, None), Action::Print(line) if line == "fine"));
}

#[test]
fn the_clock_is_a_question_to_the_driver() {
    assert_eq!(rlox::function::Clock::new().call(), Request::Clock);
    let mut machine = resolved("print clock() + 1;");
    assert!(matches!(next_action(&mut machine, None), Action::Ask(Request::Clock)));
    assert!(matches!(next_action(&mut machine, None), Action::Ask(Request::Clock)));
    match next_action(&mut machine, Some(1234f64.to_bits())) {
        Action::Ask(Request::Arithmetic { left, right, .. }) => {
            assert_eq!(f64::from_bits(left), 1234.0);
            assert_eq!(f64::from_bits(right), 1.0);
        }
        other => panic!("{:?}", other),
    }
    match next_action(&mut machine, Some(1235f64.to_bits())) {
        Action::PrintNumber(bits) => assert_eq!(f64::from_bits(bits), 1235.0),
        other => panic!("{:?}", other),
    }
    assert!(matches!(next_action(&mut machine, None), Action::Done));
}

#[test]
fn an_answer_that_nobody_asked_for_is_dropped() {
    let mut machine = resolved("print \"a\" + \"b\";");
    assert!(matches!(next_action(&mut machine, Some(99)), Action::Print(line) if line == "ab"));
    assert!(matches!(next_action(&mut machine, Some(99)), Action::Done));
}

#[test]
fn entering_a_block_keeps_the_scope_to_go_back_to() {
    let mut machine = resolved("");
    let inner = machine.heap.scope(Some(0));
    let before = machine.stack.len();
    machine.execute_block(Rc::new(Vec::new()), inner);
    assert_eq!(machine.environment, inner);
    assert_eq!(machine.stack.len(), before + 1);
    assert!(matches!(machine.stack.last(), Some(Frame::Block { index: 0, previous: 0, .. })));
    assert!(matches!(machine.step(None), Action::Continue));
    assert_eq!(machine.environment, 0);
    assert_eq!(machine.stack.len(), before);
}

#[test]
fn starting_on_an_expression_and_on_a_statement() {
    let nil = Rc::new(HashExpr::new(1, Expr::Literal(LiteralExpr::new(Object::Nil))));
    let mut machine = resolved("");
    machine.evaluate(&nil);
    assert!(matches!(&machine.control, Control::Evaluate(e) if e.id == 1));
    machine.visit_expr(&nil);
    assert!(matches!(machine.control, Control::Value(Object::Nil)));
    let statement = Rc::new(Stmt::Expression(ExpressionStmt::new(nil.clone())));
    machine.execute(&statement);
    assert!(matches!(machine.control, Control::Execute(_)));
    let before = machine.stack.len();
    machine.visit_stmt(&statement);
    assert_eq!(machine.stack.len(), before + 1);
    assert!(matches!(machine.stack.last(), Some(Frame::Discard)));
    assert!(matches!(machine.control, Control::Evaluate(_)));
}

#[test]
fn looking_a_variable_up() {
    let mut machine = resolved("var a = \"global\";");
    assert!(matches!(next_action(&mut machine, None), Action::Done));
    let name = rlox::token::Token::new(
        rlox::token::TokenType::Identifier,
        "a".to_string(),
        Object::Nil,
        3,
    );
    machine.lookup_variable(&name, 77);
    assert!(matches!(&machine.control, Control::Value(Object::String(s)) if s == "global"));
    let missing = rlox::token::Token::new(
        rlox::token::TokenType::Identifier,
        "b".to_string(),
        Object::Nil,
        3,
    );
    machine.lookup_variable(&missing, 78);
    match &machine.control {
        Control::Failed(error) => {
            assert_eq!(error.kind, ErrorKind::UndefinedVariable);
            assert_eq!(error.line, 3);
            assert_eq!(error.lexeme, "b");
        }
        other => panic!("{:?}", other),
    }
}

#[test]
fn values_are_rendered_for_printing() {
    let mut machine = resolved("class A {} var a = A(); fun f() {}");
    assert!(matches!(next_action(&mut machine, None), Action::Done));
    assert_eq!(machine.render(&Object::Nil), "nil");
    assert_eq!(machine.render(&Object::Boolean(false)), "false");
    assert_eq!(machine.render(&Object::String("s".to_string())), "s");
    assert_eq!(machine.render(&Object::Function(0)), "<native clock>");
    assert_eq!(machine.render(&Object::Function(1)), "<fn f>");
    assert_eq!(machine.render(&Object::Class(0)), "A");
    assert_eq!(machine.render(&Object::Instance(0)), "A instance");
    assert_eq!(machine.render(&Object::Number(1f64.to_bits())), "");
}
