use rlox::expr::{Expr, HashExpr};
use rlox::interpreter::interpret;
use rlox::parser::parse;
use rlox::resolver::{ResolveError, ResolveErrorKind, Resolver};
use rlox::scanner::scan_tokens;
use rlox::stmt::Stmt;
use std::collections::HashMap;
use std::rc::Rc;

fn value_of(lexeme: &String) -> u64 {
    lexeme.parse::<f64>().unwrap().to_bits()
}

fn program(code: &str) -> Vec<Rc<Stmt>> {
    parse(scan_tokens(code, &value_of).unwrap()).unwrap()
}

fn names(e: &HashExpr, found: &mut Vec<(String, usize)>) {
    match &e.expr {
        Expr::Binary(b) => {
            names(&b.left, found);
            names(&b.right, found);
        }
        Expr::Logical(b) => {
            names(&b.left, found);
            names(&b.right, found);
        }
        Expr::Grouping(g) => names(&g.expression, found),
        Expr::Literal(_) => {}
        Expr::Unary(u) => names(&u.right, found),
        Expr::Variable(v) => found.push((v.name.lexeme.clone(), e.id)),
        Expr::Assign(a) => {
            found.push((format!("{}=", a.name.lexeme), e.id));
            names(&a.value, found);
        }
        Expr::Call(c) => {
            names(&c.callee, found);
            for argument in c.arguments.iter() {
                names(argument, found);
            }
        }
        Expr::Get(g) => names(&g.object, found),
        Expr::SetField(s) => {
            names(&s.object, found);
            names(&s.value, found);
        }
        Expr::This(_) => found.push(("this".to_string(), e.id)),
        Expr::Super(_) => found.push(("super".to_string(), e.id)),
    }
}

fn uses(s: &Stmt, found: &mut Vec<(String, usize)>) {
    match s {
        Stmt::Expression(x) => names(&x.expression, found),
        Stmt::Print(x) => names(&x.expression, found),
        Stmt::Var(x) => {
            if let Some(initializer) = &x.initializer {
                names(initializer, found);
            }
        }
        Stmt::Block(x) => {
            for statement in x.statements.iter() {
                uses(statement, found);
            }
        }
        Stmt::If(x) => {
            names(&x.condition, found);
            uses(&x.then_branch, found);
            if let Some(otherwise) = &x.else_branch {
                uses(otherwise, found);
            }
        }
        Stmt::While(x) => {
            names(&x.condition, found);
            uses(&x.body, found);
        }
        Stmt::Function(x) => {
            for statement in x.body.iter() {
                uses(statement, found);
            }
        }
        Stmt::Return(x) => {
            if let Some(value) = &x.value {
                names(value, found);
            }
        }
        Stmt::Class(x) => {
            if let Some(superclass) = &x.superclass {
                names(superclass, found);
            }
            for method in x.methods.iter() {
                for statement in method.body.iter() {
                    uses(statement, found);
                }
            }
        }
    }
}

/// The distance of every use of a name, in the order of the source:
/// `None` for a global.
fn distances(code: &str) -> Vec<(String, Option<usize>)> {
    let statements = program(code);
    let locals: HashMap<usize, usize> = Resolver::new().resolve(&statements).unwrap();
    let mut found = Vec::new();
    for statement in statements.iter() {
        uses(statement, &mut found);
    }
    let resolved = found.len();
    let all: Vec<(String, Option<usize>)> =
        found.into_iter().map(|(name, id)| (name, locals.get(&id).copied())).collect();
    assert!(locals.len() <= resolved);
    all
}

fn refused(code: &str) -> ResolveError {
    match Resolver::new().resolve(&program(code)) {
        Err(error) => error,
        Ok(locals) => panic!("resolved: {:?}", locals),
    }
}

fn pairs(list: &[(&str, Option<usize>)]) -> Vec<(String, Option<usize>)> {
    list.iter().map(|(name, distance)| (name.to_string(), *distance)).collect()
}

#[test]
fn globals_have_no_distance() {
    assert_eq!(distances("var a = 1; print a; a = 2;"), pairs(&[("a", None), ("a=", None)]));
    assert_eq!(distances("print missing;"), pairs(&[("missing", None)]));
    assert_eq!(distances("{ print a; } fun f() { return a; }"), pairs(&[("a", None), ("a", None)]));
}

#[test]
fn locals_are_counted_in_scopes() {
    assert_eq!(
        distances("{ var a = 1; print a; { print a; { a = 2; var a; print a; } } }"),
        pairs(&[("a", Some(0)), ("a", Some(1)), ("a=", Some(2)), ("a", Some(0))])
    );
}

#[test]
fn parameters_and_body_share_one_scope() {
    assert_eq!(
        distances("fun f(a) { var b = a; { print a + b; } return f; }"),
        pairs(&[("a", Some(0)), ("a", Some(1)), ("b", Some(1)), ("f", None)])
    );
    assert_eq!(
        distances("{ fun f(a) { return f(a); } }"),
        pairs(&[("f", Some(1)), ("a", Some(0))])
    );
}

#[test]
fn a_closure_is_pinned_to_the_scope_of_its_declaration() {
    assert_eq!(
        distances("var a = 1; { fun show() { print a; } show(); var a = 2; show(); }"),
        pairs(&[("a", None), ("show", Some(0)), ("show", Some(0))])
    );
}

#[test]
fn this_and_super_have_scopes_of_their_own() {
    assert_eq!(
        distances("class A { m(x) { print this; { return x; } } }"),
        pairs(&[("this", Some(1)), ("x", Some(1))])
    );
    assert_eq!(
        distances("class A {} class B < A { m() { super.m(); return this; } }"),
        pairs(&[("A", None), ("super", Some(2)), ("this", Some(1))])
    );
    assert_eq!(
        distances("{ class A {} class B < A { m() { return A; } } }"),
        pairs(&[("A", Some(0)), ("A", Some(3))])
    );
}

#[test]
fn names_can_be_declared_once_in_a_scope() {
    let error = refused("var a;\n{\n var a;\n var a;\n}");
    assert_eq!(error.kind, ResolveErrorKind::AlreadyDeclared);
    assert_eq!(error.line, 4);
    assert_eq!(error.lexeme, "a");
    assert_eq!(refused("fun f(a) { var a; }").kind, ResolveErrorKind::AlreadyDeclared);
    assert_eq!(refused("{ fun f() {} var f; }").kind, ResolveErrorKind::AlreadyDeclared);
    assert_eq!(refused("{ class A {} class A {} }").kind, ResolveErrorKind::AlreadyDeclared);
    assert!(Resolver::new().resolve(&program("var a; var a; fun a() {} class a {}")).is_ok());
    assert!(Resolver::new().resolve(&program("{ var a; { var a; } }")).is_ok());
}

#[test]
fn a_variable_is_not_read_in_its_own_initializer() {
    let error = refused("{ var a = a; }");
    assert_eq!(error.kind, ResolveErrorKind::ReadInOwnInitializer);
    assert_eq!(error.lexeme, "a");
    assert!(Resolver::new().resolve(&program("var a = a;")).is_ok());
    assert!(Resolver::new().resolve(&program("{ var a = 1; { var b = a; } }")).is_ok());
    assert!(Resolver::new().resolve(&program("{ var a; a = a; }")).is_ok());
}

#[test]
fn return_needs_a_function() {
    assert_eq!(refused("return;").kind, ResolveErrorKind::ReturnFromTopLevel);
    assert_eq!(refused("{ if (true) return 1; }").kind, ResolveErrorKind::ReturnFromTopLevel);
    assert_eq!(refused("class A {} return;").kind, ResolveErrorKind::ReturnFromTopLevel);
    assert_eq!(refused("fun f() {} return;").kind, ResolveErrorKind::ReturnFromTopLevel);
    assert!(Resolver::new().resolve(&program("fun f() { return 1; }")).is_ok());
    assert!(Resolver::new().resolve(&program("class A { m() { return 1; } }")).is_ok());
}

#[test]
fn an_initializer_returns_no_value() {
    let error = refused("class A {\n init() {\n  return 1;\n }\n}");
    assert_eq!(error.kind, ResolveErrorKind::ReturnFromInitializer);
    assert_eq!(error.line, 3);
    assert!(Resolver::new().resolve(&program("class A { init() { return; } }")).is_ok());
    assert!(Resolver::new().resolve(&program("class A { init() { return this; } }")).is_ok());
    assert!(Resolver::new()
        .resolve(&program("class A { init() { fun f() { return 1; } } }"))
        .is_ok());
    assert!(Resolver::new().resolve(&program("class A { other() { return 1; } }")).is_ok());
}

#[test]
fn this_and_super_need_a_class() {
    assert_eq!(refused("this;").kind, ResolveErrorKind::ThisOutsideClass);
    assert_eq!(refused("fun f() { this.x = 1; }").kind, ResolveErrorKind::ThisOutsideClass);
    assert_eq!(refused("class A {} print this;").kind, ResolveErrorKind::ThisOutsideClass);
    assert_eq!(refused("super.m();").kind, ResolveErrorKind::SuperOutsideClass);
    assert_eq!(
        refused("class A { m() { super.m(); } }").kind,
        ResolveErrorKind::SuperWithoutSuperclass
    );
    assert_eq!(
        refused("class A {} class B < A {} class C { m() { super.m(); } }").kind,
        ResolveErrorKind::SuperWithoutSuperclass
    );
    assert!(Resolver::new()
        .resolve(&program("class A { m() { fun f() { return this; } } }"))
        .is_ok());
}

#[test]
fn a_class_does_not_inherit_from_itself() {
    let error = refused("class A < A {}");
    assert_eq!(error.kind, ResolveErrorKind::InheritsItself);
    assert_eq!(error.lexeme, "A");
}

#[test]
fn interpret_resolves_before_it_loads() {
    assert!(interpret(program("var a = 1; { print a; }")).is_ok());
    match interpret(program("{ return 1; }")) {
        Err(error) => assert_eq!(error.kind, ResolveErrorKind::ReturnFromTopLevel),
        Ok(_) => panic!("loaded"),
    }
}
