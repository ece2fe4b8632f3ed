use rlox::expr::{Expr, HashExpr};
use rlox::object::Object;
use rlox::parser::{parse, Message, ParseError};
use rlox::scanner::scan_tokens;
use rlox::stmt::Stmt;
use std::rc::Rc;

fn bits_of(lexeme: &String) -> u64 {
    lexeme.parse::<f64>().unwrap().to_bits()
}

fn parsed(code: &str) -> Vec<Rc<Stmt>> {
    parse(scan_tokens(code, &bits_of).unwrap()).unwrap()
}

fn parse_error(code: &str) -> ParseError {
    match parse(scan_tokens(code, &bits_of).unwrap()) {
        Err(error) => error,
        Ok(statements) => panic!("parsed: {:?}", statements),
    }
}

fn message(code: &str) -> Message {
    parse_error(code).message
}

/// Writes an expression with every operation in parentheses, variables and
/// calls included.
fn shape(e: &HashExpr) -> String {
    match &e.expr {
        Expr::Binary(b) => format!("({} {} {})", b.op.lexeme, shape(&b.left), shape(&b.right)),
        Expr::Logical(b) => format!("({} {} {})", b.op.lexeme, shape(&b.left), shape(&b.right)),
        Expr::Grouping(g) => format!("(group {})", shape(&g.expression)),
        Expr::Literal(l) => match &l.value {
            Object::Number(bits) => format!("{}", f64::from_bits(*bits)),
            Object::String(s) => format!("{:?}", s),
            Object::Boolean(b) => format!("{}", b),
            _ => "nil".to_string(),
        },
        Expr::Unary(u) => format!("({} {})", u.op.lexeme, shape(&u.right)),
        Expr::Variable(v) => v.name.lexeme.clone(),
        Expr::Assign(a) => format!("(= {} {})", a.name.lexeme, shape(&a.value)),
        Expr::Call(c) => {
            let mut text = format!("(call {}", shape(&c.callee));
            for argument in c.arguments.iter() {
                text.push(' ');
                text.push_str(&shape(argument));
            }
            text.push(')');
            text
        }
        Expr::Get(g) => format!("(. {} {})", shape(&g.object), g.name.lexeme),
        Expr::SetField(s) => {
            format!("(.= {} {} {})", shape(&s.object), s.name.lexeme, shape(&s.value))
        }
        Expr::This(_) => "this".to_string(),
        Expr::Super(s) => format!("(super {})", s.method.lexeme),
    }
}

fn expression(code: &str) -> String {
    let statements = parsed(&format!("{};", code));
    assert_eq!(statements.len(), 1);
    match &*statements[0] {
        Stmt::Expression(statement) => shape(&statement.expression),
        other => panic!("{:?}", other),
    }
}

#[test]
fn precedence_and_grouping() {
    assert_eq!(expression("1 + 2 * 3"), "(+ 1 (* 2 3))");
    assert_eq!(expression("1 * 2 + 3"), "(+ (* 1 2) 3)");
    assert_eq!(expression("(1 + 2) * 3"), "(* (group (+ 1 2)) 3)");
    assert_eq!(expression("1 - 2 - 3"), "(- (- 1 2) 3)");
    assert_eq!(expression("8 / 4 / 2"), "(/ (/ 8 4) 2)");
    assert_eq!(expression("1 < 2 == 3 >= 4"), "(== (< 1 2) (>= 3 4))");
    assert_eq!(expression("1 == 2 != 3"), "(!= (== 1 2) 3)");
    assert_eq!(expression("a or b and c or d"), "(or (or a (and b c)) d)");
    assert_eq!(expression("a and b == c"), "(and a (== b c))");
    assert_eq!(expression("-1 - -2"), "(- (- 1) (- 2))");
    assert_eq!(expression("!!a"), "(! (! a))");
    assert_eq!(expression("-a.b(c)"), "(- (call (. a b) c))");
    assert_eq!(expression("1 <= 2 > 3 < 4"), "(< (> (<= 1 2) 3) 4)");
}

#[test]
fn literals() {
    assert_eq!(expression("true"), "true");
    assert_eq!(expression("false"), "false");
    assert_eq!(expression("nil"), "nil");
    assert_eq!(expression("12.5"), "12.5");
    assert_eq!(expression("\"text\""), "\"text\"");
    assert_eq!(expression("this"), "this");
    assert_eq!(expression("super.method"), "(super method)");
}

#[test]
fn calls_and_properties() {
    assert_eq!(expression("f()"), "(call f)");
    assert_eq!(expression("f(1, 2)(3)"), "(call (call f 1 2) 3)");
    assert_eq!(expression("a.b.c"), "(. (. a b) c)");
    assert_eq!(expression("a.b(1).c"), "(. (call (. a b) 1) c)");
    assert_eq!(expression("f(a = 1, g(2))"), "(call f (= a 1) (call g 2))");
}

#[test]
fn assignment_is_right_associative() {
    assert_eq!(expression("a = b = c"), "(= a (= b c))");
    assert_eq!(expression("a.b = c"), "(.= a b c)");
    assert_eq!(expression("a.b.c = d = 1"), "(.= (. a b) c (= d 1))");
    assert_eq!(expression("a = b or c"), "(= a (or b c))");
}

#[test]
fn invalid_assignment_target() {
    let error = parse_error("1 = 2;");
    assert_eq!(error.message, Message::InvalidAssignmentTarget);
    assert_eq!(error.lexeme, "=");
    assert_eq!(message("(a) = 1;"), Message::InvalidAssignmentTarget);
    assert_eq!(message("a + b = 1;"), Message::InvalidAssignmentTarget);
    assert_eq!(message("f() = 1;"), Message::InvalidAssignmentTarget);
    assert_eq!(message("this = 1;"), Message::InvalidAssignmentTarget);
}

#[test]
fn expressions_are_numbered_as_they_are_completed() {
    let statements = parsed("1 + 2; a;");
    match &*statements[0] {
        Stmt::Expression(statement) => {
            assert_eq!(statement.expression.id, 3);
            match &statement.expression.expr {
                Expr::Binary(binary) => {
                    assert_eq!(binary.left.id, 1);
                    assert_eq!(binary.right.id, 2);
                }
                other => panic!("{:?}", other),
            }
        }
        other => panic!("{:?}", other),
    }
    match &*statements[1] {
        Stmt::Expression(statement) => assert_eq!(statement.expression.id, 4),
        other => panic!("{:?}", other),
    }
}

#[test]
fn statements() {
    let statements = parsed(
        "print 1; var a; var b = 2; { a; } if (a) b; if (a) b; else { } while (a) b; \
         fun f(x, y) { return x; } return; class A { m() {} } class B < A {}",
    );
    assert_eq!(statements.len(), 11);
    assert!(matches!(&*statements[0], Stmt::Print(_)));
    assert!(matches!(&*statements[1], Stmt::Var(v) if v.initializer.is_none() && v.name.lexeme == "a"));
    assert!(matches!(&*statements[2], Stmt::Var(v) if v.initializer.is_some()));
    assert!(matches!(&*statements[3], Stmt::Block(b) if b.statements.len() == 1));
    assert!(matches!(&*statements[4], Stmt::If(i) if i.else_branch.is_none()));
    assert!(matches!(&*statements[5], Stmt::If(i) if i.else_branch.is_some()));
    assert!(matches!(&*statements[6], Stmt::While(_)));
    assert!(matches!(&*statements[7], Stmt::Function(f)
        if f.name.lexeme == "f" && f.params.len() == 2 && f.params[1].lexeme == "y" && f.body.len() == 1));
    assert!(matches!(&*statements[8], Stmt::Return(r) if r.value.is_none() && r.keyword.lexeme == "return"));
    assert!(matches!(&*statements[9], Stmt::Class(c)
        if c.name.lexeme == "A" && c.superclass.is_none() && c.methods.len() == 1 && c.methods[0].name.lexeme == "m"));
    match &*statements[10] {
        Stmt::Class(c) => match &c.superclass {
            Some(superclass) => assert_eq!(shape(superclass), "A"),
            None => panic!("no superclass"),
        },
        other => panic!("{:?}", other),
    }
}

#[test]
fn an_else_belongs_to_the_nearest_if() {
    let statements = parsed("if (a) if (b) c; else d;");
    match &*statements[0] {
        Stmt::If(outer) => {
            assert!(outer.else_branch.is_none());
            assert!(matches!(&*outer.then_branch, Stmt::If(inner) if inner.else_branch.is_some()));
        }
        other => panic!("{:?}", other),
    }
}

#[test]
fn a_for_loop_is_a_while_loop_in_a_block() {
    let statements = parsed("for (var i = 0; i < 3; i = i + 1) print i;");
    assert_eq!(statements.len(), 1);
    let outer = match &*statements[0] {
        Stmt::Block(block) => block,
        other => panic!("{:?}", other),
    };
    assert_eq!(outer.statements.len(), 2);
    assert!(matches!(&*outer.statements[0], Stmt::Var(v) if v.name.lexeme == "i"));
    let looped = match &*outer.statements[1] {
        Stmt::While(looped) => looped,
        other => panic!("{:?}", other),
    };
    assert_eq!(shape(&looped.condition), "(< i 3)");
    let body = match &*looped.body {
        Stmt::Block(block) => block,
        other => panic!("{:?}", other),
    };
    assert_eq!(body.statements.len(), 2);
    assert!(matches!(&*body.statements[0], Stmt::Print(_)));
    match &*body.statements[1] {
        Stmt::Expression(statement) => assert_eq!(shape(&statement.expression), "(= i (+ i 1))"),
        other => panic!("{:?}", other),
    }
}

#[test]
fn a_for_loop_without_clauses_runs_while_true() {
    let statements = parsed("for (;;) print 1;");
    match &*statements[0] {
        Stmt::While(looped) => {
            assert_eq!(shape(&looped.condition), "true");
            assert!(matches!(&*looped.body, Stmt::Print(_)));
        }
        other => panic!("{:?}", other),
    }
    let statements = parsed("for (a = 1; ;) {}");
    match &*statements[0] {
        Stmt::Block(block) => {
            assert!(matches!(&*block.statements[0], Stmt::Expression(_)));
            assert!(matches!(&*block.statements[1], Stmt::While(_)));
        }
        other => panic!("{:?}", other),
    }
}

#[test]
fn missing_punctuation() {
    assert_eq!(message("print 1"), Message::ExpectSemicolonAfterValue);
    assert_eq!(message("1"), Message::ExpectSemicolonAfterExpression);
    assert_eq!(message("var"), Message::ExpectVariableName);
    assert_eq!(message("var 1;"), Message::ExpectVariableName);
    assert_eq!(message("var a = 1"), Message::ExpectSemicolonAfterVariable);
    assert_eq!(message("var a"), Message::ExpectSemicolonAfterVariable);
    assert_eq!(message("{ print 1;"), Message::ExpectBraceAfterBlock);
    assert_eq!(message("if a) b;"), Message::ExpectParenAfterIf);
    assert_eq!(message("if (a b;"), Message::ExpectParenAfterIfCondition);
    assert_eq!(message("while a) b;"), Message::ExpectParenAfterWhile);
    assert_eq!(message("while (a b;"), Message::ExpectParenAfterWhileCondition);
    assert_eq!(message("for a;;) b;"), Message::ExpectParenAfterFor);
    assert_eq!(message("for (;a) b;"), Message::ExpectSemicolonAfterLoopCondition);
    assert_eq!(message("for (;;a b;"), Message::ExpectParenAfterForClauses);
    assert_eq!(message("fun f() { return 1 }"), Message::ExpectSemicolonAfterReturn);
    assert_eq!(message("(1 + 2;"), Message::ExpectParenAfterExpression);
    assert_eq!(message("f(1, 2;"), Message::ExpectParenAfterArguments);
    assert_eq!(message("a.1;"), Message::ExpectPropertyName);
    assert_eq!(message("super;"), Message::ExpectDotAfterSuper);
    assert_eq!(message("super.1;"), Message::ExpectSuperclassMethodName);
}

#[test]
fn malformed_declarations() {
    assert_eq!(message("fun (a) {}"), Message::ExpectFunctionName);
    assert_eq!(message("fun f a) {}"), Message::ExpectParenAfterFunctionName);
    assert_eq!(message("fun f(1) {}"), Message::ExpectParameterName);
    assert_eq!(message("fun f(a,) {}"), Message::ExpectParameterName);
    assert_eq!(message("fun f(a b) {}"), Message::ExpectParenAfterParameters);
    assert_eq!(message("fun f(a) print a;"), Message::ExpectBraceBeforeFunctionBody);
    assert_eq!(message("class {}"), Message::ExpectClassName);
    assert_eq!(message("class A < {}"), Message::ExpectSuperclassName);
    assert_eq!(message("class A m() {} }"), Message::ExpectBraceBeforeClassBody);
    assert_eq!(message("class A { m() {}"), Message::ExpectBraceAfterClassBody);
    assert_eq!(message("class A { 1 }"), Message::ExpectMethodName);
    assert_eq!(message("class A { m {} }"), Message::ExpectParenAfterMethodName);
    assert_eq!(message("class A { m() 1 }"), Message::ExpectBraceBeforeMethodBody);
}

#[test]
fn unexpected_tokens() {
    let error = parse_error("print 1;\nprint ;");
    assert_eq!(error.message, Message::UnexpectedToken);
    assert_eq!(error.line, 2);
    assert_eq!(error.lexeme, ";");
    assert_eq!(message("1 +"), Message::UnexpectedToken);
    assert_eq!(message("("), Message::UnexpectedToken);
    assert_eq!(message("a = "), Message::UnexpectedToken);
    assert_eq!(message(")"), Message::UnexpectedToken);
    assert_eq!(message("print else;"), Message::UnexpectedToken);
    assert_eq!(message("* 2;"), Message::UnexpectedToken);
}

#[test]
fn the_parser_stops_at_the_first_error() {
    let error = parse_error("print 1\nprint 2\nvar;");
    assert_eq!(error.message, Message::ExpectSemicolonAfterValue);
    assert_eq!(error.line, 2);
    assert_eq!(error.lexeme, "print");
}

fn call_with(arguments: usize) -> String {
    let list: Vec<String> = (0..arguments).map(|i| i.to_string()).collect();
    format!("f({});", list.join(", "))
}

fn function_with(params: usize) -> String {
    let list: Vec<String> = (0..params).map(|i| format!("p{}", i)).collect();
    format!("fun f({}) {{}}", list.join(", "))
}

#[test]
fn at_most_255_arguments() {
    let statements = parsed(&call_with(255));
    match &*statements[0] {
        Stmt::Expression(statement) => match &statement.expression.expr {
            Expr::Call(call) => assert_eq!(call.arguments.len(), 255),
            other => panic!("{:?}", other),
        },
        other => panic!("{:?}", other),
    }
    let error = parse_error(&call_with(256));
    assert_eq!(error.message, Message::TooManyArguments);
    assert_eq!(error.lexeme, ",");
}

#[test]
fn at_most_255_parameters() {
    let statements = parsed(&function_with(255));
    assert!(matches!(&*statements[0], Stmt::Function(f) if f.params.len() == 255));
    let error = parse_error(&function_with(256));
    assert_eq!(error.message, Message::TooManyParameters);
    assert_eq!(error.lexeme, ",");
}

#[test]
fn empty_programs() {
    assert!(parsed("").is_empty());
    assert!(parsed("// only a comment").is_empty());
    assert!(parse(Vec::new()).unwrap().is_empty());
}
