use rlox::interpreter::{Action, ErrorKind, Operation, Request, RuntimeError};
use rlox::lox::{run_code, skip_out, LoxError};
use rlox::parser::Message;
use rlox::resolver::ResolveErrorKind;
use rlox::scanner::ScanErrorKind;

fn to_number(lexeme: &String) -> u64 {
    lexeme.parse::<f64>().unwrap().to_bits()
}

fn answer(request: Request) -> u64 {
    match request {
        Request::Arithmetic { operation, left, right } => {
            let (a, b) = (f64::from_bits(left), f64::from_bits(right));
            let result = match operation {
                Operation::Add => a + b,
                Operation::Subtract => a - b,
                Operation::Multiply => a * b,
                Operation::Divide => a / b,
            };
            result.to_bits()
        }
        Request::Clock => (chrono::Utc::now().timestamp() as f64).to_bits(),
    }
}

enum Outcome {
    Printed(Vec<String>),
    Refused(LoxError),
    Failed(Vec<String>, RuntimeError),
}

fn run(code: &str) -> Outcome {
    let mut machine = match run_code(code, &to_number) {
        Ok(machine) => machine,
        Err(error) => return Outcome::Refused(error),
    };
    let mut lines = Vec::new();
    let mut reply = None;
    for _ in 0..10_000_000 {
        match machine.step(reply.take()) {
            Action::Continue => {}
            Action::Print(line) => lines.push(line),
            Action::PrintNumber(bits) => lines.push(format!("{}", f64::from_bits(bits))),
            Action::Ask(request) => reply = Some(answer(request)),
            Action::Done => return Outcome::Printed(lines),
            Action::Fail(error) => return Outcome::Failed(lines, error),
        }
    }
    panic!("the program did not end");
}

fn output(code: &str) -> String {
    match run(code) {
        Outcome::Printed(lines) => lines.join("\n"),
        Outcome::Refused(error) => panic!("refused: {:?}", error),
        Outcome::Failed(_, error) => panic!("failed: {:?}", error),
    }
}

fn failure(code: &str) -> RuntimeError {
    match run(code) {
        Outcome::Failed(_, error) => error,
        Outcome::Printed(lines) => panic!("ran to its end: {:?}", lines),
        Outcome::Refused(error) => panic!("refused: {:?}", error),
    }
}

fn refusal(code: &str) -> LoxError {
    match run(code) {
        Outcome::Refused(error) => error,
        _ => panic!("the program was accepted"),
    }
}

#[test]
fn closures_capture_the_scope_of_their_declaration() {
    let code = "var a = \"global\";\n{ fun show() { print a; } show(); var a = \"inner\"; show(); }";
    assert_eq!(output(code), "global\nglobal");
}

#[test]
fn recursive_function() {
    let code = "fun fib(n){ if (n<2) return n; return fib(n-1)+fib(n-2); }\nprint fib(10);";
    assert_eq!(output(code), "55");
}

#[test]
fn class_with_initializer_and_method() {
    let code = "class Point { init(x,y){ this.x=x; this.y=y; } sum(){ return this.x+this.y; } }\nprint Point(3,4).sum();";
    assert_eq!(output(code), "7");
}

#[test]
fn inheritance_and_super() {
    let code = "class A{ greet(){ print \"A\"; } }\nclass B < A { greet(){ super.greet(); print \"B\"; } }\nB().greet();";
    assert_eq!(output(code), "A\nB");
}

#[test]
fn short_circuit_returns_operand() {
    assert_eq!(output("print nil or \"x\"; print 1 and 2;"), "x\n2");
}

#[test]
fn return_from_initializer_is_a_static_error() {
    match refusal("class C { init(){ return 1; } }") {
        LoxError::Resolve(error) => {
            assert_eq!(error.kind, ResolveErrorKind::ReturnFromInitializer);
            assert_eq!(error.line, 1);
            assert_eq!(error.lexeme, "return");
        }
        other => panic!("{:?}", other),
    }
}

#[test]
fn short_circuit_does_not_evaluate_the_other_operand() {
    let code = "fun loud() { print \"evaluated\"; return true; }\nprint false and loud();\nprint true or loud();\nprint true and loud();\nprint false or loud();";
    assert_eq!(output(code), "false\ntrue\nevaluated\ntrue\nevaluated\ntrue");
}

#[test]
fn only_nil_and_false_are_falsey() {
    let code = "if (0) print \"zero\"; if (\"\") print \"empty\"; if (nil) print \"nil\"; else print \"not nil\"; if (false) print \"false\"; else print \"not false\";";
    assert_eq!(output(code), "zero\nempty\nnot nil\nnot false");
}

#[test]
fn arithmetic_and_precedence() {
    assert_eq!(output("print 1 + 2 * 3; print (1 + 2) * 3; print 10 / 4; print 7 - 10; print -3 * -2;"), "7\n9\n2.5\n-3\n6");
}

#[test]
fn division_by_zero_is_an_error() {
    let error = failure("print 1;\nprint 1 / 0;");
    assert_eq!(error.kind, ErrorKind::DivisionByZero);
    assert_eq!(error.line, 2);
    assert_eq!(error.lexeme, "/");
    let error = failure("print 1 / -0.0;");
    assert_eq!(error.kind, ErrorKind::DivisionByZero);
}

#[test]
fn division_undoes_multiplication() {
    assert_eq!(output("print (7 / 2) * 2; print (1 / 3) * 3;"), "7\n1");
}

#[test]
fn strings_concatenate() {
    assert_eq!(output("print \"foo\" + \"bar\"; var a = \"x\"; a = a + a; print a;"), "foobar\nxx");
}

#[test]
fn plus_needs_two_numbers_or_two_strings() {
    let error = failure("print 1 + \"a\";");
    assert_eq!(error.kind, ErrorKind::OperandsMustBeNumbersOrStrings);
    assert_eq!(error.lexeme, "+");
}

#[test]
fn arithmetic_needs_numbers() {
    assert_eq!(failure("print \"a\" * 2;").kind, ErrorKind::OperandsMustBeNumbers);
    assert_eq!(failure("print nil < 2;").kind, ErrorKind::OperandsMustBeNumbers);
    assert_eq!(failure("print -\"a\";").kind, ErrorKind::OperandMustBeNumber);
}

#[test]
fn comparisons_and_equality() {
    let code = "print 1 < 2; print 2 <= 2; print 3 > 4; print 4 >= 5; print 1 == 1; print 1 != 1; print \"a\" == \"a\"; print nil == nil; print nil == false; print 1 == \"1\"; print -0.5 < 0.25; print -2 < -1;";
    assert_eq!(output(code), "true\ntrue\nfalse\nfalse\ntrue\nfalse\ntrue\ntrue\nfalse\nfalse\ntrue\ntrue");
}

#[test]
fn not_negates_truthiness() {
    assert_eq!(output("print !nil; print !0; print !\"\"; print !!true;"), "true\nfalse\nfalse\ntrue");
}

#[test]
fn printing_values() {
    let code = "fun f() {} class A {} print nil; print true; print 12; print 1.5; print \"text\"; print f; print clock; print A; print A();";
    assert_eq!(output(code), "nil\ntrue\n12\n1.5\ntext\n<fn f>\n<native clock>\nA\nA instance");
}

#[test]
fn variables_and_scopes() {
    let code = "var a = 1; { var a = 2; print a; { a = 3; print a; } print a; } print a; var b; print b;";
    assert_eq!(output(code), "2\n3\n3\n1\nnil");
}

#[test]
fn globals_may_be_declared_twice_and_used_before_their_declaration_in_functions() {
    let code = "fun show() { print later; } var later = 1; var later = 2; show();";
    assert_eq!(output(code), "2");
}

#[test]
fn undefined_variable_is_an_error() {
    let error = failure("print 1;\n\nprint missing;");
    assert_eq!(error.kind, ErrorKind::UndefinedVariable);
    assert_eq!(error.line, 3);
    assert_eq!(error.lexeme, "missing");
    assert_eq!(failure("missing = 1;").kind, ErrorKind::UndefinedVariable);
}

#[test]
fn assignment_evaluates_to_nil() {
    assert_eq!(output("var a = 1; print a = 2; print a;"), "nil\n2");
}

#[test]
fn while_and_for_loops() {
    let code = "var i = 0; while (i < 3) { print i; i = i + 1; } for (var j = 0; j < 3; j = j + 1) print j * 10; var k = 0; for (; k < 2;) { k = k + 1; } print k;";
    assert_eq!(output(code), "0\n1\n2\n0\n10\n20\n2");
}

#[test]
fn for_without_condition_runs_until_return() {
    let code = "fun count() { for (var i = 0;; i = i + 1) { if (i >= 3) return i; } } print count();";
    assert_eq!(output(code), "3");
}

#[test]
fn closures_share_their_scope() {
    let code = "fun counter() { var n = 0; fun up() { n = n + 1; return n; } return up; } var c = counter(); print c(); print c(); var d = counter(); print d();";
    assert_eq!(output(code), "1\n2\n1");
}

#[test]
fn a_call_sees_what_was_assigned_after_the_declaration() {
    let code = "var f; { var x = 1; fun show() { print x; } x = 2; show(); x = 3; f = show; } f();";
    assert_eq!(output(code), "2\n3");
}

#[test]
fn functions_return_nil_without_a_return() {
    assert_eq!(output("fun f() { 1; } print f(); fun g() { return; } print g();"), "nil\nnil");
}

#[test]
fn return_leaves_nested_blocks_and_restores_the_scope() {
    let code = "var a = \"outer\"; fun f() { var a = \"f\"; { var a = \"block\"; while (true) { return a; } } } print f(); print a;";
    assert_eq!(output(code), "block\nouter");
}

#[test]
fn arity_is_checked() {
    let error = failure("fun f(a, b) {} f(1);");
    assert_eq!(error.kind, ErrorKind::WrongArity { expected: 2, got: 1 });
    assert_eq!(error.lexeme, ")");
    let error = failure("class A { init(x) {} } A();");
    assert_eq!(error.kind, ErrorKind::WrongArity { expected: 1, got: 0 });
    let error = failure("class A {} A(1);");
    assert_eq!(error.kind, ErrorKind::WrongArity { expected: 0, got: 1 });
    let error = failure("clock(1);");
    assert_eq!(error.kind, ErrorKind::WrongArity { expected: 0, got: 1 });
}

#[test]
fn only_functions_and_classes_are_called() {
    assert_eq!(failure("\"text\"();").kind, ErrorKind::NotCallable);
    assert_eq!(failure("var a = 1; a();").kind, ErrorKind::NotCallable);
}

#[test]
fn arguments_are_evaluated_left_to_right() {
    let code = "fun say(x) { print x; return x; } fun f(a, b, c) { print a + b + c; } f(say(1), say(2), say(3));";
    assert_eq!(output(code), "1\n2\n3\n6");
}

#[test]
fn clock_gives_a_number() {
    assert_eq!(output("print clock() > 1500000000; print clock() <= clock();"), "true\ntrue");
}

#[test]
fn fields_and_methods() {
    let code = "class Box { get() { return this.value; } set(v) { this.value = v; return this; } } var b = Box(); b.value = 1; print b.value; print b.set(2).get(); var m = b.get; b.value = 3; print m();";
    assert_eq!(output(code), "1\n2\n3");
}

#[test]
fn a_field_hides_a_method() {
    let code = "class A { m() { return \"method\"; } } var a = A(); print a.m(); fun f() { return \"field\"; } a.m = f; print a.m();";
    assert_eq!(output(code), "method\nfield");
}

#[test]
fn undefined_property_is_an_error() {
    let error = failure("class A {} A().missing;");
    assert_eq!(error.kind, ErrorKind::UndefinedProperty);
    assert_eq!(error.lexeme, "missing");
    assert_eq!(failure("class A {} print A.missing;").kind, ErrorKind::UndefinedProperty);
}

#[test]
fn only_instances_and_classes_have_properties() {
    assert_eq!(failure("var a = 1; print a.b;").kind, ErrorKind::OnlyInstancesHaveProperties);
    assert_eq!(failure("var a = \"s\"; a.b = 1;").kind, ErrorKind::OnlyInstancesHaveFields);
}

#[test]
fn classes_carry_fields_of_their_own() {
    assert_eq!(output("class A {} A.count = 1; A.count = A.count + 1; print A.count;"), "2");
}

#[test]
fn the_initializer_returns_the_instance() {
    let code = "class A { init() { this.x = 1; return; } } var a = A(); print a.x; print a.init().x; class B { init() { return this; } } print B();";
    assert_eq!(output(code), "1\n1\nB instance");
}

#[test]
fn methods_are_inherited_and_overridden() {
    let code = "class A { a() { return \"A.a\"; } b() { return \"A.b\"; } } class B < A { b() { return \"B.b\"; } } class C < B {} var c = C(); print c.a(); print c.b();";
    assert_eq!(output(code), "A.a\nB.b");
}

#[test]
fn super_starts_above_the_class_of_the_method() {
    let code = "class A { m() { return \"A\"; } } class B < A { m() { return \"B\"; } test() { return super.m(); } } class C < B { m() { return \"C\"; } } print C().test();";
    assert_eq!(output(code), "A");
}

#[test]
fn inherited_initializer_sets_the_arity() {
    let code = "class A { init(x) { this.x = x; } } class B < A {} print B(5).x;";
    assert_eq!(output(code), "5");
}

#[test]
fn super_method_has_to_exist() {
    let error = failure("class A {} class B < A { m() { return super.missing(); } } B().m();");
    assert_eq!(error.kind, ErrorKind::UndefinedProperty);
    assert_eq!(error.lexeme, "missing");
}

#[test]
fn superclass_must_be_a_class() {
    let error = failure("var NotAClass = 1; class A < NotAClass {}");
    assert_eq!(error.kind, ErrorKind::SuperclassMustBeClass);
}

#[test]
fn output_before_an_error_is_kept() {
    match run("print 1; print 2; print nil + 1; print 3;") {
        Outcome::Failed(lines, error) => {
            assert_eq!(lines, vec!["1".to_string(), "2".to_string()]);
            assert_eq!(error.kind, ErrorKind::OperandsMustBeNumbersOrStrings);
        }
        _ => panic!("the program did not fail"),
    }
}

#[test]
fn the_machine_stays_stopped() {
    let mut machine = run_code("print 1;", &to_number).ok().unwrap();
    let mut steps = 0;
    loop {
        steps += 1;
        match machine.step(None) {
            Action::Done => break,
            _ => assert!(steps < 100),
        }
    }
    assert!(matches!(machine.step(None), Action::Done));
    assert!(matches!(machine.step(Some(7)), Action::Done));
    let mut machine = run_code("nil();", &to_number).ok().unwrap();
    let error = loop {
        match machine.step(None) {
            Action::Fail(error) => break error,
            _ => {}
        }
    };
    assert_eq!(error.kind, ErrorKind::NotCallable);
    assert!(matches!(machine.step(None), Action::Fail(_)));
    assert_eq!(machine.environment, machine.globals);
    assert!(machine.stack.is_empty());
}

#[test]
fn a_question_is_repeated_until_it_is_answered() {
    let mut machine = run_code("print 1 + 2;", &to_number).ok().unwrap();
    let request = loop {
        match machine.step(None) {
            Action::Ask(request) => break request,
            Action::Continue => {}
            other => panic!("{:?}", other),
        }
    };
    assert_eq!(
        request,
        Request::Arithmetic { operation: Operation::Add, left: 1f64.to_bits(), right: 2f64.to_bits() }
    );
    assert!(matches!(machine.step(None), Action::Ask(again) if again == request));
    assert!(matches!(machine.step(Some(3f64.to_bits())), Action::Continue));
    loop {
        match machine.step(None) {
            Action::PrintNumber(bits) => {
                assert_eq!(f64::from_bits(bits), 3.0);
                break;
            }
            Action::Continue => {}
            other => panic!("{:?}", other),
        }
    }
}

#[test]
fn a_block_leaves_the_scope_as_it_found_it() {
    let mut machine = run_code("{ var a = 1; { var b = 2; } }", &to_number).ok().unwrap();
    let globals = machine.globals;
    let mut deepest = 0;
    loop {
        match machine.step(None) {
            Action::Done => break,
            _ => {
                if machine.stack.len() > deepest {
                    deepest = machine.stack.len();
                }
            }
        }
    }
    assert!(deepest >= 3);
    assert_eq!(machine.environment, globals);
    assert!(machine.stack.is_empty());
}

#[test]
fn static_errors() {
    let kind = |code: &str| match refusal(code) {
        LoxError::Resolve(error) => error.kind,
        other => panic!("{:?}", other),
    };
    assert_eq!(kind("{ var a = 1; var a = 2; }"), ResolveErrorKind::AlreadyDeclared);
    assert_eq!(kind("fun f(a, a) {}"), ResolveErrorKind::AlreadyDeclared);
    assert_eq!(kind("var a = 1; { var a = a; }"), ResolveErrorKind::ReadInOwnInitializer);
    assert_eq!(kind("return 1;"), ResolveErrorKind::ReturnFromTopLevel);
    assert_eq!(kind("print this;"), ResolveErrorKind::ThisOutsideClass);
    assert_eq!(kind("fun f() { return this; }"), ResolveErrorKind::ThisOutsideClass);
    assert_eq!(kind("print super.m;"), ResolveErrorKind::SuperOutsideClass);
    assert_eq!(kind("class A { m() { return super.m(); } }"), ResolveErrorKind::SuperWithoutSuperclass);
    assert_eq!(kind("class A < A {}"), ResolveErrorKind::InheritsItself);
    assert_eq!(kind("class A { init() { return nil; } }"), ResolveErrorKind::ReturnFromInitializer);
}

#[test]
fn scan_and_parse_errors_stop_the_run() {
    match refusal("print \"open;") {
        LoxError::Scan(error) => assert_eq!(error.kind, ScanErrorKind::UnterminatedString),
        other => panic!("{:?}", other),
    }
    match refusal("print 1") {
        LoxError::Parse(error) => assert_eq!(error.message, Message::ExpectSemicolonAfterValue),
        other => panic!("{:?}", other),
    }
}

#[test]
fn skip_out_cuts_the_expectations_off() {
    assert_eq!(skip_out("print 1;\n------ output ------\n1\n"), "print 1;\n");
    assert_eq!(skip_out("print x;\n------ error ------\nUndefined"), "print x;\n");
    assert_eq!(skip_out("print 1;"), "print 1;");
    assert_eq!(skip_out(""), "");
    assert_eq!(skip_out("------ output ------"), "");
    assert_eq!(skip_out("a------ error ------b------ output ------c"), "a");
    assert_eq!(skip_out("a------ output ------b------ error ------c"), "a");
    assert_eq!(skip_out("é------ error -----"), "é------ error -----");
    assert_eq!(skip_out("é------ error ------x"), "é");
}

#[test]
fn scripts_with_expectations() {
    let scripts = [
        "var a = 1;\nprint a + 1;\n------ output ------\n2\n",
        "fun f() { return \"done\"; }\nprint f();\n------ output ------\ndone",
    ];
    for script in scripts {
        let parts: Vec<&str> = script.split("------ output ------").collect();
        assert_eq!(output(skip_out(script)).trim(), parts[1].trim());
    }
}

#[test]
fn a_block_can_be_run_again_with_the_same_result() {
    let block = "{ var a = 1; var b = a + 2; print b; if (b > 2) print \"big\"; }";
    let once = output(block);
    let twice = output(&format!("{} {}", block, block));
    assert_eq!(once, "3\nbig");
    assert_eq!(twice, format!("{}\n{}", once, once));
    let looped = output(&format!("for (var i = 0; i < 3; i = i + 1) {}", block));
    assert_eq!(looped, format!("{}\n{}\n{}", once, once, once));
}

#[test]
fn long_loops_and_deep_calls() {
    let code = "var sum = 0; for (var i = 0; i < 20000; i = i + 1) { sum = sum + i; } print sum;";
    assert_eq!(output(code), "199990000");
    let code = "fun down(n) { if (n == 0) return 0; return 1 + down(n - 1); } print down(5000);";
    assert_eq!(output(code), "5000");
    let code = "fun fib(n) { if (n < 2) return n; return fib(n - 1) + fib(n - 2); } print fib(18);";
    assert_eq!(output(code), "2584");
}
