use rlox::interpreter::{ErrorKind, RuntimeError};
use rlox::lox::{run_code, LoxError};
use rlox::message::{report, to_decimal};
use rlox::parser::Message;
use rlox::resolver::ResolveErrorKind;
use rlox::scanner::{ScanError, ScanErrorKind};

fn bits(lexeme: &String) -> u64 {
    lexeme.parse::<f64>().unwrap().to_bits()
}

fn refused_with(code: &str) -> LoxError {
    match run_code(code, &bits) {
        Err(error) => error,
        Ok(_) => panic!("accepted"),
    }
}

fn runtime(kind: ErrorKind, lexeme: &str) -> RuntimeError {
    RuntimeError { kind, line: 7, lexeme: lexeme.to_string() }
}

#[test]
fn numbers_in_decimal() {
    for n in [0usize, 1, 9, 10, 11, 99, 100, 255, 1000, 12345, 4294967295, usize::MAX] {
        assert_eq!(to_decimal(n), n.to_string());
    }
}

#[test]
fn the_form_of_a_report() {
    assert_eq!(report(12, &"+".to_string(), "Wrong.".to_string()), "[line 12] <+> : Wrong.");
    assert_eq!(report(0, &String::new(), String::new()), "[line 0] <> : ");
}

#[test]
fn what_the_scanner_says() {
    assert_eq!(ScanErrorKind::UnterminatedString.message(), "Unterminated string.");
    assert_eq!(ScanErrorKind::InvalidNumber.message(), "Invalid number.");
    assert_eq!(ScanErrorKind::UnknownCharacter.message(), "Unknown character.");
    let error = ScanError { kind: ScanErrorKind::InvalidNumber, line: 31 };
    assert_eq!(error.report(), "[line 31] : Invalid number.");
    assert_eq!(refused_with("\n\n\"open").report(), "[line 3] : Unterminated string.");
}

#[test]
fn what_the_parser_says() {
    let texts = [
        (Message::ExpectFunctionName, "Expect function name."),
        (Message::ExpectMethodName, "Expect method name."),
        (Message::ExpectParenAfterFunctionName, "Expect '(' after function name."),
        (Message::ExpectParenAfterMethodName, "Expect '(' after method name."),
        (Message::ExpectParameterName, "Expect parameter name."),
        (Message::ExpectParenAfterParameters, "Expect ')' after parameters."),
        (Message::ExpectBraceBeforeFunctionBody, "Expect '{' before function body."),
        (Message::ExpectBraceBeforeMethodBody, "Expect '{' before method body."),
        (Message::ExpectClassName, "Expect class name."),
        (Message::ExpectSuperclassName, "Expect superclass name."),
        (Message::ExpectBraceBeforeClassBody, "Expect '{' before class body."),
        (Message::ExpectBraceAfterClassBody, "Expect '}' after class body."),
        (Message::ExpectVariableName, "Expect variable name."),
        (Message::ExpectSemicolonAfterVariable, "Expect ';' after variable declaration."),
        (Message::ExpectBraceAfterBlock, "Expect '}' after block."),
        (Message::ExpectParenAfterFor, "Expect '(' after 'for'."),
        (Message::ExpectSemicolonAfterLoopCondition, "Expect ';' after loop condition."),
        (Message::ExpectParenAfterForClauses, "Expect ')' after for clauses."),
        (Message::ExpectParenAfterWhile, "Expect '(' after 'while'."),
        (Message::ExpectParenAfterWhileCondition, "Expect ')' after while condition."),
        (Message::ExpectSemicolonAfterReturn, "Expect ';' after return value."),
        (Message::ExpectParenAfterIf, "Expect '(' after 'if'."),
        (Message::ExpectParenAfterIfCondition, "Expect ')' after if condition."),
        (Message::ExpectSemicolonAfterValue, "Expect ';' after value."),
        (Message::ExpectSemicolonAfterExpression, "Expect ';' after expression."),
        (Message::ExpectPropertyName, "Expect property name after '.'."),
        (Message::ExpectParenAfterArguments, "Expect ')' after arguments."),
        (Message::ExpectParenAfterExpression, "Expect ')' after expression."),
        (Message::ExpectDotAfterSuper, "Expect '.' after 'super'."),
        (Message::ExpectSuperclassMethodName, "Expect superclass method name."),
        (Message::TooManyArguments, "Can't have more than 255 arguments."),
        (Message::TooManyParameters, "Can't have more than 255 parameters."),
        (Message::InvalidAssignmentTarget, "Invalid assignment target."),
        (Message::UnexpectedToken, "Unexpected token."),
    ];
    for (message, text) in texts {
        assert_eq!(message.message(), text);
    }
    assert_eq!(
        refused_with("var a = 1;\n1 = a;").report(),
        "[line 2] <=> : Invalid assignment target."
    );
    assert_eq!(refused_with("print 1").report(), "[line 1] <> : Expect ';' after value.");
}

#[test]
fn what_the_resolver_says() {
    let texts = [
        (ResolveErrorKind::AlreadyDeclared, "Already a variable with this name in this scope."),
        (
            ResolveErrorKind::ReadInOwnInitializer,
            "Can't read local variable in its own initializer.",
        ),
        (ResolveErrorKind::ReturnFromTopLevel, "Can't return from top-level code."),
        (ResolveErrorKind::ReturnFromInitializer, "Can't return a value from an initializer."),
        (ResolveErrorKind::ThisOutsideClass, "Can't use 'this' outside of a class."),
        (ResolveErrorKind::SuperOutsideClass, "Can't use 'super' outside of a class."),
        (
            ResolveErrorKind::SuperWithoutSuperclass,
            "Can't use 'super' in a class with no superclass.",
        ),
        (ResolveErrorKind::InheritsItself, "A class can't inherit from itself."),
    ];
    for (kind, text) in texts {
        assert_eq!(kind.message(), text);
    }
    assert_eq!(
        refused_with("class C { init(){ return 1; } }").report(),
        "[line 1] <return> : Can't return a value from an initializer."
    );
    assert_eq!(
        refused_with("{\n var a;\n var a;\n}").report(),
        "[line 3] <a> : Already a variable with this name in this scope."
    );
}

#[test]
fn what_the_machine_says() {
    let texts = [
        (runtime(ErrorKind::OperandMustBeNumber, "-"), "Operator must be a number."),
        (runtime(ErrorKind::OperandsMustBeNumbers, "*"), "Operators must be two numbers."),
        (
            runtime(ErrorKind::OperandsMustBeNumbersOrStrings, "+"),
            "Operators must be two numbers or strings.",
        ),
        (runtime(ErrorKind::DivisionByZero, "/"), "Division by zero."),
        (runtime(ErrorKind::UndefinedVariable, "x"), "Undefined variable `x`."),
        (runtime(ErrorKind::UndefinedProperty, "size"), "Undefined property `size`."),
        (
            runtime(ErrorKind::WrongArity { expected: 2, got: 10 }, ")"),
            "Expected 2 arguments but got 10.",
        ),
        (runtime(ErrorKind::NotCallable, ")"), "Can only call functions and classes."),
        (runtime(ErrorKind::OnlyInstancesHaveProperties, "a"), "Only instances have properties."),
        (runtime(ErrorKind::OnlyInstancesHaveFields, "a"), "Only instances have fields."),
        (runtime(ErrorKind::SuperclassMustBeClass, "A"), "Superclass must be a class."),
        (runtime(ErrorKind::ReturnOutsideFunction, ""), "Can't return from top-level code."),
        (runtime(ErrorKind::Unreachable, ""), "Unreachable error!"),
    ];
    for (error, text) in &texts {
        assert_eq!(error.message(), *text);
    }
    assert_eq!(texts[3].0.report(), "[line 7] </> : Division by zero.");
    assert_eq!(texts[4].0.report(), "[line 7] <x> : Undefined variable `x`.");
    assert_eq!(texts[6].0.report(), "[line 7] <)> : Expected 2 arguments but got 10.");
}
