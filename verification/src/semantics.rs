//! What one step of the machine does, as mathematics.
//!
//! Every function here takes a state of the machine and gives the state that
//! follows it. The executable machine is proved to take exactly these steps.

use vstd::prelude::*;
use std::rc::Rc;
use crate::class::{class_arity, find_method, ClassView};
use crate::environment::{assign, lookup, read_at, write_at, EnvironmentView};
use crate::expr::{Expr, HashExpr, SuperExpr};
use crate::function::{Callable, Clock, Function};
use crate::heap::HeapView;
use crate::interpreter::{
    ActionView,
    ControlView,
    ErrorKind,
    FrameView,
    InterpretErrorView,
    InterpreterView,
    Operation,
    Request,
    RuntimeErrorView,
};
use crate::number::{is_zero, less, less_equal, negated};
use crate::object::ObjectView;
use crate::stmt::{ClassStmt, FunctionStmt, Stmt};
use crate::token::{Token, TokenType};

verus! {

/// The text that `print` writes for a value that is not a number.
pub open spec fn render(heap: HeapView, value: ObjectView) -> Seq<char> {
    match value {
        ObjectView::Nil => "nil"@,
        ObjectView::Boolean(b) => if b {
            "true"@
        } else {
            "false"@
        },
        ObjectView::Number(_) => Seq::empty(),
        ObjectView::String(s) => s,
        ObjectView::Function(f) => if f < heap.functions.len() {
            match heap.functions[f as int] {
                Callable::Clock(_) => "<native clock>"@,
                Callable::Function(function) => "<fn "@ + function.name() + ">"@,
            }
        } else {
            "<fn>"@
        },
        ObjectView::Class(c) => if c < heap.classes.len() {
            heap.classes[c as int].name.lexeme@
        } else {
            "<class>"@
        },
        ObjectView::Instance(i) => if i < heap.instances.len() && heap.instances[i as int].class
            < heap.classes.len() {
            heap.classes[heap.instances[i as int].class as int].name.lexeme@ + " instance"@
        } else {
            "<instance>"@
        },
    }
}

/// The stores after the parameters from the `i`-th on have been bound, each
/// to the argument at its place, in the scope at `scope`.
pub open spec fn bind_parameters(
    heap: HeapView,
    scope: usize,
    params: Seq<Rc<Token>>,
    values: Seq<ObjectView>,
    i: nat,
) -> HeapView
    decreases params.len() - i,
{
    if i >= params.len() || i >= values.len() {
        heap
    } else {
        bind_parameters(
            heap.defined(scope, params[i as int].lexeme@, values[i as int]),
            scope,
            params,
            values,
            i + 1,
        )
    }
}

/// The methods that the declarations stand for when they are closed over
/// the scope at `closure`. The one called `init` is the initializer.
pub open spec fn methods_of(declarations: Seq<Rc<FunctionStmt>>, closure: usize) -> Seq<Function> {
    Seq::new(
        declarations.len(),
        |i: int|
            Function {
                declaration: declarations[i],
                closure,
                is_initializer: declarations[i].name.lexeme@ == "init"@,
            },
    )
}

/// What a comparison operator says of two doubles.
pub open spec fn compared(operator: TokenType, a: u64, b: u64) -> bool {
    match operator {
        TokenType::Greater => less(b, a),
        TokenType::GreaterEqual => less_equal(b, a),
        TokenType::Less => less(a, b),
        _ => less_equal(a, b),
    }
}

impl InterpreterView {
    /// The machine as it stands before the first step: the scope of the
    /// globals, in which `clock` is defined, and the program as a block that
    /// runs in that scope.
    pub open spec fn loaded(locals: Map<usize, usize>, statements: Seq<Rc<Stmt>>)
        -> InterpreterView {
        InterpreterView {
            locals,
            heap: HeapView {
                environments: seq![
                    EnvironmentView {
                        enclosing: None,
                        values: Map::<Seq<char>, ObjectView>::empty().insert(
                            "clock"@,
                            ObjectView::Function(0),
                        ),
                    },
                ],
                functions: seq![Callable::Clock(Clock {  })],
                classes: Seq::empty(),
                instances: Seq::empty(),
            },
            globals: 0,
            environment: 0,
            stack: seq![FrameView::Block { statements, index: 0, previous: 0 }],
            control: ControlView::Next,
        }
    }

    /// The machine with `control` as what it does next.
    pub open spec fn becoming(self, control: ControlView) -> InterpreterView {
        InterpreterView { control, ..self }
    }

    /// The machine with one more frame on its stack.
    pub open spec fn pushed(self, frame: FrameView) -> InterpreterView {
        InterpreterView { stack: self.stack.push(frame), ..self }
    }

    /// The machine without the top frame of its stack.
    pub open spec fn popped(self) -> InterpreterView {
        InterpreterView { stack: self.stack.drop_last(), ..self }
    }

    /// The machine with other stores.
    pub open spec fn with_heap(self, heap: HeapView) -> InterpreterView {
        InterpreterView { heap, ..self }
    }

    /// The machine stopped on an error. Every block and call under way is
    /// left at once, so the scope is that of the globals again.
    pub open spec fn failed(self, kind: ErrorKind, line: usize, lexeme: Seq<char>)
        -> InterpreterView {
        InterpreterView {
            stack: Seq::empty(),
            environment: self.globals,
            control: ControlView::Failed(RuntimeErrorView { kind, line, lexeme }),
            ..self
        }
    }

    /// The machine stopped on an error noticed at `token`.
    pub open spec fn failed_at(self, kind: ErrorKind, token: Token) -> InterpreterView {
        self.failed(kind, token.line, token.lexeme@)
    }

    /// The machine stopped on the error `error`, which was noticed at `token`.
    pub open spec fn raised(self, error: InterpretErrorView, token: Token) -> InterpreterView {
        match error {
            InterpretErrorView::Error(e) => self.failed_at(e.kind, token),
            InterpretErrorView::Return(_) => self.failed_at(ErrorKind::Unreachable, token),
        }
    }

    /// What the variable named by the expression `id` holds: the resolver's
    /// distance says in which scope to look, and a name without a distance
    /// is a global.
    pub open spec fn variable(self, name: Token, id: usize) -> Result<
        ObjectView,
        InterpretErrorView,
    > {
        if self.locals.contains_key(id) {
            read_at(self.heap.environments, self.environment, self.locals[id] as nat, name.lexeme@)
        } else {
            lookup(self.heap.environments, self.globals, name.lexeme@)
        }
    }

    /// Reads a variable, which gives its value or stops the machine.
    pub open spec fn lookup_variable(self, name: Token, id: usize) -> InterpreterView {
        match self.variable(name, id) {
            Ok(value) => self.becoming(ControlView::Value(value)),
            Err(error) => self.raised(error, name),
        }
    }

    /// Assigns to the variable named by the expression `id`. The assignment
    /// itself evaluates to nil.
    pub open spec fn assign_variable(self, name: Token, id: usize, value: ObjectView)
        -> InterpreterView {
        let written = if self.locals.contains_key(id) {
            write_at(
                self.heap.environments,
                self.environment,
                self.locals[id] as nat,
                name.lexeme@,
                value,
            )
        } else {
            assign(self.heap.environments, self.globals, name.lexeme@, value)
        };
        match written {
            Ok(environments) => self.with_heap(HeapView { environments, ..self.heap }).becoming(
                ControlView::Value(ObjectView::Nil),
            ),
            Err(error) => self.raised(error, name),
        }
    }

    /// `super.method`: the superclass stands under `super` at the resolver's
    /// distance and the instance under `this` one scope further in.
    pub open spec fn super_method(self, access: SuperExpr, id: usize) -> InterpreterView {
        if !self.locals.contains_key(id) || self.locals[id] == 0 {
            self.failed_at(ErrorKind::Unreachable, *access.keyword)
        } else {
            let distance = self.locals[id];
            match (
                read_at(self.heap.environments, self.environment, distance as nat, "super"@),
                read_at(self.heap.environments, self.environment, (distance - 1) as nat, "this"@),
            ) {
                (
                    Ok(ObjectView::Class(class)),
                    Ok(ObjectView::Instance(instance)),
                ) => match find_method(self.heap.classes, class, access.method.lexeme@) {
                    Some(method) => self.with_heap(
                        self.heap.bound_method(method, instance),
                    ).becoming(
                        ControlView::Value(
                            ObjectView::Function(self.heap.functions.len() as usize),
                        ),
                    ),
                    None => self.failed_at(ErrorKind::UndefinedProperty, *access.method),
                },
                _ => self.failed_at(ErrorKind::Unreachable, *access.keyword),
            }
        }
    }

    /// Starts on an expression. A literal is nil, a boolean, a number or a
    /// string, as the parser makes them; a tree that holds anything else in the
    /// place of a literal is refused.
    pub open spec fn visit_expr(self, e: HashExpr) -> InterpreterView {
        match e.expr {
            Expr::Literal(literal) => match literal.value.deep_view() {
                ObjectView::Function(_) | ObjectView::Class(_) | ObjectView::Instance(
                    _,
                ) => self.failed(ErrorKind::Unreachable, 0, Seq::empty()),
                value => self.becoming(ControlView::Value(value)),
            },
            Expr::Grouping(grouping) => self.becoming(ControlView::Evaluate(grouping.expression)),
            Expr::Unary(unary) => self.pushed(FrameView::Unary { op: unary.op }).becoming(
                ControlView::Evaluate(unary.right),
            ),
            Expr::Binary(binary) => self.pushed(
                FrameView::BinaryRight { op: binary.op, right: binary.right },
            ).becoming(ControlView::Evaluate(binary.left)),
            Expr::Variable(variable) => self.lookup_variable(*variable.name, e.id),
            Expr::Assign(assign) => self.pushed(
                FrameView::Assign { name: assign.name, id: e.id },
            ).becoming(ControlView::Evaluate(assign.value)),
            Expr::Logical(logical) => self.pushed(
                FrameView::Logical { op: logical.op, right: logical.right },
            ).becoming(ControlView::Evaluate(logical.left)),
            Expr::Call(call) => self.pushed(
                FrameView::Callee { paren: call.paren, arguments: call.arguments@ },
            ).becoming(ControlView::Evaluate(call.callee)),
            Expr::Get(get) => self.pushed(FrameView::Get { name: get.name }).becoming(
                ControlView::Evaluate(get.object),
            ),
            Expr::SetField(set) => self.pushed(
                FrameView::SetObject { name: set.name, value: set.value },
            ).becoming(ControlView::Evaluate(set.object)),
            Expr::This(this) => self.lookup_variable(*this.keyword, e.id),
            Expr::Super(access) => self.super_method(access, e.id),
        }
    }

    /// Enters a block: the scope at `environment` becomes the current one,
    /// and the frame remembers the scope to go back to. The end of the block
    /// and a `return` go back to it (`advance`, `unwind`); an error goes back
    /// to the scope of the globals at once (`failed`).
    pub open spec fn execute_block(self, statements: Seq<Rc<Stmt>>, environment: usize)
        -> InterpreterView {
        InterpreterView {
            environment,
            ..self.pushed(
                FrameView::Block { statements, index: 0, previous: self.environment },
            )
        }
    }

    /// Declares a class: its methods close over the current scope or, with
    /// a superclass, over a scope of their own in which `super` is bound.
    pub open spec fn declare_class(self, declaration: ClassStmt, superclass: Option<usize>)
        -> InterpreterView {
        let fresh = self.heap.environments.len() as usize;
        let heap = match superclass {
            Some(above) => self.heap.scoped(Some(self.environment)).defined(
                fresh,
                "super"@,
                ObjectView::Class(above),
            ),
            None => self.heap,
        };
        let closure = if superclass is Some {
            fresh
        } else {
            self.environment
        };
        let class = ClassView {
            name: declaration.name,
            superclass,
            methods: methods_of(declaration.methods@, closure),
            fields: Map::empty(),
        };
        self.with_heap(
            heap.with_class(class).defined(
                self.environment,
                declaration.name.lexeme@,
                ObjectView::Class(heap.classes.len() as usize),
            ),
        ).becoming(ControlView::Next)
    }

    /// Starts on a statement.
    pub open spec fn visit_stmt(self, s: Stmt) -> InterpreterView {
        match s {
            Stmt::Expression(statement) => self.pushed(FrameView::Discard).becoming(
                ControlView::Evaluate(statement.expression),
            ),
            Stmt::Print(statement) => self.pushed(FrameView::Print).becoming(
                ControlView::Evaluate(statement.expression),
            ),
            Stmt::Var(statement) => match statement.initializer {
                Some(initializer) => self.pushed(FrameView::Var { name: statement.name }).becoming(
                    ControlView::Evaluate(initializer),
                ),
                None => self.with_heap(
                    self.heap.defined(self.environment, statement.name.lexeme@, ObjectView::Nil),
                ).becoming(ControlView::Next),
            },
            Stmt::Block(block) => self.with_heap(
                self.heap.scoped(Some(self.environment)),
            ).execute_block(block.statements@, self.heap.environments.len() as usize).becoming(
                ControlView::Next,
            ),
            Stmt::If(statement) => self.pushed(
                FrameView::If {
                    then_branch: statement.then_branch,
                    else_branch: statement.else_branch,
                },
            ).becoming(ControlView::Evaluate(statement.condition)),
            Stmt::While(statement) => self.pushed(
                FrameView::WhileCondition { condition: statement.condition, body: statement.body },
            ).becoming(ControlView::Evaluate(statement.condition)),
            Stmt::Function(declaration) => self.with_heap(
                self.heap.with_function(
                    Callable::Function(
                        Function { declaration, closure: self.environment, is_initializer: false },
                    ),
                ).defined(
                    self.environment,
                    declaration.name.lexeme@,
                    ObjectView::Function(self.heap.functions.len() as usize),
                ),
            ).becoming(ControlView::Next),
            Stmt::Return(statement) => match statement.value {
                Some(value) => self.pushed(FrameView::Return).becoming(
                    ControlView::Evaluate(value),
                ),
                None => self.becoming(ControlView::Return(ObjectView::Nil)),
            },
            Stmt::Class(declaration) => match declaration.superclass {
                Some(superclass) => self.pushed(FrameView::ClassSuper { declaration }).becoming(
                    ControlView::Evaluate(superclass),
                ),
                None => self.declare_class(*declaration, None),
            },
        }
    }

    /// Applies a unary operator.
    pub open spec fn unary(self, op: Token, value: ObjectView) -> InterpreterView {
        match op.token_type {
            TokenType::Minus => match value {
                ObjectView::Number(n) => self.becoming(
                    ControlView::Value(ObjectView::Number(negated(n))),
                ),
                _ => self.failed_at(ErrorKind::OperandMustBeNumber, op),
            },
            TokenType::Bang => self.becoming(
                ControlView::Value(ObjectView::Boolean(!value.is_truthy())),
            ),
            _ => self.failed_at(ErrorKind::Unreachable, op),
        }
    }

    /// Applies a binary operator. Sums, differences, products and quotients of
    /// numbers are asked for; everything else is decided here.
    pub open spec fn binary(self, op: Token, left: ObjectView, right: ObjectView)
        -> InterpreterView {
        match op.token_type {
            TokenType::Minus | TokenType::Star | TokenType::Slash => match (left, right) {
                (ObjectView::Number(a), ObjectView::Number(b)) => if op.token_type
                    == TokenType::Slash && is_zero(b) {
                    self.failed_at(ErrorKind::DivisionByZero, op)
                } else {
                    self.becoming(
                        ControlView::Await(
                            Request::Arithmetic {
                                operation: match op.token_type {
                                    TokenType::Minus => Operation::Subtract,
                                    TokenType::Star => Operation::Multiply,
                                    _ => Operation::Divide,
                                },
                                left: a,
                                right: b,
                            },
                        ),
                    )
                },
                _ => self.failed_at(ErrorKind::OperandsMustBeNumbers, op),
            },
            TokenType::Plus => match (left, right) {
                (ObjectView::Number(a), ObjectView::Number(b)) => self.becoming(
                    ControlView::Await(
                        Request::Arithmetic { operation: Operation::Add, left: a, right: b },
                    ),
                ),
                (ObjectView::String(a), ObjectView::String(b)) => self.becoming(
                    ControlView::Value(ObjectView::String(a + b)),
                ),
                _ => self.failed_at(ErrorKind::OperandsMustBeNumbersOrStrings, op),
            },
            TokenType::Greater
            | TokenType::GreaterEqual
            | TokenType::Less
            | TokenType::LessEqual => match (left, right) {
                (ObjectView::Number(a), ObjectView::Number(b)) => self.becoming(
                    ControlView::Value(ObjectView::Boolean(compared(op.token_type, a, b))),
                ),
                _ => self.failed_at(ErrorKind::OperandsMustBeNumbers, op),
            },
            TokenType::BangEqual => self.becoming(
                ControlView::Value(ObjectView::Boolean(!left.equals(right))),
            ),
            TokenType::EqualEqual => self.becoming(
                ControlView::Value(ObjectView::Boolean(left.equals(right))),
            ),
            _ => self.failed_at(ErrorKind::Unreachable, op),
        }
    }

    /// Decides an `and` or an `or` on its left operand: the operand itself is
    /// the result where it settles the matter, and only otherwise is the right
    /// operand evaluated.
    pub open spec fn logical(self, op: Token, right: Rc<HashExpr>, left: ObjectView)
        -> InterpreterView {
        match op.token_type {
            TokenType::Or => if left.is_truthy() {
                self.becoming(ControlView::Value(left))
            } else {
                self.becoming(ControlView::Evaluate(right))
            },
            TokenType::And => if !left.is_truthy() {
                self.becoming(ControlView::Value(left))
            } else {
                self.becoming(ControlView::Evaluate(right))
            },
            _ => self.failed_at(ErrorKind::Unreachable, op),
        }
    }

    /// Calls a function of the program: a fresh scope inside the function's
    /// closure holds the arguments, and the body runs as a block in it.
    pub open spec fn call_function(
        self,
        function: Function,
        arguments: Seq<ObjectView>,
        paren: Token,
    )
        -> InterpreterView {
        if arguments.len() != function.parameters() {
            self.failed_at(
                ErrorKind::WrongArity {
                    expected: function.parameters() as usize,
                    got: arguments.len() as usize,
                },
                paren,
            )
        } else {
            let scope = self.heap.environments.len() as usize;
            self.with_heap(
                bind_parameters(
                    self.heap.scoped(Some(function.closure)),
                    scope,
                    function.declaration.params@,
                    arguments,
                    0,
                ),
            ).pushed(
                FrameView::Call {
                    initializer: if function.is_initializer {
                        Some(function.closure)
                    } else {
                        None
                    },
                },
            ).execute_block(function.declaration.body@, scope).becoming(ControlView::Next)
        }
    }

    /// Calls a class: makes an instance and, if the class has an
    /// initializer, runs it bound to the instance.
    pub open spec fn call_class(self, class: usize, arguments: Seq<ObjectView>, paren: Token)
        -> InterpreterView {
        if class >= self.heap.classes.len() {
            self.failed_at(ErrorKind::Unreachable, paren)
        } else if arguments.len() != class_arity(self.heap.classes, class) {
            self.failed_at(
                ErrorKind::WrongArity {
                    expected: class_arity(self.heap.classes, class) as usize,
                    got: arguments.len() as usize,
                },
                paren,
            )
        } else {
            let instance = self.heap.instances.len() as usize;
            let heap = self.heap.with_instance(class);
            match find_method(self.heap.classes, class, "init"@) {
                Some(initializer) => self.with_heap(
                    HeapView {
                        environments: crate::function::bound(
                            heap.environments,
                            initializer,
                            instance,
                        ).0,
                        ..heap
                    },
                ).pushed(FrameView::Construct { instance }).call_function(
                    crate::function::bound(heap.environments, initializer, instance).1,
                    arguments,
                    paren,
                ),
                None => self.with_heap(heap).becoming(
                    ControlView::Value(ObjectView::Instance(instance)),
                ),
            }
        }
    }

    /// Calls `callee` with the arguments.
    pub open spec fn call(self, callee: ObjectView, arguments: Seq<ObjectView>, paren: Token)
        -> InterpreterView {
        match callee {
            ObjectView::Function(f) => if f >= self.heap.functions.len() {
                self.failed_at(ErrorKind::Unreachable, paren)
            } else {
                match self.heap.functions[f as int] {
                    Callable::Clock(_) => if arguments.len() != 0 {
                        self.failed_at(
                            ErrorKind::WrongArity { expected: 0, got: arguments.len() as usize },
                            paren,
                        )
                    } else {
                        self.becoming(ControlView::Await(Request::Clock))
                    },
                    Callable::Function(function) => self.call_function(function, arguments, paren),
                }
            },
            ObjectView::Class(class) => self.call_class(class, arguments, paren),
            _ => self.failed_at(ErrorKind::NotCallable, paren),
        }
    }

    /// Reads a property.
    pub open spec fn get_property(self, object: ObjectView, name: Token) -> InterpreterView {
        match object {
            ObjectView::Instance(instance) => {
                let (heap, found) = self.heap.instance_get(instance, name.lexeme@);
                match found {
                    Ok(value) => self.with_heap(heap).becoming(ControlView::Value(value)),
                    Err(error) => self.raised(error, name),
                }
            },
            ObjectView::Class(class) => match self.heap.class_get(class, name.lexeme@) {
                Ok(value) => self.becoming(ControlView::Value(value)),
                Err(error) => self.raised(error, name),
            },
            _ => self.failed_at(ErrorKind::OnlyInstancesHaveProperties, name),
        }
    }

    /// Writes a property. The write itself evaluates to nil.
    pub open spec fn set_property(self, object: ObjectView, name: Token, value: ObjectView)
        -> InterpreterView {
        let written = match object {
            ObjectView::Instance(instance) => self.heap.instance_set(instance, name.lexeme@, value),
            ObjectView::Class(class) => self.heap.class_set(class, name.lexeme@, value),
            _ => Err(
                InterpretErrorView::Error(
                    RuntimeErrorView {
                        kind: ErrorKind::OnlyInstancesHaveFields,
                        line: 0,
                        lexeme: name.lexeme@,
                    },
                ),
            ),
        };
        match written {
            Ok(heap) => self.with_heap(heap).becoming(ControlView::Value(ObjectView::Nil)),
            Err(error) => self.raised(error, name),
        }
    }

    /// Hands a value to the frame on top of the stack, which is taken off.
    pub open spec fn resume(self, value: ObjectView) -> InterpreterView {
        if self.stack.len() == 0 {
            self.failed(ErrorKind::Unreachable, 0, Seq::empty())
        } else {
            let rest = self.popped();
            match self.stack.last() {
                FrameView::Unary { op } => rest.unary(*op, value),
                FrameView::BinaryRight { op, right } => rest.pushed(
                    FrameView::BinaryApply { op, left: value },
                ).becoming(ControlView::Evaluate(right)),
                FrameView::BinaryApply { op, left } => rest.binary(*op, left, value),
                FrameView::Logical { op, right } => rest.logical(*op, right, value),
                FrameView::Assign { name, id } => rest.assign_variable(*name, id, value),
                FrameView::Callee { paren, arguments } => if arguments.len() == 0 {
                    rest.call(value, Seq::empty(), *paren)
                } else {
                    rest.pushed(
                        FrameView::Arguments {
                            paren,
                            arguments,
                            callee: value,
                            values: Seq::empty(),
                        },
                    ).becoming(ControlView::Evaluate(arguments[0]))
                },
                FrameView::Arguments { paren, arguments, callee, values } => if values.len() + 1
                    < arguments.len() {
                    rest.pushed(
                        FrameView::Arguments {
                            paren,
                            arguments,
                            callee,
                            values: values.push(value),
                        },
                    ).becoming(ControlView::Evaluate(arguments[values.len() as int + 1]))
                } else {
                    rest.call(callee, values.push(value), *paren)
                },
                FrameView::Get { name } => rest.get_property(value, *name),
                FrameView::SetObject { name, value: written } => match value {
                    ObjectView::Instance(_) | ObjectView::Class(_) => rest.pushed(
                        FrameView::SetValue { name, object: value },
                    ).becoming(ControlView::Evaluate(written)),
                    _ => rest.failed_at(ErrorKind::OnlyInstancesHaveFields, *name),
                },
                FrameView::SetValue { name, object } => rest.set_property(object, *name, value),
                FrameView::Construct { instance } => rest.becoming(
                    ControlView::Value(ObjectView::Instance(instance)),
                ),
                FrameView::Discard => rest.becoming(ControlView::Next),
                FrameView::Print => rest.becoming(ControlView::Output(value)),
                FrameView::Var { name } => rest.with_heap(
                    rest.heap.defined(rest.environment, name.lexeme@, value),
                ).becoming(ControlView::Next),
                FrameView::If { then_branch, else_branch } => if value.is_truthy() {
                    rest.becoming(ControlView::Execute(then_branch))
                } else {
                    match else_branch {
                        Some(otherwise) => rest.becoming(ControlView::Execute(otherwise)),
                        None => rest.becoming(ControlView::Next),
                    }
                },
                FrameView::WhileCondition { condition, body } => if value.is_truthy() {
                    rest.pushed(FrameView::WhileBody { condition, body }).becoming(
                        ControlView::Execute(body),
                    )
                } else {
                    rest.becoming(ControlView::Next)
                },
                FrameView::Return => rest.becoming(ControlView::Return(value)),
                FrameView::ClassSuper { declaration } => match value {
                    ObjectView::Class(above) => if above < rest.heap.classes.len() {
                        rest.declare_class(*declaration, Some(above))
                    } else {
                        rest.failed_at(ErrorKind::Unreachable, *declaration.name)
                    },
                    _ => rest.failed_at(ErrorKind::SuperclassMustBeClass, *declaration.name),
                },
                _ => rest.failed(ErrorKind::Unreachable, 0, Seq::empty()),
            }
        }
    }

    /// What a call gives once its body is done with: `this` for an
    /// initializer, else the value at hand.
    pub open spec fn finish_call(self, initializer: Option<usize>, value: ObjectView)
        -> InterpreterView {
        match initializer {
            Some(closure) => match read_at(self.heap.environments, closure, 0, "this"@) {
                Ok(this) => self.becoming(ControlView::Value(this)),
                Err(_) => self.failed(ErrorKind::Unreachable, 0, "this"@),
            },
            None => self.becoming(ControlView::Value(value)),
        }
    }

    /// Goes on after a statement has finished. With nothing left on the
    /// stack the program is over.
    pub open spec fn advance(self) -> InterpreterView {
        if self.stack.len() == 0 {
            self.becoming(ControlView::Finished)
        } else {
            let rest = self.popped();
            match self.stack.last() {
                FrameView::Block { statements, index, previous } => if index < statements.len() {
                    rest.pushed(
                        FrameView::Block { statements, index: (index + 1) as usize, previous },
                    ).becoming(ControlView::Execute(statements[index as int]))
                } else {
                    InterpreterView { environment: previous, ..rest }.becoming(ControlView::Next)
                },
                FrameView::WhileBody { condition, body } => rest.pushed(
                    FrameView::WhileCondition { condition, body },
                ).becoming(ControlView::Evaluate(condition)),
                FrameView::Call { initializer } => rest.finish_call(initializer, ObjectView::Nil),
                _ => rest.failed(ErrorKind::Unreachable, 0, Seq::empty()),
            }
        }
    }

    /// Carries a `return` one frame further out: a block on the way is left,
    /// which restores its scope, and the call ends the search.
    pub open spec fn unwind(self, value: ObjectView) -> InterpreterView {
        if self.stack.len() == 0 {
            self.failed(ErrorKind::ReturnOutsideFunction, 0, Seq::empty())
        } else {
            let rest = self.popped();
            match self.stack.last() {
                FrameView::Block { statements, index, previous } => InterpreterView {
                    environment: previous,
                    ..rest
                }.becoming(ControlView::Return(value)),
                FrameView::Call { initializer } => rest.finish_call(initializer, value),
                _ => rest.becoming(ControlView::Return(value)),
            }
        }
    }

    /// One step of the machine. `reply` is the answer to the question that
    /// the machine is waiting on, if it is waiting.
    pub open spec fn step(self, reply: Option<u64>) -> InterpreterView {
        let idle = self.becoming(ControlView::Next);
        match self.control {
            ControlView::Evaluate(e) => idle.visit_expr(*e),
            ControlView::Execute(s) => idle.visit_stmt(*s),
            ControlView::Value(value) => idle.resume(value),
            ControlView::Next => idle.advance(),
            ControlView::Return(value) => idle.unwind(value),
            ControlView::Await(_) => match reply {
                Some(bits) => idle.becoming(ControlView::Value(ObjectView::Number(bits))),
                None => self,
            },
            ControlView::Output(_) => idle,
            ControlView::Finished => self,
            ControlView::Failed(_) => self,
        }
    }

    /// What the machine wants done in the state it is in.
    pub open spec fn action(self) -> ActionView {
        match self.control {
            ControlView::Output(value) => match value {
                ObjectView::Number(n) => ActionView::PrintNumber(n),
                _ => ActionView::Print(render(self.heap, value)),
            },
            ControlView::Await(request) => ActionView::Ask(request),
            ControlView::Finished => ActionView::Done,
            ControlView::Failed(error) => ActionView::Fail(error),
            _ => ActionView::Continue,
        }
    }
}

impl InterpreterView {
    /// The machine after one step for each input, in order. An input is
    /// what a step is given from outside: the answer to the question that the
    /// machine may be waiting on.
    pub open spec fn run(self, inputs: Seq<Option<u64>>) -> InterpreterView
        decreases inputs.len(),
    {
        if inputs.len() == 0 {
            self
        } else {
            self.step(inputs[0]).run(inputs.drop_first())
        }
    }

    /// What the machine wants done after each of the steps, in order: all
    /// that can be observed of a run.
    pub open spec fn trace(self, inputs: Seq<Option<u64>>) -> Seq<ActionView>
        decreases inputs.len(),
    {
        if inputs.len() == 0 {
            Seq::empty()
        } else {
            seq![self.step(inputs[0]).action()] + self.step(inputs[0]).trace(
                inputs.drop_first(),
            )
        }
    }
}

} // verus!
