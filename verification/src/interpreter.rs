//! The abstract machine that executes a resolved program.

use vstd::prelude::*;
use std::collections::HashMap;
use std::rc::Rc;
use crate::class::Class;
use crate::environment::Environment;
use crate::expr::{Expr, HashExpr, SuperExpr};
use crate::function::{Callable, Clock, Function};
use crate::heap::{Heap, HeapView};
use crate::instance::Instance;
use crate::message::{decimal, report, reported, to_decimal};
use crate::number::{number_is_zero, number_less, number_less_equal, number_negate};
use crate::object::{Object, ObjectView};
use crate::resolver::{resolved, ResolveError, Resolver};
use crate::semantics::{bind_parameters, methods_of, render};
use crate::soundness::{
    fits,
    lemma_loaded_is_well_formed,
    lemma_step_keeps_well_formed,
    sizes,
};
use crate::stmt::{ClassStmt, FunctionStmt, Stmt};
use crate::token::{Token, TokenType};

verus! {

/// What went wrong at run time.
#[derive(Debug, Clone, Copy, PartialEq, Eq, Structural)]
pub enum ErrorKind {
    /// Unary minus on something that is not a number.
    OperandMustBeNumber,
    /// Arithmetic or a comparison on something that is not a number.
    OperandsMustBeNumbers,
    /// `+` on anything but two numbers or two strings.
    OperandsMustBeNumbersOrStrings,
    DivisionByZero,
    UndefinedVariable,
    UndefinedProperty,
    /// A call with the wrong number of arguments.
    WrongArity { expected: usize, got: usize },
    /// A call of something that is neither a function nor a class.
    NotCallable,
    /// A property read on something that has no properties.
    OnlyInstancesHaveProperties,
    /// A property write on something that has no fields.
    OnlyInstancesHaveFields,
    SuperclassMustBeClass,
    /// A `return` that no function call encloses.
    ReturnOutsideFunction,
    /// A place or a scope distance that points at nothing, or a tree or a
    /// stack of frames of a shape that the parser and the machine do not
    /// make.
    Unreachable,
}

/// A runtime error: its kind, the line of the token it was noticed at (0
/// where no token is at hand) and the name or operator concerned.
#[derive(Debug, Clone)]
pub struct RuntimeError {
    pub kind: ErrorKind,
    pub line: usize,
    pub lexeme: String,
}

/// What a [`RuntimeError`] stands for.
pub struct RuntimeErrorView {
    pub kind: ErrorKind,
    pub line: usize,
    pub lexeme: Seq<char>,
}

impl DeepView for RuntimeError {
    type V = RuntimeErrorView;

    open spec fn deep_view(&self) -> RuntimeErrorView {
        RuntimeErrorView { kind: self.kind, line: self.line, lexeme: self.lexeme@ }
    }
}

impl RuntimeError {
    /// A second copy of the error.
    pub fn duplicate(&self) -> (r: RuntimeError)
        ensures
            r == *self,
    {
        RuntimeError { kind: self.kind, line: self.line, lexeme: self.lexeme.clone() }
    }
}

/// The two ways in which evaluation leaves the normal path: a runtime error,
/// which ends the program, and a `return`, which ends the innermost call.
#[derive(Debug, Clone)]
pub enum InterpretError {
    Error(RuntimeError),
    Return(Object),
}

/// What an [`InterpretError`] stands for.
pub enum InterpretErrorView {
    Error(RuntimeErrorView),
    Return(ObjectView),
}

impl DeepView for InterpretError {
    type V = InterpretErrorView;

    open spec fn deep_view(&self) -> InterpretErrorView {
        match self {
            InterpretError::Error(e) => InterpretErrorView::Error(e.deep_view()),
            InterpretError::Return(v) => InterpretErrorView::Return(v.deep_view()),
        }
    }
}

/// The error of the given kind about the given name, with no line.
pub open spec fn failure(kind: ErrorKind, line: usize, lexeme: Seq<char>) -> InterpretErrorView {
    InterpretErrorView::Error(RuntimeErrorView { kind, line, lexeme })
}

/// What a result with a value stands for.
pub open spec fn value_view(r: Result<Object, InterpretError>) -> Result<
    ObjectView,
    InterpretErrorView,
> {
    match r {
        Ok(v) => Ok(v.deep_view()),
        Err(e) => Err(e.deep_view()),
    }
}

/// The error of the given kind about the given name.
pub fn fail(kind: ErrorKind, line: usize, lexeme: &String) -> (e: InterpretError)
    ensures
        e.deep_view() == failure(kind, line, lexeme@),
{
    InterpretError::Error(RuntimeError { kind, line, lexeme: lexeme.clone() })
}

/// The arithmetic that needs rounding, and is therefore asked for.
#[derive(Debug, Clone, Copy, PartialEq, Eq, Structural)]
pub enum Operation {
    Add,
    Subtract,
    Multiply,
    Divide,
}

/// A question to the embedding program, which it answers with the bit
/// pattern of a double.
#[derive(Debug, Clone, Copy, PartialEq, Eq, Structural)]
pub enum Request {
    /// The result of the operation on the two doubles.
    Arithmetic { operation: Operation, left: u64, right: u64 },
    /// The double nearest to the whole seconds that have passed since the
    /// start of 1970, as the clock has it at the time of asking.
    Clock,
}

/// What the machine wants done after a step.
#[derive(Debug, Clone)]
pub enum Action {
    /// Nothing: take the next step.
    Continue,
    /// Write this line.
    Print(String),
    /// Write this number as a line.
    PrintNumber(u64),
    /// Answer this question with the next step.
    Ask(Request),
    /// Nothing more: the program has run to its end.
    Done,
    /// Nothing more: the program has stopped on this error.
    Fail(RuntimeError),
}

/// What an [`Action`] stands for.
pub enum ActionView {
    Continue,
    Print(Seq<char>),
    PrintNumber(u64),
    Ask(Request),
    Done,
    Fail(RuntimeErrorView),
}

impl DeepView for Action {
    type V = ActionView;

    open spec fn deep_view(&self) -> ActionView {
        match self {
            Action::Continue => ActionView::Continue,
            Action::Print(s) => ActionView::Print(s@),
            Action::PrintNumber(n) => ActionView::PrintNumber(*n),
            Action::Ask(r) => ActionView::Ask(*r),
            Action::Done => ActionView::Done,
            Action::Fail(e) => ActionView::Fail(e.deep_view()),
        }
    }
}

/// What remains to be done once the expression or statement under way has
/// finished. The machine keeps these on a stack, innermost on top.
#[derive(Debug, Clone)]
pub enum Frame {
    /// Apply the unary operator to the value.
    Unary { op: Rc<Token> },
    /// The value is the left operand: evaluate the right one.
    BinaryRight { op: Rc<Token>, right: Rc<HashExpr> },
    /// The value is the right operand: apply the operator.
    BinaryApply { op: Rc<Token>, left: Object },
    /// The value is the left operand of `and` or `or`: decide whether the
    /// right one is needed.
    Logical { op: Rc<Token>, right: Rc<HashExpr> },
    /// Assign the value to the variable that the expression `id` names.
    Assign { name: Rc<Token>, id: usize },
    /// The value is what is called: evaluate the arguments.
    Callee { paren: Rc<Token>, arguments: Rc<Vec<Rc<HashExpr>>> },
    /// The value is the next argument: evaluate the one after it, or call.
    Arguments {
        paren: Rc<Token>,
        arguments: Rc<Vec<Rc<HashExpr>>>,
        callee: Object,
        values: Vec<Object>,
    },
    /// Read the property of the value.
    Get { name: Rc<Token> },
    /// The value is the object of a property write: evaluate what to write.
    SetObject { name: Rc<Token>, value: Rc<HashExpr> },
    /// Write the value to the property of the object.
    SetValue { name: Rc<Token>, object: Object },
    /// An initializer has run: the call of the class gives the instance.
    Construct { instance: usize },
    /// A function body is running. A `return` ends here. The initializer of a
    /// class gives `this`, taken from the scope kept here, whatever it returns.
    Call { initializer: Option<usize> },
    /// Drop the value of an expression statement.
    Discard,
    /// Print the value.
    Print,
    /// Define the variable with the value.
    Var { name: Rc<Token> },
    /// A block is running: `index` statements of it have been started, and
    /// `previous` is the scope to go back to when the block is left.
    Block { statements: Rc<Vec<Rc<Stmt>>>, index: usize, previous: usize },
    /// The value is the condition of an `if`.
    If { then_branch: Rc<Stmt>, else_branch: Option<Rc<Stmt>> },
    /// The value is the condition of a `while`.
    WhileCondition { condition: Rc<HashExpr>, body: Rc<Stmt> },
    /// The body of a `while` is running.
    WhileBody { condition: Rc<HashExpr>, body: Rc<Stmt> },
    /// The value is what a `return` returns.
    Return,
    /// The value is the superclass of the class being declared.
    ClassSuper { declaration: Rc<ClassStmt> },
}

/// What a [`Frame`] stands for.
pub enum FrameView {
    Unary { op: Rc<Token> },
    BinaryRight { op: Rc<Token>, right: Rc<HashExpr> },
    BinaryApply { op: Rc<Token>, left: ObjectView },
    Logical { op: Rc<Token>, right: Rc<HashExpr> },
    Assign { name: Rc<Token>, id: usize },
    Callee { paren: Rc<Token>, arguments: Seq<Rc<HashExpr>> },
    Arguments {
        paren: Rc<Token>,
        arguments: Seq<Rc<HashExpr>>,
        callee: ObjectView,
        values: Seq<ObjectView>,
    },
    Get { name: Rc<Token> },
    SetObject { name: Rc<Token>, value: Rc<HashExpr> },
    SetValue { name: Rc<Token>, object: ObjectView },
    Construct { instance: usize },
    Call { initializer: Option<usize> },
    Discard,
    Print,
    Var { name: Rc<Token> },
    Block { statements: Seq<Rc<Stmt>>, index: usize, previous: usize },
    If { then_branch: Rc<Stmt>, else_branch: Option<Rc<Stmt>> },
    WhileCondition { condition: Rc<HashExpr>, body: Rc<Stmt> },
    WhileBody { condition: Rc<HashExpr>, body: Rc<Stmt> },
    Return,
    ClassSuper { declaration: Rc<ClassStmt> },
}

impl DeepView for Frame {
    type V = FrameView;

    open spec fn deep_view(&self) -> FrameView {
        match *self {
            Frame::Unary { op } => FrameView::Unary { op },
            Frame::BinaryRight { op, right } => FrameView::BinaryRight { op, right },
            Frame::BinaryApply { op, left } => FrameView::BinaryApply {
                op,
                left: left.deep_view(),
            },
            Frame::Logical { op, right } => FrameView::Logical { op, right },
            Frame::Assign { name, id } => FrameView::Assign { name, id },
            Frame::Callee { paren, arguments } => FrameView::Callee {
                paren,
                arguments: arguments@,
            },
            Frame::Arguments { paren, arguments, callee, values } => FrameView::Arguments {
                paren,
                arguments: arguments@,
                callee: callee.deep_view(),
                values: values.deep_view(),
            },
            Frame::Get { name } => FrameView::Get { name },
            Frame::SetObject { name, value } => FrameView::SetObject { name, value },
            Frame::SetValue { name, object } => FrameView::SetValue {
                name,
                object: object.deep_view(),
            },
            Frame::Construct { instance } => FrameView::Construct { instance },
            Frame::Call { initializer } => FrameView::Call { initializer },
            Frame::Discard => FrameView::Discard,
            Frame::Print => FrameView::Print,
            Frame::Var { name } => FrameView::Var { name },
            Frame::Block { statements, index, previous } => FrameView::Block {
                statements: statements@,
                index,
                previous,
            },
            Frame::If { then_branch, else_branch } => FrameView::If { then_branch, else_branch },
            Frame::WhileCondition { condition, body } => FrameView::WhileCondition {
                condition,
                body,
            },
            Frame::WhileBody { condition, body } => FrameView::WhileBody { condition, body },
            Frame::Return => FrameView::Return,
            Frame::ClassSuper { declaration } => FrameView::ClassSuper { declaration },
        }
    }
}

/// What the machine does with its next step.
#[derive(Debug, Clone)]
pub enum Control {
    /// Evaluate the expression.
    Evaluate(Rc<HashExpr>),
    /// Execute the statement.
    Execute(Rc<Stmt>),
    /// An expression has given this value: hand it to the frame on top.
    Value(Object),
    /// A statement has finished: go on with what follows it.
    Next,
    /// A `return` with this value is looking for the call it ends.
    Return(Object),
    /// Wait for the answer to the question.
    Await(Request),
    /// The value has just been handed out for printing.
    Output(Object),
    /// The program has run to its end.
    Finished,
    /// The program has stopped on the error.
    Failed(RuntimeError),
}

/// What a [`Control`] stands for.
pub enum ControlView {
    Evaluate(Rc<HashExpr>),
    Execute(Rc<Stmt>),
    Value(ObjectView),
    Next,
    Return(ObjectView),
    Await(Request),
    Output(ObjectView),
    Finished,
    Failed(RuntimeErrorView),
}

impl DeepView for Control {
    type V = ControlView;

    open spec fn deep_view(&self) -> ControlView {
        match *self {
            Control::Evaluate(e) => ControlView::Evaluate(e),
            Control::Execute(s) => ControlView::Execute(s),
            Control::Value(v) => ControlView::Value(v.deep_view()),
            Control::Next => ControlView::Next,
            Control::Return(v) => ControlView::Return(v.deep_view()),
            Control::Await(r) => ControlView::Await(r),
            Control::Output(v) => ControlView::Output(v.deep_view()),
            Control::Finished => ControlView::Finished,
            Control::Failed(e) => ControlView::Failed(e.deep_view()),
        }
    }
}

/// The machine: the table of scope distances, the stores, the global and
/// the current scope, the stack of what remains to be done and what to do
/// next.
#[derive(Debug, Clone)]
pub struct Interpreter {
    pub locals: HashMap<usize, usize>,
    pub heap: Heap,
    pub globals: usize,
    pub environment: usize,
    pub stack: Vec<Frame>,
    pub control: Control,
}

/// What an [`Interpreter`] stands for: the state of the machine as
/// mathematics.
pub struct InterpreterView {
    pub locals: Map<usize, usize>,
    pub heap: HeapView,
    pub globals: usize,
    pub environment: usize,
    pub stack: Seq<FrameView>,
    pub control: ControlView,
}

impl DeepView for Interpreter {
    type V = InterpreterView;

    open spec fn deep_view(&self) -> InterpreterView {
        InterpreterView {
            locals: self.locals@,
            heap: self.heap.deep_view(),
            globals: self.globals,
            environment: self.environment,
            stack: self.stack.deep_view(),
            control: self.control.deep_view(),
        }
    }
}

/// Stores in memory are no larger than the largest index.
proof fn lemma_stores_fit(heap: &Heap)
    ensures
        fits(sizes(heap.deep_view())),
{
    assert(heap.environments.len() == heap.environments@.len());
    assert(heap.functions.len() == heap.functions@.len());
    assert(heap.classes.len() == heap.classes@.len());
    assert(heap.instances.len() == heap.instances@.len());
}

/// An empty list of values.
fn no_values() -> (r: Vec<Object>)
    ensures
        r.deep_view() == Seq::<ObjectView>::empty(),
{
    let r: Vec<Object> = Vec::new();
    assert(r.deep_view() =~= Seq::<ObjectView>::empty());
    r
}

/// The methods that the declarations stand for when they are closed over
/// the scope at `closure`.
fn methods(declarations: &Vec<Rc<FunctionStmt>>, closure: usize) -> (r: Vec<Function>)
    ensures
        r@ == methods_of(declarations@, closure),
{
    let init = String::from_str("init");
    let mut r: Vec<Function> = Vec::new();
    let mut i: usize = 0;
    while i < declarations.len()
        invariant
            i <= declarations@.len(),
            init@ == "init"@,
            r@.len() == i,
            forall|j: int| 0 <= j < i ==> r@[j] == methods_of(declarations@, closure)[j],
        decreases declarations@.len() - i,
    {
        let is_initializer = declarations[i].name.lexeme == init;
        r.push(Function::new(declarations[i].clone(), closure, is_initializer));
        i += 1;
    }
    assert(r@ =~= methods_of(declarations@, closure));
    r
}

impl Heap {
    /// Binds each parameter to the argument at its place, in the scope at
    /// `scope`.
    pub fn bind_parameters(&mut self, scope: usize, params: &Vec<Rc<Token>>, values: &Vec<Object>)
        ensures
            final(self).deep_view() == bind_parameters(
                old(self).deep_view(),
                scope,
                params@,
                values.deep_view(),
                0,
            ),
    {
        let mut i: usize = 0;
        while i < params.len() && i < values.len()
            invariant
                bind_parameters(old(self).deep_view(), scope, params@, values.deep_view(), 0)
                    == bind_parameters(
                    self.deep_view(),
                    scope,
                    params@,
                    values.deep_view(),
                    i as nat,
                ),
            decreases params@.len() - i,
        {
            self.define(scope, params[i].lexeme.clone(), values[i].duplicate());
            i += 1;
        }
    }
}

impl Interpreter {
    /// The machine loaded with a program and the scope distances that the
    /// resolver found for it, before its first step.
    pub fn new(locals: HashMap<usize, usize>, statements: Vec<Rc<Stmt>>) -> (r: Interpreter)
        ensures
            r.deep_view() == InterpreterView::loaded(locals@, statements@),
            r.deep_view().well_formed(),
    {
        proof {
            lemma_loaded_is_well_formed(locals@, statements@);
        }
        let mut heap = Heap::new();
        let globals = heap.scope(None);
        let clock = heap.function(Callable::Clock(Clock::new()));
        heap.define(globals, String::from_str("clock"), Object::Function(clock));
        let mut stack: Vec<Frame> = Vec::new();
        stack.push(Frame::Block { statements: Rc::new(statements), index: 0, previous: globals });
        let r = Interpreter {
            locals,
            heap,
            globals,
            environment: globals,
            stack,
            control: Control::Next,
        };
        proof {
            let goal = InterpreterView::loaded(locals@, statements@);
            assert(r.stack.deep_view() =~= goal.stack);
            assert(r.heap.deep_view().environments =~= goal.heap.environments);
            assert(r.heap.deep_view().functions =~= goal.heap.functions);
        }
        r
    }

    fn proceed(&mut self, control: Control)
        ensures
            final(self).deep_view() == old(self).deep_view().becoming(control.deep_view()),
    {
        self.control = control;
    }

    fn push(&mut self, frame: Frame)
        ensures
            final(self).deep_view() == old(self).deep_view().pushed(frame.deep_view()),
    {
        self.stack.push(frame);
        assert(self.stack.deep_view() =~= old(self).stack.deep_view().push(frame.deep_view()));
    }

    fn pop(&mut self) -> (r: Option<Frame>)
        ensures
            match r {
                Some(frame) => old(self).deep_view().stack.len() > 0 && frame.deep_view() == old(
                    self,
                ).deep_view().stack.last() && final(self).deep_view() == old(
                    self,
                ).deep_view().popped(),
                None => old(self).deep_view().stack.len() == 0 && final(self).deep_view() == old(
                    self,
                ).deep_view(),
            },
    {
        let r = self.stack.pop();
        assert(r is Some ==> self.stack.deep_view() =~= old(self).stack.deep_view().drop_last());
        r
    }

    fn fail(&mut self, kind: ErrorKind, line: usize, lexeme: &String)
        ensures
            final(self).deep_view() == old(self).deep_view().failed(kind, line, lexeme@),
    {
        self.stack = Vec::new();
        self.environment = self.globals;
        self.control = Control::Failed(RuntimeError { kind, line, lexeme: lexeme.clone() });
        assert(self.stack.deep_view() =~= Seq::<FrameView>::empty());
    }

    fn fail_at(&mut self, kind: ErrorKind, token: &Token)
        ensures
            final(self).deep_view() == old(self).deep_view().failed_at(kind, *token),
    {
        self.fail(kind, token.line, &token.lexeme);
    }

    fn raise(&mut self, error: InterpretError, token: &Token)
        ensures
            final(self).deep_view() == old(self).deep_view().raised(error.deep_view(), *token),
    {
        match error {
            InterpretError::Error(e) => self.fail_at(e.kind, token),
            InterpretError::Return(_) => self.fail_at(ErrorKind::Unreachable, token),
        }
    }

    /// Makes the expression the next thing to evaluate.
    pub fn evaluate(&mut self, e: &Rc<HashExpr>)
        ensures
            final(self).deep_view() == old(self).deep_view().becoming(ControlView::Evaluate(*e)),
    {
        self.proceed(Control::Evaluate(e.clone()));
    }

    /// Makes the statement the next thing to execute.
    pub fn execute(&mut self, s: &Rc<Stmt>)
        ensures
            final(self).deep_view() == old(self).deep_view().becoming(ControlView::Execute(*s)),
    {
        self.proceed(Control::Execute(s.clone()));
    }

    fn value(&mut self, value: Object)
        ensures
            final(self).deep_view() == old(self).deep_view().becoming(
                ControlView::Value(value.deep_view()),
            ),
    {
        self.proceed(Control::Value(value));
    }

    /// Reads the variable that the expression `id` names.
    pub fn lookup_variable(&mut self, name: &Token, id: usize)
        ensures
            final(self).deep_view() == old(self).deep_view().lookup_variable(*name, id),
    {
        let found = match self.locals.get(&id) {
            Some(distance) => Environment::get_at(
                &self.heap.environments,
                self.environment,
                *distance,
                &name.lexeme,
            ),
            None => Environment::get(&self.heap.environments, self.globals, &name.lexeme),
        };
        match found {
            Ok(value) => self.value(value),
            Err(error) => self.raise(error, name),
        }
    }

    fn assign_variable(&mut self, name: &Token, id: usize, value: Object)
        ensures
            final(self).deep_view() == old(self).deep_view().assign_variable(
                *name,
                id,
                value.deep_view(),
            ),
    {
        let distance = match self.locals.get(&id) {
            Some(distance) => Some(*distance),
            None => None,
        };
        let written = match distance {
            Some(distance) => Environment::set_at(
                &mut self.heap.environments,
                self.environment,
                distance,
                &name.lexeme,
                value,
            ),
            None => Environment::set(
                &mut self.heap.environments,
                self.globals,
                &name.lexeme,
                value,
            ),
        };
        match written {
            Ok(_) => self.value(Object::Nil),
            Err(error) => self.raise(error, name),
        }
    }

    fn super_method(&mut self, access: &SuperExpr, id: usize)
        ensures
            final(self).deep_view() == old(self).deep_view().super_method(*access, id),
    {
        let distance = match self.locals.get(&id) {
            Some(distance) => *distance,
            None => 0,
        };
        if distance == 0 {
            self.fail_at(ErrorKind::Unreachable, &access.keyword);
            return ;
        }
        let above = Environment::get_at(
            &self.heap.environments,
            self.environment,
            distance,
            &String::from_str("super"),
        );
        let this = Environment::get_at(
            &self.heap.environments,
            self.environment,
            distance - 1,
            &String::from_str("this"),
        );
        match (above, this) {
            (Ok(Object::Class(class)), Ok(Object::Instance(instance))) => {
                match Class::find_method(&self.heap.classes, class, &access.method.lexeme) {
                    Some(method) => {
                        let place = self.heap.bind(&method, instance);
                        self.value(Object::Function(place));
                    },
                    None => self.fail_at(ErrorKind::UndefinedProperty, &access.method),
                }
            },
            _ => self.fail_at(ErrorKind::Unreachable, &access.keyword),
        }
    }

    /// Starts on an expression: a literal or a variable gives its value at
    /// once, anything else leaves a frame for what remains and turns to its
    /// first operand.
    pub fn visit_expr(&mut self, e: &HashExpr)
        ensures
            final(self).deep_view() == old(self).deep_view().visit_expr(*e),
    {
        match &e.expr {
            Expr::Literal(literal) => match &literal.value {
                Object::Function(_) | Object::Class(_) | Object::Instance(_) => self.fail(
                    ErrorKind::Unreachable,
                    0,
                    &String::new(),
                ),
                value => self.value(value.duplicate()),
            },
            Expr::Grouping(grouping) => self.evaluate(&grouping.expression),
            Expr::Unary(unary) => {
                self.push(Frame::Unary { op: unary.op.clone() });
                self.evaluate(&unary.right);
            },
            Expr::Binary(binary) => {
                self.push(
                    Frame::BinaryRight { op: binary.op.clone(), right: binary.right.clone() },
                );
                self.evaluate(&binary.left);
            },
            Expr::Variable(variable) => self.lookup_variable(&variable.name, e.id),
            Expr::Assign(assign) => {
                self.push(Frame::Assign { name: assign.name.clone(), id: e.id });
                self.evaluate(&assign.value);
            },
            Expr::Logical(logical) => {
                self.push(Frame::Logical { op: logical.op.clone(), right: logical.right.clone() });
                self.evaluate(&logical.left);
            },
            Expr::Call(call) => {
                self.push(
                    Frame::Callee { paren: call.paren.clone(), arguments: call.arguments.clone() },
                );
                self.evaluate(&call.callee);
            },
            Expr::Get(get) => {
                self.push(Frame::Get { name: get.name.clone() });
                self.evaluate(&get.object);
            },
            Expr::SetField(set) => {
                self.push(Frame::SetObject { name: set.name.clone(), value: set.value.clone() });
                self.evaluate(&set.object);
            },
            Expr::This(this) => self.lookup_variable(&this.keyword, e.id),
            Expr::Super(access) => self.super_method(access, e.id),
        }
    }

    /// Enters a block of statements that runs in the scope at `environment`.
    /// The frame that it leaves keeps the scope that was current. When the
    /// last statement of the block is done with, and when a `return` passes
    /// through the block, that scope is current again. On an error the
    /// machine does not leave the blocks one by one: it drops this block and
    /// every block and call around it in one step and stands in the scope of
    /// the globals, which is where leaving each of them in turn leads, and it
    /// takes no step after that.
    pub fn execute_block(&mut self, statements: Rc<Vec<Rc<Stmt>>>, environment: usize)
        ensures
            final(self).deep_view() == old(self).deep_view().execute_block(
                statements@,
                environment,
            ),
    {
        let previous = self.environment;
        self.push(Frame::Block { statements, index: 0, previous });
        self.environment = environment;
    }

    fn declare_class(&mut self, declaration: &ClassStmt, superclass: Option<usize>)
        ensures
            final(self).deep_view() == old(self).deep_view().declare_class(
                *declaration,
                superclass,
            ),
    {
        let closure = match superclass {
            Some(above) => {
                let fresh = self.heap.scope(Some(self.environment));
                self.heap.define(fresh, String::from_str("super"), Object::Class(above));
                fresh
            },
            None => self.environment,
        };
        let class = Class::new(
            declaration.name.clone(),
            superclass,
            methods(&declaration.methods, closure),
        );
        let place = self.heap.class(class);
        self.heap.define(self.environment, declaration.name.lexeme.clone(), Object::Class(place));
        self.proceed(Control::Next);
    }

    /// Starts on a statement.
    pub fn visit_stmt(&mut self, s: &Stmt)
        ensures
            final(self).deep_view() == old(self).deep_view().visit_stmt(*s),
    {
        match s {
            Stmt::Expression(statement) => {
                self.push(Frame::Discard);
                self.evaluate(&statement.expression);
            },
            Stmt::Print(statement) => {
                self.push(Frame::Print);
                self.evaluate(&statement.expression);
            },
            Stmt::Var(statement) => match &statement.initializer {
                Some(initializer) => {
                    self.push(Frame::Var { name: statement.name.clone() });
                    self.evaluate(initializer);
                },
                None => {
                    self.heap.define(
                        self.environment,
                        statement.name.lexeme.clone(),
                        Object::Nil,
                    );
                    self.proceed(Control::Next);
                },
            },
            Stmt::Block(block) => {
                let scope = self.heap.scope(Some(self.environment));
                self.execute_block(block.statements.clone(), scope);
                self.proceed(Control::Next);
            },
            Stmt::If(statement) => {
                self.push(
                    Frame::If {
                        then_branch: statement.then_branch.clone(),
                        else_branch: match &statement.else_branch {
                            Some(otherwise) => Some(otherwise.clone()),
                            None => None,
                        },
                    },
                );
                self.evaluate(&statement.condition);
            },
            Stmt::While(statement) => {
                self.push(
                    Frame::WhileCondition {
                        condition: statement.condition.clone(),
                        body: statement.body.clone(),
                    },
                );
                self.evaluate(&statement.condition);
            },
            Stmt::Function(declaration) => {
                let place = self.heap.function(
                    Callable::Function(Function::new(declaration.clone(), self.environment, false)),
                );
                self.heap.define(
                    self.environment,
                    declaration.name.lexeme.clone(),
                    Object::Function(place),
                );
                self.proceed(Control::Next);
            },
            Stmt::Return(statement) => match &statement.value {
                Some(value) => {
                    self.push(Frame::Return);
                    self.evaluate(value);
                },
                None => self.proceed(Control::Return(Object::Nil)),
            },
            Stmt::Class(declaration) => match &declaration.superclass {
                Some(superclass) => {
                    self.push(Frame::ClassSuper { declaration: declaration.clone() });
                    self.evaluate(superclass);
                },
                None => self.declare_class(declaration, None),
            },
        }
    }

    fn unary(&mut self, op: &Token, value: Object)
        ensures
            final(self).deep_view() == old(self).deep_view().unary(*op, value.deep_view()),
    {
        match op.token_type {
            TokenType::Minus => match value {
                Object::Number(n) => self.value(Object::Number(number_negate(n))),
                _ => self.fail_at(ErrorKind::OperandMustBeNumber, op),
            },
            TokenType::Bang => self.value(Object::Boolean(!value.is_truthy())),
            _ => self.fail_at(ErrorKind::Unreachable, op),
        }
    }

    fn ask(&mut self, operation: Operation, left: u64, right: u64)
        ensures
            final(self).deep_view() == old(self).deep_view().becoming(
                ControlView::Await(Request::Arithmetic { operation, left, right }),
            ),
    {
        self.proceed(Control::Await(Request::Arithmetic { operation, left, right }));
    }

    fn binary(&mut self, op: &Token, left: Object, right: Object)
        ensures
            final(self).deep_view() == old(self).deep_view().binary(
                *op,
                left.deep_view(),
                right.deep_view(),
            ),
    {
        match op.token_type {
            TokenType::Minus => match (left, right) {
                (Object::Number(a), Object::Number(b)) => self.ask(Operation::Subtract, a, b),
                _ => self.fail_at(ErrorKind::OperandsMustBeNumbers, op),
            },
            TokenType::Star => match (left, right) {
                (Object::Number(a), Object::Number(b)) => self.ask(Operation::Multiply, a, b),
                _ => self.fail_at(ErrorKind::OperandsMustBeNumbers, op),
            },
            TokenType::Slash => match (left, right) {
                (Object::Number(a), Object::Number(b)) => if number_is_zero(b) {
                    self.fail_at(ErrorKind::DivisionByZero, op)
                } else {
                    self.ask(Operation::Divide, a, b)
                },
                _ => self.fail_at(ErrorKind::OperandsMustBeNumbers, op),
            },
            TokenType::Plus => match (left, right) {
                (Object::Number(a), Object::Number(b)) => self.ask(Operation::Add, a, b),
                (Object::String(a), Object::String(b)) => self.value(
                    Object::String(a.concat(b.as_str())),
                ),
                _ => self.fail_at(ErrorKind::OperandsMustBeNumbersOrStrings, op),
            },
            TokenType::Greater => match (left, right) {
                (Object::Number(a), Object::Number(b)) => self.value(
                    Object::Boolean(number_less(b, a)),
                ),
                _ => self.fail_at(ErrorKind::OperandsMustBeNumbers, op),
            },
            TokenType::GreaterEqual => match (left, right) {
                (Object::Number(a), Object::Number(b)) => self.value(
                    Object::Boolean(number_less_equal(b, a)),
                ),
                _ => self.fail_at(ErrorKind::OperandsMustBeNumbers, op),
            },
            TokenType::Less => match (left, right) {
                (Object::Number(a), Object::Number(b)) => self.value(
                    Object::Boolean(number_less(a, b)),
                ),
                _ => self.fail_at(ErrorKind::OperandsMustBeNumbers, op),
            },
            TokenType::LessEqual => match (left, right) {
                (Object::Number(a), Object::Number(b)) => self.value(
                    Object::Boolean(number_less_equal(a, b)),
                ),
                _ => self.fail_at(ErrorKind::OperandsMustBeNumbers, op),
            },
            TokenType::BangEqual => self.value(Object::Boolean(!(left == right))),
            TokenType::EqualEqual => self.value(Object::Boolean(left == right)),
            _ => self.fail_at(ErrorKind::Unreachable, op),
        }
    }

    fn logical(&mut self, op: &Token, right: Rc<HashExpr>, left: Object)
        ensures
            final(self).deep_view() == old(self).deep_view().logical(
                *op,
                right,
                left.deep_view(),
            ),
    {
        match op.token_type {
            TokenType::Or => if left.is_truthy() {
                self.value(left)
            } else {
                self.proceed(Control::Evaluate(right))
            },
            TokenType::And => if !left.is_truthy() {
                self.value(left)
            } else {
                self.proceed(Control::Evaluate(right))
            },
            _ => self.fail_at(ErrorKind::Unreachable, op),
        }
    }

    fn call_function(&mut self, function: &Function, arguments: Vec<Object>, paren: &Token)
        ensures
            final(self).deep_view() == old(self).deep_view().call_function(
                *function,
                arguments.deep_view(),
                *paren,
            ),
    {
        if arguments.len() != function.arity() {
            self.fail_at(
                ErrorKind::WrongArity { expected: function.arity(), got: arguments.len() },
                paren,
            );
            return ;
        }
        let scope = self.heap.scope(Some(function.closure));
        self.heap.bind_parameters(scope, &function.declaration.params, &arguments);
        self.push(
            Frame::Call {
                initializer: if function.is_initializer {
                    Some(function.closure)
                } else {
                    None
                },
            },
        );
        self.execute_block(function.declaration.body.clone(), scope);
        self.proceed(Control::Next);
    }

    fn call_class(&mut self, class: usize, arguments: Vec<Object>, paren: &Token)
        ensures
            final(self).deep_view() == old(self).deep_view().call_class(
                class,
                arguments.deep_view(),
                *paren,
            ),
    {
        if class >= self.heap.classes.len() {
            self.fail_at(ErrorKind::Unreachable, paren);
            return ;
        }
        let arity = Class::arity(&self.heap.classes, class);
        if arguments.len() != arity {
            self.fail_at(ErrorKind::WrongArity { expected: arity, got: arguments.len() }, paren);
            return ;
        }
        let instance = self.heap.instance(class);
        match Class::find_method(&self.heap.classes, class, &String::from_str("init")) {
            Some(initializer) => {
                let method = initializer.bind(&mut self.heap.environments, instance);
                self.push(Frame::Construct { instance });
                self.call_function(&method, arguments, paren);
            },
            None => self.value(Object::Instance(instance)),
        }
    }

    fn call(&mut self, callee: Object, arguments: Vec<Object>, paren: &Token)
        ensures
            final(self).deep_view() == old(self).deep_view().call(
                callee.deep_view(),
                arguments.deep_view(),
                *paren,
            ),
    {
        match callee {
            Object::Function(f) => {
                if f >= self.heap.functions.len() {
                    self.fail_at(ErrorKind::Unreachable, paren);
                } else {
                    match self.heap.functions[f].duplicate() {
                        Callable::Clock(clock) => if arguments.len() != 0 {
                            self.fail_at(
                                ErrorKind::WrongArity { expected: 0, got: arguments.len() },
                                paren,
                            )
                        } else {
                            self.proceed(Control::Await(clock.call()))
                        },
                        Callable::Function(function) => self.call_function(
                            &function,
                            arguments,
                            paren,
                        ),
                    }
                }
            },
            Object::Class(class) => self.call_class(class, arguments, paren),
            _ => self.fail_at(ErrorKind::NotCallable, paren),
        }
    }

    fn get_property(&mut self, object: Object, name: &Token)
        ensures
            final(self).deep_view() == old(self).deep_view().get_property(
                object.deep_view(),
                *name,
            ),
    {
        match object {
            Object::Instance(instance) => match Instance::get(
                &mut self.heap,
                instance,
                &name.lexeme,
            ) {
                Ok(value) => self.value(value),
                Err(error) => self.raise(error, name),
            },
            Object::Class(class) => match Class::get(&self.heap, class, &name.lexeme) {
                Ok(value) => self.value(value),
                Err(error) => self.raise(error, name),
            },
            _ => self.fail_at(ErrorKind::OnlyInstancesHaveProperties, name),
        }
    }

    fn set_property(&mut self, object: Object, name: &Token, value: Object)
        ensures
            final(self).deep_view() == old(self).deep_view().set_property(
                object.deep_view(),
                *name,
                value.deep_view(),
            ),
    {
        let written = match object {
            Object::Instance(instance) => Instance::set(
                &mut self.heap,
                instance,
                &name.lexeme,
                value,
            ),
            Object::Class(class) => Class::set(&mut self.heap, class, &name.lexeme, value),
            _ => Err(fail(ErrorKind::OnlyInstancesHaveFields, 0, &name.lexeme)),
        };
        match written {
            Ok(_) => self.value(Object::Nil),
            Err(error) => self.raise(error, name),
        }
    }

    /// Hands a value to the frame on top of the stack.
    fn resume(&mut self, value: Object)
        ensures
            final(self).deep_view() == old(self).deep_view().resume(value.deep_view()),
    {
        match self.pop() {
            None => self.fail(ErrorKind::Unreachable, 0, &String::new()),
            Some(frame) => match frame {
                Frame::Unary { op } => self.unary(&op, value),
                Frame::BinaryRight { op, right } => {
                    self.push(Frame::BinaryApply { op, left: value });
                    self.proceed(Control::Evaluate(right));
                },
                Frame::BinaryApply { op, left } => self.binary(&op, left, value),
                Frame::Logical { op, right } => self.logical(&op, right, value),
                Frame::Assign { name, id } => self.assign_variable(&name, id, value),
                Frame::Callee { paren, arguments } => {
                    if arguments.len() == 0 {
                        self.call(value, no_values(), &paren);
                    } else {
                        let first = arguments[0].clone();
                        self.push(
                            Frame::Arguments {
                                paren,
                                arguments,
                                callee: value,
                                values: no_values(),
                            },
                        );
                        self.proceed(Control::Evaluate(first));
                    }
                },
                Frame::Arguments { paren, arguments, callee, values } => {
                    let ghost before = values.deep_view();
                    let mut values = values;
                    values.push(value);
                    assert(values.deep_view() =~= before.push(value.deep_view()));
                    if values.len() < arguments.len() {
                        let following = arguments[values.len()].clone();
                        self.push(Frame::Arguments { paren, arguments, callee, values });
                        self.proceed(Control::Evaluate(following));
                    } else {
                        self.call(callee, values, &paren);
                    }
                },
                Frame::Get { name } => self.get_property(value, &name),
                Frame::SetObject { name, value: written } => match value {
                    Object::Instance(_) | Object::Class(_) => {
                        self.push(Frame::SetValue { name, object: value });
                        self.proceed(Control::Evaluate(written));
                    },
                    _ => self.fail_at(ErrorKind::OnlyInstancesHaveFields, &name),
                },
                Frame::SetValue { name, object } => self.set_property(object, &name, value),
                Frame::Construct { instance } => self.value(Object::Instance(instance)),
                Frame::Discard => self.proceed(Control::Next),
                Frame::Print => self.proceed(Control::Output(value)),
                Frame::Var { name } => {
                    self.heap.define(self.environment, name.lexeme.clone(), value);
                    self.proceed(Control::Next);
                },
                Frame::If { then_branch, else_branch } => {
                    if value.is_truthy() {
                        self.proceed(Control::Execute(then_branch));
                    } else {
                        match else_branch {
                            Some(otherwise) => self.proceed(Control::Execute(otherwise)),
                            None => self.proceed(Control::Next),
                        }
                    }
                },
                Frame::WhileCondition { condition, body } => {
                    if value.is_truthy() {
                        let first = body.clone();
                        self.push(Frame::WhileBody { condition, body });
                        self.proceed(Control::Execute(first));
                    } else {
                        self.proceed(Control::Next);
                    }
                },
                Frame::Return => self.proceed(Control::Return(value)),
                Frame::ClassSuper { declaration } => match value {
                    Object::Class(above) => {
                        if above < self.heap.classes.len() {
                            self.declare_class(&declaration, Some(above));
                        } else {
                            self.fail_at(ErrorKind::Unreachable, &declaration.name);
                        }
                    },
                    _ => self.fail_at(ErrorKind::SuperclassMustBeClass, &declaration.name),
                },
                _ => self.fail(ErrorKind::Unreachable, 0, &String::new()),
            },
        }
    }

    fn finish_call(&mut self, initializer: Option<usize>, value: Object)
        ensures
            final(self).deep_view() == old(self).deep_view().finish_call(
                initializer,
                value.deep_view(),
            ),
    {
        match initializer {
            Some(closure) => {
                let this = String::from_str("this");
                match Environment::get_at(&self.heap.environments, closure, 0, &this) {
                    Ok(instance) => self.value(instance),
                    Err(_) => self.fail(ErrorKind::Unreachable, 0, &this),
                }
            },
            None => self.value(value),
        }
    }

    /// Goes on after a statement has finished.
    fn advance(&mut self)
        ensures
            final(self).deep_view() == old(self).deep_view().advance(),
    {
        match self.pop() {
            None => self.proceed(Control::Finished),
            Some(frame) => match frame {
                Frame::Block { statements, index, previous } => {
                    if index < statements.len() {
                        let following = statements[index].clone();
                        self.push(Frame::Block { statements, index: index + 1, previous });
                        self.proceed(Control::Execute(following));
                    } else {
                        self.environment = previous;
                        self.proceed(Control::Next);
                    }
                },
                Frame::WhileBody { condition, body } => {
                    let again = condition.clone();
                    self.push(Frame::WhileCondition { condition, body });
                    self.proceed(Control::Evaluate(again));
                },
                Frame::Call { initializer } => self.finish_call(initializer, Object::Nil),
                _ => self.fail(ErrorKind::Unreachable, 0, &String::new()),
            },
        }
    }

    /// Carries a `return` one frame further out.
    fn unwind(&mut self, value: Object)
        ensures
            final(self).deep_view() == old(self).deep_view().unwind(value.deep_view()),
    {
        match self.pop() {
            None => self.fail(ErrorKind::ReturnOutsideFunction, 0, &String::new()),
            Some(frame) => match frame {
                Frame::Block { statements, index, previous } => {
                    self.environment = previous;
                    self.proceed(Control::Return(value));
                },
                Frame::Call { initializer } => self.finish_call(initializer, value),
                _ => self.proceed(Control::Return(value)),
            },
        }
    }

    /// The text that `print` writes for a value that is not a number.
    pub fn render(&self, value: &Object) -> (r: String)
        ensures
            r@ == render(self.heap.deep_view(), value.deep_view()),
    {
        match value {
            Object::Nil => String::from_str("nil"),
            Object::Boolean(b) => if *b {
                String::from_str("true")
            } else {
                String::from_str("false")
            },
            Object::Number(_) => String::new(),
            Object::String(s) => s.clone(),
            Object::Function(f) => if *f < self.heap.functions.len() {
                match &self.heap.functions[*f] {
                    Callable::Clock(_) => String::from_str("<native clock>"),
                    Callable::Function(function) => String::from_str("<fn ").concat(
                        function.declaration.name.lexeme.as_str(),
                    ).concat(">"),
                }
            } else {
                String::from_str("<fn>")
            },
            Object::Class(c) => if *c < self.heap.classes.len() {
                self.heap.classes[*c].name.lexeme.clone()
            } else {
                String::from_str("<class>")
            },
            Object::Instance(i) => if *i < self.heap.instances.len()
                && self.heap.instances[*i].class < self.heap.classes.len() {
                self.heap.classes[self.heap.instances[*i].class].name.lexeme.clone().concat(
                    " instance",
                )
            } else {
                String::from_str("<instance>")
            },
        }
    }

    /// What the machine wants done in the state it is in.
    pub fn action(&self) -> (action: Action)
        ensures
            action.deep_view() == self.deep_view().action(),
    {
        match &self.control {
            Control::Output(value) => match value {
                Object::Number(n) => Action::PrintNumber(*n),
                _ => Action::Print(self.render(value)),
            },
            Control::Await(request) => Action::Ask(*request),
            Control::Finished => Action::Done,
            Control::Failed(error) => Action::Fail(error.duplicate()),
            _ => Action::Continue,
        }
    }

    /// Takes one step and says what the machine wants done after it: to go
    /// on, to print a line, to answer a question, or nothing more. The answer
    /// to a question goes into the next step as `reply`; without it the
    /// machine asks again. A machine that is well formed stays so.
    pub fn step(&mut self, reply: Option<u64>) -> (action: Action)
        ensures
            final(self).deep_view() == old(self).deep_view().step(reply),
            action.deep_view() == final(self).deep_view().action(),
            old(self).deep_view().well_formed() ==> final(self).deep_view().well_formed(),
    {
        let mut control = Control::Next;
        core::mem::swap(&mut self.control, &mut control);
        match control {
            Control::Evaluate(e) => self.visit_expr(&e),
            Control::Execute(s) => self.visit_stmt(&s),
            Control::Value(value) => self.resume(value),
            Control::Next => self.advance(),
            Control::Return(value) => self.unwind(value),
            Control::Await(request) => match reply {
                Some(bits) => self.value(Object::Number(bits)),
                None => self.proceed(Control::Await(request)),
            },
            Control::Output(_) => {},
            Control::Finished => self.proceed(Control::Finished),
            Control::Failed(error) => self.proceed(Control::Failed(error)),
        }
        proof {
            if old(self).deep_view().well_formed() {
                lemma_stores_fit(&self.heap);
                lemma_step_keeps_well_formed(old(self).deep_view(), reply);
            }
        }
        self.action()
    }
}

/// Resolves a program and loads the machine with it.
pub fn interpret(statements: Vec<Rc<Stmt>>) -> (r: Result<Interpreter, ResolveError>)
    ensures
        match resolved(statements@) {
            Ok(locals) => r matches Ok(machine) && machine.deep_view() == InterpreterView::loaded(
                locals,
                statements@,
            ) && machine.deep_view().well_formed(),
            Err(error) => r matches Err(e) && e.deep_view() == error,
        },
{
    match Resolver::new().resolve(&statements) {
        Ok(locals) => Ok(Interpreter::new(locals, statements)),
        Err(error) => Err(error),
    }
}

impl RuntimeErrorView {
    /// What the error says. An error about a name names it, and a call with
    /// the wrong number of arguments says how many were expected and given.
    pub open spec fn wording(self) -> Seq<char> {
        match self.kind {
            ErrorKind::OperandMustBeNumber => "Operator must be a number."@,
            ErrorKind::OperandsMustBeNumbers => "Operators must be two numbers."@,
            ErrorKind::OperandsMustBeNumbersOrStrings => {
                "Operators must be two numbers or strings."@
            },
            ErrorKind::DivisionByZero => "Division by zero."@,
            ErrorKind::UndefinedVariable => "Undefined variable `"@ + self.lexeme + "`."@,
            ErrorKind::UndefinedProperty => "Undefined property `"@ + self.lexeme + "`."@,
            ErrorKind::WrongArity { expected, got } => "Expected "@ + decimal(expected as nat)
                + " arguments but got "@ + decimal(got as nat) + "."@,
            ErrorKind::NotCallable => "Can only call functions and classes."@,
            ErrorKind::OnlyInstancesHaveProperties => "Only instances have properties."@,
            ErrorKind::OnlyInstancesHaveFields => "Only instances have fields."@,
            ErrorKind::SuperclassMustBeClass => "Superclass must be a class."@,
            ErrorKind::ReturnOutsideFunction => "Can't return from top-level code."@,
            ErrorKind::Unreachable => "Unreachable error!"@,
        }
    }
}

impl RuntimeError {
    /// What the error says, as text.
    pub fn message(&self) -> (r: String)
        ensures
            r@ == self.deep_view().wording(),
    {
        match self.kind {
            ErrorKind::OperandMustBeNumber => String::from_str("Operator must be a number."),
            ErrorKind::OperandsMustBeNumbers => String::from_str("Operators must be two numbers."),
            ErrorKind::OperandsMustBeNumbersOrStrings => String::from_str(
                "Operators must be two numbers or strings.",
            ),
            ErrorKind::DivisionByZero => String::from_str("Division by zero."),
            ErrorKind::UndefinedVariable => String::from_str("Undefined variable `").concat(
                self.lexeme.as_str(),
            ).concat("`."),
            ErrorKind::UndefinedProperty => String::from_str("Undefined property `").concat(
                self.lexeme.as_str(),
            ).concat("`."),
            ErrorKind::WrongArity { expected, got } => String::from_str("Expected ").concat(
                to_decimal(expected).as_str(),
            ).concat(" arguments but got ").concat(to_decimal(got).as_str()).concat("."),
            ErrorKind::NotCallable => String::from_str("Can only call functions and classes."),
            ErrorKind::OnlyInstancesHaveProperties => String::from_str(
                "Only instances have properties.",
            ),
            ErrorKind::OnlyInstancesHaveFields => String::from_str("Only instances have fields."),
            ErrorKind::SuperclassMustBeClass => String::from_str("Superclass must be a class."),
            ErrorKind::ReturnOutsideFunction => String::from_str(
                "Can't return from top-level code.",
            ),
            ErrorKind::Unreachable => String::from_str("Unreachable error!"),
        }
    }

    /// The error as a line of text: the line and the text of the token it
    /// was noticed at, and what it says.
    pub fn report(&self) -> (r: String)
        ensures
            r@ == reported(self.line, self.lexeme@, self.deep_view().wording()),
    {
        report(self.line, &self.lexeme, self.message())
    }
}

} // verus!
