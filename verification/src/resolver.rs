//! The static pass that finds, for every use of a local variable, how many
//! scopes lie between the use and the declaration.

use vstd::prelude::*;
use std::collections::HashMap;
use std::rc::Rc;
use crate::environment::Bindings;
use crate::expr::{Expr, HashExpr};
use crate::message::{report, reported};
use crate::stmt::{ClassStmt, FunctionStmt, Stmt};
use crate::token::Token;

verus! {

/// The kind of function whose body is being resolved.
#[derive(Debug, Clone, Copy, PartialEq, Eq, Structural)]
pub enum FunctionType {
    TopLevel,
    Function,
    Method,
    Initializer,
}

/// The kind of class whose body is being resolved.
#[derive(Debug, Clone, Copy, PartialEq, Eq, Structural)]
pub enum ClassType {
    Outside,
    Class,
    Subclass,
}

/// What the resolver refuses.
#[derive(Debug, Clone, Copy, PartialEq, Eq, Structural)]
pub enum ResolveErrorKind {
    /// A second declaration of a name in one scope that is not the global one.
    AlreadyDeclared,
    /// A local variable read in its own initializer.
    ReadInOwnInitializer,
    /// A `return` outside every function.
    ReturnFromTopLevel,
    /// A `return` with a value, other than `this`, in an initializer.
    ReturnFromInitializer,
    ThisOutsideClass,
    SuperOutsideClass,
    SuperWithoutSuperclass,
    /// A class named as its own superclass.
    InheritsItself,
}

/// An error of the resolver: its kind and the token it was noticed at.
#[derive(Debug, Clone)]
pub struct ResolveError {
    pub kind: ResolveErrorKind,
    pub line: usize,
    pub lexeme: String,
}

/// What a [`ResolveError`] stands for.
pub struct ResolveErrorView {
    pub kind: ResolveErrorKind,
    pub line: usize,
    pub lexeme: Seq<char>,
}

impl DeepView for ResolveError {
    type V = ResolveErrorView;

    open spec fn deep_view(&self) -> ResolveErrorView {
        ResolveErrorView { kind: self.kind, line: self.line, lexeme: self.lexeme@ }
    }
}

/// The error of the given kind at the given token.
pub open spec fn refused(kind: ResolveErrorKind, token: Token) -> ResolveErrorView {
    ResolveErrorView { kind, line: token.line, lexeme: token.lexeme@ }
}

fn refuse(kind: ResolveErrorKind, token: &Token) -> (e: ResolveError)
    ensures
        e.deep_view() == refused(kind, *token),
{
    ResolveError { kind, line: token.line, lexeme: token.lexeme.clone() }
}

/// The open scopes, outermost first, each a table from the names declared
/// in it to whether their initializer is done with; the distances found so
/// far, by the number of the expression; and what kind of function and class
/// the resolver is in.
pub struct Resolver {
    pub scopes: Vec<Bindings<bool>>,
    pub locals: HashMap<usize, usize>,
    pub current_function: FunctionType,
    pub current_class: ClassType,
}

/// What a [`Resolver`] stands for.
pub struct ResolverView {
    pub scopes: Seq<Map<Seq<char>, bool>>,
    pub locals: Map<usize, usize>,
    pub current_function: FunctionType,
    pub current_class: ClassType,
}

impl DeepView for Resolver {
    type V = ResolverView;

    open spec fn deep_view(&self) -> ResolverView {
        ResolverView {
            scopes: self.scopes.deep_view(),
            locals: self.locals@,
            current_function: self.current_function,
            current_class: self.current_class,
        }
    }
}

/// How many scopes lie between the innermost scope and the nearest one that
/// declares `name`, if any does.
pub open spec fn depth_of(scopes: Seq<Map<Seq<char>, bool>>, name: Seq<char>) -> Option<nat>
    decreases scopes.len(),
{
    if scopes.len() == 0 {
        None
    } else if scopes.last().contains_key(name) {
        Some(0)
    } else {
        match depth_of(scopes.drop_last(), name) {
            Some(depth) => Some(depth + 1),
            None => None,
        }
    }
}

/// What the resolver makes of a whole program: the distances, or the first
/// error.
pub open spec fn resolved(statements: Seq<Rc<Stmt>>) -> Result<
    Map<usize, usize>,
    ResolveErrorView,
> {
    ResolverView::fresh().resolve(statements)
}

/// The result of a step of the resolver that ended in the state `state`.
pub open spec fn outcome(r: Result<(), ResolveError>, state: ResolverView) -> Result<
    ResolverView,
    ResolveErrorView,
> {
    match r {
        Ok(_) => Ok(state),
        Err(error) => Err(error.deep_view()),
    }
}

impl ResolverView {
    /// The resolver at the top level of a program, with no scope open: what
    /// is declared there is global and has no distance.
    pub open spec fn fresh() -> ResolverView {
        ResolverView {
            scopes: Seq::empty(),
            locals: Map::empty(),
            current_function: FunctionType::TopLevel,
            current_class: ClassType::Outside,
        }
    }

    /// What the resolver makes of the statements: the distances it has
    /// found when it is through with them, or the first error.
    pub open spec fn resolve(self, statements: Seq<Rc<Stmt>>) -> Result<
        Map<usize, usize>,
        ResolveErrorView,
    > {
        match self.visit_stmts(statements, 0) {
            Ok(done) => Ok(done.locals),
            Err(error) => Err(error),
        }
    }

    /// Opens a scope.
    pub open spec fn begin_scope(self) -> ResolverView {
        ResolverView { scopes: self.scopes.push(Map::empty()), ..self }
    }

    /// Closes the innermost scope.
    pub open spec fn end_scope(self) -> ResolverView {
        if self.scopes.len() == 0 {
            self
        } else {
            ResolverView { scopes: self.scopes.drop_last(), ..self }
        }
    }

    /// Notes in the innermost scope, if one is open, whether `name` is
    /// defined.
    pub open spec fn put(self, name: Seq<char>, defined: bool) -> ResolverView {
        if self.scopes.len() == 0 {
            self
        } else {
            ResolverView {
                scopes: self.scopes.update(
                    self.scopes.len() - 1,
                    self.scopes.last().insert(name, defined),
                ),
                ..self
            }
        }
    }

    /// Declares a name: it exists in the innermost scope but is not to be
    /// read yet. A scope takes a name only once.
    pub open spec fn declare(self, name: Token) -> Result<ResolverView, ResolveErrorView> {
        if self.scopes.len() == 0 {
            Ok(self)
        } else if self.scopes.last().contains_key(name.lexeme@) {
            Err(refused(ResolveErrorKind::AlreadyDeclared, name))
        } else {
            Ok(self.put(name.lexeme@, false))
        }
    }

    /// Defines a name: from here on it can be read.
    pub open spec fn define(self, name: Token) -> ResolverView {
        self.put(name.lexeme@, true)
    }

    /// Files the distance of `name` under the expression `id`, unless no
    /// open scope declares the name: then it is a global.
    pub open spec fn resolve_local(self, id: usize, name: Token) -> ResolverView {
        match depth_of(self.scopes, name.lexeme@) {
            Some(depth) => ResolverView { locals: self.locals.insert(id, depth as usize), ..self },
            None => self,
        }
    }

    /// Whether `name` stands in the innermost scope as declared but not yet
    /// defined.
    pub open spec fn in_own_initializer(self, name: Token) -> bool {
        self.scopes.len() > 0 && self.scopes.last().contains_key(name.lexeme@)
            && !self.scopes.last()[name.lexeme@]
    }

    /// Resolves an expression: files the distance of every name it uses and
    /// refuses `this` and `super` where they have no meaning.
    pub open spec fn visit_expr(self, e: HashExpr) -> Result<ResolverView, ResolveErrorView>
        decreases e, 0nat,
    {
        match e.expr {
            Expr::Literal(_) => Ok(self),
            Expr::Grouping(grouping) => self.visit_expr(*grouping.expression),
            Expr::Unary(unary) => self.visit_expr(*unary.right),
            Expr::Binary(binary) => match self.visit_expr(*binary.left) {
                Ok(next) => next.visit_expr(*binary.right),
                Err(error) => Err(error),
            },
            Expr::Logical(logical) => match self.visit_expr(*logical.left) {
                Ok(next) => next.visit_expr(*logical.right),
                Err(error) => Err(error),
            },
            Expr::Call(call) => match self.visit_expr(*call.callee) {
                Ok(next) => next.visit_exprs(call.arguments@, 0),
                Err(error) => Err(error),
            },
            Expr::Assign(assign) => match self.visit_expr(*assign.value) {
                Ok(next) => Ok(next.resolve_local(e.id, *assign.name)),
                Err(error) => Err(error),
            },
            Expr::Variable(variable) => if self.in_own_initializer(*variable.name) {
                Err(refused(ResolveErrorKind::ReadInOwnInitializer, *variable.name))
            } else {
                Ok(self.resolve_local(e.id, *variable.name))
            },
            Expr::Get(get) => self.visit_expr(*get.object),
            Expr::SetField(set) => match self.visit_expr(*set.value) {
                Ok(next) => next.visit_expr(*set.object),
                Err(error) => Err(error),
            },
            Expr::This(this) => if self.current_class == ClassType::Outside {
                Err(refused(ResolveErrorKind::ThisOutsideClass, *this.keyword))
            } else {
                Ok(self.resolve_local(e.id, *this.keyword))
            },
            Expr::Super(access) => if self.current_class == ClassType::Outside {
                Err(refused(ResolveErrorKind::SuperOutsideClass, *access.keyword))
            } else if self.current_class != ClassType::Subclass {
                Err(refused(ResolveErrorKind::SuperWithoutSuperclass, *access.keyword))
            } else {
                Ok(self.resolve_local(e.id, *access.keyword))
            },
        }
    }

    /// Resolves the expressions from the `i`-th on, in order.
    pub open spec fn visit_exprs(self, es: Seq<Rc<HashExpr>>, i: nat) -> Result<
        ResolverView,
        ResolveErrorView,
    >
        decreases es, es.len() - i,
    {
        if i >= es.len() {
            Ok(self)
        } else {
            match self.visit_expr(*es[i as int]) {
                Ok(next) => next.visit_exprs(es, i + 1),
                Err(error) => Err(error),
            }
        }
    }

    /// Declares and defines the parameters from the `i`-th on.
    pub open spec fn declare_parameters(self, params: Seq<Rc<Token>>, i: nat) -> Result<
        ResolverView,
        ResolveErrorView,
    >
        decreases params.len() - i,
    {
        if i >= params.len() {
            Ok(self)
        } else {
            match self.declare(*params[i as int]) {
                Ok(next) => next.define(*params[i as int]).declare_parameters(params, i + 1),
                Err(error) => Err(error),
            }
        }
    }

    /// Resolves a function: parameters and body share one scope.
    pub open spec fn resolve_fun(self, function: FunctionStmt, kind: FunctionType) -> Result<
        ResolverView,
        ResolveErrorView,
    >
        decreases function, 0nat,
    {
        let inside = ResolverView { current_function: kind, ..self }.begin_scope();
        match inside.declare_parameters(function.params@, 0) {
            Ok(declared) => match declared.visit_stmts(function.body@, 0) {
                Ok(done) => Ok(
                    ResolverView { current_function: self.current_function, ..done.end_scope() },
                ),
                Err(error) => Err(error),
            },
            Err(error) => Err(error),
        }
    }

    /// Resolves the methods from the `i`-th on. The one called `init` is an
    /// initializer.
    pub open spec fn resolve_methods(self, methods: Seq<Rc<FunctionStmt>>, i: nat) -> Result<
        ResolverView,
        ResolveErrorView,
    >
        decreases methods, methods.len() - i,
    {
        if i >= methods.len() {
            Ok(self)
        } else {
            match self.resolve_fun(
                *methods[i as int],
                if methods[i as int].name.lexeme@ == "init"@ {
                    FunctionType::Initializer
                } else {
                    FunctionType::Method
                },
            ) {
                Ok(next) => next.resolve_methods(methods, i + 1),
                Err(error) => Err(error),
            }
        }
    }

    /// Resolves the superclass of a class, if it names one, and opens the
    /// scope in which `super` stands.
    pub open spec fn resolve_superclass(self, class: ClassStmt) -> Result<
        ResolverView,
        ResolveErrorView,
    >
        decreases class, 0nat,
    {
        match class.superclass {
            None => Ok(self),
            Some(superclass) => if (superclass.expr matches Expr::Variable(variable)
                && variable.name.lexeme@ == class.name.lexeme@) {
                Err(refused(ResolveErrorKind::InheritsItself, *class.name))
            } else {
                match (ResolverView { current_class: ClassType::Subclass, ..self }).visit_expr(
                    *superclass,
                ) {
                    Ok(next) => Ok(next.begin_scope().put("super"@, true)),
                    Err(error) => Err(error),
                }
            },
        }
    }

    /// Resolves a class: the methods see `this` in a scope around them and,
    /// in a subclass, `super` in a scope around that.
    pub open spec fn visit_class(self, class: ClassStmt) -> Result<ResolverView, ResolveErrorView>
        decreases class, 1nat,
    {
        match (ResolverView { current_class: ClassType::Class, ..self }).declare(*class.name) {
            Ok(declared) => match declared.resolve_superclass(class) {
                Ok(inherited) => match inherited.begin_scope().put("this"@, true).resolve_methods(
                    class.methods@,
                    0,
                ) {
                    Ok(done) => {
                        let left = if class.superclass is Some {
                            done.end_scope().end_scope()
                        } else {
                            done.end_scope()
                        };
                        Ok(
                            ResolverView {
                                current_class: self.current_class,
                                ..left.define(*class.name)
                            },
                        )
                    },
                    Err(error) => Err(error),
                },
                Err(error) => Err(error),
            },
            Err(error) => Err(error),
        }
    }

    /// Resolves a statement.
    pub open spec fn visit_stmt(self, s: Stmt) -> Result<ResolverView, ResolveErrorView>
        decreases s, 0nat,
    {
        match s {
            Stmt::Expression(statement) => self.visit_expr(*statement.expression),
            Stmt::Print(statement) => self.visit_expr(*statement.expression),
            Stmt::Var(statement) => match self.declare(*statement.name) {
                Ok(declared) => match statement.initializer {
                    Some(initializer) => match declared.visit_expr(*initializer) {
                        Ok(next) => Ok(next.define(*statement.name)),
                        Err(error) => Err(error),
                    },
                    None => Ok(declared.define(*statement.name)),
                },
                Err(error) => Err(error),
            },
            Stmt::Block(block) => match self.begin_scope().visit_stmts(block.statements@, 0) {
                Ok(done) => Ok(done.end_scope()),
                Err(error) => Err(error),
            },
            Stmt::If(statement) => match self.visit_expr(*statement.condition) {
                Ok(next) => match next.visit_stmt(*statement.then_branch) {
                    Ok(after) => match statement.else_branch {
                        Some(otherwise) => after.visit_stmt(*otherwise),
                        None => Ok(after),
                    },
                    Err(error) => Err(error),
                },
                Err(error) => Err(error),
            },
            Stmt::While(statement) => match self.visit_expr(*statement.condition) {
                Ok(next) => next.visit_stmt(*statement.body),
                Err(error) => Err(error),
            },
            Stmt::Function(declaration) => match self.declare(*declaration.name) {
                Ok(declared) => declared.define(*declaration.name).resolve_fun(
                    *declaration,
                    FunctionType::Function,
                ),
                Err(error) => Err(error),
            },
            Stmt::Return(statement) => if self.current_function == FunctionType::TopLevel {
                Err(refused(ResolveErrorKind::ReturnFromTopLevel, *statement.keyword))
            } else {
                match statement.value {
                    Some(value) => if self.current_function == FunctionType::Initializer && !(
                    value.expr is This) {
                        Err(refused(ResolveErrorKind::ReturnFromInitializer, *statement.keyword))
                    } else {
                        self.visit_expr(*value)
                    },
                    None => Ok(self),
                }
            },
            Stmt::Class(declaration) => self.visit_class(*declaration),
        }
    }

    /// Resolves the statements from the `i`-th on, in order.
    pub open spec fn visit_stmts(self, ss: Seq<Rc<Stmt>>, i: nat) -> Result<
        ResolverView,
        ResolveErrorView,
    >
        decreases ss, ss.len() - i,
    {
        if i >= ss.len() {
            Ok(self)
        } else {
            match self.visit_stmt(*ss[i as int]) {
                Ok(next) => next.visit_stmts(ss, i + 1),
                Err(error) => Err(error),
            }
        }
    }
}

impl Resolver {
    /// The resolver at the top level of a program.
    pub fn new() -> (r: Resolver)
        ensures
            r.deep_view() == ResolverView::fresh(),
    {
        let r = Resolver {
            scopes: Vec::new(),
            locals: HashMap::new(),
            current_function: FunctionType::TopLevel,
            current_class: ClassType::Outside,
        };
        assert(r.scopes.deep_view() =~= Seq::<Map<Seq<char>, bool>>::empty());
        r
    }

    /// Resolves a program: gives the distance of every use of a local
    /// variable, filed under the number of the expression that uses it, or
    /// the first error.
    pub fn resolve(self, statements: &Vec<Rc<Stmt>>) -> (r: Result<
        HashMap<usize, usize>,
        ResolveError,
    >)
        ensures
            match r {
                Ok(locals) => Ok(locals@),
                Err(error) => Err(error.deep_view()),
            } == self.deep_view().resolve(statements@),
    {
        let mut resolver = self;
        match resolver.visit_stmts(statements) {
            Ok(_) => Ok(resolver.locals),
            Err(error) => Err(error),
        }
    }

    fn begin_scope(&mut self)
        ensures
            final(self).deep_view() == old(self).deep_view().begin_scope(),
    {
        self.scopes.push(Bindings::new());
        assert(self.scopes.deep_view() =~= old(self).deep_view().begin_scope().scopes);
    }

    fn end_scope(&mut self)
        ensures
            final(self).deep_view() == old(self).deep_view().end_scope(),
    {
        self.scopes.pop();
        assert(self.scopes.deep_view() =~= old(self).deep_view().end_scope().scopes);
    }

    fn put(&mut self, name: String, defined: bool)
        ensures
            final(self).deep_view() == old(self).deep_view().put(name@, defined),
    {
        let open = self.scopes.len();
        if open > 0 {
            let innermost = &mut self.scopes[open - 1];
            innermost.insert(name, defined);
            assert(self.scopes.deep_view() =~= old(self).deep_view().put(name@, defined).scopes);
        }
    }

    fn declare(&mut self, name: &Token) -> (r: Result<(), ResolveError>)
        ensures
            outcome(r, final(self).deep_view()) == old(self).deep_view().declare(*name),
    {
        let open = self.scopes.len();
        if open == 0 {
            return Ok(());
        }
        if self.scopes[open - 1].contains(&name.lexeme) {
            return Err(refuse(ResolveErrorKind::AlreadyDeclared, name));
        }
        self.put(name.lexeme.clone(), false);
        Ok(())
    }

    fn define(&mut self, name: &Token)
        ensures
            final(self).deep_view() == old(self).deep_view().define(*name),
    {
        self.put(name.lexeme.clone(), true);
    }

    fn resolve_local(&mut self, id: usize, name: &Token)
        ensures
            final(self).deep_view() == old(self).deep_view().resolve_local(id, *name),
    {
        let open = self.scopes.len();
        let mut i = open;
        let ghost scopes = self.scopes.deep_view();
        assert(scopes.subrange(0, i as int) =~= scopes);
        while i > 0
            invariant
                i <= open == scopes.len(),
                scopes == self.scopes.deep_view(),
                *self == *old(self),
                depth_of(scopes, name.lexeme@) == match depth_of(
                    scopes.subrange(0, i as int),
                    name.lexeme@,
                ) {
                    Some(depth) => Some((depth + (open - i)) as nat),
                    None => None,
                },
            decreases i,
        {
            assert(scopes.subrange(0, i as int).drop_last() =~= scopes.subrange(0, i - 1));
            i -= 1;
            if self.scopes[i].contains(&name.lexeme) {
                self.locals.insert(id, open - 1 - i);
                return ;
            }
        }
    }

    fn in_own_initializer(&self, name: &Token) -> (r: bool)
        ensures
            r == self.deep_view().in_own_initializer(*name),
    {
        let open = self.scopes.len();
        if open == 0 {
            return false;
        }
        match self.scopes[open - 1].get(&name.lexeme) {
            Some(defined) => !*defined,
            None => false,
        }
    }

    fn visit_expr(&mut self, e: &HashExpr) -> (r: Result<(), ResolveError>)
        ensures
            outcome(r, final(self).deep_view()) == old(self).deep_view().visit_expr(*e),
        decreases e, 0nat,
    {
        match &e.expr {
            Expr::Literal(_) => Ok(()),
            Expr::Grouping(grouping) => self.visit_expr(&grouping.expression),
            Expr::Unary(unary) => self.visit_expr(&unary.right),
            Expr::Binary(binary) => {
                self.visit_expr(&binary.left)?;
                self.visit_expr(&binary.right)
            },
            Expr::Logical(logical) => {
                self.visit_expr(&logical.left)?;
                self.visit_expr(&logical.right)
            },
            Expr::Call(call) => {
                self.visit_expr(&call.callee)?;
                self.visit_exprs(&call.arguments)
            },
            Expr::Assign(assign) => {
                self.visit_expr(&assign.value)?;
                self.resolve_local(e.id, &assign.name);
                Ok(())
            },
            Expr::Variable(variable) => {
                if self.in_own_initializer(&variable.name) {
                    return Err(refuse(ResolveErrorKind::ReadInOwnInitializer, &variable.name));
                }
                self.resolve_local(e.id, &variable.name);
                Ok(())
            },
            Expr::Get(get) => self.visit_expr(&get.object),
            Expr::SetField(set) => {
                self.visit_expr(&set.value)?;
                self.visit_expr(&set.object)
            },
            Expr::This(this) => {
                if self.current_class == ClassType::Outside {
                    return Err(refuse(ResolveErrorKind::ThisOutsideClass, &this.keyword));
                }
                self.resolve_local(e.id, &this.keyword);
                Ok(())
            },
            Expr::Super(access) => {
                if self.current_class == ClassType::Outside {
                    return Err(refuse(ResolveErrorKind::SuperOutsideClass, &access.keyword));
                }
                if self.current_class != ClassType::Subclass {
                    return Err(refuse(ResolveErrorKind::SuperWithoutSuperclass, &access.keyword));
                }
                self.resolve_local(e.id, &access.keyword);
                Ok(())
            },
        }
    }

    fn visit_exprs(&mut self, es: &Vec<Rc<HashExpr>>) -> (r: Result<(), ResolveError>)
        ensures
            outcome(r, final(self).deep_view()) == old(self).deep_view().visit_exprs(es@, 0),
        decreases es, 0nat,
    {
        let mut i: usize = 0;
        while i < es.len()
            invariant
                i <= es@.len(),
                old(self).deep_view().visit_exprs(es@, 0) == self.deep_view().visit_exprs(
                    es@,
                    i as nat,
                ),
            decreases es@.len() - i,
        {
            match self.visit_expr(&es[i]) {
                Ok(_) => {},
                Err(error) => {
                    return Err(error);
                },
            }
            i += 1;
        }
        Ok(())
    }

    fn declare_parameters(&mut self, params: &Vec<Rc<Token>>) -> (r: Result<(), ResolveError>)
        ensures
            outcome(r, final(self).deep_view()) == old(self).deep_view().declare_parameters(
                params@,
                0,
            ),
    {
        let mut i: usize = 0;
        while i < params.len()
            invariant
                i <= params@.len(),
                old(self).deep_view().declare_parameters(params@, 0)
                    == self.deep_view().declare_parameters(params@, i as nat),
            decreases params@.len() - i,
        {
            match self.declare(&params[i]) {
                Ok(_) => {},
                Err(error) => {
                    return Err(error);
                },
            }
            self.define(&params[i]);
            i += 1;
        }
        Ok(())
    }

    fn resolve_fun(&mut self, function: &FunctionStmt, kind: FunctionType) -> (r: Result<
        (),
        ResolveError,
    >)
        ensures
            outcome(r, final(self).deep_view()) == old(self).deep_view().resolve_fun(
                *function,
                kind,
            ),
        decreases function, 0nat,
    {
        let enclosing = self.current_function;
        self.current_function = kind;
        self.begin_scope();
        self.declare_parameters(&function.params)?;
        self.visit_stmts(&function.body)?;
        self.end_scope();
        self.current_function = enclosing;
        Ok(())
    }

    fn resolve_methods(&mut self, methods: &Vec<Rc<FunctionStmt>>) -> (r: Result<
        (),
        ResolveError,
    >)
        ensures
            outcome(r, final(self).deep_view()) == old(self).deep_view().resolve_methods(
                methods@,
                0,
            ),
        decreases methods, 0nat,
    {
        let init = String::from_str("init");
        let mut i: usize = 0;
        while i < methods.len()
            invariant
                i <= methods@.len(),
                init@ == "init"@,
                old(self).deep_view().resolve_methods(methods@, 0)
                    == self.deep_view().resolve_methods(methods@, i as nat),
            decreases methods@.len() - i,
        {
            let kind = if methods[i].name.lexeme == init {
                FunctionType::Initializer
            } else {
                FunctionType::Method
            };
            match self.resolve_fun(&methods[i], kind) {
                Ok(_) => {},
                Err(error) => {
                    return Err(error);
                },
            }
            i += 1;
        }
        Ok(())
    }

    fn resolve_superclass(&mut self, class: &ClassStmt) -> (r: Result<(), ResolveError>)
        ensures
            outcome(r, final(self).deep_view()) == old(self).deep_view().resolve_superclass(
                *class,
            ),
        decreases class, 0nat,
    {
        match &class.superclass {
            None => Ok(()),
            Some(superclass) => {
                match &superclass.expr {
                    Expr::Variable(variable) => {
                        if variable.name.lexeme == class.name.lexeme {
                            return Err(refuse(ResolveErrorKind::InheritsItself, &class.name));
                        }
                    },
                    _ => {},
                }
                self.current_class = ClassType::Subclass;
                self.visit_expr(superclass)?;
                self.begin_scope();
                self.put(String::from_str("super"), true);
                Ok(())
            },
        }
    }

    fn visit_class(&mut self, class: &ClassStmt) -> (r: Result<(), ResolveError>)
        ensures
            outcome(r, final(self).deep_view()) == old(self).deep_view().visit_class(*class),
        decreases class, 1nat,
    {
        let enclosing = self.current_class;
        self.current_class = ClassType::Class;
        self.declare(&class.name)?;
        self.resolve_superclass(class)?;
        self.begin_scope();
        self.put(String::from_str("this"), true);
        self.resolve_methods(&class.methods)?;
        self.end_scope();
        if class.superclass.is_some() {
            self.end_scope();
        }
        self.define(&class.name);
        self.current_class = enclosing;
        Ok(())
    }

    fn visit_stmt(&mut self, s: &Stmt) -> (r: Result<(), ResolveError>)
        ensures
            outcome(r, final(self).deep_view()) == old(self).deep_view().visit_stmt(*s),
        decreases s, 0nat,
    {
        match s {
            Stmt::Expression(statement) => self.visit_expr(&statement.expression),
            Stmt::Print(statement) => self.visit_expr(&statement.expression),
            Stmt::Var(statement) => {
                self.declare(&statement.name)?;
                match &statement.initializer {
                    Some(initializer) => {
                        self.visit_expr(initializer)?;
                    },
                    None => {},
                }
                self.define(&statement.name);
                Ok(())
            },
            Stmt::Block(block) => {
                self.begin_scope();
                self.visit_stmts(&block.statements)?;
                self.end_scope();
                Ok(())
            },
            Stmt::If(statement) => {
                self.visit_expr(&statement.condition)?;
                self.visit_stmt(&statement.then_branch)?;
                match &statement.else_branch {
                    Some(otherwise) => self.visit_stmt(otherwise),
                    None => Ok(()),
                }
            },
            Stmt::While(statement) => {
                self.visit_expr(&statement.condition)?;
                self.visit_stmt(&statement.body)
            },
            Stmt::Function(declaration) => {
                self.declare(&declaration.name)?;
                self.define(&declaration.name);
                self.resolve_fun(declaration, FunctionType::Function)
            },
            Stmt::Return(statement) => {
                if self.current_function == FunctionType::TopLevel {
                    return Err(refuse(ResolveErrorKind::ReturnFromTopLevel, &statement.keyword));
                }
                match &statement.value {
                    Some(value) => {
                        let returns_this = match &value.expr {
                            Expr::This(_) => true,
                            _ => false,
                        };
                        if self.current_function == FunctionType::Initializer && !returns_this {
                            return Err(
                                refuse(ResolveErrorKind::ReturnFromInitializer, &statement.keyword),
                            );
                        }
                        self.visit_expr(value)
                    },
                    None => Ok(()),
                }
            },
            Stmt::Class(declaration) => self.visit_class(declaration),
        }
    }

    fn visit_stmts(&mut self, ss: &Vec<Rc<Stmt>>) -> (r: Result<(), ResolveError>)
        ensures
            outcome(r, final(self).deep_view()) == old(self).deep_view().visit_stmts(ss@, 0),
        decreases ss, 0nat,
    {
        let mut i: usize = 0;
        while i < ss.len()
            invariant
                i <= ss@.len(),
                old(self).deep_view().visit_stmts(ss@, 0) == self.deep_view().visit_stmts(
                    ss@,
                    i as nat,
                ),
            decreases ss@.len() - i,
        {
            match self.visit_stmt(&ss[i]) {
                Ok(_) => {},
                Err(error) => {
                    return Err(error);
                },
            }
            i += 1;
        }
        Ok(())
    }
}

impl ResolveErrorKind {
    /// What the error says.
    pub open spec fn wording(self) -> Seq<char> {
        match self {
            ResolveErrorKind::AlreadyDeclared => {
                "Already a variable with this name in this scope."@
            },
            ResolveErrorKind::ReadInOwnInitializer => {
                "Can't read local variable in its own initializer."@
            },
            ResolveErrorKind::ReturnFromTopLevel => "Can't return from top-level code."@,
            ResolveErrorKind::ReturnFromInitializer => "Can't return a value from an initializer."@,
            ResolveErrorKind::ThisOutsideClass => "Can't use 'this' outside of a class."@,
            ResolveErrorKind::SuperOutsideClass => "Can't use 'super' outside of a class."@,
            ResolveErrorKind::SuperWithoutSuperclass => {
                "Can't use 'super' in a class with no superclass."@
            },
            ResolveErrorKind::InheritsItself => "A class can't inherit from itself."@,
        }
    }

    /// What the error says, as text.
    pub fn message(&self) -> (r: String)
        ensures
            r@ == self.wording(),
    {
        match self {
            ResolveErrorKind::AlreadyDeclared => String::from_str(
                "Already a variable with this name in this scope.",
            ),
            ResolveErrorKind::ReadInOwnInitializer => String::from_str(
                "Can't read local variable in its own initializer.",
            ),
            ResolveErrorKind::ReturnFromTopLevel => String::from_str(
                "Can't return from top-level code.",
            ),
            ResolveErrorKind::ReturnFromInitializer => String::from_str(
                "Can't return a value from an initializer.",
            ),
            ResolveErrorKind::ThisOutsideClass => String::from_str(
                "Can't use 'this' outside of a class.",
            ),
            ResolveErrorKind::SuperOutsideClass => String::from_str(
                "Can't use 'super' outside of a class.",
            ),
            ResolveErrorKind::SuperWithoutSuperclass => String::from_str(
                "Can't use 'super' in a class with no superclass.",
            ),
            ResolveErrorKind::InheritsItself => String::from_str(
                "A class can't inherit from itself.",
            ),
        }
    }
}

impl ResolveError {
    /// The error as a line of text: the line and the text of the token it
    /// was noticed at, and what it says.
    pub fn report(&self) -> (r: String)
        ensures
            r@ == reported(self.line, self.lexeme@, self.kind.wording()),
    {
        report(self.line, &self.lexeme, self.kind.message())
    }
}

} // verus!
