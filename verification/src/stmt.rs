//! Statement trees.

use vstd::prelude::*;
use std::rc::Rc;
use crate::expr::{expr_view, HashExpr, HashExprView};
use crate::token::{Token, TokenView};

verus! {

/// The kinds of statement.
#[derive(Debug, Clone)]
pub enum Stmt {
    Expression(ExpressionStmt),
    Print(PrintStmt),
    Var(VarStmt),
    Block(BlockStmt),
    If(IfStmt),
    While(WhileStmt),
    Function(Rc<FunctionStmt>),
    Return(ReturnStmt),
    Class(Rc<ClassStmt>),
}

/// `expression;`
#[derive(Debug, Clone)]
pub struct ExpressionStmt {
    pub expression: Rc<HashExpr>,
}

/// `print expression;`
#[derive(Debug, Clone)]
pub struct PrintStmt {
    pub expression: Rc<HashExpr>,
}

/// `var name;` or `var name = initializer;`
#[derive(Debug, Clone)]
pub struct VarStmt {
    pub name: Rc<Token>,
    pub initializer: Option<Rc<HashExpr>>,
}

/// `{ statements }`
#[derive(Debug, Clone)]
pub struct BlockStmt {
    pub statements: Rc<Vec<Rc<Stmt>>>,
}

/// `if (condition) then_branch` with or without `else else_branch`.
#[derive(Debug, Clone)]
pub struct IfStmt {
    pub condition: Rc<HashExpr>,
    pub then_branch: Rc<Stmt>,
    pub else_branch: Option<Rc<Stmt>>,
}

/// `while (condition) body`
#[derive(Debug, Clone)]
pub struct WhileStmt {
    pub condition: Rc<HashExpr>,
    pub body: Rc<Stmt>,
}

/// `fun name(params) { body }`, and a method of a class.
#[derive(Debug, Clone)]
pub struct FunctionStmt {
    pub name: Rc<Token>,
    pub params: Vec<Rc<Token>>,
    pub body: Rc<Vec<Rc<Stmt>>>,
}

/// `return;` or `return value;`
#[derive(Debug, Clone)]
pub struct ReturnStmt {
    pub keyword: Rc<Token>,
    pub value: Option<Rc<HashExpr>>,
}

/// `class name { methods }` or `class name < superclass { methods }`
#[derive(Debug, Clone)]
pub struct ClassStmt {
    pub name: Rc<Token>,
    pub superclass: Option<Rc<HashExpr>>,
    pub methods: Vec<Rc<FunctionStmt>>,
}

/// What a [`Stmt`] stands for.
pub enum StmtView {
    Expression { expression: HashExprView },
    Print { expression: HashExprView },
    Var { name: TokenView, initializer: Option<HashExprView> },
    Block { statements: Seq<StmtView> },
    If { condition: HashExprView, then_branch: Box<StmtView>, else_branch: Option<Box<StmtView>> },
    While { condition: HashExprView, body: Box<StmtView> },
    Function { declaration: FunctionStmtView },
    Return { keyword: TokenView, value: Option<HashExprView> },
    Class { name: TokenView, superclass: Option<HashExprView>, methods: Seq<FunctionStmtView> },
}

/// What a [`FunctionStmt`] stands for.
pub struct FunctionStmtView {
    pub name: TokenView,
    pub params: Seq<TokenView>,
    pub body: Seq<StmtView>,
}

/// The tree that an optional expression stands for.
pub open spec fn optional_expr_view(e: Option<Rc<HashExpr>>) -> Option<HashExprView> {
    match e {
        Some(e) => Some(expr_view(*e)),
        None => None,
    }
}

/// The tokens that a list of tokens stands for.
pub open spec fn tokens_view(ts: Seq<Rc<Token>>) -> Seq<TokenView> {
    Seq::new(ts.len(), |i: int| ts[i].deep_view())
}

/// The tree that a statement stands for.
pub open spec fn stmt_view(s: Stmt) -> StmtView
    decreases s,
{
    match s {
        Stmt::Expression(e) => StmtView::Expression { expression: expr_view(*e.expression) },
        Stmt::Print(p) => StmtView::Print { expression: expr_view(*p.expression) },
        Stmt::Var(v) => StmtView::Var {
            name: v.name.deep_view(),
            initializer: optional_expr_view(v.initializer),
        },
        Stmt::Block(b) => StmtView::Block {
            statements: Seq::new(
                b.statements@.len(),
                |i: int|
                    if 0 <= i < b.statements@.len() {
                        stmt_view(*b.statements@[i])
                    } else {
                        arbitrary()
                    },
            ),
        },
        Stmt::If(i) => StmtView::If {
            condition: expr_view(*i.condition),
            then_branch: Box::new(stmt_view(*i.then_branch)),
            else_branch: match i.else_branch {
                Some(e) => Some(Box::new(stmt_view(*e))),
                None => None,
            },
        },
        Stmt::While(w) => StmtView::While {
            condition: expr_view(*w.condition),
            body: Box::new(stmt_view(*w.body)),
        },
        Stmt::Function(f) => StmtView::Function { declaration: function_view(*f) },
        Stmt::Return(r) => StmtView::Return {
            keyword: r.keyword.deep_view(),
            value: optional_expr_view(r.value),
        },
        Stmt::Class(c) => StmtView::Class {
            name: c.name.deep_view(),
            superclass: optional_expr_view(c.superclass),
            methods: Seq::new(
                c.methods@.len(),
                |i: int|
                    if 0 <= i < c.methods@.len() {
                        function_view(*c.methods@[i])
                    } else {
                        arbitrary()
                    },
            ),
        },
    }
}

/// The tree that a function declaration stands for.
pub open spec fn function_view(f: FunctionStmt) -> FunctionStmtView
    decreases f,
{
    FunctionStmtView {
        name: f.name.deep_view(),
        params: tokens_view(f.params@),
        body: Seq::new(
            f.body@.len(),
            |i: int|
                if 0 <= i < f.body@.len() {
                    stmt_view(*f.body@[i])
                } else {
                    arbitrary()
                },
        ),
    }
}

/// The trees that a list of statements stands for.
pub open spec fn stmts_view(ss: Seq<Rc<Stmt>>) -> Seq<StmtView> {
    Seq::new(ss.len(), |i: int| stmt_view(*ss[i]))
}

/// The trees that a list of function declarations stands for.
pub open spec fn functions_view(fs: Seq<Rc<FunctionStmt>>) -> Seq<FunctionStmtView> {
    Seq::new(fs.len(), |i: int| function_view(*fs[i]))
}

/// What a block, a function and a class stand for, with their parts as
/// lists of trees.
pub proof fn lemma_stmt_view(s: &Stmt)
    ensures
        s matches Stmt::Block(b) ==> stmt_view(*s) == (StmtView::Block {
            statements: stmts_view(b.statements@),
        }),
        s matches Stmt::Class(c) ==> stmt_view(*s) == (StmtView::Class {
            name: c.name.deep_view(),
            superclass: optional_expr_view(c.superclass),
            methods: functions_view(c.methods@),
        }),
{
    match *s {
        Stmt::Block(b) => {
            assert(stmt_view(*s)->Block_statements =~= stmts_view(b.statements@));
        },
        Stmt::Class(c) => {
            assert(stmt_view(*s)->Class_methods =~= functions_view(c.methods@));
        },
        _ => {},
    }
}

/// What a function stands for, with its parts as lists of trees.
pub proof fn lemma_function_view(f: &FunctionStmt)
    ensures
        function_view(*f) == (FunctionStmtView {
            name: f.name.deep_view(),
            params: tokens_view(f.params@),
            body: stmts_view(f.body@),
        }),
{
    assert(function_view(*f).body =~= stmts_view(f.body@));
}

/// The trees of lists that have grown by one.
pub proof fn lemma_stmts_view_push(ss: Seq<Rc<Stmt>>, s: Rc<Stmt>)
    ensures
        stmts_view(ss.push(s)) == stmts_view(ss).push(stmt_view(*s)),
{
    assert(stmts_view(ss.push(s)) =~= stmts_view(ss).push(stmt_view(*s)));
}

/// The trees of no statements.
pub proof fn lemma_stmts_view_empty()
    ensures
        stmts_view(Seq::<Rc<Stmt>>::empty()) == Seq::<StmtView>::empty(),
{
    assert(stmts_view(Seq::<Rc<Stmt>>::empty()) =~= Seq::<StmtView>::empty());
}

/// The trees of a list of functions that has grown by one.
pub proof fn lemma_functions_view_push(fs: Seq<Rc<FunctionStmt>>, f: Rc<FunctionStmt>)
    ensures
        functions_view(fs.push(f)) == functions_view(fs).push(function_view(*f)),
{
    assert(functions_view(fs.push(f)) =~= functions_view(fs).push(function_view(*f)));
}

/// The trees of no functions.
pub proof fn lemma_functions_view_empty()
    ensures
        functions_view(Seq::<Rc<FunctionStmt>>::empty()) == Seq::<FunctionStmtView>::empty(),
{
    assert(functions_view(Seq::<Rc<FunctionStmt>>::empty()) =~= Seq::<FunctionStmtView>::empty());
}

/// The tokens of a list that has grown by one.
pub proof fn lemma_tokens_view_push(ts: Seq<Rc<Token>>, t: Rc<Token>)
    ensures
        tokens_view(ts.push(t)) == tokens_view(ts).push(t.deep_view()),
{
    assert(tokens_view(ts.push(t)) =~= tokens_view(ts).push(t.deep_view()));
}

/// The tokens of an empty list.
pub proof fn lemma_tokens_view_empty()
    ensures
        tokens_view(Seq::<Rc<Token>>::empty()) == Seq::<TokenView>::empty(),
{
    assert(tokens_view(Seq::<Rc<Token>>::empty()) =~= Seq::<TokenView>::empty());
}

impl DeepView for Stmt {
    type V = StmtView;

    open spec fn deep_view(&self) -> StmtView {
        stmt_view(*self)
    }
}

impl DeepView for FunctionStmt {
    type V = FunctionStmtView;

    open spec fn deep_view(&self) -> FunctionStmtView {
        function_view(*self)
    }
}

impl ExpressionStmt {
    pub fn new(expression: Rc<HashExpr>) -> (r: ExpressionStmt)
        ensures
            r.expression == expression,
    {
        ExpressionStmt { expression }
    }
}

impl PrintStmt {
    pub fn new(expression: Rc<HashExpr>) -> (r: PrintStmt)
        ensures
            r.expression == expression,
    {
        PrintStmt { expression }
    }
}

impl VarStmt {
    pub fn new(name: Rc<Token>, initializer: Option<Rc<HashExpr>>) -> (r: VarStmt)
        ensures
            r.name == name,
            r.initializer == initializer,
    {
        VarStmt { name, initializer }
    }
}

impl BlockStmt {
    pub fn new(statements: Vec<Rc<Stmt>>) -> (r: BlockStmt)
        ensures
            *r.statements == statements,
    {
        BlockStmt { statements: Rc::new(statements) }
    }
}

impl IfStmt {
    pub fn new(condition: Rc<HashExpr>, then_branch: Rc<Stmt>, else_branch: Option<Rc<Stmt>>) -> (r:
        IfStmt)
        ensures
            r.condition == condition,
            r.then_branch == then_branch,
            r.else_branch == else_branch,
    {
        IfStmt { condition, then_branch, else_branch }
    }
}

impl WhileStmt {
    pub fn new(condition: Rc<HashExpr>, body: Rc<Stmt>) -> (r: WhileStmt)
        ensures
            r.condition == condition,
            r.body == body,
    {
        WhileStmt { condition, body }
    }
}

impl FunctionStmt {
    pub fn new(name: Rc<Token>, params: Vec<Rc<Token>>, body: Vec<Rc<Stmt>>) -> (r: FunctionStmt)
        ensures
            r.name == name,
            r.params == params,
            *r.body == body,
    {
        FunctionStmt { name, params, body: Rc::new(body) }
    }
}

impl ReturnStmt {
    pub fn new(keyword: Rc<Token>, value: Option<Rc<HashExpr>>) -> (r: ReturnStmt)
        ensures
            r.keyword == keyword,
            r.value == value,
    {
        ReturnStmt { keyword, value }
    }
}

impl ClassStmt {
    pub fn new(
        name: Rc<Token>,
        superclass: Option<Rc<HashExpr>>,
        methods: Vec<Rc<FunctionStmt>>,
    ) -> (r: ClassStmt)
        ensures
            r.name == name,
            r.superclass == superclass,
            r.methods == methods,
    {
        ClassStmt { name, superclass, methods }
    }
}

} // verus!
